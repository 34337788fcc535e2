//! NPC memory: short one-line summaries of what an NPC lived through, scored by
//! importance and recency so that only the most relevant reach a prompt.

use vstd::prelude::*;
use vstd::string::*;
use crate::sorting::{sort_by, sorted_by, sort_owned, lemma_sort_by_map, lemma_sort_by_len};
use crate::text::{chars_of, trim_chars, trim, shorten, shortened, can_shorten, push_chars};

verus! {

broadcast use vstd::seq_lib::group_seq_properties;

/// Most entries a memory keeps; beyond it the least important, oldest go.
pub const MAX_ENTRIES: usize = 100;

/// A single memory entry from an NPC's perspective.
#[derive(Debug)]
pub struct MemoryEntry {
    /// Short one-line summary from the NPC's perspective.
    pub text: String,
    /// Importance score 1-10. Higher = more likely to be included in prompts.
    pub importance: u8,
    /// Game time when this memory was created, as an order key: the bit pattern
    /// of the (non-negative) game time in seconds, which orders as the time does.
    pub timestamp: u64,
    /// Related entity name, if any (e.g. "the wanderer", "Sir Roland").
    pub related_entity: Option<String>,
}

/// Persistent memory storage for a single NPC.
#[derive(Debug)]
pub struct NpcMemory {
    /// All recorded memories.
    pub entries: Vec<MemoryEntry>,
}

/// `a` may stay in front of `b` when ordering least important, then oldest, first.
pub open spec fn less_important_or_older(a: MemoryEntry, b: MemoryEntry) -> bool {
    a.importance < b.importance || (a.importance == b.importance && a.timestamp <= b.timestamp)
}

/// `a` may stay in front of `b` when ordering oldest first.
pub open spec fn not_newer(a: MemoryEntry, b: MemoryEntry) -> bool {
    a.timestamp <= b.timestamp
}

/// `a` may stay in front of `b` when ordering most important, then newest, first.
pub open spec fn at_least_as_relevant(a: MemoryEntry, b: MemoryEntry) -> bool {
    a.importance > b.importance || (a.importance == b.importance && a.timestamp >= b.timestamp)
}

/// The entries behind a list of references.
pub open spec fn entries_of(refs: Seq<&MemoryEntry>) -> Seq<MemoryEntry> {
    refs.map_values(|e: &MemoryEntry| *e)
}

/// An importance brought into 1..=10.
pub open spec fn clamp_importance(i: u8) -> u8 {
    if i < 1 {
        1
    } else if i > 10 {
        10
    } else {
        i
    }
}

/// The entries after recording `e`: when over capacity, the least important,
/// oldest entries go, and the rest are put in chronological order.
pub open spec fn recorded(entries: Seq<MemoryEntry>, e: MemoryEntry) -> Seq<MemoryEntry> {
    let s = entries.push(e);
    if s.len() > MAX_ENTRIES {
        let by_importance = sort_by(s, |a: MemoryEntry, b: MemoryEntry| less_important_or_older(a, b));
        sort_by(
            by_importance.skip(s.len() - MAX_ENTRIES),
            |a: MemoryEntry, b: MemoryEntry| not_newer(a, b),
        )
    } else {
        s
    }
}

/// The at most `limit` most relevant entries: most important first, newest first among equals.
pub open spec fn top_entries(entries: Seq<MemoryEntry>, limit: nat) -> Seq<MemoryEntry> {
    let sorted = sort_by(entries, |a: MemoryEntry, b: MemoryEntry| at_least_as_relevant(a, b));
    if limit < sorted.len() {
        sorted.take(limit as int)
    } else {
        sorted
    }
}

/// The memory section of a prompt: a `[MEMORY]` line and one `- text` line per entry.
pub open spec fn memory_section(entries: Seq<MemoryEntry>) -> Seq<char>
    decreases entries.len(),
{
    if entries.len() == 0 {
        "[MEMORY]"@
    } else {
        memory_section(entries.drop_last()) + "\n- "@ + entries.last().text@
    }
}

fn clamp_importance_exec(i: u8) -> (r: u8)
    ensures
        r == clamp_importance(i),
{
    if i < 1 {
        1
    } else if i > 10 {
        10
    } else {
        i
    }
}

impl NpcMemory {
    /// A memory with no entries.
    pub fn new() -> (m: NpcMemory)
        ensures
            m.entries@ == Seq::<MemoryEntry>::empty(),
    {
        NpcMemory { entries: Vec::new() }
    }

    /// Add a new memory, pruning if over capacity.
    pub fn record(&mut self, text: String, importance: u8, timestamp: u64, related_entity: Option<String>)
        ensures
            final(self).entries@ == recorded(
                old(self).entries@,
                MemoryEntry { text, importance: clamp_importance(importance), timestamp, related_entity },
            ),
    {
        let entry = MemoryEntry { text, importance: clamp_importance_exec(importance), timestamp, related_entity };
        self.entries.push(entry);
        if self.entries.len() > MAX_ENTRIES {
            let mut all: Vec<MemoryEntry> = Vec::new();
            std::mem::swap(&mut all, &mut self.entries);
            let ghost all_before = all@;
            let le_importance = |a: &MemoryEntry, b: &MemoryEntry| -> (r: bool)
                ensures
                    r == less_important_or_older(*a, *b),
                { a.importance < b.importance || (a.importance == b.importance && a.timestamp <= b.timestamp) };
            let by_importance = sort_owned(
                all,
                &le_importance,
                Ghost(|a: MemoryEntry, b: MemoryEntry| less_important_or_older(a, b)),
            );
            let mut by_importance = by_importance;
            proof {
                lemma_sort_by_len(all_before, |a: MemoryEntry, b: MemoryEntry| less_important_or_older(a, b));
            }
            let remove_count = by_importance.len() - MAX_ENTRIES;
            let kept = by_importance.split_off(remove_count);
            let le_time = |a: &MemoryEntry, b: &MemoryEntry| -> (r: bool)
                ensures
                    r == not_newer(*a, *b),
                { a.timestamp <= b.timestamp };
            self.entries = sort_owned(
                kept,
                &le_time,
                Ghost(|a: MemoryEntry, b: MemoryEntry| not_newer(a, b)),
            );
        }
    }

    /// The most relevant memories for a prompt: most important first, then most
    /// recent first; at most `limit` of them.
    pub fn top_memories(&self, limit: usize) -> (r: Vec<&MemoryEntry>)
        ensures
            entries_of(r@) == top_entries(self.entries@, limit as nat),
    {
        let mut refs: Vec<&MemoryEntry> = Vec::new();
        let mut i: usize = 0;
        while i < self.entries.len()
            invariant
                i <= self.entries.len(),
                refs.len() == i,
                entries_of(refs@) == self.entries@.take(i as int),
            decreases self.entries.len() - i,
        {
            let e = &self.entries[i];
            assert(*e == self.entries@[i as int]);
            let ghost before = refs@;
            refs.push(e);
            assert(refs@ == before.push(e));
            assert forall|j: int| 0 <= j < i + 1 implies #[trigger] entries_of(refs@)[j] == self.entries@.take(i + 1)[j] by {
                if j < i {
                    assert(entries_of(before)[j] == self.entries@.take(i as int)[j]);
                }
            }
            assert(entries_of(refs@) =~= self.entries@.take(i + 1));
            i += 1;
        }
        assert(self.entries@.take(self.entries.len() as int) =~= self.entries@);
        let ghost le_ref = |a: &MemoryEntry, b: &MemoryEntry| at_least_as_relevant(*a, *b);
        let le_relevance = |a: &&MemoryEntry, b: &&MemoryEntry| -> (r: bool)
            ensures
                r == at_least_as_relevant(**a, **b),
            { a.importance > b.importance || (a.importance == b.importance && a.timestamp >= b.timestamp) };
        let mut sorted = sorted_by(refs.as_slice(), &le_relevance, Ghost(le_ref));
        proof {
            lemma_sort_by_map(
                refs@,
                |e: &MemoryEntry| *e,
                le_ref,
                |a: MemoryEntry, b: MemoryEntry| at_least_as_relevant(a, b),
            );
        }
        let ghost full = sorted@;
        sorted.truncate(limit);
        assert(entries_of(sorted@) =~= top_entries(self.entries@, limit as nat));
        sorted
    }

    /// The top memories as a prompt section; empty when there are none.
    pub fn format_for_prompt(&self, limit: usize) -> (r: String)
        ensures
            ({
                let top = top_entries(self.entries@, limit as nat);
                r@ == if top.len() == 0 { Seq::<char>::empty() } else { memory_section(top) }
            }),
    {
        let top = self.top_memories(limit);
        let ghost topv = entries_of(top@);
        if top.len() == 0 {
            return String::new();
        }
        let mut text = String::from_str("[MEMORY]");
        let mut i: usize = 0;
        while i < top.len()
            invariant
                i <= top.len(),
                topv == entries_of(top@),
                text@ == memory_section(topv.take(i as int)),
            decreases top.len() - i,
        {
            assert(topv.take(i + 1).drop_last() =~= topv.take(i as int));
            text.append("\n- ");
            text.append(top[i].text.as_str());
            i += 1;
        }
        assert(topv.take(top.len() as int) =~= topv);
        text
    }
}

} // verus!

verus! {

/// What an NPC remembers of something the player said.
pub open spec fn player_speech_summary(player_text: Seq<char>) -> Seq<char> {
    "The wanderer said: \""@ + shortened(trim(player_text), 60, 57) + "\""@
}

/// What an NPC remembers of a line it spoke itself.
pub open spec fn own_speech_summary(text: Seq<char>) -> Seq<char> {
    "I said: \""@ + shortened(text, 50, 47) + "\""@
}

/// Create a short NPC-perspective summary of what the player said.
pub fn summarize_player_speech(player_text: &str) -> (r: String)
    requires
        can_shorten(trim(player_text@), 60, 57),
    ensures
        r@ == player_speech_summary(player_text@),
{
    let chars = chars_of(player_text);
    let trimmed = trim_chars(chars.as_slice());
    let short = shorten(trimmed.as_slice(), 60, 57);
    let mut r = String::from_str("The wanderer said: \"");
    push_chars(&mut r, short.as_slice());
    r.append("\"");
    r
}

/// Record that an NPC spoke a line (for their own memory of what they said).
pub fn record_npc_spoke(memory: &mut NpcMemory, npc_name: &str, text: &str, game_time: u64)
    requires
        can_shorten(text@, 50, 47),
    ensures
        exists|summary: String, name: String|
            summary@ == own_speech_summary(text@) && name@ == npc_name@ && #[trigger] final(memory).entries@ == recorded(
                old(memory).entries@,
                MemoryEntry { text: summary, importance: 3, timestamp: game_time, related_entity: Some(name) },
            ),
{
    let chars = chars_of(text);
    let short = shorten(chars.as_slice(), 50, 47);
    let mut summary = String::from_str("I said: \"");
    push_chars(&mut summary, short.as_slice());
    summary.append("\"");
    let name = String::from_str(npc_name);
    let ghost s0 = summary;
    let ghost n0 = name;
    memory.record(summary, 3, game_time, Some(name));
    assert(memory.entries@ == recorded(
        old(memory).entries@,
        MemoryEntry { text: s0, importance: 3, timestamp: game_time, related_entity: Some(n0) },
    ));
}

/// Record that an NPC performed an action.
pub fn record_npc_action(memory: &mut NpcMemory, action_desc: &str, game_time: u64)
    ensures
        exists|desc: String|
            desc@ == action_desc@ && #[trigger] final(memory).entries@ == recorded(
                old(memory).entries@,
                MemoryEntry { text: desc, importance: 4, timestamp: game_time, related_entity: None },
            ),
{
    let desc = String::from_str(action_desc);
    let ghost d0 = desc;
    memory.record(desc, 4, game_time, None);
    assert(memory.entries@ == recorded(
        old(memory).entries@,
        MemoryEntry { text: d0, importance: 4, timestamp: game_time, related_entity: None },
    ));
}

/// Record that an NPC observed something about another entity.
pub fn record_npc_observation(memory: &mut NpcMemory, observation: &str, game_time: u64, related: Option<String>)
    ensures
        exists|obs: String|
            obs@ == observation@ && #[trigger] final(memory).entries@ == recorded(
                old(memory).entries@,
                MemoryEntry { text: obs, importance: 5, timestamp: game_time, related_entity: related },
            ),
{
    let obs = String::from_str(observation);
    let ghost o0 = obs;
    memory.record(obs, 5, game_time, related);
    assert(memory.entries@ == recorded(
        old(memory).entries@,
        MemoryEntry { text: o0, importance: 5, timestamp: game_time, related_entity: related },
    ));
}

} // verus!

verus! {

/// Recorded importances always lie in 1..=10.
pub proof fn lemma_importance_in_range(i: u8)
    ensures
        1 <= clamp_importance(i) <= 10,
{
}

/// A memory never holds more than `MAX_ENTRIES` entries: recording into one
/// that is within capacity adds the entry while there is room, and keeps
/// exactly `MAX_ENTRIES` entries once full.
pub proof fn lemma_record_keeps_capacity(entries: Seq<MemoryEntry>, e: MemoryEntry)
    requires
        entries.len() <= MAX_ENTRIES,
    ensures
        entries.len() < MAX_ENTRIES ==> recorded(entries, e) == entries.push(e),
        recorded(entries, e).len() == if entries.len() < MAX_ENTRIES { entries.len() + 1 } else { MAX_ENTRIES as nat },
{
    let s = entries.push(e);
    if s.len() > MAX_ENTRIES {
        let le1 = |a: MemoryEntry, b: MemoryEntry| less_important_or_older(a, b);
        let le2 = |a: MemoryEntry, b: MemoryEntry| not_newer(a, b);
        lemma_sort_by_len(s, le1);
        let by_importance = sort_by(s, le1);
        lemma_sort_by_len(by_importance.skip(s.len() - MAX_ENTRIES), le2);
    }
}

/// At most `limit` memories reach a prompt, and fewer only when the memory
/// holds fewer.
pub proof fn lemma_top_entries_len(entries: Seq<MemoryEntry>, limit: nat)
    ensures
        top_entries(entries, limit).len() == if limit < entries.len() { limit } else { entries.len() },
{
    lemma_sort_by_len(entries, |a: MemoryEntry, b: MemoryEntry| at_least_as_relevant(a, b));
}

} // verus!

verus! {

/// Record that the player said something to an NPC: a quoted summary,
/// importance 6, about "the wanderer".
pub fn record_player_speech(memory: &mut NpcMemory, player_text: &str, game_time: u64)
    requires
        can_shorten(trim(player_text@), 60, 57),
    ensures
        exists|summary: String, about: String|
            summary@ == player_speech_summary(player_text@) && about@ == "the wanderer"@ && #[trigger] final(memory).entries@
                == recorded(
                old(memory).entries@,
                MemoryEntry { text: summary, importance: 6, timestamp: game_time, related_entity: Some(about) },
            ),
{
    let summary = summarize_player_speech(player_text);
    let about = "the wanderer".to_owned();
    let ghost s0 = summary;
    let ghost a0 = about;
    memory.record(summary, 6, game_time, Some(about));
    assert(memory.entries@ == recorded(
        old(memory).entries@,
        MemoryEntry { text: s0, importance: 6, timestamp: game_time, related_entity: Some(a0) },
    ));
}

/// Whether the player's words can be summarized (the cut at 57 bytes lands on
/// a character boundary, or the trimmed words fit in 60 bytes).
pub fn player_speech_summarizable(player_text: &str) -> (r: bool)
    ensures
        r == can_shorten(trim(player_text@), 60, 57),
{
    let chars = chars_of(player_text);
    let trimmed = trim_chars(chars.as_slice());
    crate::text::can_shorten_chars(trimmed.as_slice(), 60, 57)
}

/// Whether an NPC's line can be summarized.
pub fn npc_speech_summarizable(text: &str) -> (r: bool)
    ensures
        r == can_shorten(text@, 50, 47),
{
    let chars = chars_of(text);
    crate::text::can_shorten_chars(chars.as_slice(), 50, 47)
}

/// The path of the file that holds an NPC's memories: `<id>_memory.json` in the
/// saves directory (an absolute name replaces the directory, as path joining does).
pub open spec fn memory_file_name(npc_id: Seq<char>) -> Seq<char> {
    if npc_id.len() > 0 && npc_id[0] == '/' {
        npc_id + "_memory.json"@
    } else {
        "saves/"@ + npc_id + "_memory.json"@
    }
}

/// The path of an NPC's memory file.
pub fn memory_file_path(npc_id: &str) -> (r: String)
    ensures
        r@ == memory_file_name(npc_id@),
{
    let id = chars_of(npc_id);
    let mut v = if id.len() > 0 && id[0] == '/' { Vec::new() } else { chars_of("saves/") };
    assert(id.len() > 0 && id[0] == '/' ==> v@ =~= Seq::<char>::empty());
    crate::text::extend_chars(&mut v, id.as_slice());
    crate::text::extend_chars(&mut v, chars_of("_memory.json").as_slice());
    crate::text::string_of(v.as_slice())
}

} // verus!

verus! {

/// The memories that reach a prompt come most important first, and newest
/// first among equally important ones.
pub proof fn lemma_top_entries_most_relevant_first(entries: Seq<MemoryEntry>, limit: nat)
    ensures
        forall|i: int, j: int|
            0 <= i < j < top_entries(entries, limit).len() ==> at_least_as_relevant(
                #[trigger] top_entries(entries, limit)[i],
                #[trigger] top_entries(entries, limit)[j],
            ),
{
    let le = |a: MemoryEntry, b: MemoryEntry| at_least_as_relevant(a, b);
    assert(crate::sorting::total_preorder(le));
    crate::sorting::lemma_sort_by_sorted(entries, le);
    let sorted = sort_by(entries, le);
    let top = top_entries(entries, limit);
    assert forall|i: int, j: int| 0 <= i < j < top.len() implies at_least_as_relevant(#[trigger] top[i], #[trigger] top[j]) by {
        assert(top[i] == sorted[i] && top[j] == sorted[j]);
        assert(le(sorted[i], sorted[j]));
    }
}

/// When recording goes over capacity, the memories that go are the least
/// important, the oldest first among equals: each one dropped is less
/// important than, or as important as and no newer than, each one kept.
pub proof fn lemma_pruning_drops_least_relevant(entries: Seq<MemoryEntry>, e: MemoryEntry, dropped: int)
    requires
        entries.len() + 1 > MAX_ENTRIES,
        0 <= dropped < entries.len() + 1 - MAX_ENTRIES,
    ensures
        forall|k: int|
            0 <= k < recorded(entries, e).len() ==> less_important_or_older(
                sort_by(entries.push(e), |a: MemoryEntry, b: MemoryEntry| less_important_or_older(a, b))[dropped],
                #[trigger] recorded(entries, e)[k],
            ),
{
    let le1 = |a: MemoryEntry, b: MemoryEntry| less_important_or_older(a, b);
    let le2 = |a: MemoryEntry, b: MemoryEntry| not_newer(a, b);
    let s = entries.push(e);
    let n = s.len() - MAX_ENTRIES;
    let by_importance = sort_by(s, le1);
    lemma_sort_by_len(s, le1);
    assert(crate::sorting::total_preorder(le1));
    crate::sorting::lemma_sort_by_sorted(s, le1);
    let kept = by_importance.skip(n);
    crate::sorting::lemma_sort_by_elements(kept, le2);
    let r = recorded(entries, e);
    assert forall|k: int| 0 <= k < r.len() implies less_important_or_older(by_importance[dropped], #[trigger] r[k]) by {
        let w = choose|w: int| 0 <= w < kept.len() && kept[w] == r[k];
        assert(kept[w] == by_importance[w + n]);
        assert(le1(by_importance[dropped], by_importance[w + n]));
    }
}

/// When recording goes over capacity, the memories kept are in chronological
/// order (oldest first).
pub proof fn lemma_pruned_memories_chronological(entries: Seq<MemoryEntry>, e: MemoryEntry)
    requires
        entries.len() + 1 > MAX_ENTRIES,
    ensures
        forall|i: int, j: int|
            0 <= i < j < recorded(entries, e).len() ==> (#[trigger] recorded(entries, e)[i]).timestamp
                <= (#[trigger] recorded(entries, e)[j]).timestamp,
{
    let le1 = |a: MemoryEntry, b: MemoryEntry| less_important_or_older(a, b);
    let le2 = |a: MemoryEntry, b: MemoryEntry| not_newer(a, b);
    let s = entries.push(e);
    let kept = sort_by(s, le1).skip(s.len() - MAX_ENTRIES);
    assert(crate::sorting::total_preorder(le2));
    crate::sorting::lemma_sort_by_sorted(kept, le2);
    let r = recorded(entries, e);
    assert forall|i: int, j: int| 0 <= i < j < r.len() implies (#[trigger] r[i]).timestamp <= (#[trigger] r[j]).timestamp by {
        assert(le2(r[i], r[j]));
    }
}

/// Recording into a full memory keeps it full: the new entry goes in and
/// exactly one entry goes out (counted with repeats), one that is least
/// important, and oldest among the least important; what stays is in
/// chronological order.
pub proof fn lemma_record_when_full(entries: Seq<MemoryEntry>, e: MemoryEntry)
    requires
        entries.len() == MAX_ENTRIES,
    ensures
        recorded(entries, e).len() == MAX_ENTRIES,
        exists|d: MemoryEntry|
            #[trigger] entries.push(e).contains(d) && (forall|x: MemoryEntry|
                entries.push(e).contains(x) ==> less_important_or_older(d, x))
                && recorded(entries, e).to_multiset() == entries.push(e).to_multiset().remove(d),
        forall|i: int, j: int|
            0 <= i < j < recorded(entries, e).len() ==> (#[trigger] recorded(entries, e)[i]).timestamp
                <= (#[trigger] recorded(entries, e)[j]).timestamp,
{
    broadcast use vstd::seq_lib::group_to_multiset_ensures;

    lemma_record_keeps_capacity(entries, e);
    lemma_pruned_memories_chronological(entries, e);
    let le1 = |a: MemoryEntry, b: MemoryEntry| less_important_or_older(a, b);
    let le2 = |a: MemoryEntry, b: MemoryEntry| not_newer(a, b);
    let s = entries.push(e);
    let by_importance = sort_by(s, le1);
    lemma_sort_by_len(s, le1);
    crate::sorting::lemma_sort_by_multiset(s, le1);
    assert(crate::sorting::total_preorder(le1));
    crate::sorting::lemma_sort_by_sorted(s, le1);
    let kept = by_importance.skip(1);
    assert(s.len() - MAX_ENTRIES == 1);
    crate::sorting::lemma_sort_by_multiset(kept, le2);
    let d = by_importance[0];
    assert(kept =~= by_importance.remove(0));
    assert(kept.to_multiset() == by_importance.to_multiset().remove(d));
    let r = recorded(entries, e);
    assert(r == sort_by(kept, le2));
    assert(r.to_multiset() == s.to_multiset().remove(d));
    assert(by_importance.to_multiset().count(d) > 0);
    assert(s.contains(d));
    assert forall|x: MemoryEntry| s.contains(x) implies less_important_or_older(d, x) by {
        assert(by_importance.to_multiset().count(x) > 0);
        let w = choose|w: int| 0 <= w < by_importance.len() && by_importance[w] == x;
        if w > 0 {
            assert(le1(by_importance[0], by_importance[w]));
        }
    }
}

} // verus!
