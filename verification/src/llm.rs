//! The text protocol spoken with the local language model: the prompts the
//! game builds, and how it reads the model's answers.

use vstd::prelude::*;
use vstd::string::*;
use crate::json::{JsonValue, str_member, parsed_json, parse_json};
use crate::inventory::first_index;
use crate::collections::ids;
use crate::text::{replace_char, replace_char_chars, join, join_chars, join_strings, lemma_char_seqs_push, extend_chars};
use crate::text::{occurs_at, trim_start, trim_start_chars, contains_seq, find_seq, rfind_seq, find_chars, rfind_chars, contains_chars, lowercase, to_lowercase};
use crate::text::{find_char, slice_chars, string_of, chars_of, starts_with, starts_with_chars, trim, trim_chars, trim_matches, trim_matches_chars, lines, split_lines, char_seqs, replace_all, replace_chars};

verus! {

/// Personality data sent with every LLM request so the prompt can be built.
#[derive(Debug)]
pub struct NpcContext {
    pub name: String,
    pub role: String,
    pub traits: Vec<String>,
    pub backstory: String,
    pub speech_style: String,
    pub knowledge: Vec<String>,
    pub goals: Vec<String>,
    pub likes: Vec<String>,
    pub dislikes: Vec<String>,
    pub inventory: Vec<String>,
    pub memories: String,
}

/// A single exchange in the conversation history.
#[derive(Debug)]
pub struct ChatEntry {
    /// "user" or "assistant"
    pub role: String,
    pub text: String,
}

/// Request the LLM to generate an NPC response to something the player said.
#[derive(Debug)]
pub struct DialogueRequest {
    pub npc: NpcContext,
    pub player_text: String,
    pub history: Vec<ChatEntry>,
    pub npc_entity: u64,
}

/// The generated dialogue response.
#[derive(Debug)]
pub struct DialogueResponse {
    pub text: String,
    pub npc_entity: u64,
}

/// Describes what an NPC can see around it so the LLM can decide.
#[derive(Debug)]
pub struct SurroundingsInfo {
    pub nearby_entities: Vec<NearbyEntity>,
    /// Whether the player is within speaking distance (closer than 8 units).
    pub player_nearby: bool,
}

#[derive(Debug)]
pub struct NearbyEntity {
    pub name: String,
    pub entity_type: String,
    pub entity: u64,
}

/// Request the LLM to choose an action for an NPC.
#[derive(Debug)]
pub struct DecisionRequest {
    pub npc: NpcContext,
    pub surroundings: SurroundingsInfo,
    pub npc_entity: u64,
}

/// The LLM's chosen action for an NPC.
#[derive(Debug)]
pub struct DecisionResponse {
    pub action: LlmAction,
    pub npc_entity: u64,
}

#[derive(Debug)]
pub enum LlmAction {
    Idle,
    Speak(String),
    SpeakTo { target_name: String, text: String },
    MoveTo { target_name: String },
    Give { target_name: String, item_id: String, text: String },
}

} // verus!

verus! {

broadcast use vstd::seq_lib::group_seq_properties;

/// The content of an action chosen by the model.
pub enum LlmActionView {
    Idle,
    Speak(Seq<char>),
    SpeakTo { target_name: Seq<char>, text: Seq<char> },
    MoveTo { target_name: Seq<char> },
    Give { target_name: Seq<char>, item_id: Seq<char>, text: Seq<char> },
}

impl View for LlmAction {
    type V = LlmActionView;

    open spec fn view(&self) -> LlmActionView {
        match self {
            LlmAction::Idle => LlmActionView::Idle,
            LlmAction::Speak(t) => LlmActionView::Speak(t@),
            LlmAction::SpeakTo { target_name, text } => LlmActionView::SpeakTo { target_name: target_name@, text: text@ },
            LlmAction::MoveTo { target_name } => LlmActionView::MoveTo { target_name: target_name@ },
            LlmAction::Give { target_name, item_id, text } => LlmActionView::Give {
                target_name: target_name@,
                item_id: item_id@,
                text: text@,
            },
        }
    }
}

/// The string member `key` of a JSON object, or the empty text.
pub open spec fn member_or_empty(v: JsonValue, key: Seq<char>) -> Seq<char> {
    match str_member(v, key) {
        Some(s) => s@,
        None => Seq::empty(),
    }
}

/// The action a JSON decision object describes. Missing or unusable fields make
/// the NPC idle; `speak` with a target speaks to it.
pub open spec fn action_of_value(v: JsonValue) -> LlmActionView {
    let action = match str_member(v, "action"@) {
        Some(s) => s@,
        None => "idle"@,
    };
    let target = member_or_empty(v, "target"@);
    let text = member_or_empty(v, "text"@);
    let item = member_or_empty(v, "item"@);
    if action == "speak"@ && text.len() > 0 {
        if target.len() > 0 {
            LlmActionView::SpeakTo { target_name: target, text }
        } else {
            LlmActionView::Speak(text)
        }
    } else if action == "speak_to"@ && text.len() > 0 && target.len() > 0 {
        LlmActionView::SpeakTo { target_name: target, text }
    } else if action == "move_to"@ && target.len() > 0 {
        LlmActionView::MoveTo { target_name: target }
    } else if action == "give"@ && target.len() > 0 && item.len() > 0 {
        LlmActionView::Give { target_name: target, item_id: item, text }
    } else {
        LlmActionView::Idle
    }
}

fn member_string(v: &JsonValue, key: &str) -> (r: String)
    ensures
        r@ == member_or_empty(*v, key@),
{
    match v.get_str(key) {
        Some(s) => s.clone(),
        None => String::new(),
    }
}

/// The action a JSON decision object describes.
pub fn value_to_action(val: &JsonValue) -> (r: LlmAction)
    ensures
        r@ == action_of_value(*val),
{
    let action = match val.get_str("action") {
        Some(s) => s.clone(),
        None => String::from_str("idle"),
    };
    let target = member_string(val, "target");
    let text = member_string(val, "text");
    let item = member_string(val, "item");
    let a = action.as_str();
    if a.eq("speak") && !text.as_str().is_empty() {
        if !target.as_str().is_empty() {
            LlmAction::SpeakTo { target_name: target, text }
        } else {
            LlmAction::Speak(text)
        }
    } else if a.eq("speak_to") && !text.as_str().is_empty() && !target.as_str().is_empty() {
        LlmAction::SpeakTo { target_name: target, text }
    } else if a.eq("move_to") && !target.as_str().is_empty() {
        LlmAction::MoveTo { target_name: target }
    } else if a.eq("give") && !target.as_str().is_empty() && !item.as_str().is_empty() {
        LlmAction::Give { target_name: target, item_id: item, text }
    } else {
        LlmAction::Idle
    }
}

/// Opening minus closing braces in `s`.
pub open spec fn brace_depth(s: Seq<char>) -> int
    decreases s.len(),
{
    if s.len() == 0 {
        0
    } else {
        brace_depth(s.drop_last()) + if s.last() == '{' {
            1int
        } else if s.last() == '}' {
            -1int
        } else {
            0int
        }
    }
}

/// `e` closes the braces opened from `start` on: the first index from which the
/// braces of `s[start..=e]` balance.
pub open spec fn closes_at(s: Seq<char>, start: int, e: int) -> bool {
    &&& start <= e < s.len()
    &&& brace_depth(s.subrange(start, e + 1)) == 0
    &&& forall|k: int| start <= k < e ==> brace_depth(#[trigger] s.subrange(start, k + 1)) != 0
}

/// The first balanced `{...}` block of `s`: from the first `{` to the brace that
/// closes it, if it closes.
pub open spec fn json_block(s: Seq<char>) -> Option<Seq<char>> {
    if s.contains('{') {
        let start = first_index(s, '{');
        if exists|e: int| closes_at(s, start, e) {
            let e = choose|e: int| closes_at(s, start, e);
            Some(s.subrange(start, e + 1))
        } else {
            None
        }
    } else {
        None
    }
}

/// The action of the first balanced JSON object in the text, if it parses.
#[verifier::opaque]
pub open spec fn json_action(s: Seq<char>) -> Option<LlmActionView> {
    match json_block(s) {
        Some(b) => match parsed_json(b) {
            Some(v) => Some(action_of_value(v)),
            None => None,
        },
        None => None,
    }
}

proof fn lemma_closes_at_unique(s: Seq<char>, start: int, e1: int, e2: int)
    requires
        closes_at(s, start, e1),
        closes_at(s, start, e2),
    ensures
        e1 == e2,
{
    if e1 < e2 {
        assert(brace_depth(s.subrange(start, e1 + 1)) == 0);
    } else if e2 < e1 {
        assert(brace_depth(s.subrange(start, e2 + 1)) == 0);
    }
}

/// Finds the first balanced `{...}` block and reads it as a JSON decision.
pub fn try_parse_json(text: &[char]) -> (r: Option<LlmAction>)
    ensures
        match r {
            Some(a) => json_action(text@) == Some(a@),
            None => json_action(text@) is None,
        },
{
    reveal(json_action);
    let start = match find_char(text, '{') {
        Some(s) => s,
        None => return None,
    };
    assert(text@.contains('{'));
    let mut depth: usize = 0;
    let mut i: usize = start;
    assert(text@.subrange(start as int, start as int) =~= Seq::<char>::empty());
    while i < text.len()
        invariant
            start <= i <= text.len(),
            start < text.len(),
            text@[start as int] == '{',
            first_index(text@, '{') == start,
            text@.contains('{'),
            depth == brace_depth(text@.subrange(start as int, i as int)),
            i > start ==> depth > 0,
            depth <= i - start,
            forall|k: int| start <= k < i ==> brace_depth(#[trigger] text@.subrange(start as int, k + 1)) != 0,
        decreases text.len() - i,
    {
        let ghost prev = text@.subrange(start as int, i as int);
        assert(text@.subrange(start as int, i + 1).drop_last() =~= prev);
        let c = text[i];
        if c == '{' {
            depth += 1;
        } else if c == '}' {
            if i == start {
                assert(false);
            }
            depth -= 1;
            if depth == 0 {
                proof {
                    assert(closes_at(text@, start as int, i as int));
                    let e = choose|e: int| closes_at(text@, start as int, e);
                    lemma_closes_at_unique(text@, start as int, e, i as int);
                    assert(json_block(text@) == Some(text@.subrange(start as int, i + 1)));
                    reveal(json_action);
                }
                let block = slice_chars(text, start, i + 1);
                let block_text = string_of(block.as_slice());
                return match parse_json(block_text.as_str()) {
                    Some(v) => Some(value_to_action(&v)),
                    None => None,
                };
            }
        }
        i += 1;
    }
    proof {
        reveal(json_action);
        assert forall|e: int| !closes_at(text@, start as int, e) by {
            if start <= e < text@.len() {
                assert(brace_depth(text@.subrange(start as int, e + 1)) != 0);
            }
        }
    }
    None
}

} // verus!

verus! {

/// The rest of `l` after the key written plain (`action:`) or quoted (`"action":`).
pub open spec fn key_rest(l: Seq<char>, plain: Seq<char>, quoted: Seq<char>) -> Option<Seq<char>> {
    if starts_with(l, plain) {
        Some(l.skip(plain.len() as int))
    } else if starts_with(l, quoted) {
        Some(l.skip(quoted.len() as int))
    } else {
        None
    }
}

/// A value without surrounding whitespace, double quotes and single quotes.
pub open spec fn unquote(r: Seq<char>) -> Seq<char> {
    trim_matches(trim_matches(trim(r), '"'), '\'')
}

/// The fields a key-value answer sets; a later line overrides an earlier one.
pub struct KvFields {
    pub action: Option<Seq<char>>,
    pub target: Option<Seq<char>>,
    pub text: Option<Seq<char>>,
}

/// The fields after reading one line of a key-value answer.
pub open spec fn kv_line(f: KvFields, line: Seq<char>) -> KvFields {
    let l = trim_matches(trim(line), ',');
    match key_rest(l, "action:"@, "\"action\":"@) {
        Some(r) => KvFields { action: Some(unquote(r)), ..f },
        None => match key_rest(l, "target:"@, "\"target\":"@) {
            Some(r) => KvFields { target: Some(unquote(r)), ..f },
            None => match key_rest(l, "text:"@, "\"text\":"@) {
                Some(r) => KvFields { text: Some(unquote(r)), ..f },
                None => f,
            },
        },
    }
}

/// The fields set by the lines of a key-value answer.
pub open spec fn kv_fields(ls: Seq<Seq<char>>) -> KvFields
    decreases ls.len(),
{
    if ls.len() == 0 {
        KvFields { action: None, target: None, text: None }
    } else {
        kv_line(kv_fields(ls.drop_last()), ls.last())
    }
}

/// The action of an answer written as `action: ...` / `target: ...` / `text: ...`
/// lines; `None` when there is no action, an unknown one, or a required field is
/// missing or empty.
#[verifier::opaque]
pub open spec fn keyvalue_action(t: Seq<char>) -> Option<LlmActionView> {
    let f = kv_fields(lines(t));
    match f.action {
        None => None,
        Some(a) => if a == "speak"@ || a == "speak_to"@ {
            match f.text {
                Some(x) => if x.len() > 0 {
                    match f.target {
                        Some(tg) => if tg.len() > 0 {
                            Some(LlmActionView::SpeakTo { target_name: tg, text: x })
                        } else {
                            Some(LlmActionView::Speak(x))
                        },
                        None => Some(LlmActionView::Speak(x)),
                    }
                } else {
                    None
                },
                None => None,
            }
        } else if a == "move_to"@ {
            match f.target {
                Some(tg) => if tg.len() > 0 { Some(LlmActionView::MoveTo { target_name: tg }) } else { None },
                None => None,
            }
        } else if a == "idle"@ {
            Some(LlmActionView::Idle)
        } else {
            None
        },
    }
}

fn key_rest_exec(l: &[char], plain: &str, quoted: &str) -> (r: Option<Vec<char>>)
    ensures
        match r {
            Some(v) => key_rest(l@, plain@, quoted@) == Some(v@),
            None => key_rest(l@, plain@, quoted@) is None,
        },
{
    let p = chars_of(plain);
    let q = chars_of(quoted);
    if starts_with_chars(l, p.as_slice()) {
        Some(slice_chars(l, p.len(), l.len()))
    } else if starts_with_chars(l, q.as_slice()) {
        Some(slice_chars(l, q.len(), l.len()))
    } else {
        None
    }
}

fn unquote_exec(r: &[char]) -> (u: Vec<char>)
    ensures
        u@ == unquote(r@),
{
    let t = trim_chars(r);
    let t = trim_matches_chars(t.as_slice(), '"');
    trim_matches_chars(t.as_slice(), '\'')
}

/// Reads an answer written as key-value lines.
pub fn try_parse_keyvalue(text: &[char]) -> (r: Option<LlmAction>)
    ensures
        match r {
            Some(a) => keyvalue_action(text@) == Some(a@),
            None => keyvalue_action(text@) is None,
        },
{
    reveal(keyvalue_action);
    let ls = split_lines(text);
    let mut action: Option<Vec<char>> = None;
    let mut target: Option<Vec<char>> = None;
    let mut dialogue: Option<Vec<char>> = None;
    let mut i: usize = 0;
    while i < ls.len()
        invariant
            i <= ls.len(),
            char_seqs(ls@) == lines(text@),
            kv_fields(char_seqs(ls@).take(i as int)) == (KvFields {
                action: match action { Some(v) => Some(v@), None => None },
                target: match target { Some(v) => Some(v@), None => None },
                text: match dialogue { Some(v) => Some(v@), None => None },
            }),
        decreases ls.len() - i,
    {
        assert(char_seqs(ls@).take(i + 1).drop_last() =~= char_seqs(ls@).take(i as int));
        assert(char_seqs(ls@).take(i + 1).last() == ls@[i as int]@);
        let t = trim_chars(ls[i].as_slice());
        let l = trim_matches_chars(t.as_slice(), ',');
        match key_rest_exec(l.as_slice(), "action:", "\"action\":") {
            Some(rest) => {
                action = Some(unquote_exec(rest.as_slice()));
            },
            None => match key_rest_exec(l.as_slice(), "target:", "\"target\":") {
                Some(rest) => {
                    target = Some(unquote_exec(rest.as_slice()));
                },
                None => match key_rest_exec(l.as_slice(), "text:", "\"text\":") {
                    Some(rest) => {
                        dialogue = Some(unquote_exec(rest.as_slice()));
                    },
                    None => {},
                },
            },
        }
        i += 1;
    }
    assert(char_seqs(ls@).take(ls.len() as int) =~= char_seqs(ls@));
    let a = match action {
        Some(a) => string_of(a.as_slice()),
        None => return None,
    };
    let a = a.as_str();
    if a.eq("speak") || a.eq("speak_to") {
        let x = match dialogue {
            Some(x) => x,
            None => return None,
        };
        if x.len() == 0 {
            return None;
        }
        let text_s = string_of(x.as_slice());
        match target {
            Some(tg) => if tg.len() > 0 {
                Some(LlmAction::SpeakTo { target_name: string_of(tg.as_slice()), text: text_s })
            } else {
                Some(LlmAction::Speak(text_s))
            },
            None => Some(LlmAction::Speak(text_s)),
        }
    } else if a.eq("move_to") {
        match target {
            Some(tg) => if tg.len() > 0 {
                Some(LlmAction::MoveTo { target_name: string_of(tg.as_slice()) })
            } else {
                None
            },
            None => None,
        }
    } else if a.eq("idle") {
        Some(LlmAction::Idle)
    } else {
        None
    }
}

/// The answer with `<eos>`, code fences and `<end_of_turn>` taken out, trimmed.
pub open spec fn cleaned_answer(t: Seq<char>) -> Seq<char> {
    trim(
        replace_all(
            replace_all(replace_all(replace_all(t, "<eos>"@, Seq::empty()), "```json"@, Seq::empty()), "```"@, Seq::empty()),
            "<end_of_turn>"@,
            Seq::empty(),
        ),
    )
}

/// The action the model's answer describes: its first JSON object if there is
/// one that parses, else its key-value lines, else idling.
pub open spec fn decision_of(t: Seq<char>) -> LlmActionView {
    let c = cleaned_answer(t);
    match json_action(c) {
        Some(a) => a,
        None => match keyvalue_action(c) {
            Some(a) => a,
            None => LlmActionView::Idle,
        },
    }
}

/// The answer with `<eos>`, code fences and `<end_of_turn>` taken out, trimmed.
fn clean_answer(text: &str) -> (r: Vec<char>)
    ensures
        r@ == cleaned_answer(text@),
{
    let empty: Vec<char> = Vec::new();
    assert(empty@ =~= Seq::<char>::empty());
    let t = chars_of(text);
    let eos = chars_of("<eos>");
    let fence_json = chars_of("```json");
    let fence = chars_of("```");
    let eot = chars_of("<end_of_turn>");
    proof {
        reveal_strlit("<eos>");
        reveal_strlit("```json");
        reveal_strlit("```");
        reveal_strlit("<end_of_turn>");
    }
    let t = replace_chars(t.as_slice(), eos.as_slice(), empty.as_slice());
    let t = replace_chars(t.as_slice(), fence_json.as_slice(), empty.as_slice());
    let t = replace_chars(t.as_slice(), fence.as_slice(), empty.as_slice());
    let t = replace_chars(t.as_slice(), eot.as_slice(), empty.as_slice());
    trim_chars(t.as_slice())
}

/// Reads the model's decision from its raw answer.
pub fn parse_decision(text: &str) -> (r: LlmAction)
    ensures
        r@ == decision_of(text@),
{
    let clean = clean_answer(text);
    if let Some(action) = try_parse_json(clean.as_slice()) {
        return action;
    }
    if let Some(action) = try_parse_keyvalue(clean.as_slice()) {
        return action;
    }
    LlmAction::Idle
}

} // verus!

verus! {

/// An item id as words: underscores become spaces.
pub fn humanize_item(item_id: &str) -> (r: String)
    ensures
        r@ == replace_char(item_id@, '_', ' '),
{
    let v = chars_of(item_id);
    let h = replace_char_chars(v.as_slice(), '_', ' ');
    string_of(h.as_slice())
}

/// The carried items as words, separated by commas.
pub open spec fn carrying_list(items: Seq<Seq<char>>) -> Seq<char> {
    join(items.map_values(|i: Seq<char>| replace_char(i, '_', ' ')), ", "@)
}

fn carrying_list_exec(items: &[String]) -> (r: Vec<char>)
    ensures
        r@ == carrying_list(ids(items@)),
{
    let mut parts: Vec<Vec<char>> = Vec::new();
    let mut i: usize = 0;
    let ghost f = |i: Seq<char>| replace_char(i, '_', ' ');
    while i < items.len()
        invariant
            i <= items.len(),
            f == |i: Seq<char>| replace_char(i, '_', ' '),
            char_seqs(parts@) == ids(items@).take(i as int).map_values(f),
        decreases items.len() - i,
    {
        let c = chars_of(items[i].as_str());
        let h = replace_char_chars(c.as_slice(), '_', ' ');
        let ghost before = parts@;
        parts.push(h);
        proof {
            lemma_char_seqs_push(before, h);
            assert(ids(items@).take(i + 1).map_values(f) =~= ids(items@).take(i as int).map_values(f).push(f(items@[i as int]@)));
        }
        i += 1;
    }
    assert(ids(items@).take(items.len() as int) =~= ids(items@));
    let sep = chars_of(", ");
    join_chars(&parts, sep.as_slice())
}

fn push_line(lines: &mut Vec<Vec<char>>, l: Vec<char>)
    ensures
        char_seqs(final(lines)@) == char_seqs(old(lines)@).push(l@),
{
    let ghost before = lines@;
    lines.push(l);
    proof {
        lemma_char_seqs_push(before, l);
    }
}

/// Characters of a literal followed by the characters of a string.
fn prefixed(lit: &str, s: &[char]) -> (r: Vec<char>)
    ensures
        r@ == lit@ + s@,
{
    let mut v = chars_of(lit);
    extend_chars(&mut v, s);
    v
}

/// The lines of the system prompt of a dialogue: who the NPC is, then what it
/// knows and carries; empty fields give no line.
pub open spec fn system_prompt_lines(npc: NpcContext) -> Seq<Seq<char>> {
    let l = seq![npc.name@ + ", "@ + npc.role@ + " in Hollowreach."@];
    let l = if npc.speech_style@.len() > 0 { l.push(npc.speech_style@) } else { l };
    let l = if npc.traits.len() > 0 { l.push("Traits: "@ + join(ids(npc.traits@), ", "@)) } else { l };
    let l = if npc.backstory@.len() > 0 { l.push(npc.backstory@) } else { l };
    let l = if npc.knowledge.len() > 0 { l.push("Knows: "@ + join(ids(npc.knowledge@), ". "@)) } else { l };
    let l = if npc.inventory.len() > 0 { l.push("Carrying: "@ + carrying_list(ids(npc.inventory@))) } else { l };
    if npc.memories@.len() > 0 { l.push(npc.memories@) } else { l }
}

/// The system prompt of a dialogue.
pub fn build_system_prompt(npc: &NpcContext) -> (r: String)
    ensures
        r@ == join(system_prompt_lines(*npc), "\n"@),
{
    let mut lines: Vec<Vec<char>> = Vec::new();
    let mut first = chars_of(npc.name.as_str());
    extend_chars(&mut first, chars_of(", ").as_slice());
    extend_chars(&mut first, chars_of(npc.role.as_str()).as_slice());
    extend_chars(&mut first, chars_of(" in Hollowreach.").as_slice());
    push_line(&mut lines, first);
    assert(char_seqs(lines@) =~= seq![npc.name@ + ", "@ + npc.role@ + " in Hollowreach."@]);
    if !npc.speech_style.as_str().is_empty() {
        push_line(&mut lines, chars_of(npc.speech_style.as_str()));
    }
    if npc.traits.len() > 0 {
        let j = join_strings(npc.traits.as_slice(), chars_of(", ").as_slice());
        push_line(&mut lines, prefixed("Traits: ", j.as_slice()));
    }
    if !npc.backstory.as_str().is_empty() {
        push_line(&mut lines, chars_of(npc.backstory.as_str()));
    }
    if npc.knowledge.len() > 0 {
        let j = join_strings(npc.knowledge.as_slice(), chars_of(". ").as_slice());
        push_line(&mut lines, prefixed("Knows: ", j.as_slice()));
    }
    if npc.inventory.len() > 0 {
        let j = carrying_list_exec(npc.inventory.as_slice());
        push_line(&mut lines, prefixed("Carrying: ", j.as_slice()));
    }
    if !npc.memories.as_str().is_empty() {
        push_line(&mut lines, chars_of(npc.memories.as_str()));
    }
    let text = join_chars(&lines, chars_of("\n").as_slice());
    string_of(text.as_slice())
}

/// The line describing one nearby entity.
pub open spec fn nearby_line(e: NearbyEntity) -> Seq<char> {
    "- "@ + e.name@ + " ("@ + e.entity_type@ + ")"@
}

/// The lines of the decision prompt: the character, its surroundings, and the
/// actions it may pick (giving only when it carries something).
pub open spec fn decision_prompt_lines(npc: NpcContext, s: SurroundingsInfo) -> Seq<Seq<char>> {
    let l = seq!["[CHARACTER]"@, npc.name@ + ", "@ + npc.role@ + "."@];
    let l = l.push("Traits: "@ + join(ids(npc.traits@), ", "@));
    let l = l.push("Speech style: "@ + npc.speech_style@);
    let l = if npc.goals.len() > 0 { l.push("Goals: "@ + join(ids(npc.goals@), "; "@)) } else { l };
    let l = if npc.inventory.len() > 0 { l.push("Carrying: "@ + carrying_list(ids(npc.inventory@))) } else { l };
    let l = if npc.memories@.len() > 0 { l.push(Seq::empty()).push(npc.memories@) } else { l };
    let l = l.push(Seq::empty()).push("[SURROUNDINGS]"@);
    let l = l + s.nearby_entities@.map_values(|e: NearbyEntity| nearby_line(e));
    let l = if s.player_nearby { l.push("- A young wanderer is nearby."@) } else { l };
    let l = l.push(Seq::empty()).push("[DECIDE]"@);
    let l = l.push("Pick ONE action. The text field must be dialogue only \u{2014} never narrate or describe."@);
    let l = l.push("{\"action\": \"idle\"}"@);
    let l = l.push("{\"action\": \"speak\", \"text\": \"DIALOGUE\"}"@);
    let l = l.push("{\"action\": \"move_to\", \"target\": \"NAME\"}"@);
    let l = l.push("{\"action\": \"speak_to\", \"target\": \"NAME\", \"text\": \"DIALOGUE\"}"@);
    if npc.inventory.len() > 0 {
        l.push("{\"action\": \"give\", \"target\": \"NAME\", \"item\": \"ITEM_ID\", \"text\": \"DIALOGUE\"}"@)
    } else {
        l
    }
}

/// The prompt that asks the model to pick an action for an NPC.
#[verifier::rlimit(60)]
pub fn build_decision_prompt(npc: &NpcContext, surroundings: &SurroundingsInfo) -> (r: String)
    ensures
        r@ == join(decision_prompt_lines(*npc, *surroundings), "\n"@),
{
    let empty: Vec<char> = Vec::new();
    assert(empty@ =~= Seq::<char>::empty());
    let mut lines: Vec<Vec<char>> = Vec::new();
    push_line(&mut lines, chars_of("[CHARACTER]"));
    let mut who = chars_of(npc.name.as_str());
    extend_chars(&mut who, chars_of(", ").as_slice());
    extend_chars(&mut who, chars_of(npc.role.as_str()).as_slice());
    extend_chars(&mut who, chars_of(".").as_slice());
    push_line(&mut lines, who);
    let j = join_strings(npc.traits.as_slice(), chars_of(", ").as_slice());
    push_line(&mut lines, prefixed("Traits: ", j.as_slice()));
    push_line(&mut lines, prefixed("Speech style: ", chars_of(npc.speech_style.as_str()).as_slice()));
    if npc.goals.len() > 0 {
        let j = join_strings(npc.goals.as_slice(), chars_of("; ").as_slice());
        push_line(&mut lines, prefixed("Goals: ", j.as_slice()));
    }
    if npc.inventory.len() > 0 {
        let j = carrying_list_exec(npc.inventory.as_slice());
        push_line(&mut lines, prefixed("Carrying: ", j.as_slice()));
    }
    if !npc.memories.as_str().is_empty() {
        push_line(&mut lines, empty.clone());
        push_line(&mut lines, chars_of(npc.memories.as_str()));
    }
    push_line(&mut lines, empty.clone());
    push_line(&mut lines, chars_of("[SURROUNDINGS]"));
    let ghost head = char_seqs(lines@);
    let mut i: usize = 0;
    while i < surroundings.nearby_entities.len()
        invariant
            i <= surroundings.nearby_entities.len(),
            char_seqs(lines@) == head + surroundings.nearby_entities@.take(i as int).map_values(|e: NearbyEntity| nearby_line(e)),
        decreases surroundings.nearby_entities.len() - i,
    {
        let e = &surroundings.nearby_entities[i];
        let mut l = chars_of("- ");
        extend_chars(&mut l, chars_of(e.name.as_str()).as_slice());
        extend_chars(&mut l, chars_of(" (").as_slice());
        extend_chars(&mut l, chars_of(e.entity_type.as_str()).as_slice());
        extend_chars(&mut l, chars_of(")").as_slice());
        push_line(&mut lines, l);
        assert(surroundings.nearby_entities@.take(i + 1).map_values(|e: NearbyEntity| nearby_line(e)) =~= surroundings.nearby_entities@.take(i as int).map_values(|e: NearbyEntity| nearby_line(e)).push(nearby_line(surroundings.nearby_entities@[i as int])));
        i += 1;
    }
    assert(surroundings.nearby_entities@.take(surroundings.nearby_entities.len() as int) =~= surroundings.nearby_entities@);
    if surroundings.player_nearby {
        push_line(&mut lines, chars_of("- A young wanderer is nearby."));
    }
    push_line(&mut lines, empty.clone());
    push_line(&mut lines, chars_of("[DECIDE]"));
    push_line(&mut lines, chars_of("Pick ONE action. The text field must be dialogue only \u{2014} never narrate or describe."));
    push_line(&mut lines, chars_of("{\"action\": \"idle\"}"));
    push_line(&mut lines, chars_of("{\"action\": \"speak\", \"text\": \"DIALOGUE\"}"));
    push_line(&mut lines, chars_of("{\"action\": \"move_to\", \"target\": \"NAME\"}"));
    push_line(&mut lines, chars_of("{\"action\": \"speak_to\", \"target\": \"NAME\", \"text\": \"DIALOGUE\"}"));
    if npc.inventory.len() > 0 {
        push_line(&mut lines, chars_of("{\"action\": \"give\", \"target\": \"NAME\", \"item\": \"ITEM_ID\", \"text\": \"DIALOGUE\"}"));
    }
    assert(char_seqs(lines@) =~= decision_prompt_lines(*npc, *surroundings));
    let text = join_chars(&lines, chars_of("\n").as_slice());
    string_of(text.as_slice())
}

} // verus!

verus! {

/// The reply without the NPC's own name label, if the model repeated it.
pub open spec fn without_name(t: Seq<char>, name: Seq<char>) -> Seq<char> {
    let ts = trim_start(t);
    let p = name + ": "@;
    if starts_with(ts, p) {
        ts.skip(p.len() as int)
    } else {
        t
    }
}

/// The reply without an echoed `Traveler:` label.
pub open spec fn without_traveler(t: Seq<char>) -> Seq<char> {
    let ts = trim_start(t);
    if starts_with(ts, "Traveler:"@) {
        trim_start(ts.skip(9))
    } else {
        t
    }
}

/// The reply after a `<|channel>` thinking block: what follows `Final Answer:`
/// in it, else what follows the last blank line; `None` when neither is there.
pub open spec fn past_channel(t: Seq<char>) -> Option<Seq<char>> {
    if contains_seq(t, "<|channel>"@) {
        let rest = t.skip(find_seq(t, "<|channel>"@));
        if contains_seq(rest, "Final Answer:"@) {
            Some(trim(rest.skip(find_seq(rest, "Final Answer:"@) + 13)))
        } else if contains_seq(t, "\n\n"@) {
            Some(trim(t.skip(rfind_seq(t, "\n\n"@) + 2)))
        } else {
            None
        }
    } else {
        Some(t)
    }
}

/// The reply with the chat-turn tokens taken out.
pub open spec fn without_turn_tokens(t: Seq<char>) -> Seq<char> {
    replace_all(
        replace_all(
            replace_all(replace_all(t, "<end_of_turn>"@, Seq::empty()), "</start_of_turn>"@, Seq::empty()),
            "<start_of_turn>"@,
            Seq::empty(),
        ),
        "<eos>"@,
        Seq::empty(),
    )
}

/// The first line of a text, trimmed (empty for an empty text).
pub open spec fn first_line(t: Seq<char>) -> Seq<char> {
    if lines(t).len() > 0 {
        trim(lines(t)[0])
    } else {
        Seq::empty()
    }
}

/// A line without the double and then single quotes around it, trimmed.
pub open spec fn unquoted_reply(t: Seq<char>) -> Seq<char> {
    trim(trim_matches(trim_matches(t, '"'), '\''))
}

/// The spoken reply in the model's raw dialogue output, before leaked
/// instructions are looked for; `None` when a thinking block holds no answer.
pub open spec fn dialogue_reply(raw: Seq<char>, name: Seq<char>) -> Option<Seq<char>> {
    match past_channel(without_traveler(without_name(raw, name))) {
        Some(t) => Some(unquoted_reply(first_line(without_turn_tokens(t)))),
        None => None,
    }
}

/// Phrases of the prompt that never belong in in-character dialogue.
pub open spec fn leak_markers() -> Seq<Seq<char>> {
    seq![
        "the traveler says to you"@,
        "reply in character"@,
        "respond in character"@,
        "spoken words, no more than"@,
        "speak naturally in your character"@,
        "no more than 2 sentences"@,
        "never narrate"@,
        "never describe actions"@,
        "no narration"@,
    ]
}

/// The `k`-th leak marker occurs in the (lowercased) reply.
pub open spec fn leaks_at(lower: Seq<char>, k: int) -> bool {
    0 <= k < leak_markers().len() && contains_seq(lower, leak_markers()[k])
}

/// Some leak marker occurs in the (lowercased) reply.
pub open spec fn leaks(lower: Seq<char>) -> bool {
    exists|k: int| leaks_at(lower, k)
}

/// The leak markers, in order.
pub fn leak_marker_list() -> (r: Vec<String>)
    ensures
        ids(r@) == leak_markers(),
{
    let mut r: Vec<String> = Vec::new();
    r.push("the traveler says to you".to_owned());
    r.push("reply in character".to_owned());
    r.push("respond in character".to_owned());
    r.push("spoken words, no more than".to_owned());
    r.push("speak naturally in your character".to_owned());
    r.push("no more than 2 sentences".to_owned());
    r.push("never narrate".to_owned());
    r.push("never describe actions".to_owned());
    r.push("no narration".to_owned());
    assert(ids(r@) =~= leak_markers());
    r
}

/// The index of the first leak marker that occurs in an already lowercased reply.
pub fn leak_marker(lower: &str) -> (r: Option<usize>)
    ensures
        match r {
            Some(k) => leaks_at(lower@, k as int) && forall|j: int| 0 <= j < k ==> !leaks_at(lower@, j),
            None => !leaks(lower@),
        },
{
    let markers = leak_marker_list();
    let l = chars_of(lower);
    let mut k: usize = 0;
    while k < markers.len()
        invariant
            k <= markers.len(),
            ids(markers@) == leak_markers(),
            l@ == lower@,
            forall|j: int| 0 <= j < k ==> !leaks_at(lower@, j),
        decreases markers.len() - k,
    {
        let m = chars_of(markers[k].as_str());
        assert(m@ == leak_markers()[k as int]);
        if contains_chars(l.as_slice(), m.as_slice()) {
            return Some(k);
        }
        k += 1;
    }
    None
}

/// What became of the model's raw dialogue output.
pub enum DialogueCleaning {
    /// The spoken reply (possibly empty).
    Reply(String),
    /// A thinking block with no answer after it.
    NoAnswer,
    /// The reply repeats the prompt's instructions: the marker found, and the reply.
    Leak { marker: String, reply: String },
}

fn strip_name(t: Vec<char>, name: &str) -> (r: Vec<char>)
    ensures
        r@ == without_name(t@, name@),
{
    let ts = trim_start_chars(t.as_slice());
    let mut p = chars_of(name);
    extend_chars(&mut p, chars_of(": ").as_slice());
    if starts_with_chars(ts.as_slice(), p.as_slice()) {
        slice_chars(ts.as_slice(), p.len(), ts.len())
    } else {
        t
    }
}

fn strip_traveler(t: Vec<char>) -> (r: Vec<char>)
    ensures
        r@ == without_traveler(t@),
{
    let ts = trim_start_chars(t.as_slice());
    let label = chars_of("Traveler:");
    proof {
        reveal_strlit("Traveler:");
    }
    if starts_with_chars(ts.as_slice(), label.as_slice()) {
        let rest = slice_chars(ts.as_slice(), 9, ts.len());
        trim_start_chars(rest.as_slice())
    } else {
        t
    }
}

fn trimmed_after(v: &[char], from: usize) -> (r: Vec<char>)
    requires
        from <= v.len(),
    ensures
        r@ == trim(v@.skip(from as int)),
{
    let after = slice_chars(v, from, v.len());
    assert(after@ =~= v@.skip(from as int));
    trim_chars(after.as_slice())
}

proof fn lemma_past_channel_absent(t: Seq<char>)
    requires
        !contains_seq(t, "<|channel>"@),
    ensures
        past_channel(t) == Some(t),
{
    reveal(past_channel);
}

proof fn lemma_past_channel_answer(t: Seq<char>, pos: int, q: int)
    requires
        occurs_at(t, "<|channel>"@, pos),
        find_seq(t, "<|channel>"@) == pos,
        occurs_at(t.skip(pos), "Final Answer:"@, q),
        find_seq(t.skip(pos), "Final Answer:"@) == q,
    ensures
        past_channel(t) == Some(trim(t.skip(pos).skip(q + 13))),
{
    reveal(past_channel);
    assert(contains_seq(t, "<|channel>"@));
    assert(contains_seq(t.skip(pos), "Final Answer:"@));
}

proof fn lemma_past_channel_blank(t: Seq<char>, pos: int, b: int)
    requires
        occurs_at(t, "<|channel>"@, pos),
        find_seq(t, "<|channel>"@) == pos,
        !contains_seq(t.skip(pos), "Final Answer:"@),
        occurs_at(t, "\n\n"@, b),
        rfind_seq(t, "\n\n"@) == b,
    ensures
        past_channel(t) == Some(trim(t.skip(b + 2))),
{
    reveal(past_channel);
    assert(contains_seq(t, "<|channel>"@));
    assert(contains_seq(t, "\n\n"@));
    reveal_strlit("\n\n");
}

proof fn lemma_past_channel_none(t: Seq<char>, pos: int)
    requires
        occurs_at(t, "<|channel>"@, pos),
        find_seq(t, "<|channel>"@) == pos,
        !contains_seq(t.skip(pos), "Final Answer:"@),
        !contains_seq(t, "\n\n"@),
    ensures
        past_channel(t) is None,
{
    reveal(past_channel);
    assert(contains_seq(t, "<|channel>"@));
}

#[verifier::spinoff_prover]
#[verifier::rlimit(100)]
fn skip_channel(t: Vec<char>) -> (r: Option<Vec<char>>)
    ensures
        match r {
            Some(v) => past_channel(t@) == Some(v@),
            None => past_channel(t@) is None,
        },
{
    let channel = chars_of("<|channel>");
    let answer = chars_of("Final Answer:");
    let blank = chars_of("\n\n");
    match find_chars(t.as_slice(), channel.as_slice()) {
        None => {
            proof {
                lemma_past_channel_absent(t@);
            }
            Some(t)
        },
        Some(pos) => {
            let rest = slice_chars(t.as_slice(), pos, t.len());
            assert(rest@ =~= t@.skip(pos as int));
            match find_chars(rest.as_slice(), answer.as_slice()) {
                Some(q) => {
                    proof {
                        lemma_past_channel_answer(t@, pos as int, q as int);
                        reveal_strlit("Final Answer:");
                    }
                    Some(trimmed_after(rest.as_slice(), q + 13))
                },
                None => match rfind_chars(t.as_slice(), blank.as_slice()) {
                    Some(b) => {
                        proof {
                            lemma_past_channel_blank(t@, pos as int, b as int);
                            reveal_strlit("\n\n");
                        }
                        Some(trimmed_after(t.as_slice(), b + 2))
                    },
                    None => {
                        proof {
                            lemma_past_channel_none(t@, pos as int);
                        }
                        None
                    },
                },
            }
        },
    }
}

fn strip_turn_tokens(t: Vec<char>) -> (r: Vec<char>)
    ensures
        r@ == without_turn_tokens(t@),
{
    let empty: Vec<char> = Vec::new();
    assert(empty@ =~= Seq::<char>::empty());
    let a = chars_of("<end_of_turn>");
    let b = chars_of("</start_of_turn>");
    let c = chars_of("<start_of_turn>");
    let d = chars_of("<eos>");
    proof {
        reveal_strlit("<end_of_turn>");
        reveal_strlit("</start_of_turn>");
        reveal_strlit("<start_of_turn>");
        reveal_strlit("<eos>");
    }
    let t = replace_chars(t.as_slice(), a.as_slice(), empty.as_slice());
    let t = replace_chars(t.as_slice(), b.as_slice(), empty.as_slice());
    let t = replace_chars(t.as_slice(), c.as_slice(), empty.as_slice());
    replace_chars(t.as_slice(), d.as_slice(), empty.as_slice())
}

fn first_line_chars(t: &[char]) -> (r: Vec<char>)
    ensures
        r@ == first_line(t@),
{
    let ls = split_lines(t);
    if ls.len() > 0 {
        assert(char_seqs(ls@)[0] == ls@[0]@);
        trim_chars(ls[0].as_slice())
    } else {
        Vec::new()
    }
}

/// Reads the spoken reply out of the model's raw dialogue output, and says
/// whether it repeats the prompt's instructions.
pub fn clean_dialogue(raw: &str, npc_name: &str) -> (r: DialogueCleaning)
    ensures
        match r {
            DialogueCleaning::NoAnswer => dialogue_reply(raw@, npc_name@) is None,
            DialogueCleaning::Reply(s) => dialogue_reply(raw@, npc_name@) == Some(s@)
                && !leaks(lowercase(s@)),
            DialogueCleaning::Leak { marker, reply } => dialogue_reply(raw@, npc_name@) == Some(reply@)
                && exists|k: int|
                    leaks_at(lowercase(reply@), k) && (forall|j: int| 0 <= j < k ==> !leaks_at(lowercase(reply@), j))
                        && leak_markers()[k] == marker@,
        },
{
    let t = chars_of(raw);
    let t = strip_name(t, npc_name);
    let t = strip_traveler(t);
    let t = match skip_channel(t) {
        Some(v) => v,
        None => return DialogueCleaning::NoAnswer,
    };
    let t = strip_turn_tokens(t);
    let line = first_line_chars(t.as_slice());
    let q = trim_matches_chars(line.as_slice(), '"');
    let q = trim_matches_chars(q.as_slice(), '\'');
    let cleaned = trim_chars(q.as_slice());
    let reply = string_of(cleaned.as_slice());
    let lower = to_lowercase(reply.as_str());
    match leak_marker(lower.as_str()) {
        Some(k) => {
            let markers = leak_marker_list();
            assert(markers@[k as int]@ == leak_markers()[k as int]);
            let marker = markers[k].clone();
            DialogueCleaning::Leak { marker, reply }
        },
        None => DialogueCleaning::Reply(reply),
    }
}

/// The spoken reply in the model's raw dialogue output; empty when there is
/// none or when it repeats the prompt's instructions.
pub fn clean_dialogue_output(raw: &str, npc_name: &str) -> (r: String)
    ensures
        r@ == match dialogue_reply(raw@, npc_name@) {
            Some(c) => if leaks(lowercase(c)) { Seq::empty() } else { c },
            None => Seq::empty(),
        },
{
    match clean_dialogue(raw, npc_name) {
        DialogueCleaning::Reply(s) => s,
        DialogueCleaning::NoAnswer => String::new(),
        DialogueCleaning::Leak { .. } => String::new(),
    }
}

} // verus!

verus! {

/// The system prompt of a dialogue, as one text.
pub open spec fn system_prompt(npc: NpcContext) -> Seq<char> {
    join(system_prompt_lines(npc), "\n"@)
}

/// The chat-formatted prompt for an NPC's answer to the player: the system
/// prompt, the player's words under the `Traveler` label, and the model's turn
/// primed with the NPC's name.
pub open spec fn dialogue_prompt_text(npc: NpcContext, player_text: Seq<char>) -> Seq<char> {
    "<start_of_turn>user\n"@ + system_prompt(npc) + "\n\nTraveler: "@ + player_text
        + "<end_of_turn>\n<start_of_turn>model\n"@ + npc.name@ + ": "@
}

/// The prompt tried again when the first answer came back empty.
pub open spec fn dialogue_retry_prompt_text(npc: NpcContext, player_text: Seq<char>) -> Seq<char> {
    "<start_of_turn>user\n"@ + system_prompt(npc) + "\n\nA traveler greets you with: "@ + player_text
        + ". How do you greet them back?"@ + "<end_of_turn>\n<start_of_turn>model\n"@ + npc.name@
        + ": "@
}

/// The decision prompt wrapped as one user turn.
pub open spec fn decision_chat_text(npc: NpcContext, s: SurroundingsInfo) -> Seq<char> {
    "<start_of_turn>user\n"@ + join(decision_prompt_lines(npc, s), "\n"@)
        + "<end_of_turn>\n<start_of_turn>model\n"@
}

fn push_str_chars(s: &mut String, t: &str)
    ensures
        final(s)@ == old(s)@ + t@,
{
    let v = chars_of(t);
    crate::text::push_chars(s, v.as_slice());
}

/// The prompt for an NPC's answer to what the player said.
pub fn dialogue_prompt(npc: &NpcContext, player_text: &str) -> (r: String)
    ensures
        r@ == dialogue_prompt_text(*npc, player_text@),
{
    let sys = build_system_prompt(npc);
    let mut p = String::new();
    push_str_chars(&mut p, "<start_of_turn>user\n");
    push_str_chars(&mut p, sys.as_str());
    push_str_chars(&mut p, "\n\nTraveler: ");
    push_str_chars(&mut p, player_text);
    push_str_chars(&mut p, "<end_of_turn>\n<start_of_turn>model\n");
    push_str_chars(&mut p, npc.name.as_str());
    push_str_chars(&mut p, ": ");
    p
}

/// The expanded prompt used once when the first answer was empty.
pub fn dialogue_retry_prompt(npc: &NpcContext, player_text: &str) -> (r: String)
    ensures
        r@ == dialogue_retry_prompt_text(*npc, player_text@),
{
    let sys = build_system_prompt(npc);
    let mut p = String::new();
    push_str_chars(&mut p, "<start_of_turn>user\n");
    push_str_chars(&mut p, sys.as_str());
    push_str_chars(&mut p, "\n\nA traveler greets you with: ");
    push_str_chars(&mut p, player_text);
    push_str_chars(&mut p, ". How do you greet them back?");
    push_str_chars(&mut p, "<end_of_turn>\n<start_of_turn>model\n");
    push_str_chars(&mut p, npc.name.as_str());
    push_str_chars(&mut p, ": ");
    p
}

/// The full prompt for an NPC's decision.
pub fn decision_chat_prompt(npc: &NpcContext, surroundings: &SurroundingsInfo) -> (r: String)
    ensures
        r@ == decision_chat_text(*npc, *surroundings),
{
    let d = build_decision_prompt(npc, surroundings);
    let mut p = String::new();
    push_str_chars(&mut p, "<start_of_turn>user\n");
    push_str_chars(&mut p, d.as_str());
    push_str_chars(&mut p, "<end_of_turn>\n<start_of_turn>model\n");
    p
}

/// The generation-stop test applied to the text generated so far: more than
/// three bytes once trimmed, and the trimmed text's last character is a space
/// or newline after `.`, `!` or `?`, or a newline.
pub open spec fn sentence_complete_spec(output: Seq<char>) -> bool {
    let t = trim(output);
    &&& crate::text::utf8_len(t) > 3
    &&& t.len() >= 2
    &&& ((t.last() == ' ' || t.last() == '\n') && (t[t.len() - 2] == '.' || t[t.len() - 2] == '!' || t[t.len() - 2] == '?')
        || t.last() == '\n')
}

/// Whether generation stops after the text produced so far.
pub fn sentence_complete(output: &str) -> (r: bool)
    ensures
        r == sentence_complete_spec(output@),
{
    let v = chars_of(output);
    let t = trim_chars(v.as_slice());
    let mut bytes: usize = 0;
    let mut i: usize = 0;
    while i < t.len() && bytes <= 3
        invariant
            i <= t.len(),
            bytes == crate::text::utf8_len(t@.take(i as int)),
            bytes <= 7,
        decreases t.len() - i,
    {
        assert(t@.take(i + 1).drop_last() =~= t@.take(i as int));
        bytes = bytes + crate::text::char_utf8_width(t[i]);
        i += 1;
    }
    proof {
        crate::text::lemma_utf8_len_prefix(t@, i as int);
        if i == t.len() {
            assert(t@.take(i as int) =~= t@);
        }
    }
    if bytes <= 3 || t.len() < 2 {
        return false;
    }
    let last = t[t.len() - 1];
    let before = t[t.len() - 2];
    ((last == ' ' || last == '\n') && (before == '.' || before == '!' || before == '?')) || last == '\n'
}

} // verus!

verus! {

/// How a JSON decision object `{"action": .., "target": .., "text": .., "item": ..}`
/// becomes an action, member by member: `move_to` with a target walks to that
/// target; `speak` or `speak_to` with a text and a target speaks to the target;
/// `speak` with a text and no target speaks aloud; `give` with a target and an
/// item hands the item over (with the text, if any); anything else, and an
/// object without an `action` member, leaves the NPC idle.
pub proof fn lemma_decision_object_members(v: JsonValue, action: String, target: Seq<char>, text: Seq<char>, item: Seq<char>)
    requires
        str_member(v, "action"@) == Some(action),
        member_or_empty(v, "target"@) == target,
        member_or_empty(v, "text"@) == text,
        member_or_empty(v, "item"@) == item,
    ensures
        action@ == "move_to"@ && target.len() > 0 ==> action_of_value(v) == (LlmActionView::MoveTo { target_name: target }),
        action@ == "move_to"@ && target.len() == 0 ==> action_of_value(v) == LlmActionView::Idle,
        (action@ == "speak"@ || action@ == "speak_to"@) && text.len() > 0 && target.len() > 0 ==> action_of_value(v)
            == (LlmActionView::SpeakTo { target_name: target, text }),
        action@ == "speak"@ && text.len() > 0 && target.len() == 0 ==> action_of_value(v) == LlmActionView::Speak(text),
        action@ == "speak_to"@ && target.len() == 0 ==> action_of_value(v) == LlmActionView::Idle,
        (action@ == "speak"@ || action@ == "speak_to"@) && text.len() == 0 ==> action_of_value(v) == LlmActionView::Idle,
        action@ == "give"@ && target.len() > 0 && item.len() > 0 ==> action_of_value(v) == (LlmActionView::Give {
            target_name: target,
            item_id: item,
            text,
        }),
        action@ == "give"@ && (target.len() == 0 || item.len() == 0) ==> action_of_value(v) == LlmActionView::Idle,
        action@ != "speak"@ && action@ != "speak_to"@ && action@ != "move_to"@ && action@ != "give"@ ==> action_of_value(v)
            == LlmActionView::Idle,
{
    reveal_strlit("speak");
    reveal_strlit("speak_to");
    reveal_strlit("move_to");
    reveal_strlit("give");
    assert("move_to"@.len() == 7 && "speak"@.len() == 5 && "speak_to"@.len() == 8 && "give"@.len() == 4);
}

/// A decision object without an `action` member leaves the NPC idle.
pub proof fn lemma_decision_object_without_action(v: JsonValue)
    requires
        (str_member(v, "action"@) is None),
    ensures
        action_of_value(v) == LlmActionView::Idle,
{
    reveal_strlit("speak");
    reveal_strlit("speak_to");
    reveal_strlit("move_to");
    reveal_strlit("give");
    reveal_strlit("idle");
    assert("move_to"@.len() == 7 && "speak"@.len() == 5 && "speak_to"@.len() == 8 && "give"@.len() == 4);
    assert("idle"@.len() == 4 && "idle"@[0] != "give"@[0]);
}

/// How the fields of a key-value answer become an action: `move_to` with a
/// non-empty target walks there; `speak` or `speak_to` with a non-empty text
/// speaks to the target when one is given and aloud otherwise; `idle` idles;
/// anything else, or a required field missing or empty, is no action.
pub proof fn lemma_keyvalue_answer_fields(
    t: Seq<char>,
    action: Seq<char>,
    target: Option<Seq<char>>,
    text: Option<Seq<char>>,
)
    requires
        kv_fields(lines(t)) == (KvFields { action: Some(action), target, text }),
    ensures
        action == "move_to"@ ==> keyvalue_action(t) == match target {
            Some(tg) => if tg.len() > 0 { Some(LlmActionView::MoveTo { target_name: tg }) } else { None },
            None => None,
        },
        (action == "speak"@ || action == "speak_to"@) ==> keyvalue_action(t) == match (text, target) {
            (Some(x), Some(tg)) => if x.len() == 0 {
                None
            } else if tg.len() > 0 {
                Some(LlmActionView::SpeakTo { target_name: tg, text: x })
            } else {
                Some(LlmActionView::Speak(x))
            },
            (Some(x), None) => if x.len() > 0 { Some(LlmActionView::Speak(x)) } else { None },
            (None, _) => None,
        },
        action == "idle"@ ==> keyvalue_action(t) == Some(LlmActionView::Idle),
        action != "speak"@ && action != "speak_to"@ && action != "move_to"@ && action != "idle"@ ==> keyvalue_action(t)
            is None,
{
    reveal(keyvalue_action);
    reveal_strlit("speak");
    reveal_strlit("speak_to");
    reveal_strlit("move_to");
    reveal_strlit("idle");
    assert("move_to"@.len() == 7 && "speak"@.len() == 5 && "speak_to"@.len() == 8 && "idle"@.len() == 4);
}

/// A key-value answer without an action line is no action.
pub proof fn lemma_keyvalue_answer_without_action(t: Seq<char>)
    requires
        (kv_fields(lines(t)).action is None),
    ensures
        (keyvalue_action(t) is None),
{
    reveal(keyvalue_action);
}

} // verus!
