//! NPC decisions: the round-robin turn queue, when an NPC asks the language
//! model for a decision, how the answer becomes an action, and how an action
//! runs until it is done.

use vstd::prelude::*;
use vstd::string::*;
use std::collections::VecDeque;
use std::collections::hash_map::DefaultHasher;
use std::hash::{Hash, Hasher};
use crate::llm::LlmAction;
use crate::text::{eq_ignore_ascii_case, str_eq_ignore_ascii_case, lowercase, to_lowercase, contains_seq, contains_chars, chars_of};

verus! {

/// An action an NPC can decide to perform.
#[derive(Debug)]
pub enum NpcAction {
    /// Walk to and interact with `entity` using the named `interaction_id`.
    Interact { entity: u64, interaction_id: String },
    /// Walk toward a target entity.
    MoveTo(u64),
    /// Speak a line aloud (no specific target).
    Speak(String),
    /// Speak a line directed at a specific entity.
    SpeakTo { target: u64, text: String },
    /// Give an item to a target entity, with optional dialogue.
    Give { target: u64, item_id: String, text: String },
    /// Do nothing.
    Idle,
}

/// Per-NPC decision state.
#[derive(Debug)]
pub struct NpcDecisionState {
    /// The action currently being executed, if any.
    pub current_action: Option<NpcAction>,
    /// Hash of the last context snapshot, for dirty detection.
    pub last_context_hash: u64,
}

impl NpcDecisionState {
    pub fn new() -> (s: NpcDecisionState)
        ensures
            s.current_action is None,
            s.last_context_hash == 0,
    {
        NpcDecisionState { current_action: None, last_context_hash: 0 }
    }
}

/// Which animation an NPC plays.
#[derive(Clone, Copy, PartialEq, Eq, Structural, Debug)]
pub enum NpcCurrentAnim {
    Idle,
    Walk,
}

proof fn lemma_mod_shift(a: int, n: int)
    requires
        a >= 0,
        n > 0,
    ensures
        (a + n) % n == a % n,
{
    assert((a + n) % n == a % n) by (nonlinear_arith)
        requires
            a >= 0,
            n > 0,
    {
        vstd::arithmetic::div_mod::lemma_mod_add_multiples_vanish(a, n);
    }
}

/// Round-robin queue that tracks which NPC should decide next.
pub struct NpcTurnQueue {
    /// Ordered queue of NPC entities.
    pub queue: VecDeque<u64>,
    /// Index of the NPC whose turn it is.
    pub current_index: usize,
    /// Whether the queue has been populated from the world.
    pub initialized: bool,
}

impl NpcTurnQueue {
    /// An empty queue.
    pub fn new() -> (q: NpcTurnQueue)
        ensures
            q.queue@ == Seq::<u64>::empty(),
            q.current_index == 0,
            !q.initialized,
    {
        NpcTurnQueue { queue: VecDeque::new(), current_index: 0, initialized: false }
    }

    /// Advance to the next NPC in the queue, wrapping around.
    pub fn advance(&mut self)
        ensures
            final(self).queue@ == old(self).queue@,
            final(self).initialized == old(self).initialized,
            old(self).queue@.len() > 0 ==> final(self).current_index == (old(self).current_index + 1) % (old(self).queue@.len() as int),
            old(self).queue@.len() == 0 ==> final(self).current_index == old(self).current_index,
    {
        if self.queue.len() > 0 {
            let n = self.queue.len();
            let ci = self.current_index;
            if ci < n - 1 {
                self.current_index = ci + 1;
                assert((ci + 1) % (n as int) == ci + 1) by (nonlinear_arith)
                    requires
                        ci + 1 < n,
                ;
            } else {
                self.current_index = (ci - (n - 1)) % n;
                proof {
                    lemma_mod_shift((ci - (n - 1)) as int, n as int);
                }
            }
        }
    }

    /// The entity whose turn it currently is, if any.
    pub fn current(&self) -> (r: Option<u64>)
        ensures
            r == if self.current_index < self.queue@.len() { Some(self.queue@[self.current_index as int]) } else { None },
    {
        if self.current_index < self.queue.len() {
            Some(self.queue[self.current_index])
        } else {
            None
        }
    }

    /// Remove a despawned entity (its first occurrence) from the queue.
    pub fn remove(&mut self, entity: u64)
        ensures
            final(self).initialized == old(self).initialized,
            !old(self).queue@.contains(entity) ==> final(self).queue@ == old(self).queue@
                && final(self).current_index == old(self).current_index,
            old(self).queue@.contains(entity) ==> {
                let pos = crate::inventory::first_index(old(self).queue@, entity);
                &&& final(self).queue@ == old(self).queue@.remove(pos)
                &&& final(self).current_index == if old(self).current_index >= final(self).queue@.len()
                    && final(self).queue@.len() > 0 { 0 } else { old(self).current_index }
            },
    {
        let mut i: usize = 0;
        while i < self.queue.len()
            invariant
                i <= self.queue.len(),
                self.queue@ == old(self).queue@,
                self.current_index == old(self).current_index,
                self.initialized == old(self).initialized,
                forall|j: int| 0 <= j < i ==> self.queue@[j] != entity,
            decreases self.queue.len() - i,
        {
            if self.queue[i] == entity {
                proof {
                    crate::inventory::lemma_first_index_unique(self.queue@, entity, i as int);
                }
                self.queue.remove(i);
                if self.current_index >= self.queue.len() && self.queue.len() > 0 {
                    self.current_index = 0;
                }
                return;
            }
            i += 1;
        }
    }

    /// Adds newly found NPCs at the back of the queue; the queue counts as
    /// initialized once it holds anyone.
    pub fn enqueue(&mut self, npcs: &[u64])
        ensures
            final(self).queue@ == old(self).queue@ + npcs@,
            final(self).current_index == old(self).current_index,
            final(self).initialized == (old(self).initialized || final(self).queue@.len() > 0),
    {
        let mut i: usize = 0;
        while i < npcs.len()
            invariant
                i <= npcs.len(),
                self.queue@ == old(self).queue@ + npcs@.take(i as int),
                self.current_index == old(self).current_index,
                self.initialized == old(self).initialized,
            decreases npcs.len() - i,
        {
            self.queue.push_back(npcs[i]);
            assert(self.queue@ =~= old(self).queue@ + npcs@.take(i + 1));
            i += 1;
        }
        assert(npcs@.take(npcs.len() as int) =~= npcs@);
        if self.queue.len() > 0 {
            self.initialized = true;
        }
    }
}

/// What the current NPC's turn came to.
#[derive(Clone, Copy, PartialEq, Eq, Structural, Debug)]
pub enum TurnOutcome {
    /// The NPC is busy with the player, already waiting for a decision, or not
    /// activated yet: the turn passes.
    Waiting,
    /// Nothing changed around the NPC since its last decision: the turn passes.
    Unchanged,
    /// The world changed: the current action was dropped and a decision is to be
    /// requested from the language model (the NPC then waits for it).
    RequestDecision,
    /// The world changed: the current action was dropped, but no decision can
    /// be requested (the model is not ready or the NPC has no personality).
    ContextChanged,
}

/// What the game knows of the NPC whose turn it is.
#[derive(Clone, Copy, Debug)]
pub struct TurnFlags {
    pub is_interacting: bool,
    pub has_pending_decision: bool,
    pub is_activated: bool,
    pub llm_ready: bool,
    pub has_personality: bool,
}

/// The turn of the current NPC: whether its context changed and a decision is to
/// be requested. The turn always passes to the next NPC.
pub fn npc_turn(queue: &mut NpcTurnQueue, state: &mut NpcDecisionState, flags: TurnFlags, context_hash: u64) -> (out: TurnOutcome)
    ensures
        final(queue).queue@ == old(queue).queue@,
        old(queue).queue@.len() > 0 ==> final(queue).current_index == (old(queue).current_index + 1) % (old(queue).queue@.len() as int),
        old(queue).queue@.len() == 0 ==> final(queue).current_index == old(queue).current_index,
        out == if flags.is_interacting || flags.has_pending_decision || !flags.is_activated {
            TurnOutcome::Waiting
        } else if context_hash == old(state).last_context_hash {
            TurnOutcome::Unchanged
        } else if flags.llm_ready && flags.has_personality {
            TurnOutcome::RequestDecision
        } else {
            TurnOutcome::ContextChanged
        },
        out is Waiting || out is Unchanged ==> *final(state) == *old(state),
        out is RequestDecision || out is ContextChanged ==> final(state).current_action is None
            && final(state).last_context_hash == context_hash,
{
    let out = if flags.is_interacting || flags.has_pending_decision || !flags.is_activated {
        TurnOutcome::Waiting
    } else if context_hash == state.last_context_hash {
        TurnOutcome::Unchanged
    } else {
        state.current_action = None;
        state.last_context_hash = context_hash;
        if flags.llm_ready && flags.has_personality {
            TurnOutcome::RequestDecision
        } else {
            TurnOutcome::ContextChanged
        }
    };
    queue.advance();
    out
}

/// The first entity whose name equals `name` up to ASCII case.
pub open spec fn find_named(named: Seq<(u64, String)>, name: Seq<char>) -> Option<u64> {
    if exists|i: int| 0 <= i < named.len() && eq_ignore_ascii_case(#[trigger] named[i].1@, name) {
        let i = choose|i: int|
            0 <= i < named.len() && eq_ignore_ascii_case(#[trigger] named[i].1@, name) && forall|j: int|
                0 <= j < i ==> !eq_ignore_ascii_case(#[trigger] named[j].1@, name);
        Some(named[i].0)
    } else {
        None
    }
}

/// The first entity whose name equals `name` up to ASCII case, if any.
pub fn find_by_name(named: &[(u64, String)], name: &str) -> (r: Option<u64>)
    ensures
        r == find_named(named@, name@),
{
    let mut i: usize = 0;
    while i < named.len()
        invariant
            i <= named.len(),
            forall|j: int| 0 <= j < i ==> !eq_ignore_ascii_case(#[trigger] named@[j].1@, name@),
        decreases named.len() - i,
    {
        if str_eq_ignore_ascii_case(named[i].1.as_str(), name) {
            proof {
                let k = choose|k: int|
                    0 <= k < named@.len() && eq_ignore_ascii_case(#[trigger] named@[k].1@, name@) && forall|j: int|
                        0 <= j < k ==> !eq_ignore_ascii_case(#[trigger] named@[j].1@, name@);
                assert(eq_ignore_ascii_case(named@[i as int].1@, name@));
                if k < i {
                    assert(!eq_ignore_ascii_case(named@[k].1@, name@));
                } else if i < k {
                    assert(eq_ignore_ascii_case(named@[i as int].1@, name@));
                }
            }
            return Some(named[i].0);
        }
        i += 1;
    }
    None
}

/// Whether a target name means the player.
pub open spec fn names_wanderer(name: Seq<char>) -> bool {
    contains_seq(lowercase(name), "wanderer"@)
}

/// The action an NPC takes on the model's decision: targets are found by name
/// among the interactable entities (`named`, in query order); "wanderer" means
/// the player. A speech to an unknown target is spoken aloud; a move or gift to
/// an unknown target becomes idling.
pub open spec fn action_for(action: LlmAction, named: Seq<(u64, String)>, player: Option<u64>) -> NpcAction {
    match action {
        LlmAction::Idle => NpcAction::Idle,
        LlmAction::Speak(text) => NpcAction::Speak(text),
        LlmAction::SpeakTo { target_name, text } => match find_named(named, target_name@) {
            Some(e) => NpcAction::SpeakTo { target: e, text },
            None => NpcAction::Speak(text),
        },
        LlmAction::MoveTo { target_name } => match find_named(named, target_name@) {
            Some(e) => NpcAction::MoveTo(e),
            None => NpcAction::Idle,
        },
        LlmAction::Give { target_name, item_id, text } => {
            let target = if names_wanderer(target_name@) { player } else { find_named(named, target_name@) };
            match target {
                Some(t) => NpcAction::Give { target: t, item_id, text },
                None => NpcAction::Idle,
            }
        },
    }
}

/// Turns the model's decision into an NPC action.
pub fn resolve_llm_action(action: LlmAction, named: &[(u64, String)], player: Option<u64>) -> (r: NpcAction)
    ensures
        r == action_for(action, named@, player),
{
    match action {
        LlmAction::Idle => NpcAction::Idle,
        LlmAction::Speak(text) => NpcAction::Speak(text),
        LlmAction::SpeakTo { target_name, text } => match find_by_name(named, target_name.as_str()) {
            Some(e) => NpcAction::SpeakTo { target: e, text },
            None => NpcAction::Speak(text),
        },
        LlmAction::MoveTo { target_name } => match find_by_name(named, target_name.as_str()) {
            Some(e) => NpcAction::MoveTo(e),
            None => NpcAction::Idle,
        },
        LlmAction::Give { target_name, item_id, text } => {
            let lower = to_lowercase(target_name.as_str());
            let lower_chars = chars_of(lower.as_str());
            let wanderer = chars_of("wanderer");
            let target = if contains_chars(lower_chars.as_slice(), wanderer.as_slice()) {
                player
            } else {
                find_by_name(named, target_name.as_str())
            };
            match target {
                Some(t) => NpcAction::Give { target: t, item_id, text },
                None => NpcAction::Idle,
            }
        },
    }
}

/// The entity an action walks toward, if it walks.
pub open spec fn walk_target_of(a: Option<NpcAction>) -> Option<u64> {
    match a {
        Some(NpcAction::MoveTo(e)) => Some(e),
        Some(NpcAction::Interact { entity, .. }) => Some(entity),
        Some(NpcAction::Give { target, .. }) => Some(target),
        _ => None,
    }
}

/// The entity the NPC walks toward, if its action walks.
pub fn walk_target(action: &Option<NpcAction>) -> (r: Option<u64>)
    ensures
        r == walk_target_of(*action),
{
    match action {
        Some(NpcAction::MoveTo(e)) => Some(*e),
        Some(NpcAction::Interact { entity, .. }) => Some(*entity),
        Some(NpcAction::Give { target, .. }) => Some(*target),
        _ => None,
    }
}

/// The animation an NPC plays: walking while its action walks, idling otherwise.
pub fn desired_anim(action: &Option<NpcAction>) -> (r: NpcCurrentAnim)
    ensures
        r == if walk_target_of(*action) is Some { NpcCurrentAnim::Walk } else { NpcCurrentAnim::Idle },
{
    if walk_target(action).is_some() {
        NpcCurrentAnim::Walk
    } else {
        NpcCurrentAnim::Idle
    }
}

/// Where the target of a walking action is.
#[derive(Clone, Copy, PartialEq, Eq, Structural, Debug)]
pub enum TargetStatus {
    /// The target no longer exists.
    Gone,
    /// The target is 1.5 units away or more (on the ground plane).
    Away,
    /// The target is closer than 1.5 units.
    Reached,
}

/// What running an action this frame asks of the rest of the game.
#[derive(Debug)]
pub struct NpcExecution {
    /// Turn the NPC's head toward this entity.
    pub look_at: Option<u64>,
    /// Show a chat line: speaker and text.
    pub chat: Option<(String, String)>,
    /// Show the NPC's own words in the panel's dialogue: speaker and text.
    pub dialogue: Option<(String, String)>,
    /// Hand an item over: from, to, item id.
    pub give: Option<(u64, u64, String)>,
}

/// Runs the current action of an NPC for one frame. `speaker` is the NPC's
/// display name (if it has one); `target` says where the target of a walking
/// action is. Words spoken to no one are shown as the NPC's dialogue in the
/// panel; words spoken to someone go to the chat log.
pub fn execute_npc_action(
    state: &mut NpcDecisionState,
    npc: u64,
    is_interacting: bool,
    speaker: Option<&String>,
    target: TargetStatus,
) -> (out: NpcExecution)
    ensures
        final(state).last_context_hash == old(state).last_context_hash,
        is_interacting ==> final(state).current_action is None && out.look_at is None && out.chat is None
            && out.give is None,
        is_interacting || !(old(state).current_action matches Some(NpcAction::Speak(_))) ==> out.dialogue is None,
        !is_interacting ==> match old(state).current_action {
            None => final(state).current_action is None && out.look_at is None && out.chat is None && out.give is None,
            Some(NpcAction::Speak(text)) => final(state).current_action is None && out.look_at is None
                && out.chat is None && out.give is None && match out.dialogue {
                Some((who, line)) => line == text && who@ == match speaker {
                    Some(s) => s@,
                    None => "NPC"@,
                },
                None => false,
            },
            Some(NpcAction::Idle) => final(state).current_action is None
                && out.look_at is None && out.chat is None && out.give is None,
            Some(NpcAction::SpeakTo { target: t, text }) => final(state).current_action is None
                && out.look_at == Some(t) && out.give is None && match out.chat {
                Some((who, line)) => line == text && who@ == match speaker {
                    Some(s) => s@,
                    None => "NPC"@,
                },
                None => false,
            },
            Some(NpcAction::MoveTo(_)) | Some(NpcAction::Interact { .. }) => out.look_at is None && out.chat is None
                && out.give is None && if target is Away {
                final(state).current_action == old(state).current_action
            } else {
                final(state).current_action is None
            },
            Some(NpcAction::Give { target: t, item_id, text }) => out.look_at is None && match target {
                TargetStatus::Away => final(state).current_action == old(state).current_action && out.chat is None
                    && out.give is None,
                TargetStatus::Gone => final(state).current_action is None && out.chat is None && out.give is None,
                TargetStatus::Reached => final(state).current_action is None && out.give == Some((npc, t, item_id))
                    && if text@.len() == 0 {
                    out.chat is None
                } else {
                    match out.chat {
                        Some((who, line)) => line == text && who@ == match speaker {
                            Some(s) => s@,
                            None => "NPC"@,
                        },
                        None => false,
                    }
                },
            },
        },
{
    let none = NpcExecution { look_at: None, chat: None, dialogue: None, give: None };
    if is_interacting {
        state.current_action = None;
        return none;
    }
    let action = state.current_action.take();
    match action {
        None => none,
        Some(NpcAction::Speak(text)) => {
            let who = match speaker {
                Some(s) => s.clone(),
                None => String::from_str("NPC"),
            };
            NpcExecution { look_at: None, chat: None, dialogue: Some((who, text)), give: None }
        },
        Some(NpcAction::Idle) => none,
        Some(NpcAction::SpeakTo { target: t, text }) => {
            let who = match speaker {
                Some(s) => s.clone(),
                None => String::from_str("NPC"),
            };
            NpcExecution { look_at: Some(t), chat: Some((who, text)), dialogue: None, give: None }
        },
        Some(NpcAction::MoveTo(e)) => {
            if target == TargetStatus::Away {
                state.current_action = Some(NpcAction::MoveTo(e));
            }
            none
        },
        Some(NpcAction::Interact { entity, interaction_id }) => {
            if target == TargetStatus::Away {
                state.current_action = Some(NpcAction::Interact { entity, interaction_id });
            }
            none
        },
        Some(NpcAction::Give { target: t, item_id, text }) => {
            match target {
                TargetStatus::Away => {
                    state.current_action = Some(NpcAction::Give { target: t, item_id, text });
                    none
                },
                TargetStatus::Gone => none,
                TargetStatus::Reached => {
                    let chat = if text.as_str().is_empty() {
                        None
                    } else {
                        let who = match speaker {
                            Some(s) => s.clone(),
                            None => String::from_str("NPC"),
                        };
                        Some((who, text))
                    };
                    NpcExecution { look_at: None, chat, dialogue: None, give: Some((npc, t, item_id)) }
                },
            }
        },
    }
}

} // verus!

verus! {

/// The index after `k` advances of a queue of `n` NPCs, starting at `i`.
pub open spec fn advanced(i: int, n: int, k: nat) -> int
    decreases k,
{
    if k == 0 {
        i
    } else {
        (advanced(i, n, (k - 1) as nat) + 1) % n
    }
}

/// Advancing keeps the turn on an NPC of the queue.
pub proof fn lemma_advance_stays_in_queue(i: int, n: int)
    requires
        0 <= i < n,
    ensures
        0 <= (i + 1) % n < n,
{
}

/// Turns go round: after `k` advances the turn is at `(i + k) % n`, so within
/// `n` turns every NPC of the queue has had one.
pub proof fn lemma_round_robin(i: int, n: int, k: nat)
    requires
        0 <= i < n,
    ensures
        advanced(i, n, k) == (i + k) % n,
    decreases k,
{
    if k > 0 {
        lemma_round_robin(i, n, (k - 1) as nat);
        let p = (i + k - 1) % n;
        assert((p + 1) % n == (i + k) % n) by {
            vstd::arithmetic::div_mod::lemma_add_mod_noop_right(1, i + k - 1, n);
        }
        assert(advanced(i, n, (k - 1) as nat) == p);
        assert(advanced(i, n, k) == (advanced(i, n, (k - 1) as nat) + 1) % n);
    } else {
        vstd::arithmetic::div_mod::lemma_small_mod(i as nat, n as nat);
    }
}

/// Every NPC of the queue gets a turn within `n` advances.
pub proof fn lemma_every_npc_gets_a_turn(i: int, n: int, j: int)
    requires
        0 <= i < n,
        0 <= j < n,
    ensures
        exists|k: nat| k < n && #[trigger] advanced(i, n, k) == j,
{
    let k: nat = if j >= i { (j - i) as nat } else { (j - i + n) as nat };
    lemma_round_robin(i, n, k);
    if j >= i {
        vstd::arithmetic::div_mod::lemma_small_mod(j as nat, n as nat);
        assert(i + k == j);
    } else {
        assert(i + k == j + n);
        vstd::arithmetic::div_mod::lemma_mod_add_multiples_vanish(j, n);
        vstd::arithmetic::div_mod::lemma_small_mod(j as nat, n as nat);
    }
    assert(advanced(i, n, k) == j);
}

/// An NPC that appears once in the queue is gone from it after its removal.
pub proof fn lemma_removed_npc_leaves_queue(queue: Seq<u64>, entity: u64)
    requires
        queue.no_duplicates(),
        queue.contains(entity),
    ensures
        !queue.remove(crate::inventory::first_index(queue, entity)).contains(entity),
{
    let w = choose|j: int| 0 <= j < queue.len() && queue[j] == entity;
    let p = crate::inventory::first_index(queue, entity);
    assert(exists|k: int| crate::inventory::is_first_index(queue, entity, k)) by {
        assert forall|j: int| 0 <= j < w implies queue[j] != entity by {}
        assert(crate::inventory::is_first_index(queue, entity, w));
    }
    assert(crate::inventory::is_first_index(queue, entity, p));
    let r = queue.remove(p);
    assert forall|j: int| 0 <= j < r.len() implies r[j] != entity by {
        if j < p {
            assert(r[j] == queue[j]);
        } else {
            assert(r[j] == queue[j + 1]);
        }
    }
}

} // verus!

verus! {

/// An entity around an NPC, as its world hash reads it: its id bits, its name
/// when it is interactable, and its state when it has one.
pub struct WorldEntity {
    pub id: u64,
    pub name: Option<String>,
    pub state: Option<String>,
}

/// The text of an optional string.
pub open spec fn opt_text(s: Option<String>) -> Option<Seq<char>> {
    match s {
        Some(t) => Some(t@),
        None => None,
    }
}

/// What an entity contributes to an NPC's world hash: its id bits, its name and
/// its state.
pub open spec fn hash_item(e: WorldEntity) -> (u64, Option<Seq<char>>, Option<Seq<char>>) {
    (e.id, opt_text(e.name), opt_text(e.state))
}

/// What the entities contribute to an NPC's world hash, in order.
pub open spec fn hash_items(others: Seq<WorldEntity>) -> Seq<(u64, Option<Seq<char>>, Option<Seq<char>>)> {
    others.map_values(|e: WorldEntity| hash_item(e))
}

/// Every entity but the NPC itself.
pub open spec fn other_than(npc: u64) -> spec_fn(WorldEntity) -> bool {
    |e: WorldEntity| e.id != npc
}

/// The hash `DefaultHasher` gives a list of entities, each fed as its id bits,
/// its optional name and its optional state.
pub uninterp spec fn world_state_hash(items: Seq<(u64, Option<Seq<char>>, Option<Seq<char>>)>) -> u64;

/// Hashes the entities around an NPC.
///
/// Trusted: feeds each entity's id bits, then its `Option` name, then its
/// `Option` state (std's `Hash` for `u64` and `Option<String>`) to a
/// `std::collections::hash_map::DefaultHasher` made with `new` (not randomly
/// seeded) and returns `finish`. The contract only names the result as a
/// function of what was fed; it says nothing of collisions.
#[verifier::external_body]
fn hash_world_states(items: &[WorldEntity]) -> (h: u64)
    ensures
        h == world_state_hash(hash_items(items@)),
{
    let mut hasher = DefaultHasher::new();
    for e in items {
        e.id.hash(&mut hasher);
        e.name.hash(&mut hasher);
        e.state.hash(&mut hasher);
    }
    hasher.finish()
}

/// The hash of the world around `npc`, from every other entity's id bits,
/// interactable name and state (the player's position is left out, so that
/// walking around alone never triggers a new decision, while a change of an
/// entity's state does).
pub fn build_context_hash(npc: u64, others: &[WorldEntity]) -> (h: u64)
    ensures
        h == world_state_hash(hash_items(others@.filter(other_than(npc)))),
{
    let mut kept: Vec<WorldEntity> = Vec::new();
    let mut i: usize = 0;
    while i < others.len()
        invariant
            i <= others.len(),
            hash_items(kept@) == hash_items(others@.take(i as int).filter(other_than(npc))),
        decreases others.len() - i,
    {
        proof {
            assert(others@.take(i + 1) =~= others@.take(i as int).push(others@[i as int]));
            others@.take(i as int).lemma_filter_push(others@[i as int], other_than(npc));
        }
        let ghost before = kept@;
        if others[i].id != npc {
            let e = WorldEntity {
                id: others[i].id,
                name: crate::interactions::copy_opt(&others[i].name),
                state: crate::interactions::copy_opt(&others[i].state),
            };
            kept.push(e);
            assert(hash_items(kept@) =~= hash_items(before).push(hash_item(others@[i as int])));
            assert(hash_items(others@.take(i as int).filter(other_than(npc)).push(others@[i as int])) =~= hash_items(
                others@.take(i as int).filter(other_than(npc)),
            ).push(hash_item(others@[i as int])));
        }
        i += 1;
    }
    assert(others@.take(others.len() as int) =~= others@);
    hash_world_states(kept.as_slice())
}

/// A change of another entity's state changes what the NPC's world hash is
/// computed from (so, unless the hasher collides, the hash differs and the
/// NPC's next turn drops its action and asks for a new decision).
pub proof fn lemma_state_change_changes_hash_input(npc: u64, others: Seq<WorldEntity>, k: int, state: Option<String>)
    requires
        0 <= k < others.len(),
        others[k].id != npc,
        opt_text(state) != opt_text(others[k].state),
    ensures
        hash_items(others.filter(other_than(npc))) != hash_items(
            others.update(k, WorldEntity { id: others[k].id, name: others[k].name, state }).filter(other_than(npc)),
        ),
    decreases others.len(),
{
    let e = WorldEntity { id: others[k].id, name: others[k].name, state };
    let n = others.len() as int;
    let p = other_than(npc);
    let o2 = others.update(k, e);
    let d = others.drop_last();
    let d2 = o2.drop_last();
    let last = others.last();
    let last2 = o2.last();
    assert(others =~= d.push(last));
    assert(o2 =~= d2.push(last2));
    d.lemma_filter_push(last, p);
    d2.lemma_filter_push(last2, p);
    let f1 = others.filter(p);
    let f2 = o2.filter(p);
    if k == n - 1 {
        assert(d2 =~= d);
        assert(last2 == e);
        assert(hash_items(f1)[f1.len() - 1] == hash_item(last));
        assert(hash_items(f2)[f2.len() - 1] == hash_item(e));
        assert(hash_item(last) != hash_item(e));
    } else {
        assert(d2 =~= d.update(k, e));
        assert(last2 == last);
        lemma_state_change_changes_hash_input(npc, d, k, state);
        if p(last) {
            assert(hash_items(f1).drop_last() =~= hash_items(d.filter(p)));
            assert(hash_items(f2).drop_last() =~= hash_items(d2.filter(p)));
        }
    }
}

/// `named[k]` is the first entity whose name matches `name` up to ASCII case.
pub open spec fn first_match_at(named: Seq<(u64, String)>, name: Seq<char>, k: int) -> bool {
    &&& 0 <= k < named.len()
    &&& eq_ignore_ascii_case(named[k].1@, name)
    &&& forall|j: int| 0 <= j < k ==> !eq_ignore_ascii_case(#[trigger] named[j].1@, name)
}

/// No entity's name matches `name` up to ASCII case.
pub open spec fn no_match(named: Seq<(u64, String)>, name: Seq<char>) -> bool {
    forall|j: int| 0 <= j < named.len() ==> !eq_ignore_ascii_case(#[trigger] named[j].1@, name)
}

/// A name resolves to the first entity whose name matches it up to ASCII case,
/// and to nothing when none does.
pub proof fn lemma_find_named_first_match(named: Seq<(u64, String)>, name: Seq<char>, k: int)
    ensures
        first_match_at(named, name, k) ==> find_named(named, name) == Some(named[k].0),
        no_match(named, name) ==> find_named(named, name) is None,
{
    if first_match_at(named, name, k) {
        assert(eq_ignore_ascii_case(named[k].1@, name));
        let m = choose|i: int|
            0 <= i < named.len() && eq_ignore_ascii_case(#[trigger] named[i].1@, name) && forall|j: int|
                0 <= j < i ==> !eq_ignore_ascii_case(#[trigger] named[j].1@, name);
        if m < k {
            assert(!eq_ignore_ascii_case(named[m].1@, name));
        } else if k < m {
            assert(!eq_ignore_ascii_case(named[k].1@, name));
        }
    }
}

/// A decision to speak to someone speaks to the first entity of that name
/// (up to ASCII case), and speaks aloud when no entity has that name.
pub proof fn lemma_speak_to_resolves_target(
    target_name: String,
    text: String,
    named: Seq<(u64, String)>,
    player: Option<u64>,
    k: int,
)
    ensures
        first_match_at(named, target_name@, k) ==> action_for(
            LlmAction::SpeakTo { target_name, text },
            named,
            player,
        ) == (NpcAction::SpeakTo { target: named[k].0, text }),
        no_match(named, target_name@) ==> action_for(LlmAction::SpeakTo { target_name, text }, named, player)
            == NpcAction::Speak(text),
{
    lemma_find_named_first_match(named, target_name@, k);
}

/// A decision to walk to someone walks to the first entity of that name (up to
/// ASCII case), and idles when no entity has that name.
pub proof fn lemma_move_to_resolves_target(
    target_name: String,
    named: Seq<(u64, String)>,
    player: Option<u64>,
    k: int,
)
    ensures
        first_match_at(named, target_name@, k) ==> action_for(LlmAction::MoveTo { target_name }, named, player)
            == NpcAction::MoveTo(named[k].0),
        no_match(named, target_name@) ==> action_for(LlmAction::MoveTo { target_name }, named, player)
            == NpcAction::Idle,
{
    lemma_find_named_first_match(named, target_name@, k);
}

/// A gift goes to the player when the target name contains "wanderer" (in any
/// case), otherwise to the first entity of that name (up to ASCII case); with
/// no such receiver the NPC idles.
pub proof fn lemma_give_resolves_target(
    target_name: String,
    item_id: String,
    text: String,
    named: Seq<(u64, String)>,
    player: Option<u64>,
    k: int,
)
    ensures
        names_wanderer(target_name@) ==> action_for(LlmAction::Give { target_name, item_id, text }, named, player)
            == match player {
            Some(p) => NpcAction::Give { target: p, item_id, text },
            None => NpcAction::Idle,
        },
        !names_wanderer(target_name@) && first_match_at(named, target_name@, k) ==> action_for(
            LlmAction::Give { target_name, item_id, text },
            named,
            player,
        ) == (NpcAction::Give { target: named[k].0, item_id, text }),
        !names_wanderer(target_name@) && no_match(named, target_name@) ==> action_for(
            LlmAction::Give { target_name, item_id, text },
            named,
            player,
        ) == NpcAction::Idle,
{
    lemma_find_named_first_match(named, target_name@, k);
}

/// Decisions without a target keep their words: idling idles and speaking
/// aloud speaks the same text.
pub proof fn lemma_untargeted_decisions(text: String, named: Seq<(u64, String)>, player: Option<u64>)
    ensures
        action_for(LlmAction::Idle, named, player) == NpcAction::Idle,
        action_for(LlmAction::Speak(text), named, player) == NpcAction::Speak(text),
{
}

} // verus!
