//! Interaction rules: conditions that gate an interaction, the effects of a
//! reaction, and how the effects change the world.

use vstd::prelude::*;
use crate::collections::{ids, lookup, FlagSet, StringMap};
use crate::inventory::{add_item, remove_item, remove_first};
use crate::json::{JsonValue, str_member, bool_member};

verus! {

broadcast use vstd::seq_lib::group_seq_properties;

// ---------------------------------------------------------------------------
// Data types
// ---------------------------------------------------------------------------

/// The kind of condition that gates an interaction's availability.
#[derive(Clone, Copy, Debug, PartialEq, Eq, Structural)]
pub enum ConditionType {
    /// This entity must be in a specific state.
    EntityState,
    /// The actor (player or NPC performing the interaction) must have an item.
    ActorHasItem,
    /// A global flag must be set.
    FlagSet,
    /// A global flag must NOT be set.
    FlagNotSet,
    /// Another entity (by id) must be in a specific state.
    OtherEntityState,
}

/// A copy of an optional string with the same value.
pub fn copy_opt(s: &Option<String>) -> (r: Option<String>)
    ensures
        r == *s,
{
    match s {
        Some(x) => Some(x.clone()),
        None => None,
    }
}

/// A single condition on an interaction.
#[derive(Debug)]
pub struct Condition {
    pub condition_type: ConditionType,
    /// For `EntityState` / `OtherEntityState`: the required state string.
    pub state: Option<String>,
    /// For `ActorHasItem`: the required item id. `"*"` means "any item".
    pub item: Option<String>,
    /// For `FlagSet` / `FlagNotSet`: the flag name.
    pub flag: Option<String>,
    /// For `OtherEntityState`: the entity id to check.
    pub entity: Option<String>,
}

impl Clone for Condition {
    fn clone(&self) -> (r: Self)
        ensures
            r == *self,
    {
        Condition {
            condition_type: self.condition_type,
            state: copy_opt(&self.state),
            item: copy_opt(&self.item),
            flag: copy_opt(&self.flag),
            entity: copy_opt(&self.entity),
        }
    }
}

/// The kind of effect that a reaction step produces.
#[derive(Clone, Copy, Debug, PartialEq, Eq, Structural)]
pub enum ReactionEffectType {
    /// Play an animation on the target entity.
    Animation,
    /// Play an animation on the actor (player/NPC performing the interaction).
    ActorAnimation,
    /// Play a sound effect.
    Sound,
    /// Change the target entity's state.
    StateChange,
    /// Change another entity's state (cross-entity effect).
    TargetStateChange,
    /// Remove an item from the actor's inventory.
    RemoveItem,
    /// Give an item to the actor.
    SpawnItem,
    /// Set a global flag.
    SetFlag,
    /// Clear a global flag.
    ClearFlag,
    /// Trigger LLM dialogue generation.
    DialoguePrompt,
    /// Show static informational text.
    InfoText,
    /// Enable or disable the entity's collider (e.g. door opening).
    ColliderChange,
}

/// A single effect within a reaction sequence.
#[derive(Debug)]
pub struct ReactionEffect {
    pub effect_type: ReactionEffectType,
    /// Animation name (for `Animation` / `ActorAnimation`).
    pub anim: Option<String>,
    /// Sound asset name (for `Sound`).
    pub asset: Option<String>,
    /// New state string (for `StateChange` / `TargetStateChange`).
    pub new_state: Option<String>,
    /// Target entity id (for `TargetStateChange`).
    pub entity: Option<String>,
    /// Item id (for `RemoveItem` / `SpawnItem`).
    pub item: Option<String>,
    /// Flag name (for `SetFlag` / `ClearFlag`).
    pub flag: Option<String>,
    /// LLM prompt (for `DialoguePrompt`).
    pub prompt: Option<String>,
    /// Static text (for `InfoText`).
    pub text: Option<String>,
    /// Whether collider is enabled (for `ColliderChange`).
    pub enabled: Option<bool>,
}

impl Clone for ReactionEffect {
    fn clone(&self) -> (r: Self)
        ensures
            r == *self,
    {
        ReactionEffect {
            effect_type: self.effect_type,
            anim: copy_opt(&self.anim),
            asset: copy_opt(&self.asset),
            new_state: copy_opt(&self.new_state),
            entity: copy_opt(&self.entity),
            item: copy_opt(&self.item),
            flag: copy_opt(&self.flag),
            prompt: copy_opt(&self.prompt),
            text: copy_opt(&self.text),
            enabled: self.enabled,
        }
    }
}

/// A single interaction definition, loaded from entity JSON config.
#[derive(Debug)]
pub struct Interaction {
    /// Unique id within the entity (e.g. "unlock", "open", "talk").
    pub id: String,
    /// Human-readable label shown in UI (e.g. "Unlock", "Open Door").
    pub label: String,
    /// All conditions must be met for this interaction to be available.
    pub conditions: Vec<Condition>,
    /// Effects executed in order when the interaction is performed.
    pub reaction: Vec<ReactionEffect>,
}

/// The content of an interaction.
pub struct InteractionView {
    pub id: Seq<char>,
    pub label: Seq<char>,
    pub conditions: Seq<Condition>,
    pub reaction: Seq<ReactionEffect>,
}

impl View for Interaction {
    type V = InteractionView;

    open spec fn view(&self) -> InteractionView {
        InteractionView {
            id: self.id@,
            label: self.label@,
            conditions: self.conditions@,
            reaction: self.reaction@,
        }
    }
}

/// The contents of a list of interactions.
pub open spec fn interaction_views(s: Seq<Interaction>) -> Seq<InteractionView> {
    s.map_values(|i: Interaction| i@)
}

impl Clone for Interaction {
    fn clone(&self) -> (r: Self)
        ensures
            r@ == self@,
    {
        let conditions = self.conditions.clone();
        assert(conditions@ =~= self.conditions@);
        let reaction = self.reaction.clone();
        assert(reaction@ =~= self.reaction@);
        Interaction { id: self.id.clone(), label: self.label.clone(), conditions, reaction }
    }
}

/// Full entity configuration loaded from JSON.
#[derive(Debug)]
pub struct EntityConfig {
    pub id: String,
    pub entity_type: String,
    pub model: String,
    pub state: String,
    pub interactions: Vec<Interaction>,
}

/// Global flags. Interactions can set/clear flags, and conditions can check
/// them. Shared across all entities.
pub struct GlobalFlags(pub FlagSet);

/// Lookup from entity id string to entity, so cross-entity effects
/// (e.g. `TargetStateChange`) can find the right entity.
pub struct EntityIdMap(pub Vec<(String, u64)>);

/// The pairs of an entity-id map, by content.
pub open spec fn id_pairs(entries: Seq<(String, u64)>) -> Seq<(Seq<char>, u64)> {
    entries.map_values(|p: (String, u64)| (p.0@, p.1))
}

impl EntityIdMap {
    pub open spec fn spec_get(&self, id: Seq<char>) -> Option<u64> {
        lookup(id_pairs(self.0@), id)
    }

    /// The entity registered under `id`; the latest registration wins.
    pub fn get(&self, id: &str) -> (r: Option<u64>)
        ensures
            r == self.spec_get(id@),
    {
        let mut i: usize = self.0.len();
        assert(id_pairs(self.0@).take(i as int) =~= id_pairs(self.0@));
        while i > 0
            invariant
                i <= self.0.len(),
                lookup(id_pairs(self.0@), id@) == lookup(id_pairs(self.0@).take(i as int), id@),
            decreases i,
        {
            assert(id_pairs(self.0@).take(i as int).drop_last() =~= id_pairs(self.0@).take(i - 1));
            if self.0[i - 1].0.as_str().eq(id) {
                assert(id_pairs(self.0@).take(i as int).last() == (self.0@[i - 1].0@, self.0@[i - 1].1));
                return Some(self.0[i - 1].1);
            }
            i -= 1;
        }
        None
    }
}

/// Fired when an actor triggers an interaction on a target entity.
#[derive(Debug)]
pub struct InteractionEvent {
    /// The entity being interacted with.
    pub target: u64,
    /// The entity id of the target (for logging / cross-entity lookups).
    pub target_id: String,
    /// The actor performing the interaction (player entity or NPC entity).
    pub actor: u64,
    /// The interaction id that was chosen (e.g. "unlock").
    pub interaction_id: String,
    /// The resolved list of effects to apply.
    pub effects: Vec<ReactionEffect>,
}

/// Fired by the effect system when an info text or dialogue prompt should
/// be displayed to the player.
#[derive(Debug)]
pub struct ShowTextEvent {
    pub text: String,
    /// If true, this is a dialogue prompt that should be forwarded to the LLM.
    pub is_dialogue_prompt: bool,
}

/// Fired when a sound effect should be played.
#[derive(Debug)]
pub struct PlaySoundEvent {
    pub asset: String,
}

/// Fired when an animation should be played on an entity.
#[derive(Debug)]
pub struct PlayAnimationEvent {
    pub entity: u64,
    pub anim: String,
}

/// Tracks which interaction the player has selected when near an entity with
/// multiple available interactions.
pub struct SelectedInteraction {
    /// The target entity currently in proximity (if any).
    pub target: Option<u64>,
    /// Index into the available interactions list.
    pub index: usize,
}

// ---------------------------------------------------------------------------
// Condition evaluation
// ---------------------------------------------------------------------------

/// Whether one condition holds.
pub open spec fn condition_holds(
    c: Condition,
    entity_state: Seq<char>,
    inventory: Seq<Seq<char>>,
    flags: Set<Seq<char>>,
    states: Option<StringMap>,
) -> bool {
    match c.condition_type {
        ConditionType::EntityState => match c.state {
            Some(s) => entity_state == s@,
            None => true,
        },
        ConditionType::ActorHasItem => match c.item {
            Some(i) => if i@ == seq!['*'] { inventory.len() > 0 } else { inventory.contains(i@) },
            None => true,
        },
        ConditionType::FlagSet => match c.flag {
            Some(f) => flags.contains(f@),
            None => true,
        },
        ConditionType::FlagNotSet => match c.flag {
            Some(f) => !flags.contains(f@),
            None => true,
        },
        ConditionType::OtherEntityState => match (c.entity, c.state) {
            (Some(e), Some(s)) => match states {
                Some(m) => m.spec_get(e@) == Some(s@),
                None => false,
            },
            _ => true,
        },
    }
}

/// Whether every condition of a list holds.
pub open spec fn all_conditions_hold(
    conditions: Seq<Condition>,
    entity_state: Seq<char>,
    inventory: Seq<Seq<char>>,
    flags: Set<Seq<char>>,
    states: Option<StringMap>,
) -> bool {
    forall|i: int|
        0 <= i < conditions.len() ==> #[trigger] condition_holds(
            conditions[i],
            entity_state,
            inventory,
            flags,
            states,
        )
}

fn is_wildcard(s: &str) -> (r: bool)
    ensures
        r == (s@ == seq!['*']),
{
    let star = "*";
    proof {
        reveal_strlit("*");
    }
    assert(star@ =~= seq!['*']);
    s.eq(star)
}

fn check_condition(
    cond: &Condition,
    entity_state: &str,
    actor_inventory: &[String],
    global_flags: &FlagSet,
    all_entity_states: Option<&StringMap>,
) -> (r: bool)
    ensures
        r == condition_holds(*cond, entity_state@, ids(actor_inventory@), global_flags@, match all_entity_states {
            Some(m) => Some(*m),
            None => None,
        }),
{
    match cond.condition_type {
        ConditionType::EntityState => match &cond.state {
            Some(required) => entity_state.eq(required.as_str()),
            None => true,
        },
        ConditionType::ActorHasItem => match &cond.item {
            Some(required_item) => {
                if is_wildcard(required_item.as_str()) {
                    actor_inventory.len() > 0
                } else {
                    crate::collections::contains_str(actor_inventory, required_item.as_str())
                }
            },
            None => true,
        },
        ConditionType::FlagSet => match &cond.flag {
            Some(flag) => global_flags.contains(flag.as_str()),
            None => true,
        },
        ConditionType::FlagNotSet => match &cond.flag {
            Some(flag) => !global_flags.contains(flag.as_str()),
            None => true,
        },
        ConditionType::OtherEntityState => match (&cond.entity, &cond.state) {
            (Some(eid), Some(required_state)) => match all_entity_states {
                Some(states) => match states.get(eid.as_str()) {
                    Some(s) => s.as_str().eq(required_state.as_str()),
                    None => false,
                },
                None => false,
            },
            _ => true,
        },
    }
}

/// Evaluate whether ALL conditions for an interaction are met.
///
/// - `entity_state`: current state of the entity being interacted with.
/// - `actor_inventory`: items held by whoever is performing the interaction.
/// - `global_flags`: the shared global flag set.
/// - `all_entity_states`: map from entity id to current state, for `OtherEntityState`.
pub fn evaluate_conditions(
    conditions: &[Condition],
    entity_state: &str,
    actor_inventory: &[String],
    global_flags: &FlagSet,
    all_entity_states: Option<&StringMap>,
) -> (r: bool)
    ensures
        r == all_conditions_hold(conditions@, entity_state@, ids(actor_inventory@), global_flags@, match all_entity_states {
            Some(m) => Some(*m),
            None => None,
        }),
{
    let ghost states = match all_entity_states {
        Some(m) => Some(*m),
        None => None,
    };
    let mut i: usize = 0;
    while i < conditions.len()
        invariant
            i <= conditions.len(),
            states == match all_entity_states {
                Some(m) => Some(*m),
                None => None::<StringMap>,
            },
            forall|j: int|
                0 <= j < i ==> #[trigger] condition_holds(
                    conditions@[j],
                    entity_state@,
                    ids(actor_inventory@),
                    global_flags@,
                    states,
                ),
        decreases conditions.len() - i,
    {
        if !check_condition(&conditions[i], entity_state, actor_inventory, global_flags, all_entity_states) {
            return false;
        }
        i += 1;
    }
    true
}

/// The interactions whose conditions all hold, in the order given.
pub open spec fn available_interactions(
    interactions: Seq<InteractionView>,
    entity_state: Seq<char>,
    inventory: Seq<Seq<char>>,
    flags: Set<Seq<char>>,
    states: Option<StringMap>,
) -> Seq<InteractionView> {
    interactions.filter(
        |i: InteractionView| all_conditions_hold(i.conditions, entity_state, inventory, flags, states),
    )
}

/// Return all interactions on an entity whose conditions are currently met.
pub fn get_available_interactions(
    interactions: &[Interaction],
    entity_state: &str,
    actor_inventory: &[String],
    global_flags: &FlagSet,
    all_entity_states: Option<&StringMap>,
) -> (r: Vec<Interaction>)
    ensures
        interaction_views(r@) == available_interactions(interaction_views(interactions@), entity_state@, ids(actor_inventory@), global_flags@, match all_entity_states {
            Some(m) => Some(*m),
            None => None,
        }),
{
    let ghost states = match all_entity_states {
        Some(m) => Some(*m),
        None => None,
    };
    let ghost pred = |i: InteractionView| all_conditions_hold(i.conditions, entity_state@, ids(actor_inventory@), global_flags@, states);
    let mut out: Vec<Interaction> = Vec::new();
    let mut i: usize = 0;
    while i < interactions.len()
        invariant
            i <= interactions.len(),
            states == match all_entity_states {
                Some(m) => Some(*m),
                None => None::<StringMap>,
            },
            pred == |i: InteractionView| all_conditions_hold(i.conditions, entity_state@, ids(actor_inventory@), global_flags@, states),
            interaction_views(out@) == interaction_views(interactions@).take(i as int).filter(pred),
        decreases interactions.len() - i,
    {
        let ghost vs = interaction_views(interactions@);
        proof {
            assert(vs.take(i + 1) =~= vs.take(i as int).push(vs[i as int]));
            vs.take(i as int).lemma_filter_push(vs[i as int], pred);
        }
        let ghost before = out@;
        if evaluate_conditions(
            interactions[i].conditions.as_slice(),
            entity_state,
            actor_inventory,
            global_flags,
            all_entity_states,
        ) {
            let c = interactions[i].clone();
            out.push(c);
            assert(interaction_views(out@) =~= interaction_views(before).push(vs[i as int]));
        }
        i += 1;
    }
    assert(interaction_views(interactions@).take(interactions.len() as int) =~= interaction_views(interactions@));
    out
}

// ---------------------------------------------------------------------------
// Effect execution
// ---------------------------------------------------------------------------

/// Returns the effects of a reaction, all of them, in order.
pub fn execute_reaction(reaction_effects: &[ReactionEffect]) -> (r: Vec<ReactionEffect>)
    ensures
        r@ == reaction_effects@,
{
    let mut out: Vec<ReactionEffect> = Vec::new();
    let mut i: usize = 0;
    while i < reaction_effects.len()
        invariant
            i <= reaction_effects.len(),
            out@ == reaction_effects@.take(i as int),
        decreases reaction_effects.len() - i,
    {
        out.push(reaction_effects[i].clone());
        assert(out@ =~= reaction_effects@.take(i + 1));
        i += 1;
    }
    assert(reaction_effects@.take(reaction_effects.len() as int) =~= reaction_effects@);
    out
}

} // verus!

verus! {

// ---------------------------------------------------------------------------
// Conversion from JSON config types to runtime types
// ---------------------------------------------------------------------------

/// The JSON name of a condition type.
pub open spec fn condition_type_name(t: ConditionType) -> Seq<char> {
    match t {
        ConditionType::EntityState => "entity_state"@,
        ConditionType::ActorHasItem => "actor_has_item"@,
        ConditionType::FlagSet => "flag_set"@,
        ConditionType::FlagNotSet => "flag_not_set"@,
        ConditionType::OtherEntityState => "other_entity_state"@,
    }
}

/// The condition type named `s`, if any.
pub open spec fn condition_type_named(s: Seq<char>) -> Option<ConditionType> {
    if s == condition_type_name(ConditionType::EntityState) {
        Some(ConditionType::EntityState)
    } else if s == condition_type_name(ConditionType::ActorHasItem) {
        Some(ConditionType::ActorHasItem)
    } else if s == condition_type_name(ConditionType::FlagSet) {
        Some(ConditionType::FlagSet)
    } else if s == condition_type_name(ConditionType::FlagNotSet) {
        Some(ConditionType::FlagNotSet)
    } else if s == condition_type_name(ConditionType::OtherEntityState) {
        Some(ConditionType::OtherEntityState)
    } else {
        None
    }
}

/// Convert a JSON condition type string to the runtime enum.
pub fn parse_condition_type(s: &str) -> (r: Option<ConditionType>)
    ensures
        r == condition_type_named(s@),
{
    if s.eq("entity_state") {
        Some(ConditionType::EntityState)
    } else if s.eq("actor_has_item") {
        Some(ConditionType::ActorHasItem)
    } else if s.eq("flag_set") {
        Some(ConditionType::FlagSet)
    } else if s.eq("flag_not_set") {
        Some(ConditionType::FlagNotSet)
    } else if s.eq("other_entity_state") {
        Some(ConditionType::OtherEntityState)
    } else {
        None
    }
}

/// The JSON name of an effect type.
pub open spec fn effect_type_name(t: ReactionEffectType) -> Seq<char> {
    match t {
        ReactionEffectType::Animation => "animation"@,
        ReactionEffectType::ActorAnimation => "actor_animation"@,
        ReactionEffectType::Sound => "sound"@,
        ReactionEffectType::StateChange => "state_change"@,
        ReactionEffectType::TargetStateChange => "target_state_change"@,
        ReactionEffectType::RemoveItem => "remove_item"@,
        ReactionEffectType::SpawnItem => "spawn_item"@,
        ReactionEffectType::SetFlag => "set_flag"@,
        ReactionEffectType::ClearFlag => "clear_flag"@,
        ReactionEffectType::DialoguePrompt => "dialogue_prompt"@,
        ReactionEffectType::InfoText => "info_text"@,
        ReactionEffectType::ColliderChange => "collider_change"@,
    }
}

/// The effect type named `s`, if any (the first in declaration order).
pub open spec fn effect_type_named(s: Seq<char>) -> Option<ReactionEffectType> {
    if s == effect_type_name(ReactionEffectType::Animation) {
        Some(ReactionEffectType::Animation)
    } else if s == effect_type_name(ReactionEffectType::ActorAnimation) {
        Some(ReactionEffectType::ActorAnimation)
    } else if s == effect_type_name(ReactionEffectType::Sound) {
        Some(ReactionEffectType::Sound)
    } else if s == effect_type_name(ReactionEffectType::StateChange) {
        Some(ReactionEffectType::StateChange)
    } else if s == effect_type_name(ReactionEffectType::TargetStateChange) {
        Some(ReactionEffectType::TargetStateChange)
    } else if s == effect_type_name(ReactionEffectType::RemoveItem) {
        Some(ReactionEffectType::RemoveItem)
    } else if s == effect_type_name(ReactionEffectType::SpawnItem) {
        Some(ReactionEffectType::SpawnItem)
    } else if s == effect_type_name(ReactionEffectType::SetFlag) {
        Some(ReactionEffectType::SetFlag)
    } else if s == effect_type_name(ReactionEffectType::ClearFlag) {
        Some(ReactionEffectType::ClearFlag)
    } else if s == effect_type_name(ReactionEffectType::DialoguePrompt) {
        Some(ReactionEffectType::DialoguePrompt)
    } else if s == effect_type_name(ReactionEffectType::InfoText) {
        Some(ReactionEffectType::InfoText)
    } else if s == effect_type_name(ReactionEffectType::ColliderChange) {
        Some(ReactionEffectType::ColliderChange)
    } else {
        None
    }
}

/// Convert a JSON effect type string to the runtime enum.
pub fn parse_effect_type(s: &str) -> (r: Option<ReactionEffectType>)
    ensures
        r == effect_type_named(s@),
{
    if s.eq("animation") {
        Some(ReactionEffectType::Animation)
    } else if s.eq("actor_animation") {
        Some(ReactionEffectType::ActorAnimation)
    } else if s.eq("sound") {
        Some(ReactionEffectType::Sound)
    } else if s.eq("state_change") {
        Some(ReactionEffectType::StateChange)
    } else if s.eq("target_state_change") {
        Some(ReactionEffectType::TargetStateChange)
    } else if s.eq("remove_item") {
        Some(ReactionEffectType::RemoveItem)
    } else if s.eq("spawn_item") {
        Some(ReactionEffectType::SpawnItem)
    } else if s.eq("set_flag") {
        Some(ReactionEffectType::SetFlag)
    } else if s.eq("clear_flag") {
        Some(ReactionEffectType::ClearFlag)
    } else if s.eq("dialogue_prompt") {
        Some(ReactionEffectType::DialoguePrompt)
    } else if s.eq("info_text") {
        Some(ReactionEffectType::InfoText)
    } else if s.eq("collider_change") {
        Some(ReactionEffectType::ColliderChange)
    } else {
        None
    }
}

/// The runtime condition for a JSON condition; an unknown type name is read as `EntityState`.
pub open spec fn condition_of(c: crate::config::Condition) -> Condition {
    Condition {
        condition_type: match condition_type_named(c.condition_type@) {
            Some(t) => t,
            None => ConditionType::EntityState,
        },
        state: c.state,
        item: c.item,
        flag: c.flag,
        entity: c.entity,
    }
}

/// Convert a JSON `Condition` to a runtime `Condition`.
pub fn convert_condition(json_cond: &crate::config::Condition) -> (r: Condition)
    ensures
        r == condition_of(*json_cond),
{
    let condition_type = match parse_condition_type(json_cond.condition_type.as_str()) {
        Some(t) => t,
        None => ConditionType::EntityState,
    };
    Condition {
        condition_type,
        state: copy_opt(&json_cond.state),
        item: copy_opt(&json_cond.item),
        flag: copy_opt(&json_cond.flag),
        entity: copy_opt(&json_cond.entity),
    }
}

/// The effect a JSON object describes: `None` when its `type` is missing, not a
/// string, or no known effect type.
pub open spec fn effect_of(v: JsonValue) -> Option<ReactionEffect> {
    match str_member(v, "type"@) {
        Some(t) => match effect_type_named(t@) {
            Some(effect_type) => Some(
                ReactionEffect {
                    effect_type,
                    anim: str_member(v, "anim"@),
                    asset: str_member(v, "asset"@),
                    new_state: str_member(v, "new_state"@),
                    entity: str_member(v, "entity"@),
                    item: str_member(v, "item"@),
                    flag: str_member(v, "flag"@),
                    prompt: str_member(v, "prompt"@),
                    text: str_member(v, "text"@),
                    enabled: bool_member(v, "enabled"@),
                },
            ),
            None => None,
        },
        None => None,
    }
}

/// The effects a JSON reaction array describes, skipping entries that describe none;
/// no effects when the value is no array.
pub open spec fn reaction_of(reaction: JsonValue) -> Seq<ReactionEffect> {
    match reaction {
        JsonValue::Array(a) => a@.filter_map(|v: JsonValue| effect_of(v)),
        _ => Seq::empty(),
    }
}

fn str_member_copy(v: &JsonValue, key: &str) -> (r: Option<String>)
    ensures
        r == str_member(*v, key@),
{
    match v.get_str(key) {
        Some(s) => Some(s.clone()),
        None => None,
    }
}

fn convert_effect(v: &JsonValue) -> (r: Option<ReactionEffect>)
    ensures
        r == effect_of(*v),
{
    let type_str = match v.get_str("type") {
        Some(t) => t,
        None => return None,
    };
    let effect_type = match parse_effect_type(type_str.as_str()) {
        Some(t) => t,
        None => return None,
    };
    Some(ReactionEffect {
        effect_type,
        anim: str_member_copy(v, "anim"),
        asset: str_member_copy(v, "asset"),
        new_state: str_member_copy(v, "new_state"),
        entity: str_member_copy(v, "entity"),
        item: str_member_copy(v, "item"),
        flag: str_member_copy(v, "flag"),
        prompt: str_member_copy(v, "prompt"),
        text: str_member_copy(v, "text"),
        enabled: v.get_bool("enabled"),
    })
}

/// Convert a JSON reaction array into runtime `ReactionEffect`s.
pub fn convert_reaction(reaction: &JsonValue) -> (r: Vec<ReactionEffect>)
    ensures
        r@ == reaction_of(*reaction),
{
    let arr = match reaction {
        JsonValue::Array(a) => a,
        _ => return Vec::new(),
    };
    let ghost f = |v: JsonValue| effect_of(v);
    let mut out: Vec<ReactionEffect> = Vec::new();
    let mut i: usize = 0;
    while i < arr.len()
        invariant
            i <= arr.len(),
            f == |v: JsonValue| effect_of(v),
            out@ == arr@.take(i as int).filter_map(f),
        decreases arr.len() - i,
    {
        assert(arr@.take(i + 1).drop_last() =~= arr@.take(i as int));
        match convert_effect(&arr[i]) {
            Some(e) => {
                out.push(e);
                assert(out@ =~= arr@.take(i + 1).filter_map(f));
            },
            None => {},
        }
        i += 1;
    }
    assert(arr@.take(arr.len() as int) =~= arr@);
    out
}

/// Convert a JSON `Interaction` to a runtime `Interaction`.
pub fn convert_interaction(json_inter: &crate::config::Interaction) -> (r: Interaction)
    ensures
        r@.id == json_inter.id@,
        r@.label == json_inter.label@,
        r@.conditions == json_inter.conditions@.map_values(|c: crate::config::Condition| condition_of(c)),
        r@.reaction == reaction_of(json_inter.reaction),
{
    let mut conditions: Vec<Condition> = Vec::new();
    let mut i: usize = 0;
    while i < json_inter.conditions.len()
        invariant
            i <= json_inter.conditions.len(),
            conditions@ == json_inter.conditions@.take(i as int).map_values(|c: crate::config::Condition| condition_of(c)),
        decreases json_inter.conditions.len() - i,
    {
        conditions.push(convert_condition(&json_inter.conditions[i]));
        assert(conditions@ =~= json_inter.conditions@.take(i + 1).map_values(|c: crate::config::Condition| condition_of(c)));
        i += 1;
    }
    assert(json_inter.conditions@.take(json_inter.conditions.len() as int) =~= json_inter.conditions@);
    Interaction {
        id: json_inter.id.clone(),
        label: json_inter.label.clone(),
        conditions,
        reaction: convert_reaction(&json_inter.reaction),
    }
}

/// Convert an `InteractionList` to a Vec of runtime `Interaction`s.
pub fn convert_interaction_list(list: &crate::config::InteractionList) -> (r: Vec<Interaction>)
    ensures
        r.len() == list.0.len(),
        forall|i: int| 0 <= i < r.len() ==> {
            &&& (#[trigger] r@[i])@.id == list.0@[i].id@
            &&& r@[i]@.label == list.0@[i].label@
            &&& r@[i]@.conditions == list.0@[i].conditions@.map_values(|c: crate::config::Condition| condition_of(c))
            &&& r@[i]@.reaction == reaction_of(list.0@[i].reaction)
        },
{
    let mut out: Vec<Interaction> = Vec::new();
    let mut i: usize = 0;
    while i < list.0.len()
        invariant
            i <= list.0.len(),
            out.len() == i,
            forall|k: int| 0 <= k < i ==> {
                &&& (#[trigger] out@[k])@.id == list.0@[k].id@
                &&& out@[k]@.label == list.0@[k].label@
                &&& out@[k]@.conditions == list.0@[k].conditions@.map_values(|c: crate::config::Condition| condition_of(c))
                &&& out@[k]@.reaction == reaction_of(list.0@[k].reaction)
            },
        decreases list.0.len() - i,
    {
        out.push(convert_interaction(&list.0[i]));
        i += 1;
    }
    out
}

} // verus!

verus! {

// ---------------------------------------------------------------------------
// Applying effects to the world
// ---------------------------------------------------------------------------

/// What an applied effect asks the rest of the game to do.
#[derive(Debug)]
pub enum EffectOutput {
    /// Show a text (or forward a dialogue prompt to the LLM).
    ShowText(ShowTextEvent),
    /// Play a sound.
    PlaySound(PlaySoundEvent),
    /// Play an animation on an entity.
    PlayAnimation(PlayAnimationEvent),
    /// Enable or disable the collider of the target (announced, not yet applied).
    ColliderChange { target_id: String, enabled: bool },
}

/// The parts of the world that effects change.
pub struct EffectWorld {
    /// The global flags.
    pub flags: FlagSet,
    /// Entity ids to entities.
    pub entity_ids: EntityIdMap,
    /// The state of every entity that has one.
    pub states: Vec<(u64, String)>,
    /// The inventory of the actor, if the actor has one.
    pub actor_items: Option<Vec<String>>,
}

/// The content of an `EffectWorld`.
pub struct WorldModel {
    pub flags: Set<Seq<char>>,
    pub ids: Seq<(Seq<char>, u64)>,
    pub states: Seq<(u64, Seq<char>)>,
    pub actor_items: Option<Seq<Seq<char>>>,
}

/// Entity states by content.
pub open spec fn state_pairs(states: Seq<(u64, String)>) -> Seq<(u64, Seq<char>)> {
    states.map_values(|p: (u64, String)| (p.0, p.1@))
}

impl View for EffectWorld {
    type V = WorldModel;

    open spec fn view(&self) -> WorldModel {
        WorldModel {
            flags: self.flags@,
            ids: id_pairs(self.entity_ids.0@),
            states: state_pairs(self.states@),
            actor_items: match self.actor_items {
                Some(v) => Some(ids(v@)),
                None => None,
            },
        }
    }
}

/// Every state entry of entity `e` set to `s`.
pub open spec fn set_state(states: Seq<(u64, Seq<char>)>, e: u64, s: Seq<char>) -> Seq<(u64, Seq<char>)> {
    states.map_values(|p: (u64, Seq<char>)| if p.0 == e { (e, s) } else { p })
}

/// The world and the requests after one effect of an interaction of `actor` on `target`.
pub open spec fn effect_step(
    w: WorldModel,
    e: ReactionEffect,
    target: u64,
    actor: u64,
    target_id: String,
) -> (WorldModel, Seq<EffectOutput>) {
    let none = Seq::<EffectOutput>::empty();
    match e.effect_type {
        ReactionEffectType::StateChange => match e.new_state {
            Some(ns) => (WorldModel { states: set_state(w.states, target, ns@), ..w }, none),
            None => (w, none),
        },
        ReactionEffectType::TargetStateChange => match (e.entity, e.new_state) {
            (Some(eid), Some(ns)) => match lookup(w.ids, eid@) {
                Some(t) => (WorldModel { states: set_state(w.states, t, ns@), ..w }, none),
                None => (w, none),
            },
            _ => (w, none),
        },
        ReactionEffectType::SetFlag => match e.flag {
            Some(f) => (WorldModel { flags: w.flags.insert(f@), ..w }, none),
            None => (w, none),
        },
        ReactionEffectType::ClearFlag => match e.flag {
            Some(f) => (WorldModel { flags: w.flags.remove(f@), ..w }, none),
            None => (w, none),
        },
        ReactionEffectType::RemoveItem => match (e.item, w.actor_items) {
            (Some(i), Some(items)) => (WorldModel { actor_items: Some(remove_first(items, i@)), ..w }, none),
            _ => (w, none),
        },
        ReactionEffectType::SpawnItem => match (e.item, w.actor_items) {
            (Some(i), Some(items)) => (WorldModel { actor_items: Some(items.push(i@)), ..w }, none),
            _ => (w, none),
        },
        ReactionEffectType::Sound => match e.asset {
            Some(a) => (w, seq![EffectOutput::PlaySound(PlaySoundEvent { asset: a })]),
            None => (w, none),
        },
        ReactionEffectType::Animation => match e.anim {
            Some(a) => (w, seq![EffectOutput::PlayAnimation(PlayAnimationEvent { entity: target, anim: a })]),
            None => (w, none),
        },
        ReactionEffectType::ActorAnimation => match e.anim {
            Some(a) => (w, seq![EffectOutput::PlayAnimation(PlayAnimationEvent { entity: actor, anim: a })]),
            None => (w, none),
        },
        ReactionEffectType::InfoText => match e.text {
            Some(t) => (w, seq![EffectOutput::ShowText(ShowTextEvent { text: t, is_dialogue_prompt: false })]),
            None => (w, none),
        },
        ReactionEffectType::DialoguePrompt => match e.prompt {
            Some(p) => (w, seq![EffectOutput::ShowText(ShowTextEvent { text: p, is_dialogue_prompt: true })]),
            None => (w, none),
        },
        ReactionEffectType::ColliderChange => match e.enabled {
            Some(b) => (w, seq![EffectOutput::ColliderChange { target_id, enabled: b }]),
            None => (w, none),
        },
    }
}

/// The world and the requests after the effects, applied in order.
pub open spec fn apply_effects(
    w: WorldModel,
    effects: Seq<ReactionEffect>,
    target: u64,
    actor: u64,
    target_id: String,
) -> (WorldModel, Seq<EffectOutput>)
    decreases effects.len(),
{
    if effects.len() == 0 {
        (w, Seq::empty())
    } else {
        let (w1, o1) = apply_effects(w, effects.drop_last(), target, actor, target_id);
        let (w2, o2) = effect_step(w1, effects.last(), target, actor, target_id);
        (w2, o1 + o2)
    }
}

fn set_entity_state(states: &mut Vec<(u64, String)>, e: u64, s: &String)
    ensures
        state_pairs(final(states)@) == set_state(state_pairs(old(states)@), e, s@),
{
    let mut i: usize = 0;
    while i < states.len()
        invariant
            i <= states.len(),
            states.len() == old(states).len(),
            forall|j: int| 0 <= j < i ==> #[trigger] state_pairs(states@)[j] == set_state(state_pairs(old(states)@), e, s@)[j],
            forall|j: int| i <= j < states.len() ==> #[trigger] states@[j] == old(states)@[j],
        decreases states.len() - i,
    {
        let ghost before = states@;
        if states[i].0 == e {
            states.set(i, (e, s.clone()));
        }
        assert forall|j: int| 0 <= j <= i implies #[trigger] state_pairs(states@)[j] == set_state(state_pairs(old(states)@), e, s@)[j] by {
            if j < i {
                assert(states@[j] == before[j]);
                assert(state_pairs(before)[j] == set_state(state_pairs(old(states)@), e, s@)[j]);
            }
        }
        i += 1;
    }
    assert(state_pairs(states@) =~= set_state(state_pairs(old(states)@), e, s@));
}

fn apply_effect(
    world: &mut EffectWorld,
    effect: &ReactionEffect,
    target: u64,
    actor: u64,
    target_id: &String,
) -> (out: Vec<EffectOutput>)
    ensures
        (final(world)@, out@) == effect_step(old(world)@, *effect, target, actor, *target_id),
{
    let mut out: Vec<EffectOutput> = Vec::new();
    match effect.effect_type {
        ReactionEffectType::StateChange => {
            if let Some(ns) = &effect.new_state {
                set_entity_state(&mut world.states, target, ns);
            }
        },
        ReactionEffectType::TargetStateChange => {
            if let (Some(eid), Some(ns)) = (&effect.entity, &effect.new_state) {
                if let Some(t) = world.entity_ids.get(eid.as_str()) {
                    set_entity_state(&mut world.states, t, ns);
                }
            }
        },
        ReactionEffectType::SetFlag => {
            if let Some(f) = &effect.flag {
                world.flags.insert(f.clone());
            }
        },
        ReactionEffectType::ClearFlag => {
            if let Some(f) = &effect.flag {
                world.flags.remove(f.as_str());
            }
        },
        ReactionEffectType::RemoveItem => {
            if let Some(item) = &effect.item {
                match &mut world.actor_items {
                    Some(items) => {
                        remove_item(items, item.as_str());
                    },
                    None => {},
                }
            }
        },
        ReactionEffectType::SpawnItem => {
            if let Some(item) = &effect.item {
                match &mut world.actor_items {
                    Some(items) => {
                        add_item(items, item.clone());
                    },
                    None => {},
                }
            }
        },
        ReactionEffectType::Sound => {
            if let Some(asset) = &effect.asset {
                out.push(EffectOutput::PlaySound(PlaySoundEvent { asset: asset.clone() }));
            }
        },
        ReactionEffectType::Animation => {
            if let Some(anim) = &effect.anim {
                out.push(EffectOutput::PlayAnimation(PlayAnimationEvent { entity: target, anim: anim.clone() }));
            }
        },
        ReactionEffectType::ActorAnimation => {
            if let Some(anim) = &effect.anim {
                out.push(EffectOutput::PlayAnimation(PlayAnimationEvent { entity: actor, anim: anim.clone() }));
            }
        },
        ReactionEffectType::InfoText => {
            if let Some(text) = &effect.text {
                out.push(EffectOutput::ShowText(ShowTextEvent { text: text.clone(), is_dialogue_prompt: false }));
            }
        },
        ReactionEffectType::DialoguePrompt => {
            if let Some(prompt) = &effect.prompt {
                out.push(EffectOutput::ShowText(ShowTextEvent { text: prompt.clone(), is_dialogue_prompt: true }));
            }
        },
        ReactionEffectType::ColliderChange => {
            if let Some(enabled) = effect.enabled {
                out.push(EffectOutput::ColliderChange { target_id: target_id.clone(), enabled });
            }
        },
    }
    assert(world@ == effect_step(old(world)@, *effect, target, actor, *target_id).0);
    assert(out@ =~= effect_step(old(world)@, *effect, target, actor, *target_id).1);
    out
}

/// Applies the effects of an interaction event to the world, in order, and
/// returns what the rest of the game must do (texts, sounds, animations).
pub fn apply_interaction_event(world: &mut EffectWorld, event: &InteractionEvent) -> (out: Vec<EffectOutput>)
    ensures
        (final(world)@, out@) == apply_effects(old(world)@, event.effects@, event.target, event.actor, event.target_id),
{
    let mut out: Vec<EffectOutput> = Vec::new();
    let mut i: usize = 0;
    while i < event.effects.len()
        invariant
            i <= event.effects.len(),
            (world@, out@) == apply_effects(old(world)@, event.effects@.take(i as int), event.target, event.actor, event.target_id),
        decreases event.effects.len() - i,
    {
        assert(event.effects@.take(i + 1).drop_last() =~= event.effects@.take(i as int));
        let mut step = apply_effect(world, &event.effects[i], event.target, event.actor, &event.target_id);
        let ghost prev = out@;
        out.append(&mut step);
        i += 1;
    }
    assert(event.effects@.take(event.effects.len() as int) =~= event.effects@);
    out
}

/// A map from entity id to entity state, built from `(id, state)` pairs; a later
/// pair for the same id replaces an earlier one.
pub fn build_entity_state_map(pairs: &[(String, String)]) -> (m: StringMap)
    ensures
        forall|k: Seq<char>| m.spec_get(k) == lookup(crate::collections::string_pairs(pairs@), k),
{
    let mut m = StringMap::new();
    let mut i: usize = 0;
    while i < pairs.len()
        invariant
            i <= pairs.len(),
            forall|k: Seq<char>| m.spec_get(k) == lookup(crate::collections::string_pairs(pairs@).take(i as int), k),
        decreases pairs.len() - i,
    {
        let ghost t = crate::collections::string_pairs(pairs@).take(i + 1);
        assert(t.drop_last() =~= crate::collections::string_pairs(pairs@).take(i as int));
        m.insert(pairs[i].0.clone(), pairs[i].1.clone());
        i += 1;
    }
    assert(crate::collections::string_pairs(pairs@).take(pairs.len() as int) =~= crate::collections::string_pairs(pairs@));
    m
}

} // verus!

verus! {

/// An interaction without conditions is always available.
pub proof fn lemma_no_conditions_always_hold(
    entity_state: Seq<char>,
    inventory: Seq<Seq<char>>,
    flags: Set<Seq<char>>,
    states: Option<StringMap>,
)
    ensures
        all_conditions_hold(Seq::empty(), entity_state, inventory, flags, states),
{
}

proof fn lemma_filter_within<A>(s: Seq<A>, pred: spec_fn(A) -> bool)
    ensures
        forall|i: int| 0 <= i < s.filter(pred).len() ==> s.contains(#[trigger] s.filter(pred)[i]),
    decreases s.len(),
{
    reveal(Seq::filter);
    if s.len() > 0 {
        lemma_filter_within(s.drop_last(), pred);
        let f = s.filter(pred);
        let d = s.drop_last().filter(pred);
        assert forall|i: int| 0 <= i < f.len() implies s.contains(#[trigger] f[i]) by {
            if i < d.len() {
                assert(f[i] == d[i]);
                let k = choose|k: int| 0 <= k < s.drop_last().len() && s.drop_last()[k] == d[i];
                assert(s[k] == f[i]);
            } else {
                assert(f[i] == s.last());
                assert(s[s.len() - 1] == f[i]);
            }
        }
    }
}

/// The interactions offered are exactly the entity's interactions whose
/// conditions all hold.
pub proof fn lemma_available_exactly_when_conditions_hold(
    interactions: Seq<InteractionView>,
    entity_state: Seq<char>,
    inventory: Seq<Seq<char>>,
    flags: Set<Seq<char>>,
    states: Option<StringMap>,
    x: InteractionView,
)
    ensures
        available_interactions(interactions, entity_state, inventory, flags, states).contains(x) <==> (
        interactions.contains(x) && all_conditions_hold(x.conditions, entity_state, inventory, flags, states)),
{
    let pred = |i: InteractionView| all_conditions_hold(i.conditions, entity_state, inventory, flags, states);
    let f = interactions.filter(pred);
    interactions.filter_lemma(pred);
    lemma_filter_within(interactions, pred);
    if f.contains(x) {
        let k = choose|k: int| 0 <= k < f.len() && f[k] == x;
        assert(pred(f[k]));
        assert(interactions.contains(f[k]));
    }
    if interactions.contains(x) && pred(x) {
        let k = choose|k: int| 0 <= k < interactions.len() && interactions[k] == x;
        assert(f.contains(interactions[k]));
    }
}

/// A `FlagSet` condition and a `FlagNotSet` condition on the same flag never
/// hold together, and one of them always holds.
pub proof fn lemma_flag_conditions_complement(
    set_cond: Condition,
    not_set_cond: Condition,
    entity_state: Seq<char>,
    inventory: Seq<Seq<char>>,
    flags: Set<Seq<char>>,
    states: Option<StringMap>,
)
    requires
        set_cond.condition_type == ConditionType::FlagSet,
        not_set_cond.condition_type == ConditionType::FlagNotSet,
        set_cond.flag is Some,
        not_set_cond.flag == set_cond.flag,
    ensures
        condition_holds(set_cond, entity_state, inventory, flags, states) != condition_holds(
            not_set_cond,
            entity_state,
            inventory,
            flags,
            states,
        ),
{
}

/// After a `SetFlag` effect the flag is set, so a `FlagSet` condition on it
/// holds; after a `ClearFlag` effect it is not set, so a `FlagNotSet`
/// condition holds.
pub proof fn lemma_flag_effects_decide_flag_conditions(
    w: WorldModel,
    e: ReactionEffect,
    c: Condition,
    target: u64,
    actor: u64,
    target_id: String,
    entity_state: Seq<char>,
    inventory: Seq<Seq<char>>,
    states: Option<StringMap>,
)
    requires
        e.flag is Some,
        c.flag == e.flag,
    ensures
        e.effect_type == ReactionEffectType::SetFlag && c.condition_type == ConditionType::FlagSet
            ==> condition_holds(c, entity_state, inventory, effect_step(w, e, target, actor, target_id).0.flags, states),
        e.effect_type == ReactionEffectType::ClearFlag && c.condition_type == ConditionType::FlagNotSet
            ==> condition_holds(c, entity_state, inventory, effect_step(w, e, target, actor, target_id).0.flags, states),
{
}

/// Effects that only ask for something to be shown or played leave the world
/// as it is; effects that change the world ask for nothing.
pub proof fn lemma_effects_either_change_world_or_output(
    w: WorldModel,
    e: ReactionEffect,
    target: u64,
    actor: u64,
    target_id: String,
)
    ensures
        (e.effect_type == ReactionEffectType::Sound || e.effect_type == ReactionEffectType::Animation
            || e.effect_type == ReactionEffectType::ActorAnimation || e.effect_type == ReactionEffectType::InfoText
            || e.effect_type == ReactionEffectType::DialoguePrompt || e.effect_type == ReactionEffectType::ColliderChange)
            ==> effect_step(w, e, target, actor, target_id).0 == w,
        (e.effect_type == ReactionEffectType::StateChange || e.effect_type == ReactionEffectType::TargetStateChange
            || e.effect_type == ReactionEffectType::SetFlag || e.effect_type == ReactionEffectType::ClearFlag
            || e.effect_type == ReactionEffectType::RemoveItem || e.effect_type == ReactionEffectType::SpawnItem)
            ==> effect_step(w, e, target, actor, target_id).1.len() == 0,
{
}

/// A `StateChange` effect puts every state entry of the target into the new
/// state and leaves the entries of other entities alone.
pub proof fn lemma_state_change_sets_target(
    w: WorldModel,
    e: ReactionEffect,
    target: u64,
    actor: u64,
    target_id: String,
)
    requires
        e.effect_type == ReactionEffectType::StateChange,
        e.new_state is Some,
    ensures
        ({
            let after = effect_step(w, e, target, actor, target_id).0.states;
            &&& after.len() == w.states.len()
            &&& forall|i: int|
                0 <= i < after.len() ==> #[trigger] after[i] == (if w.states[i].0 == target {
                    (target, e.new_state.unwrap()@)
                } else {
                    w.states[i]
                })
        }),
{
}

/// A `SpawnItem` effect puts the item into the actor's inventory, so an
/// `ActorHasItem` condition on it holds afterwards.
pub proof fn lemma_spawned_item_is_held(
    w: WorldModel,
    e: ReactionEffect,
    c: Condition,
    target: u64,
    actor: u64,
    target_id: String,
    entity_state: Seq<char>,
    flags: Set<Seq<char>>,
    states: Option<StringMap>,
)
    requires
        e.effect_type == ReactionEffectType::SpawnItem,
        e.item is Some,
        w.actor_items is Some,
        c.condition_type == ConditionType::ActorHasItem,
        c.item == e.item,
    ensures
        ({
            let items = effect_step(w, e, target, actor, target_id).0.actor_items.unwrap();
            condition_holds(c, entity_state, items, flags, states)
        }),
{
    let items = w.actor_items.unwrap().push(e.item.unwrap()@);
    assert(items[items.len() - 1] == e.item.unwrap()@);
}

/// What each effect that asks for something asks for, exactly once: an
/// `Animation` plays on the interaction's target (never on the actor), an
/// `ActorAnimation` on the actor, a `Sound` plays its asset, an `InfoText`
/// shows its text, a `DialoguePrompt` forwards its prompt to the language
/// model, a `ColliderChange` announces the target's new collider state. An
/// effect without its value asks for nothing.
pub proof fn lemma_effect_requests(w: WorldModel, e: ReactionEffect, target: u64, actor: u64, target_id: String)
    ensures
        e.effect_type == ReactionEffectType::Animation ==> effect_step(w, e, target, actor, target_id).1 == match e.anim {
            Some(a) => seq![EffectOutput::PlayAnimation(PlayAnimationEvent { entity: target, anim: a })],
            None => Seq::<EffectOutput>::empty(),
        },
        e.effect_type == ReactionEffectType::ActorAnimation ==> effect_step(w, e, target, actor, target_id).1
            == match e.anim {
            Some(a) => seq![EffectOutput::PlayAnimation(PlayAnimationEvent { entity: actor, anim: a })],
            None => Seq::<EffectOutput>::empty(),
        },
        e.effect_type == ReactionEffectType::Sound ==> effect_step(w, e, target, actor, target_id).1 == match e.asset {
            Some(a) => seq![EffectOutput::PlaySound(PlaySoundEvent { asset: a })],
            None => Seq::<EffectOutput>::empty(),
        },
        e.effect_type == ReactionEffectType::InfoText ==> effect_step(w, e, target, actor, target_id).1 == match e.text {
            Some(t) => seq![EffectOutput::ShowText(ShowTextEvent { text: t, is_dialogue_prompt: false })],
            None => Seq::<EffectOutput>::empty(),
        },
        e.effect_type == ReactionEffectType::DialoguePrompt ==> effect_step(w, e, target, actor, target_id).1
            == match e.prompt {
            Some(p) => seq![EffectOutput::ShowText(ShowTextEvent { text: p, is_dialogue_prompt: true })],
            None => Seq::<EffectOutput>::empty(),
        },
        e.effect_type == ReactionEffectType::ColliderChange ==> effect_step(w, e, target, actor, target_id).1
            == match e.enabled {
            Some(b) => seq![EffectOutput::ColliderChange { target_id, enabled: b }],
            None => Seq::<EffectOutput>::empty(),
        },
{
}

/// Every animation an interaction plays comes from one of its animation
/// effects, in order, and plays on the target for an `Animation` effect and on
/// the actor for an `ActorAnimation` one: the requests of a list of effects are
/// those of the list without its last effect, followed by the last effect's.
pub proof fn lemma_effect_requests_in_order(
    w: WorldModel,
    effects: Seq<ReactionEffect>,
    e: ReactionEffect,
    target: u64,
    actor: u64,
    target_id: String,
)
    ensures
        apply_effects(w, effects.push(e), target, actor, target_id).1 == apply_effects(w, effects, target, actor, target_id).1
            + effect_step(apply_effects(w, effects, target, actor, target_id).0, e, target, actor, target_id).1,
{
    assert(effects.push(e).drop_last() =~= effects);
}

/// An `ActorHasItem` condition on a named item looks at the whole inventory:
/// it holds exactly when the item is carried, wherever it stands in the list;
/// on `"*"` it holds exactly when anything is carried; with no item it holds.
pub proof fn lemma_item_condition_reads_whole_inventory(
    c: Condition,
    entity_state: Seq<char>,
    inventory: Seq<Seq<char>>,
    flags: Set<Seq<char>>,
    states: Option<StringMap>,
)
    requires
        c.condition_type == ConditionType::ActorHasItem,
    ensures
        c.item is None ==> condition_holds(c, entity_state, inventory, flags, states),
        c.item is Some && c.item.unwrap()@ == seq!['*'] ==> (condition_holds(c, entity_state, inventory, flags, states)
            <==> inventory.len() > 0),
        c.item is Some && c.item.unwrap()@ != seq!['*'] ==> (condition_holds(c, entity_state, inventory, flags, states)
            <==> exists|k: int| 0 <= k < inventory.len() && #[trigger] inventory[k] == c.item.unwrap()@),
{
}

/// An `ActorHasItem` condition does not depend on the order of the inventory:
/// two inventories holding the same items give the same answer.
pub proof fn lemma_item_condition_ignores_order(
    c: Condition,
    entity_state: Seq<char>,
    inv1: Seq<Seq<char>>,
    inv2: Seq<Seq<char>>,
    flags: Set<Seq<char>>,
    states: Option<StringMap>,
)
    requires
        c.condition_type == ConditionType::ActorHasItem,
        inv1.to_multiset() == inv2.to_multiset(),
    ensures
        condition_holds(c, entity_state, inv1, flags, states) == condition_holds(c, entity_state, inv2, flags, states),
{
    broadcast use vstd::seq_lib::group_to_multiset_ensures;

    assert(inv1.len() == inv1.to_multiset().len());
    assert(inv2.len() == inv2.to_multiset().len());
    if let Some(i) = c.item {
        assert(inv1.contains(i@) <==> inv1.to_multiset().count(i@) > 0);
        assert(inv2.contains(i@) <==> inv2.to_multiset().count(i@) > 0);
    }
}

/// What the other conditions look at: `EntityState` holds exactly when the
/// entity is in the required state, `FlagSet` / `FlagNotSet` exactly when the
/// flag is / is not set, `OtherEntityState` exactly when the named entity's
/// recorded state is the required one (never without the state map).
pub proof fn lemma_other_conditions(
    c: Condition,
    entity_state: Seq<char>,
    inventory: Seq<Seq<char>>,
    flags: Set<Seq<char>>,
    states: Option<StringMap>,
)
    ensures
        c.condition_type == ConditionType::EntityState && c.state is Some ==> (condition_holds(
            c,
            entity_state,
            inventory,
            flags,
            states,
        ) <==> entity_state == c.state.unwrap()@),
        c.condition_type == ConditionType::FlagSet && c.flag is Some ==> (condition_holds(
            c,
            entity_state,
            inventory,
            flags,
            states,
        ) <==> flags.contains(c.flag.unwrap()@)),
        c.condition_type == ConditionType::FlagNotSet && c.flag is Some ==> (condition_holds(
            c,
            entity_state,
            inventory,
            flags,
            states,
        ) <==> !flags.contains(c.flag.unwrap()@)),
        c.condition_type == ConditionType::OtherEntityState && c.entity is Some && c.state is Some ==> (condition_holds(
            c,
            entity_state,
            inventory,
            flags,
            states,
        ) <==> (states is Some && states.unwrap().spec_get(c.entity.unwrap()@) == Some(c.state.unwrap()@))),
{
}

/// What each world-changing effect changes, and nothing else: `SetFlag` /
/// `ClearFlag` add / take out the flag; `SpawnItem` adds the item to the
/// actor's inventory and `RemoveItem` takes one copy of it out (counted with
/// repeats); `TargetStateChange` sets the state of the entity the id names
/// (nothing when no entity has that id).
pub proof fn lemma_world_effects(w: WorldModel, e: ReactionEffect, target: u64, actor: u64, target_id: String)
    ensures
        e.effect_type == ReactionEffectType::SetFlag && e.flag is Some ==> effect_step(w, e, target, actor, target_id).0
            == (WorldModel { flags: w.flags.insert(e.flag.unwrap()@), ..w }),
        e.effect_type == ReactionEffectType::ClearFlag && e.flag is Some ==> effect_step(w, e, target, actor, target_id).0
            == (WorldModel { flags: w.flags.remove(e.flag.unwrap()@), ..w }),
        e.effect_type == ReactionEffectType::SpawnItem && e.item is Some && w.actor_items is Some ==> effect_step(
            w,
            e,
            target,
            actor,
            target_id,
        ).0.actor_items == Some(w.actor_items.unwrap().push(e.item.unwrap()@)),
        e.effect_type == ReactionEffectType::RemoveItem && e.item is Some && w.actor_items is Some ==> effect_step(
            w,
            e,
            target,
            actor,
            target_id,
        ).0.actor_items.unwrap().to_multiset() == w.actor_items.unwrap().to_multiset().remove(e.item.unwrap()@),
        (e.effect_type == ReactionEffectType::SpawnItem || e.effect_type == ReactionEffectType::RemoveItem) ==> {
            let after = effect_step(w, e, target, actor, target_id).0;
            after.flags == w.flags && after.states == w.states && after.ids == w.ids
        },
        e.effect_type == ReactionEffectType::TargetStateChange && e.entity is Some && e.new_state is Some ==> {
            let after = effect_step(w, e, target, actor, target_id).0;
            &&& after.flags == w.flags && after.ids == w.ids && after.actor_items == w.actor_items
            &&& match lookup(w.ids, e.entity.unwrap()@) {
                Some(t) => after.states == set_state(w.states, t, e.new_state.unwrap()@),
                None => after.states == w.states,
            }
        },
{
    broadcast use vstd::multiset::group_multiset_axioms;
    broadcast use vstd::seq_lib::group_to_multiset_ensures;

    if e.effect_type == ReactionEffectType::RemoveItem && e.item is Some && w.actor_items is Some {
        let items = w.actor_items.unwrap();
        let it = e.item.unwrap()@;
        crate::inventory::lemma_remove_takes_one_copy(items, it);
        if !items.contains(it) {
            assert(items.to_multiset().count(it) == 0);
            assert(items.to_multiset().remove(it) =~= items.to_multiset());
        }
    }
}

} // verus!
