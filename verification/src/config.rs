//! Interaction definitions as they are read from an entity's JSON file.

use vstd::prelude::*;
use crate::json::JsonValue;

verus! {

/// A condition as written in the JSON file; `condition_type` is its type name.
pub struct Condition {
    pub condition_type: String,
    pub state: Option<String>,
    pub item: Option<String>,
    pub flag: Option<String>,
    pub entity: Option<String>,
}

/// An interaction as written in the JSON file; `reaction` is the raw array of effects.
pub struct Interaction {
    pub id: String,
    pub label: String,
    pub conditions: Vec<Condition>,
    pub reaction: JsonValue,
}

/// The interactions of an entity as written in its JSON file.
pub struct InteractionList(pub Vec<Interaction>);

} // verus!
