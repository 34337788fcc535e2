//! Context areas: which entities, NPCs and player stand in an area, gathered
//! into one deterministic snapshot for the NPC decision pipeline.
//!
//! Positions arrive already discretised to tenths of a unit (`[i32; 3]`), so a
//! snapshot holds no floating point and hashes deterministically.

use vstd::prelude::*;
use std::collections::hash_map::DefaultHasher;
use std::hash::{Hash, Hasher};
use crate::collections::ids;
use crate::sorting::{sort_by, sort_owned, lemma_sort_by_map, lemma_sort_by_sorted, is_sorted_by, total_preorder, lemma_sorted_filter_map_reorder};
use crate::text::chars_of;

verus! {

broadcast use vstd::seq_lib::group_seq_properties;

/// The id of the area an entity currently occupies, if any.
#[derive(Debug, Clone, Default)]
pub struct InArea(pub Option<String>);

/// Unique string identifier for a world entity (e.g. `"door_tavern"`).
#[derive(Debug, Clone)]
pub struct EntityId(pub String);

/// Free-form state string (e.g. `"locked"`, `"open"`, `"idle"`).
#[derive(Debug, Clone)]
pub struct EntityState(pub String);

/// Interaction ids currently available on an entity.
#[derive(Debug, Clone)]
pub struct InteractionList(pub Vec<String>);

/// NPC personality; its `name` is what a snapshot records.
#[derive(Debug, Clone)]
pub struct NpcPersonality {
    pub name: String,
    pub role: String,
    pub traits: Vec<String>,
    pub backstory: String,
    pub speech_style: String,
    pub knowledge: Vec<String>,
    pub goals: Vec<String>,
    pub likes: Vec<String>,
    pub dislikes: Vec<String>,
}

/// What the NPC is currently doing, as a string for the snapshot.
#[derive(Debug, Clone, Default)]
pub struct NpcCurrentAction(pub String);

/// The player's inventory as item-id strings.
#[derive(Debug, Clone, Default)]
pub struct PlayerInventory(pub Vec<String>);

/// Marker of NPC entities.
#[derive(Debug, Clone)]
pub struct Npc;

/// The hash of the last area context an NPC observed; a different current hash
/// marks the context as changed.
#[derive(Debug, Clone, Default)]
pub struct NpcContextHash {
    pub last_context_hash: u64,
}

/// Lightweight description of a single entity inside an area.
#[derive(Debug, Clone, Hash)]
pub struct EntitySnapshot {
    pub id: String,
    pub state: String,
    pub position: [i32; 3],
    pub interactions: Vec<String>,
}

/// Lightweight description of an NPC inside an area.
#[derive(Debug, Clone, Hash)]
pub struct NpcSnapshot {
    pub id: String,
    pub name: String,
    pub state: String,
    pub position: [i32; 3],
    pub current_action: String,
}

/// What the area context records of the player.
#[derive(Debug, Clone, Hash)]
pub struct PlayerSnapshot {
    pub position: [i32; 3],
    pub inventory: Vec<String>,
}

/// Everything happening inside one area at one instant.
#[derive(Debug, Clone, Hash)]
pub struct AreaContext {
    pub area_id: String,
    pub area_label: String,
    pub area_description: String,
    pub entities: Vec<EntitySnapshot>,
    pub npcs: Vec<NpcSnapshot>,
    pub player: Option<PlayerSnapshot>,
}

pub struct EntitySnapshotView {
    pub id: Seq<char>,
    pub state: Seq<char>,
    pub position: [i32; 3],
    pub interactions: Seq<Seq<char>>,
}

pub struct NpcSnapshotView {
    pub id: Seq<char>,
    pub name: Seq<char>,
    pub state: Seq<char>,
    pub position: [i32; 3],
    pub current_action: Seq<char>,
}

pub struct PlayerSnapshotView {
    pub position: [i32; 3],
    pub inventory: Seq<Seq<char>>,
}

pub struct AreaContextView {
    pub area_id: Seq<char>,
    pub area_label: Seq<char>,
    pub area_description: Seq<char>,
    pub entities: Seq<EntitySnapshotView>,
    pub npcs: Seq<NpcSnapshotView>,
    pub player: Option<PlayerSnapshotView>,
}

impl View for EntitySnapshot {
    type V = EntitySnapshotView;

    open spec fn view(&self) -> EntitySnapshotView {
        EntitySnapshotView {
            id: self.id@,
            state: self.state@,
            position: self.position,
            interactions: ids(self.interactions@),
        }
    }
}

impl View for NpcSnapshot {
    type V = NpcSnapshotView;

    open spec fn view(&self) -> NpcSnapshotView {
        NpcSnapshotView {
            id: self.id@,
            name: self.name@,
            state: self.state@,
            position: self.position,
            current_action: self.current_action@,
        }
    }
}

impl View for PlayerSnapshot {
    type V = PlayerSnapshotView;

    open spec fn view(&self) -> PlayerSnapshotView {
        PlayerSnapshotView { position: self.position, inventory: ids(self.inventory@) }
    }
}

/// The views of a list of entity snapshots.
pub open spec fn entity_views(v: Seq<EntitySnapshot>) -> Seq<EntitySnapshotView> {
    v.map_values(|e: EntitySnapshot| e@)
}

/// The views of a list of NPC snapshots.
pub open spec fn npc_views(v: Seq<NpcSnapshot>) -> Seq<NpcSnapshotView> {
    v.map_values(|n: NpcSnapshot| n@)
}

impl View for AreaContext {
    type V = AreaContextView;

    open spec fn view(&self) -> AreaContextView {
        AreaContextView {
            area_id: self.area_id@,
            area_label: self.area_label@,
            area_description: self.area_description@,
            entities: entity_views(self.entities@),
            npcs: npc_views(self.npcs@),
            player: match self.player {
                Some(p) => Some(p@),
                None => None,
            },
        }
    }
}

impl NpcContextHash {
    /// A fresh record: no context seen yet (hash 0).
    pub fn new() -> (h: NpcContextHash)
        ensures
            h.last_context_hash == 0,
    {
        NpcContextHash { last_context_hash: 0 }
    }
}

} // verus!

verus! {

/// `a` comes no later than `b` in the order `str::cmp` gives strings
/// (character by character, a prefix first).
pub open spec fn text_le(a: Seq<char>, b: Seq<char>) -> bool
    decreases a.len(),
{
    if a.len() == 0 {
        true
    } else if b.len() == 0 {
        false
    } else if a[0] < b[0] {
        true
    } else if a[0] > b[0] {
        false
    } else {
        text_le(a.drop_first(), b.drop_first())
    }
}

/// Whether `a` comes no later than `b` in string order.
pub fn str_le(a: &str, b: &str) -> (r: bool)
    ensures
        r == text_le(a@, b@),
{
    let x = chars_of(a);
    let y = chars_of(b);
    let mut i: usize = 0;
    while i < x.len() && i < y.len() && x[i] == y[i]
        invariant
            i <= x.len(),
            i <= y.len(),
            text_le(x@, y@) == text_le(x@.skip(i as int), y@.skip(i as int)),
        decreases x.len() - i,
    {
        assert(x@.skip(i as int).drop_first() =~= x@.skip(i + 1));
        assert(y@.skip(i as int).drop_first() =~= y@.skip(i + 1));
        i += 1;
    }
    if i == x.len() {
        assert(x@.skip(i as int).len() == 0);
        true
    } else if i == y.len() {
        assert(x@.skip(i as int).len() > 0 && y@.skip(i as int).len() == 0);
        false
    } else {
        let xc = x[i];
        let yc = y[i];
        assert(x@.skip(i as int)[0] == xc);
        assert(y@.skip(i as int)[0] == yc);
        xc < yc
    }
}

/// The entity stands in the area `id`.
pub open spec fn in_area(a: InArea, id: Seq<char>) -> bool {
    a.0 is Some && a.0.unwrap()@ == id
}

/// An area as the snapshot builder reads it.
#[derive(Debug, Clone)]
pub struct AreaInfo {
    pub id: String,
    pub label: String,
    pub description: String,
}

/// A plain entity as the snapshot builder reads it.
#[derive(Debug, Clone)]
pub struct EntityRecord {
    pub id: EntityId,
    pub state: EntityState,
    pub position: [i32; 3],
    pub in_area: InArea,
    pub interactions: Option<InteractionList>,
}

/// An NPC as the snapshot builder reads it.
#[derive(Debug, Clone)]
pub struct NpcRecord {
    pub id: EntityId,
    pub state: EntityState,
    pub position: [i32; 3],
    pub in_area: InArea,
    pub name: String,
    pub action: Option<NpcCurrentAction>,
}

/// The player as the snapshot builder reads it.
#[derive(Debug, Clone)]
pub struct PlayerRecord {
    pub position: [i32; 3],
    pub in_area: InArea,
    pub inventory: Option<PlayerInventory>,
}

/// The snapshot of an entity record (no interaction list: none).
pub open spec fn entity_view_of(e: EntityRecord) -> EntitySnapshotView {
    EntitySnapshotView {
        id: e.id.0@,
        state: e.state.0@,
        position: e.position,
        interactions: match e.interactions {
            Some(l) => ids(l.0@),
            None => Seq::empty(),
        },
    }
}

/// The snapshot of an NPC record (no current action: `"idle"`).
pub open spec fn npc_view_of(n: NpcRecord) -> NpcSnapshotView {
    NpcSnapshotView {
        id: n.id.0@,
        name: n.name@,
        state: n.state.0@,
        position: n.position,
        current_action: match n.action {
            Some(a) => a.0@,
            None => "idle"@,
        },
    }
}

/// The snapshot of the player record (no inventory: empty).
pub open spec fn player_view_of(p: PlayerRecord) -> PlayerSnapshotView {
    PlayerSnapshotView {
        position: p.position,
        inventory: match p.inventory {
            Some(i) => ids(i.0@),
            None => Seq::empty(),
        },
    }
}

/// The snapshot of an entity, when it stands in area `id`.
pub open spec fn entity_in(id: Seq<char>) -> spec_fn(EntityRecord) -> Option<EntitySnapshotView> {
    |e: EntityRecord| if in_area(e.in_area, id) { Some(entity_view_of(e)) } else { None }
}

/// The snapshot of an NPC, when it stands in area `id`.
pub open spec fn npc_in(id: Seq<char>) -> spec_fn(NpcRecord) -> Option<NpcSnapshotView> {
    |n: NpcRecord| if in_area(n.in_area, id) { Some(npc_view_of(n)) } else { None }
}

/// Snapshot order: by id.
pub open spec fn entity_view_le(a: EntitySnapshotView, b: EntitySnapshotView) -> bool {
    text_le(a.id, b.id)
}

/// Snapshot order: by id.
pub open spec fn npc_view_le(a: NpcSnapshotView, b: NpcSnapshotView) -> bool {
    text_le(a.id, b.id)
}

/// The order in which a context lists entities.
pub open spec fn entity_order() -> spec_fn(EntitySnapshotView, EntitySnapshotView) -> bool {
    |x: EntitySnapshotView, y: EntitySnapshotView| entity_view_le(x, y)
}

/// The order in which a context lists NPCs.
pub open spec fn npc_order() -> spec_fn(NpcSnapshotView, NpcSnapshotView) -> bool {
    |x: NpcSnapshotView, y: NpcSnapshotView| npc_view_le(x, y)
}

/// The first area with id `id`.
pub open spec fn area_named(areas: Seq<AreaInfo>, id: Seq<char>) -> Option<AreaInfo>
    decreases areas.len(),
{
    if areas.len() == 0 {
        None
    } else if areas[0].id@ == id {
        Some(areas[0])
    } else {
        area_named(areas.drop_first(), id)
    }
}

/// The snapshot of the first player standing in area `id`.
pub open spec fn player_in(players: Seq<PlayerRecord>, id: Seq<char>) -> Option<PlayerSnapshotView>
    decreases players.len(),
{
    if players.len() == 0 {
        None
    } else if in_area(players[0].in_area, id) {
        Some(player_view_of(players[0]))
    } else {
        player_in(players.drop_first(), id)
    }
}

/// The context of area `id`: its description, the entities and NPCs in it
/// sorted by id (stably), and the first player in it; `None` when no area has
/// that id.
pub open spec fn area_context_of(
    id: Seq<char>,
    areas: Seq<AreaInfo>,
    entities: Seq<EntityRecord>,
    npcs: Seq<NpcRecord>,
    players: Seq<PlayerRecord>,
) -> Option<AreaContextView> {
    match area_named(areas, id) {
        None => None,
        Some(a) => Some(
            AreaContextView {
                area_id: a.id@,
                area_label: a.label@,
                area_description: a.description@,
                entities: sort_by(entities.filter_map(entity_in(id)), entity_order()),
                npcs: sort_by(npcs.filter_map(npc_in(id)), npc_order()),
                player: player_in(players, id),
            },
        ),
    }
}

fn clone_strings(v: &Vec<String>) -> (r: Vec<String>)
    ensures
        ids(r@) == ids(v@),
{
    let mut r: Vec<String> = Vec::new();
    let mut i: usize = 0;
    while i < v.len()
        invariant
            i <= v.len(),
            r@ == v@.take(i as int),
        decreases v.len() - i,
    {
        r.push(v[i].clone());
        assert(r@ =~= v@.take(i + 1));
        i += 1;
    }
    assert(v@.take(v.len() as int) =~= v@);
    r
}

fn is_in_area(a: &InArea, id: &str) -> (r: bool)
    ensures
        r == in_area(*a, id@),
{
    match &a.0 {
        Some(s) => s.as_str().eq(id),
        None => false,
    }
}

fn entity_snapshot(e: &EntityRecord) -> (s: EntitySnapshot)
    ensures
        s@ == entity_view_of(*e),
{
    let interactions = match &e.interactions {
        Some(l) => clone_strings(&l.0),
        None => Vec::new(),
    };
    proof {
        if e.interactions is None {
            assert(ids(interactions@) =~= Seq::<Seq<char>>::empty());
        }
    }
    EntitySnapshot { id: e.id.0.clone(), state: e.state.0.clone(), position: e.position, interactions }
}

fn npc_snapshot(n: &NpcRecord) -> (s: NpcSnapshot)
    ensures
        s@ == npc_view_of(*n),
{
    let current_action = match &n.action {
        Some(a) => a.0.clone(),
        None => "idle".to_owned(),
    };
    NpcSnapshot {
        id: n.id.0.clone(),
        name: n.name.clone(),
        state: n.state.0.clone(),
        position: n.position,
        current_action,
    }
}

fn player_snapshot(p: &PlayerRecord) -> (s: PlayerSnapshot)
    ensures
        s@ == player_view_of(*p),
{
    let inventory = match &p.inventory {
        Some(i) => clone_strings(&i.0),
        None => Vec::new(),
    };
    proof {
        if p.inventory is None {
            assert(ids(inventory@) =~= Seq::<Seq<char>>::empty());
        }
    }
    PlayerSnapshot { position: p.position, inventory }
}

fn find_area(areas: &[AreaInfo], id: &str) -> (r: Option<usize>)
    ensures
        match r {
            Some(i) => i < areas.len() && area_named(areas@, id@) == Some(areas@[i as int]),
            None => area_named(areas@, id@) is None,
        },
{
    let mut i: usize = 0;
    while i < areas.len()
        invariant
            i <= areas.len(),
            area_named(areas@, id@) == area_named(areas@.skip(i as int), id@),
        decreases areas.len() - i,
    {
        assert(areas@.skip(i as int)[0] == areas@[i as int]);
        if areas[i].id.as_str().eq(id) {
            return Some(i);
        }
        assert(areas@.skip(i as int).drop_first() =~= areas@.skip(i + 1));
        i += 1;
    }
    None
}

fn find_player(players: &[PlayerRecord], id: &str) -> (r: Option<PlayerSnapshot>)
    ensures
        match r {
            Some(p) => player_in(players@, id@) == Some(p@),
            None => player_in(players@, id@) is None,
        },
{
    let mut i: usize = 0;
    while i < players.len()
        invariant
            i <= players.len(),
            player_in(players@, id@) == player_in(players@.skip(i as int), id@),
        decreases players.len() - i,
    {
        assert(players@.skip(i as int)[0] == players@[i as int]);
        if is_in_area(&players[i].in_area, id) {
            return Some(player_snapshot(&players[i]));
        }
        assert(players@.skip(i as int).drop_first() =~= players@.skip(i + 1));
        i += 1;
    }
    None
}

fn entities_in(entities: &[EntityRecord], id: &str) -> (r: Vec<EntitySnapshot>)
    ensures
        entity_views(r@) == entities@.filter_map(entity_in(id@)),
{
    let mut r: Vec<EntitySnapshot> = Vec::new();
    let mut i: usize = 0;
    while i < entities.len()
        invariant
            i <= entities.len(),
            entity_views(r@) == entities@.take(i as int).filter_map(entity_in(id@)),
        decreases entities.len() - i,
    {
        assert(entities@.take(i + 1).drop_last() =~= entities@.take(i as int));
        if is_in_area(&entities[i].in_area, id) {
            let s = entity_snapshot(&entities[i]);
            r.push(s);
        }
        assert(entity_views(r@) =~= entities@.take(i + 1).filter_map(entity_in(id@)));
        i += 1;
    }
    assert(entities@.take(entities.len() as int) =~= entities@);
    r
}

fn npcs_in(npcs: &[NpcRecord], id: &str) -> (r: Vec<NpcSnapshot>)
    ensures
        npc_views(r@) == npcs@.filter_map(npc_in(id@)),
{
    let mut r: Vec<NpcSnapshot> = Vec::new();
    let mut i: usize = 0;
    while i < npcs.len()
        invariant
            i <= npcs.len(),
            npc_views(r@) == npcs@.take(i as int).filter_map(npc_in(id@)),
        decreases npcs.len() - i,
    {
        assert(npcs@.take(i + 1).drop_last() =~= npcs@.take(i as int));
        if is_in_area(&npcs[i].in_area, id) {
            let s = npc_snapshot(&npcs[i]);
            r.push(s);
        }
        assert(npc_views(r@) =~= npcs@.take(i + 1).filter_map(npc_in(id@)));
        i += 1;
    }
    assert(npcs@.take(npcs.len() as int) =~= npcs@);
    r
}

/// Builds the snapshot of area `area_id` from the areas, entities, NPCs and
/// players gathered this frame; `None` when no area has that id.
pub fn build_area_context(
    area_id: &str,
    areas: &[AreaInfo],
    entities: &[EntityRecord],
    npcs: &[NpcRecord],
    players: &[PlayerRecord],
) -> (r: Option<AreaContext>)
    ensures
        match r {
            Some(c) => area_context_of(area_id@, areas@, entities@, npcs@, players@) == Some(c@),
            None => area_context_of(area_id@, areas@, entities@, npcs@, players@) is None,
        },
{
    let k = match find_area(areas, area_id) {
        Some(k) => k,
        None => return None,
    };
    let ents = entities_in(entities, area_id);
    let le_e = |a: &EntitySnapshot, b: &EntitySnapshot| -> (r: bool)
        ensures
            r == text_le(a.id@, b.id@),
        { str_le(a.id.as_str(), b.id.as_str()) };
    let ghost spec_le_e = |a: EntitySnapshot, b: EntitySnapshot| text_le(a.id@, b.id@);
    let sorted_e = sort_owned(ents, &le_e, Ghost(spec_le_e));
    proof {
        lemma_sort_by_map(
            ents@,
            |e: EntitySnapshot| e@,
            spec_le_e,
            entity_order(),
        );
    }
    let ns = npcs_in(npcs, area_id);
    let le_n = |a: &NpcSnapshot, b: &NpcSnapshot| -> (r: bool)
        ensures
            r == text_le(a.id@, b.id@),
        { str_le(a.id.as_str(), b.id.as_str()) };
    let ghost spec_le_n = |a: NpcSnapshot, b: NpcSnapshot| text_le(a.id@, b.id@);
    let sorted_n = sort_owned(ns, &le_n, Ghost(spec_le_n));
    proof {
        lemma_sort_by_map(
            ns@,
            |n: NpcSnapshot| n@,
            spec_le_n,
            npc_order(),
        );
    }
    let player = find_player(players, area_id);
    let a = &areas[k];
    let c = AreaContext {
        area_id: a.id.clone(),
        area_label: a.label.clone(),
        area_description: a.description.clone(),
        entities: sorted_e,
        npcs: sorted_n,
        player,
    };
    Some(c)
}

} // verus!

verus! {

/// The hash that `DefaultHasher` gives an area context through its derived
/// `Hash`: a function of the context's contents.
pub uninterp spec fn area_hash(ctx: AreaContextView) -> u64;

/// A deterministic 64-bit hash of an area context, for change detection.
///
/// Trusted: feeds the context to `std::collections::hash_map::DefaultHasher`
/// (created with `new`, which is not randomly seeded) through the derived
/// `Hash` and returns `finish`. The contract only names the result as a
/// function of the context's contents.
#[verifier::external_body]
pub fn context_hash(ctx: &AreaContext) -> (h: u64)
    ensures
        h == area_hash(ctx@),
{
    let mut hasher = DefaultHasher::new();
    ctx.hash(&mut hasher);
    hasher.finish()
}

/// Equal contexts hash alike: an unchanged area never reads as changed.
pub proof fn lemma_context_hash_deterministic(a: AreaContextView, b: AreaContextView)
    requires
        a == b,
    ensures
        area_hash(a) == area_hash(b),
{
}

} // verus!

verus! {

proof fn lemma_text_le_total(a: Seq<char>, b: Seq<char>)
    ensures
        text_le(a, b) || text_le(b, a),
    decreases a.len(),
{
    if a.len() > 0 && b.len() > 0 && a[0] == b[0] {
        lemma_text_le_total(a.drop_first(), b.drop_first());
    }
}

proof fn lemma_text_le_transitive(a: Seq<char>, b: Seq<char>, c: Seq<char>)
    requires
        text_le(a, b),
        text_le(b, c),
    ensures
        text_le(a, c),
    decreases a.len(),
{
    if a.len() > 0 && b.len() > 0 && c.len() > 0 && a[0] == b[0] && b[0] == c[0] {
        lemma_text_le_transitive(a.drop_first(), b.drop_first(), c.drop_first());
    }
}

proof fn lemma_text_le_antisymmetric(a: Seq<char>, b: Seq<char>)
    requires
        text_le(a, b),
        text_le(b, a),
    ensures
        a == b,
    decreases a.len(),
{
    if a.len() > 0 && b.len() > 0 {
        lemma_text_le_antisymmetric(a.drop_first(), b.drop_first());
        assert(a =~= seq![a[0]] + a.drop_first());
        assert(b =~= seq![b[0]] + b.drop_first());
    } else {
        assert(a.len() == 0 && b.len() == 0);
        assert(a =~= b);
    }
}

/// Ids in string order form a total preorder on snapshots.
proof fn lemma_snapshot_orders()
    ensures
        total_preorder(entity_order()),
        total_preorder(npc_order()),
{
    assert forall|x: EntitySnapshotView, y: EntitySnapshotView| #[trigger] entity_order()(x, y) || entity_order()(y, x) by {
        lemma_text_le_total(x.id, y.id);
    }
    assert forall|x: EntitySnapshotView, y: EntitySnapshotView, z: EntitySnapshotView|
        #[trigger] entity_order()(x, y) && #[trigger] entity_order()(y, z) implies entity_order()(x, z) by {
        lemma_text_le_transitive(x.id, y.id, z.id);
    }
    assert forall|x: NpcSnapshotView, y: NpcSnapshotView| #[trigger] npc_order()(x, y) || npc_order()(y, x) by {
        lemma_text_le_total(x.id, y.id);
    }
    assert forall|x: NpcSnapshotView, y: NpcSnapshotView, z: NpcSnapshotView|
        #[trigger] npc_order()(x, y) && #[trigger] npc_order()(y, z) implies npc_order()(x, z) by {
        lemma_text_le_transitive(x.id, y.id, z.id);
    }
}

/// A context lists its entities and NPCs in string order of their ids.
pub proof fn lemma_context_sorted_by_id(
    id: Seq<char>,
    areas: Seq<AreaInfo>,
    entities: Seq<EntityRecord>,
    npcs: Seq<NpcRecord>,
    players: Seq<PlayerRecord>,
)
    ensures
        area_context_of(id, areas, entities, npcs, players) matches Some(c) ==> {
            &&& forall|i: int, j: int| 0 <= i < j < c.entities.len() ==> text_le(c.entities[i].id, c.entities[j].id)
            &&& forall|i: int, j: int| 0 <= i < j < c.npcs.len() ==> text_le(c.npcs[i].id, c.npcs[j].id)
        },
{
    lemma_snapshot_orders();
    lemma_sort_by_sorted(entities.filter_map(entity_in(id)), entity_order());
    lemma_sort_by_sorted(npcs.filter_map(npc_in(id)), npc_order());
    if let Some(c) = area_context_of(id, areas, entities, npcs, players) {
        assert forall|i: int, j: int| 0 <= i < j < c.entities.len() implies text_le(c.entities[i].id, c.entities[j].id) by {
            assert(entity_order()(c.entities[i], c.entities[j]));
        }
        assert forall|i: int, j: int| 0 <= i < j < c.npcs.len() implies text_le(c.npcs[i].id, c.npcs[j].id) by {
            assert(npc_order()(c.npcs[i], c.npcs[j]));
        }
    }
}

/// The context of an area does not depend on the order in which its entities
/// and NPCs were gathered, as long as no two entities (and no two NPCs) in the
/// area share an id: the same snapshot, and so the same hash, comes out.
pub proof fn lemma_context_independent_of_gather_order(
    id: Seq<char>,
    areas: Seq<AreaInfo>,
    entities1: Seq<EntityRecord>,
    entities2: Seq<EntityRecord>,
    npcs1: Seq<NpcRecord>,
    npcs2: Seq<NpcRecord>,
    players: Seq<PlayerRecord>,
)
    requires
        entities1.to_multiset() == entities2.to_multiset(),
        npcs1.to_multiset() == npcs2.to_multiset(),
        forall|i: int, j: int|
            0 <= i < j < entities1.len() && in_area(entities1[i].in_area, id) && in_area(entities1[j].in_area, id)
                ==> #[trigger] entities1[i].id.0@ != #[trigger] entities1[j].id.0@,
        forall|i: int, j: int|
            0 <= i < j < npcs1.len() && in_area(npcs1[i].in_area, id) && in_area(npcs1[j].in_area, id)
                ==> #[trigger] npcs1[i].id.0@ != #[trigger] npcs1[j].id.0@,
    ensures
        area_context_of(id, areas, entities1, npcs1, players) == area_context_of(id, areas, entities2, npcs2, players),
{
    lemma_snapshot_orders();
    let fe = entity_in(id);
    let fn_ = npc_in(id);
    let me = entities1.filter_map(fe);
    let mn = npcs1.filter_map(fn_);
    assert forall|a: EntitySnapshotView, b: EntitySnapshotView| #![trigger entity_order()(a, b), entity_order()(b, a)]
        me.contains(a) && me.contains(b) && entity_order()(a, b) && entity_order()(b, a) implies a == b by {
        lemma_text_le_antisymmetric(a.id, b.id);
        entities1.lemma_filter_map_contains(fe, a);
        entities1.lemma_filter_map_contains(fe, b);
        let t = choose|t: EntityRecord| #[trigger] entities1.contains(t) && fe(t) == Some(a);
        let u = choose|u: EntityRecord| #[trigger] entities1.contains(u) && fe(u) == Some(b);
        let p = choose|p: int| 0 <= p < entities1.len() && entities1[p] == t;
        let q = choose|q: int| 0 <= q < entities1.len() && entities1[q] == u;
        if p < q {
            assert(entities1[p].id.0@ != entities1[q].id.0@);
        } else if q < p {
            assert(entities1[q].id.0@ != entities1[p].id.0@);
        }
    }
    assert forall|a: NpcSnapshotView, b: NpcSnapshotView| #![trigger npc_order()(a, b), npc_order()(b, a)]
        mn.contains(a) && mn.contains(b) && npc_order()(a, b) && npc_order()(b, a) implies a == b by {
        lemma_text_le_antisymmetric(a.id, b.id);
        npcs1.lemma_filter_map_contains(fn_, a);
        npcs1.lemma_filter_map_contains(fn_, b);
        let t = choose|t: NpcRecord| #[trigger] npcs1.contains(t) && fn_(t) == Some(a);
        let u = choose|u: NpcRecord| #[trigger] npcs1.contains(u) && fn_(u) == Some(b);
        let p = choose|p: int| 0 <= p < npcs1.len() && npcs1[p] == t;
        let q = choose|q: int| 0 <= q < npcs1.len() && npcs1[q] == u;
        if p < q {
            assert(npcs1[p].id.0@ != npcs1[q].id.0@);
        } else if q < p {
            assert(npcs1[q].id.0@ != npcs1[p].id.0@);
        }
    }
    lemma_sorted_filter_map_reorder(entities1, entities2, fe, entity_order());
    lemma_sorted_filter_map_reorder(npcs1, npcs2, fn_, npc_order());
}

} // verus!
