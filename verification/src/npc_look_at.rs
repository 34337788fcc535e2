//! Which NPC a "head" bone belongs to, so that the NPC can turn its head.

use vstd::prelude::*;

verus! {

/// The first of `ancestors` (nearest first) that is an NPC.
pub open spec fn first_npc(ancestors: Seq<u64>, npcs: Seq<u64>) -> Option<u64>
    decreases ancestors.len(),
{
    if ancestors.len() == 0 {
        None
    } else if npcs.contains(ancestors[0]) {
        Some(ancestors[0])
    } else {
        first_npc(ancestors.drop_first(), npcs)
    }
}

/// The NPC whose head a bone is: the bone is named `head`, and its nearest
/// ancestor that is an NPC has no head bone yet.
pub open spec fn head_owner(name: Seq<char>, ancestors: Seq<u64>, npcs: Seq<u64>, assigned: Seq<u64>) -> Option<u64> {
    if name != "head"@ {
        None
    } else {
        match first_npc(ancestors, npcs) {
            Some(n) => if assigned.contains(n) { None } else { Some(n) },
            None => None,
        }
    }
}

fn contains_id(v: &[u64], x: u64) -> (r: bool)
    ensures
        r == v@.contains(x),
{
    let mut i: usize = 0;
    while i < v.len()
        invariant
            i <= v.len(),
            forall|j: int| 0 <= j < i ==> v@[j] != x,
        decreases v.len() - i,
    {
        if v[i] == x {
            assert(v@[i as int] == x);
            return true;
        }
        i += 1;
    }
    false
}

/// The NPC a bone named `name` is the head of, given its ancestors (parent
/// first), the NPCs, and the NPCs whose head bone is already known.
pub fn head_bone_owner(name: &str, ancestors: &[u64], npcs: &[u64], assigned: &[u64]) -> (r: Option<u64>)
    ensures
        r == head_owner(name@, ancestors@, npcs@, assigned@),
{
    if !name.eq("head") {
        return None;
    }
    proof {
        reveal_strlit("head");
        assert(ancestors@.skip(0) =~= ancestors@);
    }
    let mut i: usize = 0;
    while i < ancestors.len()
        invariant
            i <= ancestors.len(),
            name@ == "head"@,
            first_npc(ancestors@, npcs@) == first_npc(ancestors@.skip(i as int), npcs@),
        decreases ancestors.len() - i,
    {
        assert(ancestors@.skip(i as int)[0] == ancestors@[i as int]);
        if contains_id(npcs, ancestors[i]) {
            if contains_id(assigned, ancestors[i]) {
                return None;
            }
            return Some(ancestors[i]);
        }
        assert(ancestors@.skip(i as int).drop_first() =~= ancestors@.skip(i + 1));
        i += 1;
    }
    None
}

} // verus!
