//! Inventories of the player and of NPCs: ordered lists of item ids.

use vstd::prelude::*;
use crate::collections::{ids, lemma_ids_push};
use vstd::string::*;

verus! {

broadcast use vstd::seq_lib::group_seq_properties;

/// `i` is the index of the first occurrence of `x` in `s`.
pub open spec fn is_first_index<A>(s: Seq<A>, x: A, i: int) -> bool {
    &&& 0 <= i < s.len()
    &&& s[i] == x
    &&& forall|j: int| 0 <= j < i ==> s[j] != x
}

/// The index of the first occurrence of `x` in `s` (meaningful when `s` contains `x`).
pub open spec fn first_index<A>(s: Seq<A>, x: A) -> int {
    choose|i: int| is_first_index(s, x, i)
}

/// `s` with the first occurrence of `x` taken out; `s` itself when `x` does not occur.
pub open spec fn remove_first<A>(s: Seq<A>, x: A) -> Seq<A> {
    if s.contains(x) {
        s.remove(first_index(s, x))
    } else {
        s
    }
}

/// There is one first index.
pub proof fn lemma_first_index_unique<A>(s: Seq<A>, x: A, i: int)
    requires
        is_first_index(s, x, i),
    ensures
        first_index(s, x) == i,
        s.contains(x),
        remove_first(s, x) == s.remove(i),
{
    let k = first_index(s, x);
    assert(is_first_index(s, x, k));
    if k < i {
        assert(s[k] == x);
    } else if i < k {
        assert(s[i] == x);
    }
}

/// The position of the first item equal to `item_id`, if any.
pub fn position_of(items: &[String], item_id: &str) -> (r: Option<usize>)
    ensures
        match r {
            Some(i) => is_first_index(ids(items@), item_id@, i as int),
            None => !ids(items@).contains(item_id@),
        },
{
    let mut i: usize = 0;
    while i < items.len()
        invariant
            i <= items.len(),
            forall|j: int| 0 <= j < i ==> ids(items@)[j] != item_id@,
        decreases items.len() - i,
    {
        if items[i].as_str().eq(item_id) {
            return Some(i);
        }
        i += 1;
    }
    None
}

/// Removes the first item equal to `item_id`; tells whether there was one.
pub fn remove_item(items: &mut Vec<String>, item_id: &str) -> (r: bool)
    ensures
        r == ids(old(items)@).contains(item_id@),
        ids(final(items)@) == remove_first(ids(old(items)@), item_id@),
        !r ==> final(items)@ == old(items)@,
{
    match position_of(items.as_slice(), item_id) {
        Some(pos) => {
            let ghost before = items@;
            items.remove(pos);
            assert(ids(items@) =~= ids(before).remove(pos as int));
            proof {
                lemma_first_index_unique(ids(before), item_id@, pos as int);
            }
            true
        },
        None => false,
    }
}

/// Appends `item_id` at the end of the list.
pub fn add_item(items: &mut Vec<String>, item_id: String)
    ensures
        ids(final(items)@) == ids(old(items)@).push(item_id@),
{
    proof {
        lemma_ids_push(items@, item_id);
    }
    items.push(item_id);
}

/// Items the player is currently carrying (list of item ID strings).
pub struct PlayerInventory {
    pub items: Vec<String>,
}

impl View for PlayerInventory {
    type V = Seq<Seq<char>>;

    open spec fn view(&self) -> Seq<Seq<char>> {
        ids(self.items@)
    }
}

impl PlayerInventory {
    /// An empty inventory.
    pub fn new() -> (inv: PlayerInventory)
        ensures
            inv@ == Seq::<Seq<char>>::empty(),
    {
        let inv = PlayerInventory { items: Vec::new() };
        assert(inv@ =~= Seq::<Seq<char>>::empty());
        inv
    }

    pub fn has(&self, item_id: &str) -> (r: bool)
        ensures
            r == self@.contains(item_id@),
    {
        position_of(self.items.as_slice(), item_id).is_some()
    }

    pub fn add(&mut self, item_id: String)
        ensures
            final(self)@ == old(self)@.push(item_id@),
    {
        add_item(&mut self.items, item_id);
    }

    /// Removes one `item_id` (the first); tells whether one was carried.
    pub fn remove(&mut self, item_id: &str) -> (r: bool)
        ensures
            r == old(self)@.contains(item_id@),
            final(self)@ == remove_first(old(self)@, item_id@),
    {
        remove_item(&mut self.items, item_id)
    }
}

/// Items an NPC is currently carrying (list of item ID strings).
pub struct NpcInventory {
    pub items: Vec<String>,
}

impl View for NpcInventory {
    type V = Seq<Seq<char>>;

    open spec fn view(&self) -> Seq<Seq<char>> {
        ids(self.items@)
    }
}

impl NpcInventory {
    /// An empty inventory.
    pub fn new() -> (inv: NpcInventory)
        ensures
            inv@ == Seq::<Seq<char>>::empty(),
    {
        let inv = NpcInventory { items: Vec::new() };
        assert(inv@ =~= Seq::<Seq<char>>::empty());
        inv
    }

    pub fn has(&self, item_id: &str) -> (r: bool)
        ensures
            r == self@.contains(item_id@),
    {
        position_of(self.items.as_slice(), item_id).is_some()
    }

    pub fn add(&mut self, item_id: String)
        ensures
            final(self)@ == old(self)@.push(item_id@),
    {
        add_item(&mut self.items, item_id);
    }

    /// Removes one `item_id` (the first); tells whether one was carried.
    pub fn remove(&mut self, item_id: &str) -> (r: bool)
        ensures
            r == old(self)@.contains(item_id@),
            final(self)@ == remove_first(old(self)@, item_id@),
    {
        remove_item(&mut self.items, item_id)
    }
}

} // verus!

verus! {

/// Moves one `item_id` from the sender to the end of the receiver's list.
/// Nothing moves when the sender carries none.
pub fn give_item(sender: &mut Vec<String>, receiver: &mut Vec<String>, item_id: &String) -> (r: bool)
    ensures
        r == ids(old(sender)@).contains(item_id@),
        ids(final(sender)@) == remove_first(ids(old(sender)@), item_id@),
        r ==> ids(final(receiver)@) == ids(old(receiver)@).push(item_id@),
        !r ==> final(receiver)@ == old(receiver)@,
{
    let removed = remove_item(sender, item_id.as_str());
    if removed {
        add_item(receiver, item_id.clone());
    }
    removed
}

/// Takes one `item_id` out of a list and puts it back at the end: what a gift
/// amounts to when the receiver has no inventory (or is the sender itself).
pub fn move_item_to_end(items: &mut Vec<String>, item_id: &String) -> (r: bool)
    ensures
        r == ids(old(items)@).contains(item_id@),
        r ==> ids(final(items)@) == remove_first(ids(old(items)@), item_id@).push(item_id@),
        !r ==> final(items)@ == old(items)@,
{
    let removed = remove_item(items, item_id.as_str());
    if removed {
        add_item(items, item_id.clone());
    }
    removed
}

/// The text of the inventory panel: one `- id` line per item, or `(empty)`.
pub open spec fn listing_lines(items: Seq<Seq<char>>) -> Seq<char>
    decreases items.len(),
{
    if items.len() == 0 {
        Seq::empty()
    } else if items.len() == 1 {
        "- "@ + items[0]
    } else {
        listing_lines(items.drop_last()) + "\n"@ + "- "@ + items.last()
    }
}

pub open spec fn listing_text(items: Seq<Seq<char>>) -> Seq<char> {
    if items.len() == 0 {
        "(empty)"@
    } else {
        listing_lines(items)
    }
}

/// The text shown in the inventory panel for the given items.
pub fn inventory_listing(items: &[String]) -> (r: String)
    ensures
        r@ == listing_text(ids(items@)),
{
    if items.len() == 0 {
        return String::from_str("(empty)");
    }
    let mut text = String::new();
    let mut i: usize = 0;
    while i < items.len()
        invariant
            i <= items.len(),
            text@ == listing_lines(ids(items@).take(i as int)),
        decreases items.len() - i,
    {
        let ghost t = ids(items@).take(i + 1);
        assert(t.drop_last() =~= ids(items@).take(i as int));
        if i > 0 {
            text.append("\n");
        }
        text.append("- ");
        text.append(items[i].as_str());
        proof {
            if i == 0 {
                assert(text@ =~= "- "@ + t[0]);
            } else {
                assert(text@ =~= listing_lines(t.drop_last()) + "\n"@ + "- "@ + t.last());
            }
        }
        i += 1;
    }
    assert(ids(items@).take(items.len() as int) =~= ids(items@));
    text
}

} // verus!

verus! {

/// An item that was added is carried afterwards.
pub proof fn lemma_added_item_is_carried(items: Seq<Seq<char>>, item: Seq<char>)
    ensures
        items.push(item).contains(item),
{
    assert(items.push(item)[items.len() as int] == item);
}

/// Removing an item takes exactly one copy of it out, and nothing else:
/// as a multiset, the items lose one `item` when one was carried, and are
/// unchanged otherwise.
pub proof fn lemma_remove_takes_one_copy(items: Seq<Seq<char>>, item: Seq<char>)
    ensures
        items.contains(item) ==> remove_first(items, item).to_multiset() == items.to_multiset().remove(item),
        !items.contains(item) ==> remove_first(items, item) == items,
{
    if items.contains(item) {
        let i = first_index(items, item);
        let w = choose|j: int| 0 <= j < items.len() && items[j] == item;
        assert(exists|k: int| is_first_index(items, item, k)) by {
            lemma_some_first_index(items, item, w);
        }
        assert(is_first_index(items, item, i));
        vstd::seq_lib::to_multiset_remove(items, i);
    }
}

proof fn lemma_some_first_index<A>(s: Seq<A>, x: A, w: int)
    requires
        0 <= w < s.len(),
        s[w] == x,
    ensures
        exists|k: int| is_first_index(s, x, k),
    decreases w,
{
    if exists|j: int| 0 <= j < w && s[j] == x {
        let j = choose|j: int| 0 <= j < w && s[j] == x;
        lemma_some_first_index(s, x, j);
    } else {
        assert(is_first_index(s, x, w));
    }
}

/// A gift moves one copy of the item from the giver to the receiver: the items
/// of both together stay the same, as a multiset.
pub proof fn lemma_give_conserves_items(sender: Seq<Seq<char>>, receiver: Seq<Seq<char>>, item: Seq<char>)
    requires
        sender.contains(item),
    ensures
        remove_first(sender, item).to_multiset().add(receiver.push(item).to_multiset())
            == sender.to_multiset().add(receiver.to_multiset()),
{
    lemma_remove_takes_one_copy(sender, item);
    vstd::seq_lib::to_multiset_build(receiver, item);
    vstd::seq_lib::to_multiset_contains(sender, item);
    assert(remove_first(sender, item).to_multiset().add(receiver.push(item).to_multiset())
        =~= sender.to_multiset().add(receiver.to_multiset()));
}

/// Adding an item that was not carried and removing it again gives back the
/// inventory as it was.
pub proof fn lemma_add_then_remove_restores(items: Seq<Seq<char>>, item: Seq<char>)
    requires
        !items.contains(item),
    ensures
        remove_first(items.push(item), item) == items,
{
    let s = items.push(item);
    let k = items.len() as int;
    assert(is_first_index(s, item, k)) by {
        assert forall|j: int| 0 <= j < k implies s[j] != item by {
            assert(s[j] == items[j]);
        }
    }
    lemma_first_index_unique(s, item, k);
    assert(s.remove(k) =~= items);
}

} // verus!
