//! Stable sorting: the order `slice::sort_by` gives, built by insertion.

use vstd::prelude::*;

verus! {

broadcast use vstd::seq_lib::group_seq_properties;

/// `x` inserted into `s` behind every element that may precede it and in front
/// of the trailing elements that may not: one step of a stable insertion sort.
pub open spec fn insert_sorted<T>(s: Seq<T>, x: T, le: spec_fn(T, T) -> bool) -> Seq<T>
    decreases s.len(),
{
    if s.len() == 0 {
        seq![x]
    } else if le(s.last(), x) {
        s.push(x)
    } else {
        insert_sorted(s.drop_last(), x, le).push(s.last())
    }
}

/// The stable sort of `s`, where `le(a, b)` says that `a` may stay in front of `b`
/// (the comparison of `a` with `b` is not `Greater`).
pub open spec fn sort_by<T>(s: Seq<T>, le: spec_fn(T, T) -> bool) -> Seq<T>
    decreases s.len(),
{
    if s.len() == 0 {
        s
    } else {
        insert_sorted(sort_by(s.drop_last(), le), s.last(), le)
    }
}

pub proof fn lemma_insert_sorted_at<T>(s: Seq<T>, x: T, le: spec_fn(T, T) -> bool, p: int)
    requires
        0 <= p <= s.len(),
        p == 0 || le(s[p - 1], x),
        forall|j: int| p <= j < s.len() ==> !le(#[trigger] s[j], x),
    ensures
        insert_sorted(s, x, le) == s.take(p).push(x) + s.skip(p),
    decreases s.len() - p,
{
    if p == s.len() {
        if s.len() == 0 {
            assert(s.take(p).push(x) + s.skip(p) =~= seq![x]);
        } else {
            assert(s.take(p).push(x) + s.skip(p) =~= s.push(x));
        }
    } else {
        let d = s.drop_last();
        assert(!le(s[s.len() - 1], x));
        assert forall|j: int| p <= j < d.len() implies !le(#[trigger] d[j], x) by {
            assert(d[j] == s[j]);
        }
        if p > 0 {
            assert(d[p - 1] == s[p - 1]);
        }
        lemma_insert_sorted_at(d, x, le, p);
        assert(d.take(p) =~= s.take(p));
        assert((d.take(p).push(x) + d.skip(p)).push(s.last()) =~= s.take(p).push(x) + s.skip(p));
    }
}

/// Inserts `x` into `v` the way `insert_sorted` describes.
pub fn insert_in_order<T, F: Fn(&T, &T) -> bool>(
    v: &mut Vec<T>,
    x: T,
    le: &F,
    Ghost(spec_le): Ghost<spec_fn(T, T) -> bool>,
)
    requires
        forall|a: &T, b: &T| #[trigger] le.requires((a, b)),
        forall|a: &T, b: &T, r: bool| le.ensures((a, b), r) ==> r == spec_le(*a, *b),
    ensures
        final(v)@ == insert_sorted(old(v)@, x, spec_le),
{
    let mut p: usize = v.len();
    while p > 0 && !le(&v[p - 1], &x)
        invariant
            p <= v.len(),
            forall|a: &T, b: &T| #[trigger] le.requires((a, b)),
            forall|a: &T, b: &T, r: bool| le.ensures((a, b), r) ==> r == spec_le(*a, *b),
            forall|j: int| p <= j < v.len() ==> !spec_le(#[trigger] v@[j], x),
        decreases p,
    {
        p -= 1;
    }
    proof {
        lemma_insert_sorted_at(v@, x, spec_le, p as int);
    }
    let ghost before = v@;
    v.insert(p, x);
    assert(v@ =~= before.take(p as int).push(x) + before.skip(p as int));
}

/// Sorts owned elements stably by `le`.
pub fn sort_owned<T, F: Fn(&T, &T) -> bool>(
    v: Vec<T>,
    le: &F,
    Ghost(spec_le): Ghost<spec_fn(T, T) -> bool>,
) -> (r: Vec<T>)
    requires
        forall|a: &T, b: &T| #[trigger] le.requires((a, b)),
        forall|a: &T, b: &T, r: bool| le.ensures((a, b), r) ==> r == spec_le(*a, *b),
    ensures
        r@ == sort_by(v@, spec_le),
{
    let ghost orig = v@;
    let total = v.len();
    let mut rest = v;
    let mut r: Vec<T> = Vec::new();
    let mut i: usize = 0;
    while rest.len() > 0
        invariant
            i <= orig.len(),
            orig.len() == total,
            rest@ == orig.skip(i as int),
            forall|a: &T, b: &T| #[trigger] le.requires((a, b)),
            forall|a: &T, b: &T, r: bool| le.ensures((a, b), r) ==> r == spec_le(*a, *b),
            r@ == sort_by(orig.take(i as int), spec_le),
        decreases rest.len(),
    {
        assert(orig.skip(i as int).len() == orig.len() - i);
        let x = rest.remove(0);
        assert(orig.take(i + 1).drop_last() =~= orig.take(i as int));
        assert(orig.take(i + 1).last() == x);
        insert_in_order(&mut r, x, le, Ghost(spec_le));
        i += 1;
        assert(rest@ =~= orig.skip(i as int));
    }
    assert(orig.take(i as int) =~= orig);
    r
}

} // verus!

verus! {

/// Sorting commutes with a map that keeps the order between elements.
pub proof fn lemma_sort_by_map<A, B>(
    s: Seq<A>,
    f: spec_fn(A) -> B,
    le_a: spec_fn(A, A) -> bool,
    le_b: spec_fn(B, B) -> bool,
)
    requires
        forall|x: A, y: A| #[trigger] le_a(x, y) == le_b(f(x), f(y)),
    ensures
        sort_by(s, le_a).map_values(f) == sort_by(s.map_values(f), le_b),
    decreases s.len(),
{
    if s.len() > 0 {
        lemma_sort_by_map(s.drop_last(), f, le_a, le_b);
        assert(s.map_values(f).drop_last() =~= s.drop_last().map_values(f));
        lemma_insert_sorted_map(sort_by(s.drop_last(), le_a), s.last(), f, le_a, le_b);
    } else {
        assert(s.map_values(f) =~= Seq::<B>::empty());
    }
}

pub proof fn lemma_insert_sorted_map<A, B>(
    s: Seq<A>,
    x: A,
    f: spec_fn(A) -> B,
    le_a: spec_fn(A, A) -> bool,
    le_b: spec_fn(B, B) -> bool,
)
    requires
        forall|p: A, q: A| #[trigger] le_a(p, q) == le_b(f(p), f(q)),
    ensures
        insert_sorted(s, x, le_a).map_values(f) == insert_sorted(s.map_values(f), f(x), le_b),
    decreases s.len(),
{
    let m = s.map_values(f);
    if s.len() == 0 {
        assert(seq![x].map_values(f) =~= seq![f(x)]);
    } else {
        assert(m.last() == f(s.last()));
        assert(le_a(s.last(), x) == le_b(f(s.last()), f(x)));
        if le_a(s.last(), x) {
            assert(s.push(x).map_values(f) =~= m.push(f(x)));
        } else {
            lemma_insert_sorted_map(s.drop_last(), x, f, le_a, le_b);
            assert(m.drop_last() =~= s.drop_last().map_values(f));
            assert(insert_sorted(s.drop_last(), x, le_a).push(s.last()).map_values(f) =~= insert_sorted(
                s.drop_last(),
                x,
                le_a,
            ).map_values(f).push(f(s.last())));
        }
    }
}

/// The stable sort of the elements of `v`, built by insertion.
pub fn sorted_by<T: Copy, F: Fn(&T, &T) -> bool>(
    v: &[T],
    le: &F,
    Ghost(spec_le): Ghost<spec_fn(T, T) -> bool>,
) -> (r: Vec<T>)
    requires
        forall|a: &T, b: &T| #[trigger] le.requires((a, b)),
        forall|a: &T, b: &T, r: bool| le.ensures((a, b), r) ==> r == spec_le(*a, *b),
    ensures
        r@ == sort_by(v@, spec_le),
{
    let mut r: Vec<T> = Vec::new();
    let mut i: usize = 0;
    while i < v.len()
        invariant
            i <= v.len(),
            forall|a: &T, b: &T| #[trigger] le.requires((a, b)),
            forall|a: &T, b: &T, r: bool| le.ensures((a, b), r) ==> r == spec_le(*a, *b),
            r@ == sort_by(v@.take(i as int), spec_le),
        decreases v.len() - i,
    {
        assert(v@.take(i + 1).drop_last() =~= v@.take(i as int));
        insert_in_order(&mut r, v[i], le, Ghost(spec_le));
        i += 1;
    }
    assert(v@.take(v.len() as int) =~= v@);
    r
}

} // verus!

verus! {

pub proof fn lemma_insert_sorted_len<T>(s: Seq<T>, x: T, le: spec_fn(T, T) -> bool)
    ensures
        insert_sorted(s, x, le).len() == s.len() + 1,
    decreases s.len(),
{
    if s.len() > 0 && !le(s.last(), x) {
        lemma_insert_sorted_len(s.drop_last(), x, le);
    }
}

/// Sorting keeps the number of elements.
pub proof fn lemma_sort_by_len<T>(s: Seq<T>, le: spec_fn(T, T) -> bool)
    ensures
        sort_by(s, le).len() == s.len(),
    decreases s.len(),
{
    if s.len() > 0 {
        lemma_sort_by_len(s.drop_last(), le);
        lemma_insert_sorted_len(sort_by(s.drop_last(), le), s.last(), le);
    }
}

} // verus!

verus! {

/// `le` relates any two values one way or the other, and chains.
pub open spec fn total_preorder<T>(le: spec_fn(T, T) -> bool) -> bool {
    &&& forall|a: T, b: T| #![trigger le(a, b)] le(a, b) || le(b, a)
    &&& forall|a: T, b: T, c: T| #![trigger le(a, b), le(b, c)] le(a, b) && le(b, c) ==> le(a, c)
}

/// Every element may stay in front of every later one.
pub open spec fn is_sorted_by<T>(s: Seq<T>, le: spec_fn(T, T) -> bool) -> bool {
    forall|i: int, j: int| 0 <= i < j < s.len() ==> le(#[trigger] s[i], #[trigger] s[j])
}

pub proof fn lemma_insert_sorted_elements<T>(s: Seq<T>, x: T, le: spec_fn(T, T) -> bool)
    ensures
        forall|k: int|
            0 <= k < insert_sorted(s, x, le).len() ==> #[trigger] insert_sorted(s, x, le)[k] == x || s.contains(
                insert_sorted(s, x, le)[k],
            ),
    decreases s.len(),
{
    lemma_insert_sorted_len(s, x, le);
    if s.len() > 0 && !le(s.last(), x) {
        let d = s.drop_last();
        lemma_insert_sorted_elements(d, x, le);
        let r = insert_sorted(s, x, le);
        assert forall|k: int| 0 <= k < r.len() implies #[trigger] r[k] == x || s.contains(r[k]) by {
            lemma_insert_sorted_len(d, x, le);
            if k < r.len() - 1 {
                let e = insert_sorted(d, x, le)[k];
                assert(r[k] == e);
                if e != x {
                    let w = choose|w: int| 0 <= w < d.len() && d[w] == e;
                    assert(s[w] == e);
                }
            } else {
                assert(r[k] == s.last());
                assert(s[s.len() - 1] == r[k]);
            }
        }
    } else if s.len() > 0 {
        let r = insert_sorted(s, x, le);
        assert forall|k: int| 0 <= k < r.len() implies #[trigger] r[k] == x || s.contains(r[k]) by {
            if k < s.len() {
                assert(r[k] == s[k]);
            }
        }
    }
}

proof fn lemma_insert_sorted_keeps_order<T>(s: Seq<T>, x: T, le: spec_fn(T, T) -> bool)
    requires
        total_preorder(le),
        is_sorted_by(s, le),
    ensures
        is_sorted_by(insert_sorted(s, x, le), le),
    decreases s.len(),
{
    lemma_insert_sorted_len(s, x, le);
    let r = insert_sorted(s, x, le);
    if s.len() == 0 {
    } else if le(s.last(), x) {
        assert forall|i: int, j: int| 0 <= i < j < r.len() implies le(#[trigger] r[i], #[trigger] r[j]) by {
            if j == s.len() as int {
                if i < s.len() - 1 {
                    assert(le(s[i], s[s.len() - 1]));
                }
            } else {
                assert(r[i] == s[i] && r[j] == s[j]);
            }
        }
    } else {
        let d = s.drop_last();
        assert(is_sorted_by(d, le)) by {
            assert forall|i: int, j: int| 0 <= i < j < d.len() implies le(#[trigger] d[i], #[trigger] d[j]) by {
                assert(d[i] == s[i] && d[j] == s[j]);
            }
        }
        lemma_insert_sorted_keeps_order(d, x, le);
        lemma_insert_sorted_elements(d, x, le);
        lemma_insert_sorted_len(d, x, le);
        let m = insert_sorted(d, x, le);
        assert(le(x, s.last()));
        assert forall|i: int, j: int| 0 <= i < j < r.len() implies le(#[trigger] r[i], #[trigger] r[j]) by {
            if j == r.len() - 1 {
                let e = m[i];
                assert(r[i] == e);
                assert(r[j] == s.last());
                if e != x {
                    let w = choose|w: int| 0 <= w < d.len() && d[w] == e;
                    assert(le(s[w], s[s.len() - 1]));
                }
            } else {
                assert(r[i] == m[i] && r[j] == m[j]);
            }
        }
    }
}

/// Sorting by a total preorder gives a sorted sequence.
pub proof fn lemma_sort_by_sorted<T>(s: Seq<T>, le: spec_fn(T, T) -> bool)
    requires
        total_preorder(le),
    ensures
        is_sorted_by(sort_by(s, le), le),
    decreases s.len(),
{
    if s.len() > 0 {
        lemma_sort_by_sorted(s.drop_last(), le);
        lemma_insert_sorted_keeps_order(sort_by(s.drop_last(), le), s.last(), le);
    }
}

} // verus!

verus! {

/// Sorting only rearranges: every element of the result comes from the input.
pub proof fn lemma_sort_by_elements<T>(s: Seq<T>, le: spec_fn(T, T) -> bool)
    ensures
        forall|k: int| 0 <= k < sort_by(s, le).len() ==> s.contains(#[trigger] sort_by(s, le)[k]),
    decreases s.len(),
{
    lemma_sort_by_len(s, le);
    if s.len() > 0 {
        let d = s.drop_last();
        lemma_sort_by_elements(d, le);
        let sd = sort_by(d, le);
        lemma_insert_sorted_elements(sd, s.last(), le);
        let r = sort_by(s, le);
        assert forall|k: int| 0 <= k < r.len() implies s.contains(#[trigger] r[k]) by {
            if r[k] == s.last() {
                assert(s[s.len() - 1] == r[k]);
            } else {
                let w = choose|w: int| 0 <= w < sd.len() && sd[w] == r[k];
                lemma_sort_by_len(d, le);
                let v = choose|v: int| 0 <= v < d.len() && d[v] == sd[w];
                assert(s[v] == r[k]);
            }
        }
    }
}

} // verus!

verus! {

/// Inserting adds exactly `x` to the elements.
proof fn lemma_insert_sorted_multiset<T>(s: Seq<T>, x: T, le: spec_fn(T, T) -> bool)
    ensures
        insert_sorted(s, x, le).to_multiset() =~= s.to_multiset().insert(x),
    decreases s.len(),
{
    broadcast use vstd::seq_lib::group_to_multiset_ensures;
    broadcast use vstd::multiset::group_multiset_axioms;

    if s.len() == 0 {
        assert(seq![x] =~= s.push(x));
    } else if le(s.last(), x) {
    } else {
        let d = s.drop_last();
        lemma_insert_sorted_multiset(d, x, le);
        assert(s =~= d.push(s.last()));
    }
}

/// Sorting keeps every element, as often as it occurs.
pub proof fn lemma_sort_by_multiset<T>(s: Seq<T>, le: spec_fn(T, T) -> bool)
    ensures
        sort_by(s, le).to_multiset() =~= s.to_multiset(),
    decreases s.len(),
{
    broadcast use vstd::seq_lib::group_to_multiset_ensures;
    broadcast use vstd::multiset::group_multiset_axioms;

    if s.len() > 0 {
        let d = s.drop_last();
        lemma_sort_by_multiset(d, le);
        lemma_insert_sorted_multiset(sort_by(d, le), s.last(), le);
        assert(s =~= d.push(s.last()));
    }
}

/// Two sorted sequences with the same elements are equal, when no two distinct
/// elements may stand in front of each other.
pub proof fn lemma_sorted_unique_within<T>(x: Seq<T>, y: Seq<T>, le: spec_fn(T, T) -> bool)
    requires
        is_sorted_by(x, le),
        is_sorted_by(y, le),
        x.to_multiset() == y.to_multiset(),
        forall|a: T, b: T| #![trigger le(a, b), le(b, a)]
            x.contains(a) && x.contains(b) && le(a, b) && le(b, a) ==> a == b,
    ensures
        x == y,
    decreases x.len(),
{
    broadcast use vstd::seq_lib::group_to_multiset_ensures;
    broadcast use vstd::multiset::group_multiset_axioms;

    if x.len() == 0 || y.len() == 0 {
        assert(x.len() == x.to_multiset().len());
        assert(y.len() == y.to_multiset().len());
    } else {
        assert(x.to_multiset().count(y[0]) > 0);
        assert(y.to_multiset().count(x[0]) > 0);
        let i = choose|i: int| 0 <= i < x.len() && x[i] == y[0];
        let k = choose|k: int| 0 <= k < y.len() && y[k] == x[0];
        if i > 0 {
            assert(le(x[0], x[i]));
        }
        if k > 0 {
            assert(le(y[0], y[k]));
        }
        if i > 0 && k > 0 {
            assert(x.contains(x[0]) && x.contains(x[i]));
        }
        assert(x[0] == y[0]);
        assert(x.drop_first() =~= x.remove(0));
        assert(y.drop_first() =~= y.remove(0));
        assert(x.drop_first().to_multiset() =~= y.drop_first().to_multiset());
        let xd = x.drop_first();
        let yd = y.drop_first();
        assert forall|a: T, b: T| #![trigger le(a, b), le(b, a)]
            xd.contains(a) && xd.contains(b) && le(a, b) && le(b, a) implies a == b by {
            let p = choose|p: int| 0 <= p < xd.len() && xd[p] == a;
            let q = choose|q: int| 0 <= q < xd.len() && xd[q] == b;
            assert(x[p + 1] == a && x[q + 1] == b);
            assert(x.contains(a) && x.contains(b));
        }
        assert(is_sorted_by(xd, le)) by {
            assert forall|i: int, j: int| 0 <= i < j < xd.len() implies le(#[trigger] xd[i], #[trigger] xd[j]) by {
                assert(xd[i] == x[i + 1] && xd[j] == x[j + 1]);
            }
        }
        assert(is_sorted_by(yd, le)) by {
            assert forall|i: int, j: int| 0 <= i < j < yd.len() implies le(#[trigger] yd[i], #[trigger] yd[j]) by {
                assert(yd[i] == y[i + 1] && yd[j] == y[j + 1]);
            }
        }
        lemma_sorted_unique_within(xd, yd, le);
        assert(x =~= y) by {
            assert forall|j: int| 0 <= j < x.len() implies x[j] == y[j] by {
                if j > 0 {
                    assert(x[j] == xd[j - 1] && y[j] == yd[j - 1]);
                }
            }
        }
    }
}

} // verus!

verus! {

proof fn lemma_filter_map_add<A, B>(a: Seq<A>, b: Seq<A>, f: spec_fn(A) -> Option<B>)
    ensures
        (a + b).filter_map(f) == a.filter_map(f) + b.filter_map(f),
    decreases b.len(),
{
    if b.len() == 0 {
        assert(a + b =~= a);
        assert(a.filter_map(f) + b.filter_map(f) =~= a.filter_map(f));
    } else {
        let c = a + b;
        assert(c.drop_last() =~= a + b.drop_last());
        assert(c.last() == b.last());
        lemma_filter_map_add(a, b.drop_last(), f);
        match f(b.last()) {
            Some(v) => {
                assert(c.filter_map(f) =~= a.filter_map(f) + b.filter_map(f));
            },
            None => {},
        }
    }
}

/// Reordering the input of `filter_map` only reorders its output.
pub proof fn lemma_filter_map_multiset<A, B>(s1: Seq<A>, s2: Seq<A>, f: spec_fn(A) -> Option<B>)
    requires
        s1.to_multiset() == s2.to_multiset(),
    ensures
        s1.filter_map(f).to_multiset() == s2.filter_map(f).to_multiset(),
    decreases s1.len(),
{
    broadcast use vstd::seq_lib::group_to_multiset_ensures;
    broadcast use vstd::multiset::group_multiset_axioms;
    broadcast use vstd::seq_lib::lemma_multiset_commutative;

    if s1.len() == 0 {
        assert(s1.len() == s1.to_multiset().len());
        assert(s2.len() == s2.to_multiset().len());
        assert(s1 =~= s2);
    } else {
        let x = s1.last();
        let d1 = s1.drop_last();
        assert(s1 =~= d1.push(x));
        assert(s2.to_multiset().count(x) > 0);
        let j = choose|j: int| 0 <= j < s2.len() && s2[j] == x;
        let d2 = s2.remove(j);
        assert(d2.to_multiset() =~= d1.to_multiset());
        lemma_filter_map_multiset(d1, d2, f);
        let pre = s2.take(j);
        let post = s2.skip(j + 1);
        let one = seq![x];
        assert(d2 =~= pre + post);
        assert(s2 =~= (pre + one) + post);
        assert(s1 =~= d1 + one);
        lemma_filter_map_add(pre, post, f);
        lemma_filter_map_add(pre + one, post, f);
        lemma_filter_map_add(pre, one, f);
        lemma_filter_map_add(d1, one, f);
        let fp = pre.filter_map(f);
        let fq = post.filter_map(f);
        let fo = one.filter_map(f);
        assert(s2.filter_map(f).to_multiset() =~= fp.to_multiset().add(fo.to_multiset()).add(fq.to_multiset()));
        assert(s1.filter_map(f).to_multiset() =~= d1.filter_map(f).to_multiset().add(fo.to_multiset()));
        assert(d2.filter_map(f).to_multiset() =~= fp.to_multiset().add(fq.to_multiset()));
    }
}

} // verus!

verus! {

/// Sorting what `filter_map` keeps does not depend on the order of the input,
/// when no two distinct kept values may stand in front of each other.
pub proof fn lemma_sorted_filter_map_reorder<A, B>(
    s1: Seq<A>,
    s2: Seq<A>,
    f: spec_fn(A) -> Option<B>,
    le: spec_fn(B, B) -> bool,
)
    requires
        s1.to_multiset() == s2.to_multiset(),
        total_preorder(le),
        forall|a: B, b: B| #![trigger le(a, b), le(b, a)]
            s1.filter_map(f).contains(a) && s1.filter_map(f).contains(b) && le(a, b) && le(b, a) ==> a == b,
    ensures
        sort_by(s1.filter_map(f), le) == sort_by(s2.filter_map(f), le),
{
    broadcast use vstd::seq_lib::group_to_multiset_ensures;

    let m1 = s1.filter_map(f);
    let m2 = s2.filter_map(f);
    let x = sort_by(m1, le);
    let y = sort_by(m2, le);
    lemma_sort_by_sorted(m1, le);
    lemma_sort_by_sorted(m2, le);
    lemma_sort_by_multiset(m1, le);
    lemma_sort_by_multiset(m2, le);
    lemma_filter_map_multiset(s1, s2, f);
    assert forall|a: B, b: B| #![trigger le(a, b), le(b, a)]
        x.contains(a) && x.contains(b) && le(a, b) && le(b, a) implies a == b by {
        assert(x.to_multiset().count(a) > 0 && x.to_multiset().count(b) > 0);
        assert(m1.contains(a) && m1.contains(b));
    }
    lemma_sorted_unique_within(x, y, le);
}

} // verus!
