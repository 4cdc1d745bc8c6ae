//! Sums of vector-valued contributions over a sequence, and proofs that such
//! sums — and element-wise maps — depend only on the multiset of elements,
//! not on their storage order.

use vstd::prelude::*;

use crate::vec2::Vec2v;

verus! {

/// The componentwise sum of `f` over the elements of `s`.
pub open spec fn vsum<A>(s: Seq<A>, f: spec_fn(A) -> Vec2v) -> Vec2v
    decreases s.len(),
{
    if s.len() == 0 {
        Vec2v::zero()
    } else {
        vsum(s.drop_last(), f).plus(f(s.last()))
    }
}

/// Appending one element adds its contribution to the sum.
pub proof fn lemma_vsum_take_step<A>(s: Seq<A>, f: spec_fn(A) -> Vec2v, i: int)
    requires
        0 <= i < s.len(),
    ensures
        vsum(s.take(i + 1), f) == vsum(s.take(i), f).plus(f(s[i])),
{
    assert(s.take(i + 1).drop_last() =~= s.take(i));
    assert(s.take(i + 1).last() == s[i]);
}

/// Removing an element takes exactly its contribution out of the sum.
pub proof fn lemma_vsum_remove<A>(s: Seq<A>, f: spec_fn(A) -> Vec2v, j: int)
    requires
        0 <= j < s.len(),
    ensures
        vsum(s.remove(j), f) == vsum(s, f).minus(f(s[j])),
    decreases s.len(),
{
    let n = s.len() - 1;
    if j == n {
        assert(s.remove(j) =~= s.drop_last());
    } else {
        assert(s.remove(j).drop_last() =~= s.drop_last().remove(j));
        assert(s.remove(j).last() == s.last());
        lemma_vsum_remove(s.drop_last(), f, j);
    }
}

/// Two sequences with the same multiset of elements have the same sum:
/// summing contributions is order-independent.
pub proof fn lemma_vsum_multiset<A>(s1: Seq<A>, s2: Seq<A>, f: spec_fn(A) -> Vec2v)
    requires
        s1.to_multiset() == s2.to_multiset(),
    ensures
        vsum(s1, f) == vsum(s2, f),
    decreases s1.len(),
{
    broadcast use vstd::seq_lib::group_to_multiset_ensures;

    assert(s1.len() == s1.to_multiset().len());
    assert(s2.len() == s2.to_multiset().len());
    if s1.len() == 0 {
    } else {
        let x = s1.last();
        assert(s1.contains(x));
        assert(s2.to_multiset().count(x) > 0);
        assert(s2.contains(x));
        let j = choose|j: int| 0 <= j < s2.len() && s2[j] == x;
        assert(s1.drop_last() =~= s1.remove(s1.len() - 1));
        assert(s1.drop_last().to_multiset() == s2.remove(j).to_multiset());
        lemma_vsum_multiset(s1.drop_last(), s2.remove(j), f);
        lemma_vsum_remove(s2, f, j);
    }
}

/// The sum of an integer-valued contribution over the elements of `s`.
pub open spec fn isum<A>(s: Seq<A>, f: spec_fn(A) -> int) -> int
    decreases s.len(),
{
    if s.len() == 0 {
        0
    } else {
        isum(s.drop_last(), f) + f(s.last())
    }
}

/// Removing an element takes exactly its contribution out of the sum.
pub proof fn lemma_isum_remove<A>(s: Seq<A>, f: spec_fn(A) -> int, j: int)
    requires
        0 <= j < s.len(),
    ensures
        isum(s.remove(j), f) == isum(s, f) - f(s[j]),
    decreases s.len(),
{
    let n = s.len() - 1;
    if j == n {
        assert(s.remove(j) =~= s.drop_last());
    } else {
        assert(s.remove(j).drop_last() =~= s.drop_last().remove(j));
        assert(s.remove(j).last() == s.last());
        lemma_isum_remove(s.drop_last(), f, j);
    }
}

/// Two sequences with the same multiset of elements have the same sum.
pub proof fn lemma_isum_multiset<A>(s1: Seq<A>, s2: Seq<A>, f: spec_fn(A) -> int)
    requires
        s1.to_multiset() == s2.to_multiset(),
    ensures
        isum(s1, f) == isum(s2, f),
    decreases s1.len(),
{
    broadcast use vstd::seq_lib::group_to_multiset_ensures;

    assert(s1.len() == s1.to_multiset().len());
    assert(s2.len() == s2.to_multiset().len());
    if s1.len() > 0 {
        let x = s1.last();
        assert(s1.contains(x));
        assert(s2.to_multiset().count(x) > 0);
        assert(s2.contains(x));
        let j = choose|j: int| 0 <= j < s2.len() && s2[j] == x;
        assert(s1.drop_last() =~= s1.remove(s1.len() - 1));
        assert(s1.drop_last().to_multiset() == s2.remove(j).to_multiset());
        lemma_isum_multiset(s1.drop_last(), s2.remove(j), f);
        lemma_isum_remove(s2, f, j);
    }
}

/// Summing `f` over the elements a predicate keeps equals summing, over the
/// whole sequence, the contribution `g` that is `f` where the predicate holds
/// and zero elsewhere.
pub proof fn lemma_vsum_filter<A>(
    s: Seq<A>,
    pred: spec_fn(A) -> bool,
    f: spec_fn(A) -> Vec2v,
    g: spec_fn(A) -> Vec2v,
)
    requires
        forall|a: A| #[trigger] g(a) == (if pred(a) {
            f(a)
        } else {
            Vec2v::zero()
        }),
    ensures
        vsum(s.filter(pred), f) == vsum(s, g),
    decreases s.len(),
{
    reveal(Seq::filter);
    if s.len() > 0 {
        lemma_vsum_filter(s.drop_last(), pred, f, g);
        let x = s.last();
        if pred(x) {
            let sub = s.drop_last().filter(pred);
            assert(sub.push(x).drop_last() =~= sub);
            assert(sub.push(x).last() == x);
        }
    }
}

/// How many elements a predicate keeps, as a sum of indicator contributions.
pub proof fn lemma_filter_len_isum<A>(s: Seq<A>, pred: spec_fn(A) -> bool, g: spec_fn(A) -> int)
    requires
        forall|a: A| #[trigger] g(a) == (if pred(a) {
            1int
        } else {
            0int
        }),
    ensures
        s.filter(pred).len() == isum(s, g),
    decreases s.len(),
{
    reveal(Seq::filter);
    if s.len() > 0 {
        lemma_filter_len_isum(s.drop_last(), pred, g);
    }
}

/// Everything a filter keeps was a member of the sequence it filtered.
pub proof fn lemma_filter_member<A>(s: Seq<A>, pred: spec_fn(A) -> bool, j: int)
    requires
        0 <= j < s.filter(pred).len(),
    ensures
        s.contains(s.filter(pred)[j]),
    decreases s.len(),
{
    reveal(Seq::filter);
    if s.len() > 0 {
        let x = s.filter(pred)[j];
        let sub = s.drop_last().filter(pred);
        if pred(s.last()) && j == sub.len() {
            assert(s[s.len() - 1] == x);
        } else {
            lemma_filter_member(s.drop_last(), pred, j);
            let i = choose|i: int| 0 <= i < s.drop_last().len() && s.drop_last()[i] == x;
            assert(s[i] == x);
        }
    }
}

/// One step of filtering a growing prefix.
pub proof fn lemma_filter_take_step<A>(s: Seq<A>, pred: spec_fn(A) -> bool, i: int)
    requires
        0 <= i < s.len(),
    ensures
        s.take(i + 1).filter(pred) == (if pred(s[i]) {
            s.take(i).filter(pred).push(s[i])
        } else {
            s.take(i).filter(pred)
        }),
{
    reveal(Seq::filter);
    assert(s.take(i + 1).drop_last() =~= s.take(i));
    assert(s.take(i + 1).last() == s[i]);
}

/// Mapping two order-permuted sequences through (pointwise equal) functions
/// yields order-permuted results.
pub proof fn lemma_map_multiset<A, B>(
    s1: Seq<A>,
    s2: Seq<A>,
    f1: spec_fn(A) -> B,
    f2: spec_fn(A) -> B,
)
    requires
        s1.to_multiset() == s2.to_multiset(),
        forall|a: A| #[trigger] f1(a) == f2(a),
    ensures
        s1.map_values(f1).to_multiset() == s2.map_values(f2).to_multiset(),
    decreases s1.len(),
{
    broadcast use vstd::seq_lib::group_to_multiset_ensures;

    assert(s1.len() == s1.to_multiset().len());
    assert(s2.len() == s2.to_multiset().len());
    if s1.len() == 0 {
        assert(s1.map_values(f1) =~= s2.map_values(f2));
    } else {
        let x = s1.last();
        let y = f1(x);
        assert(s1.contains(x));
        assert(s2.to_multiset().count(x) > 0);
        assert(s2.contains(x));
        let j = choose|j: int| 0 <= j < s2.len() && s2[j] == x;
        assert(s1.drop_last() =~= s1.remove(s1.len() - 1));
        assert(s1.drop_last().to_multiset() == s2.remove(j).to_multiset());
        lemma_map_multiset(s1.drop_last(), s2.remove(j), f1, f2);

        assert(s1.map_values(f1) =~= s1.drop_last().map_values(f1).push(y));
        assert(s1.map_values(f1).to_multiset() == s1.drop_last().map_values(f1).to_multiset().insert(
            y,
        ));

        assert(s2.remove(j).map_values(f2) =~= s2.map_values(f2).remove(j));
        assert(s2.map_values(f2)[j] == y);
        assert(s2.map_values(f2).remove(j).to_multiset() == s2.map_values(f2).to_multiset().remove(
            y,
        ));
        assert(s2.map_values(f2).contains(y));
        assert(s2.map_values(f2).to_multiset().count(y) > 0);
        assert(s2.map_values(f2).to_multiset().remove(y).insert(y) =~= s2.map_values(
            f2,
        ).to_multiset());
    }
}

} // verus!
