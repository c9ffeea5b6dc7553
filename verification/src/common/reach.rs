//! A measure for passes that follow `$ref`s: each `$ref` of a finite list is
//! followed at most once per pass, so the number of those not yet visited
//! bounds how often a pass can follow one.
use vstd::prelude::*;

verus! {

/// Every element of `a` occurs in `u`.
pub open spec fn within(a: Seq<Seq<char>>, u: Seq<Seq<char>>) -> bool {
    forall|i: int| 0 <= i < a.len() ==> u.contains(#[trigger] a[i])
}

pub proof fn lemma_within_concat(a: Seq<Seq<char>>, b: Seq<Seq<char>>, u: Seq<Seq<char>>)
    requires
        within(a + b, u),
    ensures
        within(a, u),
        within(b, u),
{
    assert forall|i: int| 0 <= i < a.len() implies u.contains(#[trigger] a[i]) by {
        assert((a + b)[i] == a[i]);
    }
    assert forall|i: int| 0 <= i < b.len() implies u.contains(#[trigger] b[i]) by {
        assert((a + b)[a.len() + i] == b[i]);
    }
}

pub proof fn lemma_within_both(a: Seq<Seq<char>>, b: Seq<Seq<char>>)
    ensures
        within(a, a + b),
        within(b, a + b),
{
    assert forall|i: int| 0 <= i < a.len() implies (a + b).contains(#[trigger] a[i]) by {
        assert((a + b)[i] == a[i]);
    }
    assert forall|i: int| 0 <= i < b.len() implies (a + b).contains(#[trigger] b[i]) by {
        assert((a + b)[a.len() + i] == b[i]);
    }
}

/// How many of the `$ref`s `u` are not visited in `v`.
pub open spec fn unvisited(u: Seq<Seq<char>>, v: Set<Seq<char>>) -> nat
    decreases u.len(),
{
    if u.len() == 0 {
        0
    } else {
        unvisited(u.drop_last(), v) + if v.contains(u.last()) { 0nat } else { 1nat }
    }
}

pub proof fn lemma_unvisited_mono(u: Seq<Seq<char>>, v1: Set<Seq<char>>, v2: Set<Seq<char>>)
    requires
        v1.subset_of(v2),
    ensures
        unvisited(u, v2) <= unvisited(u, v1),
    decreases u.len(),
{
    if u.len() > 0 {
        lemma_unvisited_mono(u.drop_last(), v1, v2);
    }
}

pub proof fn lemma_unvisited_strict(u: Seq<Seq<char>>, v1: Set<Seq<char>>, v2: Set<Seq<char>>, r: Seq<char>)
    requires
        v1.subset_of(v2),
        u.contains(r),
        !v1.contains(r),
        v2.contains(r),
    ensures
        unvisited(u, v2) < unvisited(u, v1),
    decreases u.len(),
{
    if u.last() == r {
        lemma_unvisited_mono(u.drop_last(), v1, v2);
    } else {
        let k = choose|k: int| 0 <= k < u.len() && u[k] == r;
        assert(u.drop_last()[k] == r);
        lemma_unvisited_strict(u.drop_last(), v1, v2, r);
    }
}

} // verus!
