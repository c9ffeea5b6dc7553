//! The lexicographic order of strings by code point (the order of `String`'s
//! `Ord`, since UTF-8 keeps code point order), and sorted sets of strings.
use vstd::prelude::*;
use crate::common::patterns::views;
use crate::common::text::{chars_of, str_equal};

verus! {

/// `a` comes strictly before `b`, comparing code points from the left.
pub open spec fn seq_lt(a: Seq<char>, b: Seq<char>) -> bool
    decreases a.len(),
{
    if a.len() == 0 {
        b.len() > 0
    } else if b.len() == 0 {
        false
    } else if a[0] != b[0] {
        (a[0] as int) < (b[0] as int)
    } else {
        seq_lt(a.drop_first(), b.drop_first())
    }
}

/// Every element of `v` comes strictly before the later ones.
pub open spec fn is_sorted_strict(v: Seq<Seq<char>>) -> bool {
    forall|i: int, j: int| 0 <= i < j < v.len() ==> seq_lt(#[trigger] v[i], #[trigger] v[j])
}

/// The elements of the finite set `s`, in increasing order.
pub open spec fn sorted_of(s: Set<Seq<char>>) -> Seq<Seq<char>> {
    choose|v: Seq<Seq<char>>| is_sorted_strict(v) && v.to_set() == s
}

pub proof fn lemma_lt_irreflexive(a: Seq<char>)
    ensures
        !seq_lt(a, a),
    decreases a.len(),
{
    if a.len() > 0 {
        lemma_lt_irreflexive(a.drop_first());
    }
}

pub proof fn lemma_lt_asymmetric(a: Seq<char>, b: Seq<char>)
    ensures
        !(seq_lt(a, b) && seq_lt(b, a)),
    decreases a.len(),
{
    if a.len() > 0 && b.len() > 0 && a[0] == b[0] {
        lemma_lt_asymmetric(a.drop_first(), b.drop_first());
    }
}

pub proof fn lemma_lt_total(a: Seq<char>, b: Seq<char>)
    ensures
        a == b || seq_lt(a, b) || seq_lt(b, a),
    decreases a.len(),
{
    if a.len() > 0 && b.len() > 0 {
        if a[0] == b[0] {
            lemma_lt_total(a.drop_first(), b.drop_first());
            if a.drop_first() == b.drop_first() {
                assert(a =~= seq![a[0]] + a.drop_first());
                assert(b =~= seq![b[0]] + b.drop_first());
            }
        } else {
            assert((a[0] as int) != (b[0] as int));
        }
    } else if a.len() == 0 && b.len() == 0 {
        assert(a =~= b);
    }
}

pub proof fn lemma_lt_transitive(a: Seq<char>, b: Seq<char>, c: Seq<char>)
    requires
        seq_lt(a, b),
        seq_lt(b, c),
    ensures
        seq_lt(a, c),
    decreases a.len(),
{
    if a.len() > 0 && b.len() > 0 && c.len() > 0 && a[0] == b[0] && b[0] == c[0] {
        lemma_lt_transitive(a.drop_first(), b.drop_first(), c.drop_first());
    }
}

/// Two sorted sequences with the same elements are the same sequence.
pub proof fn lemma_sorted_unique(x: Seq<Seq<char>>, y: Seq<Seq<char>>)
    requires
        is_sorted_strict(x),
        is_sorted_strict(y),
        x.to_set() == y.to_set(),
    ensures
        x == y,
    decreases x.len(),
{
    if x.len() == 0 {
        if y.len() > 0 {
            assert(y.to_set().contains(y[0]));
            assert(!x.to_set().contains(y[0]));
        }
        assert(x =~= y);
    } else {
        assert(x.to_set().contains(x[0]));
        assert(y.len() > 0) by {
            if y.len() == 0 {
                assert(!y.to_set().contains(x[0]));
            }
        }
        assert(y.to_set().contains(y[0]));
        // x[0] is in y, so it is y[0] or after it; y[0] is in x, so it is x[0] or after it.
        let i = choose|i: int| 0 <= i < y.len() && y[i] == x[0];
        let j = choose|j: int| 0 <= j < x.len() && x[j] == y[0];
        if i > 0 {
            assert(seq_lt(y[0], y[i]));
            if j > 0 {
                assert(seq_lt(x[0], x[j]));
                lemma_lt_asymmetric(x[0], y[0]);
            } else {
                lemma_lt_irreflexive(y[0]);
            }
        }
        assert(x[0] == y[0]) by {
            if i > 0 {
            } else {
            }
        }
        let xr = x.drop_first();
        let yr = y.drop_first();
        assert forall|k: int, l: int| 0 <= k < l < xr.len() implies seq_lt(#[trigger] xr[k], #[trigger] xr[l]) by {
            assert(x[k + 1] == xr[k] && x[l + 1] == xr[l]);
        }
        assert forall|k: int, l: int| 0 <= k < l < yr.len() implies seq_lt(#[trigger] yr[k], #[trigger] yr[l]) by {
            assert(y[k + 1] == yr[k] && y[l + 1] == yr[l]);
        }
        assert forall|e: Seq<char>| xr.to_set().contains(e) implies yr.to_set().contains(e) by {
            let k = choose|k: int| 0 <= k < xr.len() && xr[k] == e;
            assert(x[k + 1] == e);
            assert(seq_lt(x[0], e));
            assert(y.to_set().contains(e));
            let l = choose|l: int| 0 <= l < y.len() && y[l] == e;
            if l == 0 {
                lemma_lt_irreflexive(e);
            }
            assert(yr[l - 1] == e);
        }
        assert forall|e: Seq<char>| yr.to_set().contains(e) implies xr.to_set().contains(e) by {
            let k = choose|k: int| 0 <= k < yr.len() && yr[k] == e;
            assert(y[k + 1] == e);
            assert(seq_lt(y[0], e));
            assert(x.to_set().contains(e));
            let l = choose|l: int| 0 <= l < x.len() && x[l] == e;
            if l == 0 {
                lemma_lt_irreflexive(e);
            }
            assert(xr[l - 1] == e);
        }
        assert(xr.to_set() =~= yr.to_set());
        lemma_sorted_unique(xr, yr);
        assert(x =~= seq![x[0]] + xr);
        assert(y =~= seq![y[0]] + yr);
    }
}

/// A sorted sequence is the sorted order of its own elements.
pub proof fn lemma_sorted_of(v: Seq<Seq<char>>)
    requires
        is_sorted_strict(v),
    ensures
        sorted_of(v.to_set()) == v,
{
    let w = sorted_of(v.to_set());
    assert(is_sorted_strict(w) && w.to_set() == v.to_set());
    lemma_sorted_unique(w, v);
}

pub proof fn lemma_insert_to_set(s: Seq<Seq<char>>, i: int, x: Seq<char>)
    requires
        0 <= i <= s.len(),
    ensures
        s.insert(i, x).to_set() == s.to_set().insert(x),
{
    let t = s.insert(i, x);
    assert forall|e: Seq<char>| t.to_set().contains(e) implies s.to_set().insert(x).contains(e) by {
        let k = choose|k: int| 0 <= k < t.len() && t[k] == e;
        if k < i {
            assert(s[k] == e);
        } else if k > i {
            assert(s[k - 1] == e);
        }
    }
    assert forall|e: Seq<char>| s.to_set().insert(x).contains(e) implies t.to_set().contains(e) by {
        if e == x {
            assert(t[i] == x);
        } else {
            let k = choose|k: int| 0 <= k < s.len() && s[k] == e;
            if k < i {
                assert(t[k] == e);
            } else {
                assert(t[k + 1] == e);
            }
        }
    }
    assert(t.to_set() =~= s.to_set().insert(x));
}

/// Whether `a` comes strictly before `b`.
pub fn str_lt(a: &str, b: &str) -> (res: bool)
    ensures
        res == seq_lt(a@, b@),
{
    let ac = chars_of(a);
    let bc = chars_of(b);
    let mut i: usize = 0;
    assert(ac@.skip(0) =~= ac@);
    assert(bc@.skip(0) =~= bc@);
    while i < ac.len() && i < bc.len() && ac[i] == bc[i]
        invariant
            i <= ac.len(),
            i <= bc.len(),
            seq_lt(ac@.skip(i as int), bc@.skip(i as int)) == seq_lt(a@, b@),
            ac@ == a@,
            bc@ == b@,
        decreases ac.len() - i,
    {
        assert(ac@.skip(i as int).drop_first() =~= ac@.skip(i + 1));
        assert(bc@.skip(i as int).drop_first() =~= bc@.skip(i + 1));
        i = i + 1;
    }
    if i == ac.len() {
        i < bc.len()
    } else if i == bc.len() {
        false
    } else {
        assert(ac@.skip(i as int)[0] == ac@[i as int]);
        assert(bc@.skip(i as int)[0] == bc@[i as int]);
        ac[i] < bc[i]
    }
}

/// Inserts `x` into the sorted set `v` (nothing changes if `x` is there).
pub fn insert_sorted(v: &mut Vec<String>, x: String)
    requires
        is_sorted_strict(views(old(v)@)),
    ensures
        is_sorted_strict(views(final(v)@)),
        views(final(v)@).to_set() == views(old(v)@).to_set().insert(x@),
{
    let ghost xs = x@;
    let mut p: usize = 0;
    while p < v.len() && str_lt(v[p].as_str(), x.as_str())
        invariant
            p <= v.len(),
            forall|k: int| 0 <= k < p ==> seq_lt(#[trigger] v@[k]@, x@),
        decreases v.len() - p,
    {
        p = p + 1;
    }
    if p < v.len() && str_equal(v[p].as_str(), x.as_str()) {
        assert(views(v@).to_set().contains(x@)) by {
            assert(views(v@)[p as int] == x@);
        }
        assert(views(v@).to_set().insert(x@) =~= views(v@).to_set());
        return;
    }
    let ghost before = views(v@);
    proof {
        if p < v.len() {
            lemma_lt_total(v@[p as int]@, x@);
        }
    }
    v.insert(p, x);
    proof {
        assert(views(v@) =~= before.insert(p as int, xs));
        lemma_insert_to_set(before, p as int, xs);
        let after = views(v@);
        assert forall|i: int, j: int| 0 <= i < j < after.len() implies seq_lt(#[trigger] after[i], #[trigger] after[j]) by {
            if j < p {
                assert(after[i] == before[i] && after[j] == before[j]);
            } else if j == p {
                assert(after[i] == before[i]);
            } else if i < p {
                assert(after[i] == before[i] && after[j] == before[j - 1]);
                assert(seq_lt(before[i], xs));
                assert(seq_lt(xs, before[p as int]));
                if j - 1 > p {
                    assert(seq_lt(before[p as int], before[j - 1]));
                    lemma_lt_transitive(xs, before[p as int], before[j - 1]);
                }
                lemma_lt_transitive(before[i], xs, before[j - 1]);
            } else if i == p {
                assert(after[j] == before[j - 1]);
                if j - 1 > p {
                    assert(seq_lt(before[p as int], before[j - 1]));
                    lemma_lt_transitive(xs, before[p as int], before[j - 1]);
                }
            } else {
                assert(after[i] == before[i - 1] && after[j] == before[j - 1]);
            }
        }
    }
}

/// Whether the sorted set `v` holds `x`.
pub fn sorted_contains(v: &Vec<String>, x: &str) -> (res: bool)
    ensures
        res == views(v@).to_set().contains(x@),
{
    let mut i: usize = 0;
    while i < v.len()
        invariant
            i <= v.len(),
            forall|k: int| 0 <= k < i ==> v@[k]@ != x@,
        decreases v.len() - i,
    {
        if str_equal(v[i].as_str(), x) {
            assert(views(v@)[i as int] == x@);
            return true;
        }
        i = i + 1;
    }
    proof {
        if views(v@).to_set().contains(x@) {
            let k = choose|k: int| 0 <= k < views(v@).len() && views(v@)[k] == x@;
            assert(v@[k]@ == x@);
        }
    }
    false
}

} // verus!
