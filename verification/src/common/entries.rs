//! Maps keyed by strings, held as lists of `(key, value)` entries in key order.
use vstd::prelude::*;
use crate::common::patterns::views;
use crate::common::order::{is_sorted_strict, lemma_lt_total, lemma_lt_transitive, seq_lt, str_lt};
use crate::common::text::str_equal;
use vstd::pervasive::VecAdditionalExecFns;

verus! {

/// The value of the first entry whose key is `key`.
pub open spec fn lookup<V>(entries: Seq<(String, V)>, key: Seq<char>) -> Option<V>
    decreases entries.len(),
{
    if entries.len() == 0 {
        None
    } else if entries[0].0@ == key {
        Some(entries[0].1)
    } else {
        lookup(entries.drop_first(), key)
    }
}

/// The keys of the entries, in order.
pub open spec fn keys_of<V>(entries: Seq<(String, V)>) -> Seq<Seq<char>> {
    entries.map_values(|e: (String, V)| e.0@)
}

/// The entries of an optional map are in strictly increasing key order, so
/// that no key occurs twice (an absent map qualifies).
pub open spec fn keyed<V>(m: Option<Vec<(String, V)>>) -> bool {
    match m {
        None => true,
        Some(v) => is_sorted_strict(keys_of(v@)),
    }
}

/// The first entry whose key is `key`, if any.
pub fn get_entry<'a, V>(entries: &'a Vec<(String, V)>, key: &str) -> (res: Option<&'a V>)
    ensures
        match res {
            Some(v) => lookup(entries@, key@) == Some(*v),
            None => lookup(entries@, key@) is None,
        },
{
    let mut i: usize = 0;
    assert(entries@.skip(0) =~= entries@);
    while i < entries.len()
        invariant
            i <= entries.len(),
            lookup(entries@.skip(i as int), key@) == lookup(entries@, key@),
        decreases entries.len() - i,
    {
        if str_equal(entries[i].0.as_str(), key) {
            return Some(&entries[i].1);
        }
        assert(entries@.skip(i as int).drop_first() =~= entries@.skip(i + 1));
        i = i + 1;
    }
    None
}

/// Whether the list of strings holds `x`.
pub fn list_contains(v: &Vec<String>, x: &str) -> (res: bool)
    ensures
        res == views(v@).to_set().contains(x@),
{
    let mut i: usize = 0;
    while i < v.len()
        invariant
            i <= v.len(),
            forall|k: int| 0 <= k < i ==> v@[k]@ != x@,
        decreases v.len() - i,
    {
        if str_equal(v[i].as_str(), x) {
            assert(views(v@)[i as int] == x@);
            return true;
        }
        i = i + 1;
    }
    proof {
        if views(v@).to_set().contains(x@) {
            let k = choose|k: int| 0 <= k < views(v@).len() && views(v@)[k] == x@;
            assert(v@[k]@ == x@);
        }
    }
    false
}

/// Adds `x` to the set of strings `v`; answers whether it was new.
pub fn set_insert(v: &mut Vec<String>, x: String) -> (res: bool)
    ensures
        res == !views(old(v)@).to_set().contains(x@),
        views(final(v)@).to_set() == views(old(v)@).to_set().insert(x@),
{
    if list_contains(v, x.as_str()) {
        assert(views(v@).to_set().insert(x@) =~= views(v@).to_set());
        false
    } else {
        let ghost before = views(v@);
        let ghost m = x@;
        v.push(x);
        assert(views(v@) =~= before.push(m));
        proof {
            before.lemma_push_to_set_commute(m);
        }
        true
    }
}

/// The first entry whose key is `k` is the one at `i`.
pub proof fn lemma_lookup_at<V>(es: Seq<(String, V)>, k: Seq<char>, i: int)
    requires
        0 <= i < es.len(),
        es[i].0@ == k,
        forall|j: int| 0 <= j < i ==> es[j].0@ != k,
    ensures
        lookup(es, k) == Some(es[i].1),
    decreases i,
{
    if i > 0 {
        lemma_lookup_at(es.drop_first(), k, i - 1);
    }
}

/// No entry has the key `k`.
pub proof fn lemma_lookup_none<V>(es: Seq<(String, V)>, k: Seq<char>)
    requires
        forall|j: int| 0 <= j < es.len() ==> es[j].0@ != k,
    ensures
        lookup(es, k) is None,
    decreases es.len(),
{
    if es.len() > 0 {
        lemma_lookup_none(es.drop_first(), k);
    }
}

/// Changing an entry whose key is not `k` into another one whose key is not
/// `k` leaves the lookup of `k` as it was.
pub proof fn lemma_lookup_update<V>(es: Seq<(String, V)>, i: int, e: (String, V), k: Seq<char>)
    requires
        0 <= i < es.len(),
        es[i].0@ != k,
        e.0@ != k,
    ensures
        lookup(es.update(i, e), k) == lookup(es, k),
    decreases es.len(),
{
    if i == 0 {
        assert(es.update(i, e).drop_first() =~= es.drop_first());
    } else if es[0].0@ != k {
        assert(es.update(i, e)[0] == es[0]);
        assert(es.update(i, e).drop_first() =~= es.drop_first().update(i - 1, e));
        lemma_lookup_update(es.drop_first(), i - 1, e, k);
    } else {
        assert(es.update(i, e)[0] == es[0]);
    }
}

/// Inserting an entry whose key is not `k` leaves the lookup of `k` as it was.
pub proof fn lemma_lookup_insert<V>(es: Seq<(String, V)>, j: int, e: (String, V), k: Seq<char>)
    requires
        0 <= j <= es.len(),
        e.0@ != k,
    ensures
        lookup(es.insert(j, e), k) == lookup(es, k),
    decreases es.len(),
{
    if j == 0 {
        assert(es.insert(0, e)[0] == e);
        assert(es.insert(0, e).drop_first() =~= es);
    } else if es[0].0@ != k {
        assert(es.insert(j, e)[0] == es[0]);
        assert(es.insert(j, e).drop_first() =~= es.drop_first().insert(j - 1, e));
        lemma_lookup_insert(es.drop_first(), j - 1, e, k);
    } else {
        assert(es.insert(j, e)[0] == es[0]);
    }
}

/// Sets the value of `key` to `v`: the entry of `key` is replaced where
/// there is one, and a new entry is inserted before the first greater key
/// otherwise, so that key order is kept.
pub fn upsert<V>(es: &mut Vec<(String, V)>, key: String, v: V)
    ensures
        lookup(final(es)@, key@) == Some(v),
        forall|k: Seq<char>| k != key@ ==> lookup(final(es)@, k) == lookup(old(es)@, k),
        lookup(old(es)@, key@) is Some ==> final(es)@.len() == old(es)@.len(),
        lookup(old(es)@, key@) is None ==> final(es)@.len() == old(es)@.len() + 1,
        is_sorted_strict(keys_of(old(es)@)) ==> is_sorted_strict(keys_of(final(es)@)),
{
    let mut i: usize = 0;
    while i < es.len()
        invariant
            i <= es.len(),
            es@ == old(es)@,
            forall|j: int| 0 <= j < i ==> es@[j].0@ != key@,
        decreases es.len() - i,
    {
        if str_equal(es[i].0.as_str(), key.as_str()) {
            let ghost k0 = key@;
            let ghost old_key = es@[i as int].0;
            proof {
                lemma_lookup_at(old(es)@, k0, i as int);
            }
            es.set(i, (key, v));
            proof {
                lemma_lookup_at(es@, k0, i as int);
                assert forall|k: Seq<char>| k != k0 implies lookup(es@, k) == lookup(old(es)@, k) by {
                    lemma_lookup_update(old(es)@, i as int, es@[i as int], k);
                }
                assert(keys_of(es@) =~= keys_of(old(es)@));
            }
            return;
        }
        i = i + 1;
    }
    proof {
        lemma_lookup_none(old(es)@, key@);
    }
    let mut j: usize = 0;
    while j < es.len() && !str_lt(key.as_str(), es[j].0.as_str())
        invariant
            j <= es.len(),
            es@ == old(es)@,
            forall|t: int| 0 <= t < es.len() ==> es@[t].0@ != key@,
            forall|t: int| 0 <= t < j ==> !seq_lt(key@, es@[t].0@),
        decreases es.len() - j,
    {
        j = j + 1;
    }
    let ghost k0 = key@;
    let ghost e = (key, v);
    es.insert(j, (key, v));
    proof {
        assert(es@[j as int].0@ == k0);
        assert forall|t: int| 0 <= t < j implies es@[t].0@ != k0 by {
            assert(es@[t] == old(es)@[t]);
        }
        lemma_lookup_at(es@, k0, j as int);
        assert forall|k: Seq<char>| k != k0 implies lookup(es@, k) == lookup(old(es)@, k) by {
            lemma_lookup_insert(old(es)@, j as int, es@[j as int], k);
        }
        if is_sorted_strict(keys_of(old(es)@)) {
            let ko = keys_of(old(es)@);
            let kn = keys_of(es@);
            assert forall|a: int, b: int| 0 <= a < b < kn.len() implies seq_lt(#[trigger] kn[a], #[trigger] kn[b]) by {
                if b < j {
                    assert(kn[a] == ko[a] && kn[b] == ko[b]);
                } else if b == j {
                    assert(kn[a] == ko[a]);
                    lemma_lt_total(ko[a], k0);
                } else if a == j {
                    assert(kn[b] == ko[b - 1]);
                    if j < old(es)@.len() {
                        assert(seq_lt(k0, ko[j as int]));
                        if b - 1 > j {
                            lemma_lt_transitive(k0, ko[j as int], ko[b - 1]);
                        }
                    }
                } else if a < j {
                    assert(kn[a] == ko[a] && kn[b] == ko[b - 1]);
                } else {
                    assert(kn[a] == ko[a - 1] && kn[b] == ko[b - 1]);
                }
            }
        }
    }
}

} // verus!
