//! JSON values, as the document rewrites between versions see them.
use vstd::prelude::*;
use vstd::pervasive::VecAdditionalExecFns;
use crate::common::order::{seq_lt, str_lt};
use crate::common::text::str_equal;

verus! {

/// A JSON value. A number is kept as its JSON text; an object as its
/// `(key, value)` entries, in key order.
#[derive(Debug, PartialEq)]
pub enum JsonValue {
    Null,
    Bool(bool),
    Number(String),
    String(String),
    Array(Vec<JsonValue>),
    Object(Vec<(String, JsonValue)>),
}

/// The mathematical value of a JSON value.
pub enum Json {
    Null,
    Bool(bool),
    Number(Seq<char>),
    Str(Seq<char>),
    Array(Seq<Json>),
    Object(Seq<(Seq<char>, Json)>),
}

impl JsonValue {
    /// The value, with every string and list taken by its view.
    pub open spec fn deep(self) -> Json
        decreases self,
    {
        match self {
            JsonValue::Null => Json::Null,
            JsonValue::Bool(b) => Json::Bool(b),
            JsonValue::Number(n) => Json::Number(n@),
            JsonValue::String(s) => Json::Str(s@),
            JsonValue::Array(a) => Json::Array(
                Seq::new(
                    a@.len(),
                    |i: int|
                        if 0 <= i < a@.len() {
                            a@[i].deep()
                        } else {
                            Json::Null
                        },
                ),
            ),
            JsonValue::Object(o) => Json::Object(
                Seq::new(
                    o@.len(),
                    |i: int|
                        if 0 <= i < o@.len() {
                            (o@[i].0@, o@[i].1.deep())
                        } else {
                            (Seq::empty(), Json::Null)
                        },
                ),
            ),
        }
    }
}

/// The mathematical entries of an object's exec entries.
pub open spec fn deep_entries(o: Seq<(String, JsonValue)>) -> Seq<(Seq<char>, Json)> {
    Seq::new(o.len(), |i: int| (o[i].0@, o[i].1.deep()))
}

/// The mathematical items of an array's exec items.
pub open spec fn deep_items(a: Seq<JsonValue>) -> Seq<Json> {
    Seq::new(a.len(), |i: int| a[i].deep())
}

/// An object's deep view is the deep view of its entries.
pub proof fn lemma_deep_object(o: Vec<(String, JsonValue)>)
    ensures
        JsonValue::Object(o).deep() == Json::Object(deep_entries(o@)),
{
    assert(deep_entries(o@) =~= match JsonValue::Object(o).deep() {
        Json::Object(e) => e,
        _ => Seq::empty(),
    });
}

/// An array's deep view is the deep view of its items.
pub proof fn lemma_deep_array(a: Vec<JsonValue>)
    ensures
        JsonValue::Array(a).deep() == Json::Array(deep_items(a@)),
{
    assert(deep_items(a@) =~= match JsonValue::Array(a).deep() {
        Json::Array(e) => e,
        _ => Seq::empty(),
    });
}

/// `i` is the first index of an entry of `o` with key `k`.
pub open spec fn is_first_key(o: Seq<(Seq<char>, Json)>, k: Seq<char>, i: int) -> bool {
    &&& 0 <= i < o.len()
    &&& o[i].0 == k
    &&& forall|j: int| 0 <= j < i ==> o[j].0 != k
}

/// The index of the first entry of `o` with key `k`, or the length of `o`
/// where there is none.
pub open spec fn key_index(o: Seq<(Seq<char>, Json)>, k: Seq<char>) -> int {
    if exists|i: int| is_first_key(o, k, i) {
        choose|i: int| is_first_key(o, k, i)
    } else {
        o.len() as int
    }
}

/// The value of the first entry of `o` with key `k`.
pub open spec fn obj_get(o: Seq<(Seq<char>, Json)>, k: Seq<char>) -> Option<Json> {
    let i = key_index(o, k);
    if i < o.len() {
        Some(o[i].1)
    } else {
        None
    }
}

/// `o` without its first entry with key `k`.
pub open spec fn obj_remove(o: Seq<(Seq<char>, Json)>, k: Seq<char>) -> Seq<(Seq<char>, Json)> {
    let i = key_index(o, k);
    if i < o.len() {
        o.remove(i)
    } else {
        o
    }
}

/// `i` is where `k` goes in `o`: the first entry whose key is `k` or comes
/// after `k`, or the end.
pub open spec fn is_insert_pos(o: Seq<(Seq<char>, Json)>, k: Seq<char>, i: int) -> bool {
    &&& 0 <= i <= o.len()
    &&& i < o.len() ==> (o[i].0 == k || seq_lt(k, o[i].0))
    &&& forall|j: int| 0 <= j < i ==> o[j].0 != k && !seq_lt(k, o[j].0)
}

/// Where `k` goes in `o`.
pub open spec fn insert_index(o: Seq<(Seq<char>, Json)>, k: Seq<char>) -> int {
    if exists|i: int| is_insert_pos(o, k, i) {
        choose|i: int| is_insert_pos(o, k, i)
    } else {
        o.len() as int
    }
}

/// `o` with the value of `k` set to `v`: the entry found at the place of `k`
/// is replaced if it has key `k`; otherwise a new entry goes there. (On
/// entries in strictly increasing key order, this is a sorted map's insert.)
pub open spec fn obj_insert(o: Seq<(Seq<char>, Json)>, k: Seq<char>, v: Json) -> Seq<(Seq<char>, Json)> {
    let i = insert_index(o, k);
    if i < o.len() && o[i].0 == k {
        o.update(i, (k, v))
    } else {
        o.insert(i, (k, v))
    }
}

/// There is at most one first index of a key.
pub proof fn lemma_first_key_unique(o: Seq<(Seq<char>, Json)>, k: Seq<char>, i: int)
    requires
        is_first_key(o, k, i),
    ensures
        key_index(o, k) == i,
{
    let c = choose|c: int| is_first_key(o, k, c);
    if c < i {
        assert(o[c].0 != k);
    } else if i < c {
        assert(o[i].0 != k);
    }
}

/// There is at most one place for a key.
pub proof fn lemma_insert_pos_unique(o: Seq<(Seq<char>, Json)>, k: Seq<char>, i: int)
    requires
        is_insert_pos(o, k, i),
    ensures
        insert_index(o, k) == i,
{
    let c = choose|c: int| is_insert_pos(o, k, c);
    if c < i {
        assert(o[c].0 != k && !seq_lt(k, o[c].0));
    } else if i < c {
        assert(o[i].0 != k && !seq_lt(k, o[i].0));
    }
}

/// The index of the first entry of `o` with key `k`, or the length of `o`.
pub fn find_key(o: &Vec<(String, JsonValue)>, k: &str) -> (res: usize)
    ensures
        res as int == key_index(deep_entries(o@), k@),
{
    let ghost d = deep_entries(o@);
    let mut i: usize = 0;
    while i < o.len()
        invariant
            i <= o.len(),
            d == deep_entries(o@),
            forall|j: int| 0 <= j < i ==> d[j].0 != k@,
        decreases o.len() - i,
    {
        if str_equal(o[i].0.as_str(), k) {
            proof {
                lemma_first_key_unique(d, k@, i as int);
            }
            return i;
        }
        i = i + 1;
    }
    assert(!exists|j: int| is_first_key(d, k@, j));
    i
}

/// The value of the first entry of `o` with key `k`.
pub fn obj_get_value<'a>(o: &'a Vec<(String, JsonValue)>, k: &str) -> (res: Option<&'a JsonValue>)
    ensures
        match res {
            Some(v) => obj_get(deep_entries(o@), k@) == Some(v.deep()),
            None => obj_get(deep_entries(o@), k@) is None,
        },
{
    let i = find_key(o, k);
    if i < o.len() {
        Some(&o[i].1)
    } else {
        None
    }
}

/// Whether `o` has an entry with key `k`.
pub fn obj_contains_key(o: &Vec<(String, JsonValue)>, k: &str) -> (res: bool)
    ensures
        res == obj_get(deep_entries(o@), k@) is Some,
{
    find_key(o, k) < o.len()
}

/// Removes the first entry of `o` with key `k`, giving back its value.
pub fn obj_remove_value(o: &mut Vec<(String, JsonValue)>, k: &str) -> (res: Option<JsonValue>)
    ensures
        deep_entries(final(o)@) == obj_remove(deep_entries(old(o)@), k@),
        match res {
            Some(v) => obj_get(deep_entries(old(o)@), k@) == Some(v.deep()),
            None => obj_get(deep_entries(old(o)@), k@) is None,
        },
{
    let i = find_key(o, k);
    if i < o.len() {
        let e = o.remove(i);
        assert(deep_entries(o@) =~= deep_entries(old(o)@).remove(i as int));
        Some(e.1)
    } else {
        None
    }
}

/// Sets the value of `k` in `o` to `v` (see [`obj_insert`]).
pub fn obj_insert_value(o: &mut Vec<(String, JsonValue)>, k: String, v: JsonValue)
    ensures
        deep_entries(final(o)@) == obj_insert(deep_entries(old(o)@), k@, v.deep()),
{
    let ghost d = deep_entries(o@);
    let mut i: usize = 0;
    while i < o.len() && !(str_equal(o[i].0.as_str(), k.as_str()) || str_lt(k.as_str(), o[i].0.as_str()))
        invariant
            i <= o.len(),
            o@ == old(o)@,
            d == deep_entries(o@),
            forall|j: int| 0 <= j < i ==> d[j].0 != k@ && !seq_lt(k@, d[j].0),
        decreases o.len() - i,
    {
        i = i + 1;
    }
    proof {
        lemma_insert_pos_unique(d, k@, i as int);
    }
    let ghost kv = (k@, v.deep());
    if i < o.len() && str_equal(o[i].0.as_str(), k.as_str()) {
        o.set(i, (k, v));
        assert(deep_entries(o@) =~= d.update(i as int, kv));
    } else {
        o.insert(i, (k, v));
        assert(deep_entries(o@) =~= d.insert(i as int, kv));
    }
}

/// The keys of the entries are in strictly increasing order (as in the
/// objects of a JSON document read into a sorted map), so no key occurs
/// twice.
pub open spec fn keys_sorted(o: Seq<(Seq<char>, Json)>) -> bool {
    forall|i: int, j: int| 0 <= i < j < o.len() ==> seq_lt(#[trigger] o[i].0, #[trigger] o[j].0)
}

/// Where some entry has key `k`, a first one does.
pub proof fn lemma_first_key_exists(o: Seq<(Seq<char>, Json)>, k: Seq<char>, i: int)
    requires
        0 <= i < o.len(),
        o[i].0 == k,
    ensures
        is_first_key(o, k, key_index(o, k)),
    decreases i,
{
    if exists|j: int| 0 <= j < i && o[j].0 == k {
        let j = choose|j: int| 0 <= j < i && o[j].0 == k;
        lemma_first_key_exists(o, k, j);
    } else {
        assert(is_first_key(o, k, i));
        lemma_first_key_unique(o, k, i);
    }
}

/// What looking a key up gives: the value of its first entry, or nothing
/// where no entry has the key.
pub proof fn lemma_get_cases(o: Seq<(Seq<char>, Json)>, k: Seq<char>)
    ensures
        obj_get(o, k) is None <==> forall|j: int| 0 <= j < o.len() ==> o[j].0 != k,
        obj_get(o, k) is Some ==> is_first_key(o, k, key_index(o, k)) && obj_get(o, k) == Some(
            o[key_index(o, k)].1,
        ),
{
    if exists|j: int| 0 <= j < o.len() && o[j].0 == k {
        let j = choose|j: int| 0 <= j < o.len() && o[j].0 == k;
        lemma_first_key_exists(o, k, j);
    } else {
        assert(!exists|j: int| is_first_key(o, k, j));
    }
}

/// Every key has a place.
pub proof fn lemma_insert_pos_exists(o: Seq<(Seq<char>, Json)>, k: Seq<char>)
    ensures
        is_insert_pos(o, k, insert_index(o, k)),
{
    if exists|j: int| 0 <= j < o.len() && (o[j].0 == k || seq_lt(k, o[j].0)) {
        let j = choose|j: int| 0 <= j < o.len() && (o[j].0 == k || seq_lt(k, o[j].0));
        lemma_insert_pos_min(o, k, j);
    } else {
        assert(is_insert_pos(o, k, o.len() as int));
        lemma_insert_pos_unique(o, k, o.len() as int);
    }
}

/// The first entry at or after `k`, found from any such entry.
proof fn lemma_insert_pos_min(o: Seq<(Seq<char>, Json)>, k: Seq<char>, i: int)
    requires
        0 <= i < o.len(),
        o[i].0 == k || seq_lt(k, o[i].0),
    ensures
        is_insert_pos(o, k, insert_index(o, k)),
    decreases i,
{
    if exists|j: int| 0 <= j < i && (o[j].0 == k || seq_lt(k, o[j].0)) {
        let j = choose|j: int| 0 <= j < i && (o[j].0 == k || seq_lt(k, o[j].0));
        lemma_insert_pos_min(o, k, j);
    } else {
        assert(is_insert_pos(o, k, i));
        lemma_insert_pos_unique(o, k, i);
    }
}

/// Removing a key leaves the other keys' values alone.
pub proof fn lemma_get_remove_other(o: Seq<(Seq<char>, Json)>, k: Seq<char>, k2: Seq<char>)
    requires
        k2 != k,
    ensures
        obj_get(obj_remove(o, k), k2) == obj_get(o, k2),
{
    let i = key_index(o, k);
    lemma_get_cases(o, k);
    lemma_get_cases(o, k2);
    if i < o.len() {
        let r = o.remove(i);
        lemma_get_cases(r, k2);
        if obj_get(o, k2) is Some {
            let f = key_index(o, k2);
            if f < i {
                assert(is_first_key(r, k2, f));
                lemma_first_key_unique(r, k2, f);
            } else {
                assert(f != i);
                assert(r[f - 1] == o[f]);
                assert forall|j: int| 0 <= j < f - 1 implies r[j].0 != k2 by {
                    if j >= i {
                        assert(r[j] == o[j + 1]);
                    }
                };
                assert(is_first_key(r, k2, f - 1));
                lemma_first_key_unique(r, k2, f - 1);
            }
        } else {
            assert forall|j: int| 0 <= j < r.len() implies r[j].0 != k2 by {
                if j >= i {
                    assert(r[j] == o[j + 1]);
                } else {
                    assert(r[j] == o[j]);
                }
            };
        }
    }
}

/// In an object whose keys are sorted, removing a key removes it.
pub proof fn lemma_get_remove_same(o: Seq<(Seq<char>, Json)>, k: Seq<char>)
    requires
        keys_sorted(o),
    ensures
        obj_get(obj_remove(o, k), k) is None,
        keys_sorted(obj_remove(o, k)),
{
    let i = key_index(o, k);
    lemma_get_cases(o, k);
    if i < o.len() {
        let r = o.remove(i);
        assert forall|j: int| 0 <= j < r.len() implies r[j].0 != k by {
            if j >= i {
                assert(r[j] == o[j + 1]);
                crate::common::order::lemma_lt_irreflexive(k);
            } else {
                assert(r[j] == o[j]);
            }
        };
        lemma_get_cases(r, k);
        assert forall|a: int, b: int| 0 <= a < b < r.len() implies seq_lt(#[trigger] r[a].0, #[trigger] r[b].0) by {
            let oa = if a < i { a } else { a + 1 };
            let ob = if b < i { b } else { b + 1 };
            assert(r[a] == o[oa] && r[b] == o[ob]);
        };
    }
}

/// Setting a key gives that key the new value.
pub proof fn lemma_get_insert_same(o: Seq<(Seq<char>, Json)>, k: Seq<char>, v: Json)
    ensures
        obj_get(obj_insert(o, k, v), k) == Some(v),
{
    lemma_insert_pos_exists(o, k);
    let i = insert_index(o, k);
    let r = obj_insert(o, k, v);
    assert(r[i] == (k, v));
    assert forall|j: int| 0 <= j < i implies r[j].0 != k by {
        assert(r[j] == o[j]);
    };
    assert(is_first_key(r, k, i));
    lemma_first_key_unique(r, k, i);
}

/// Setting a key leaves the other keys' values alone.
pub proof fn lemma_get_insert_other(o: Seq<(Seq<char>, Json)>, k: Seq<char>, v: Json, k2: Seq<char>)
    requires
        k2 != k,
    ensures
        obj_get(obj_insert(o, k, v), k2) == obj_get(o, k2),
{
    lemma_insert_pos_exists(o, k);
    let i = insert_index(o, k);
    let r = obj_insert(o, k, v);
    lemma_get_cases(o, k2);
    lemma_get_cases(r, k2);
    if i < o.len() && o[i].0 == k {
        assert forall|j: int| 0 <= j < r.len() implies r[j].0 == o[j].0 by {};
        if obj_get(o, k2) is Some {
            let f = key_index(o, k2);
            assert(is_first_key(r, k2, f));
            lemma_first_key_unique(r, k2, f);
        } else {
            assert forall|j: int| 0 <= j < r.len() implies r[j].0 != k2 by {};
        }
    } else {
        if obj_get(o, k2) is Some {
            let f = key_index(o, k2);
            if f < i {
                assert(is_first_key(r, k2, f));
                lemma_first_key_unique(r, k2, f);
            } else {
                assert(r[f + 1] == o[f]);
                assert forall|j: int| 0 <= j < f + 1 implies r[j].0 != k2 by {
                    if j > i {
                        assert(r[j] == o[j - 1]);
                    } else if j < i {
                        assert(r[j] == o[j]);
                    }
                };
                assert(is_first_key(r, k2, f + 1));
                lemma_first_key_unique(r, k2, f + 1);
            }
        } else {
            assert forall|j: int| 0 <= j < r.len() implies r[j].0 != k2 by {
                if j > i {
                    assert(r[j] == o[j - 1]);
                } else if j < i {
                    assert(r[j] == o[j]);
                }
            };
        }
    }
}

/// Two entry lists with the same keys at the same places find a key at the
/// same place.
pub proof fn lemma_same_keys(o1: Seq<(Seq<char>, Json)>, o2: Seq<(Seq<char>, Json)>, k: Seq<char>)
    requires
        o1.len() == o2.len(),
        forall|j: int| 0 <= j < o1.len() ==> (#[trigger] o1[j]).0 == o2[j].0,
    ensures
        key_index(o1, k) == key_index(o2, k),
{
    lemma_get_cases(o1, k);
    lemma_get_cases(o2, k);
    if obj_get(o1, k) is Some {
        let f = key_index(o1, k);
        assert(o1[f].0 == o2[f].0);
        assert forall|j: int| 0 <= j < f implies o2[j].0 != k by {
            assert(o1[j].0 == o2[j].0);
        };
        assert(is_first_key(o2, k, f));
        lemma_first_key_unique(o2, k, f);
    } else if obj_get(o2, k) is Some {
        let f = key_index(o2, k);
        assert(o1[f].0 == k);
    }
}

} // verus!
