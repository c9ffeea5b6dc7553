//! How the keys of the objects that are read key by key (path items,
//! callbacks, paths, responses) are understood, and the first key that makes
//! such an object unreadable.
use vstd::prelude::*;
use crate::common::patterns::{lowercase, to_lowercase};
use crate::common::text::{is_prefix_of, starts_with, str_equal, to_owned_string};
use crate::v3_1::response::is_response_code;

verus! {

/// What a key of an object names.
#[derive(Clone, Copy, Debug, PartialEq, Eq, Structural)]
pub enum FieldKind {
    /// `$ref`.
    Reference,
    /// `summary`.
    Summary,
    /// `description`.
    Description,
    /// `parameters`.
    Parameters,
    /// `servers`.
    Servers,
    /// `default`.
    Default,
    /// A specification extension, `x-...`.
    Extension,
    /// An operation, by HTTP method.
    Operation,
    /// A response, by status code or range.
    Code,
    /// A path item, by path or expression.
    Path,
    /// A key that the object does not accept.
    Unknown,
}

/// A key of an object, as understood: what it names, and the name under
/// which it is kept.
#[derive(Debug)]
pub struct FieldKey {
    pub kind: FieldKind,
    pub name: String,
}

/// Why an object cannot be read.
#[derive(Debug)]
pub enum KeyProblem {
    /// The key (as kept) occurs twice.
    Duplicate(String),
    /// The object does not accept the key.
    Unknown(String),
}

/// The eight HTTP methods that a v3.1 path item accepts.
pub open spec fn is_http_method(k: Seq<char>) -> bool {
    k == "get"@ || k == "put"@ || k == "post"@ || k == "delete"@ || k == "options"@ || k == "head"@ || k == "patch"@
        || k == "trace"@
}

/// What the key `k` of a v3.1 path item names.
pub open spec fn path_item_kind_3_1(k: Seq<char>) -> FieldKind {
    if k == "$ref"@ {
        FieldKind::Reference
    } else if k == "summary"@ {
        FieldKind::Summary
    } else if k == "description"@ {
        FieldKind::Description
    } else if k == "parameters"@ {
        FieldKind::Parameters
    } else if k == "servers"@ {
        FieldKind::Servers
    } else if is_prefix_of("x-"@, k) {
        FieldKind::Extension
    } else if is_http_method(k) {
        FieldKind::Operation
    } else {
        FieldKind::Unknown
    }
}

/// Understands the key `key` of a v3.1 path item.
pub fn path_item_key_3_1(key: &str) -> (res: FieldKey)
    ensures
        res.kind == path_item_kind_3_1(key@),
        res.name@ == key@,
{
    let kind = if str_equal(key, "$ref") {
        FieldKind::Reference
    } else if str_equal(key, "summary") {
        FieldKind::Summary
    } else if str_equal(key, "description") {
        FieldKind::Description
    } else if str_equal(key, "parameters") {
        FieldKind::Parameters
    } else if str_equal(key, "servers") {
        FieldKind::Servers
    } else if starts_with(key, "x-") {
        FieldKind::Extension
    } else if str_equal(key, "get") || str_equal(key, "put") || str_equal(key, "post") || str_equal(key, "delete")
        || str_equal(key, "options") || str_equal(key, "head") || str_equal(key, "patch") || str_equal(key, "trace") {
        FieldKind::Operation
    } else {
        FieldKind::Unknown
    };
    FieldKey { kind, name: to_owned_string(key) }
}

/// What the key `k` of a v3.0 path item names: any key that is not
/// `parameters`, `servers` or an extension is an operation.
pub open spec fn path_item_kind_3_0(k: Seq<char>) -> FieldKind {
    if k == "parameters"@ {
        FieldKind::Parameters
    } else if k == "servers"@ {
        FieldKind::Servers
    } else if is_prefix_of("x-"@, k) {
        FieldKind::Extension
    } else {
        FieldKind::Operation
    }
}

/// Understands the key `key` of a v3.0 path item; an operation is kept
/// under its lowercase name.
pub fn path_item_key_3_0(key: &str) -> (res: FieldKey)
    ensures
        res.kind == path_item_kind_3_0(key@),
        res.name@ == if res.kind == FieldKind::Operation { lowercase(key@) } else { key@ },
{
    if str_equal(key, "parameters") {
        FieldKey { kind: FieldKind::Parameters, name: to_owned_string(key) }
    } else if str_equal(key, "servers") {
        FieldKey { kind: FieldKind::Servers, name: to_owned_string(key) }
    } else if starts_with(key, "x-") {
        FieldKey { kind: FieldKind::Extension, name: to_owned_string(key) }
    } else {
        FieldKey { kind: FieldKind::Operation, name: to_lowercase(key) }
    }
}

/// What the key `k` of a Paths (or Webhooks) object or of a Callback names.
pub open spec fn path_map_kind(k: Seq<char>) -> FieldKind {
    if is_prefix_of("x-"@, k) {
        FieldKind::Extension
    } else {
        FieldKind::Path
    }
}

/// Understands the key `key` of a Paths (or Webhooks) object or of a Callback.
pub fn path_map_key(key: &str) -> (res: FieldKey)
    ensures
        res.kind == path_map_kind(key@),
        res.name@ == key@,
{
    let kind = if starts_with(key, "x-") {
        FieldKind::Extension
    } else {
        FieldKind::Path
    };
    FieldKey { kind, name: to_owned_string(key) }
}

/// What the key `k` of a Responses object names.
pub open spec fn responses_kind(k: Seq<char>) -> FieldKind {
    if k == "default"@ {
        FieldKind::Default
    } else if is_prefix_of("x-"@, k) {
        FieldKind::Extension
    } else if is_response_code(k) {
        FieldKind::Code
    } else {
        FieldKind::Unknown
    }
}

/// Understands the key `key` of a Responses object.
pub fn responses_key(key: &str) -> (res: FieldKey)
    ensures
        res.kind == responses_kind(key@),
        res.name@ == key@,
{
    let kind = if str_equal(key, "default") {
        FieldKind::Default
    } else if starts_with(key, "x-") {
        FieldKind::Extension
    } else if crate::v3_1::response::is_response_code_key(key) {
        FieldKind::Code
    } else {
        FieldKind::Unknown
    };
    FieldKey { kind, name: to_owned_string(key) }
}

/// The keys `keys[..n]`, as (kind, name) pairs.
pub open spec fn key_slots(keys: Seq<FieldKey>) -> Seq<(FieldKind, Seq<char>)> {
    keys.map_values(|k: FieldKey| (k.kind, k.name@))
}

/// The first of the keys `keys[..n]` that makes the object unreadable: one
/// it does not accept, or one kept under the same kind and name as an
/// earlier key.
pub open spec fn first_key_problem(keys: Seq<(FieldKind, Seq<char>)>, n: nat) -> Option<(bool, Seq<char>)>
    decreases n,
{
    if n == 0 {
        None
    } else {
        match first_key_problem(keys, (n - 1) as nat) {
            Some(p) => Some(p),
            None => {
                let k = keys[n - 1];
                if k.0 == FieldKind::Unknown {
                    Some((false, k.1))
                } else if keys.take(n - 1).contains(k) {
                    Some((true, k.1))
                } else {
                    None
                }
            },
        }
    }
}

/// Once a key makes an object unreadable, more keys do not change which.
pub proof fn lemma_first_problem_stays(keys: Seq<(FieldKind, Seq<char>)>, m: nat, n: nat)
    requires
        m <= n,
        first_key_problem(keys, m) is Some,
    ensures
        first_key_problem(keys, n) == first_key_problem(keys, m),
    decreases n,
{
    if n > m {
        lemma_first_problem_stays(keys, m, (n - 1) as nat);
    }
}

/// The first key of `keys` that makes the object unreadable, if any (see
/// [`first_key_problem`]).
pub fn check_keys(keys: &Vec<FieldKey>) -> (res: Option<KeyProblem>)
    ensures
        match res {
            None => first_key_problem(key_slots(keys@), keys@.len()) is None,
            Some(KeyProblem::Duplicate(n)) => first_key_problem(key_slots(keys@), keys@.len()) == Some((true, n@)),
            Some(KeyProblem::Unknown(n)) => first_key_problem(key_slots(keys@), keys@.len()) == Some((false, n@)),
        },
{
    let ghost slots = key_slots(keys@);
    let mut i: usize = 0;
    while i < keys.len()
        invariant
            i <= keys.len(),
            slots == key_slots(keys@),
            first_key_problem(slots, i as nat) is None,
        decreases keys.len() - i,
    {
        let k = &keys[i];
        assert(slots[i as int] == (k.kind, k.name@));
        if k.kind == FieldKind::Unknown {
            proof {
                lemma_first_problem_stays(slots, (i + 1) as nat, keys@.len());
            }
            return Some(KeyProblem::Unknown(to_owned_string(k.name.as_str())));
        }
        let mut j: usize = 0;
        while j < i
            invariant
                j <= i < keys.len(),
                slots == key_slots(keys@),
                *k == keys@[i as int],
                k.kind != FieldKind::Unknown,
                first_key_problem(slots, i as nat) is None,
                forall|t: int| 0 <= t < j ==> slots[t] != slots[i as int],
            decreases i - j,
        {
            assert(slots[j as int] == (keys@[j as int].kind, keys@[j as int].name@));
            if keys[j].kind == k.kind && str_equal(keys[j].name.as_str(), k.name.as_str()) {
                proof {
                    assert(slots.take(i as int)[j as int] == slots[i as int]);
                    assert(slots.take(i as int).contains(slots[i as int]));
                    assert(first_key_problem(slots, (i + 1) as nat) == Some((true, slots[i as int].1)));
                    lemma_first_problem_stays(slots, (i + 1) as nat, keys@.len());
                }
                return Some(KeyProblem::Duplicate(to_owned_string(k.name.as_str())));
            }
            j = j + 1;
        }
        proof {
            if slots.take(i as int).contains(slots[i as int]) {
                let t = choose|t: int| 0 <= t < i && slots.take(i as int)[t] == slots[i as int];
                assert(slots[t] == slots.take(i as int)[t]);
            }
            assert(first_key_problem(slots, (i + 1) as nat) is None);
        }
        i = i + 1;
    }
    None
}

/// An object is read exactly when every one of its keys is accepted and no
/// key (as kept) occurs twice.
pub proof fn law_keys_accepted_iff_known_and_distinct(keys: Seq<(FieldKind, Seq<char>)>, n: nat)
    requires
        n <= keys.len(),
    ensures
        first_key_problem(keys, n) is None <==> {
            &&& forall|i: int| 0 <= i < n ==> keys[i].0 != FieldKind::Unknown
            &&& forall|i: int, j: int| 0 <= i < j < n ==> keys[i] != keys[j]
        },
    decreases n,
{
    if n > 0 {
        law_keys_accepted_iff_known_and_distinct(keys, (n - 1) as nat);
        let k = keys[n - 1];
        if first_key_problem(keys, (n - 1) as nat) is None && k.0 != FieldKind::Unknown {
            if keys.take(n - 1).contains(k) {
                let i = choose|i: int| 0 <= i < n - 1 && #[trigger] keys.take(n - 1)[i] == k;
                assert(keys[i] == k);
            } else {
                assert forall|i: int, j: int| 0 <= i < j < n implies keys[i] != keys[j] by {
                    if j == n - 1 {
                        assert(keys.take(n - 1)[i] == keys[i]);
                    }
                };
            }
        }
    }
}

} // verus!
