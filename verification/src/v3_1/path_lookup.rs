//! Finding the path item that an internal `$ref` names, and following chains
//! of path item `$ref`s.
use vstd::prelude::*;
use crate::common::entries::{get_entry, lookup, set_insert};
use crate::common::model::{Callback, PathItem, Paths};
use crate::common::patterns::views;
use crate::common::pointer::{unescape_pointer_token, unescaped_token};
use crate::common::text::{contains_char, has_char, split_once, split_once_spec, strip_prefix, strip_prefix_of};
use crate::v3_0::reference::{item_of, map_view, resolve_in_entries, resolved_in_map, resolve_chain, RefOr};
use crate::v3_1::spec::Spec;

verus! {

/// The entries of an optional Paths object.
pub open spec fn opt_paths(p: Option<Paths>) -> Option<Seq<(String, PathItem)>> {
    match p {
        None => None,
        Some(x) => Some(x.paths@),
    }
}

/// The entries of `components.pathItems`.
pub open spec fn component_path_items(spec: Spec) -> Option<Seq<(String, PathItem)>> {
    match spec.components {
        None => None,
        Some(c) => map_view(c.path_items),
    }
}

/// The path item of a container named by one pointer token (which must not
/// hold an unescaped `/`).
pub open spec fn item_by_token(container: Option<Seq<(String, PathItem)>>, token: Seq<char>) -> Option<PathItem> {
    if has_char(token, '/') {
        None
    } else {
        match container {
            None => None,
            Some(es) => lookup(es, unescaped_token(token)),
        }
    }
}

/// The callback `components.callbacks` declares under `name`, through its `$ref` if it has one.
pub open spec fn callback_named(spec: Spec, name: Seq<char>) -> Option<Callback> {
    match spec.components {
        None => None,
        Some(c) => match map_view(c.callbacks) {
            None => None,
            Some(es) => match lookup(es, name) {
                None => None,
                Some(entry) => match item_of(
                    entry,
                    resolved_in_map(Some(es), entry->Ref_0.reference@, "#/components/callbacks/"@),
                ) {
                    Ok(cb) => Some(cb),
                    Err(_) => None,
                },
            },
        },
    }
}

/// The path item named by an internal reference into `#/paths`, `#/webhooks`,
/// `#/components/pathItems` or (by callback name and expression)
/// `#/components/callbacks`.
pub open spec fn path_item_at(spec: Spec, reference: Seq<char>) -> Option<PathItem> {
    match strip_prefix_of(reference, "#/paths/"@) {
        Some(after) => item_by_token(opt_paths(spec.paths), after),
        None => match strip_prefix_of(reference, "#/webhooks/"@) {
            Some(after) => item_by_token(opt_paths(spec.webhooks), after),
            None => match strip_prefix_of(reference, "#/components/pathItems/"@) {
                Some(after) => item_by_token(component_path_items(spec), after),
                None => match strip_prefix_of(reference, "#/components/callbacks/"@) {
                    Some(after) => match split_once_spec(after, '/') {
                        None => None,
                        Some((cb, expr)) => if has_char(expr, '/') {
                            None
                        } else {
                            match callback_named(spec, unescaped_token(cb)) {
                                None => None,
                                Some(c) => lookup(c.paths@, unescaped_token(expr)),
                            }
                        },
                    },
                    None => None,
                },
            },
        },
    }
}

/// The values of a map held as entries.
pub open spec fn entry_values<V>(es: Seq<(String, V)>) -> Seq<V> {
    es.map_values(|e: (String, V)| e.1)
}

/// The values of an optional map.
pub open spec fn opt_values<V>(o: Option<Seq<(String, V)>>) -> Seq<V> {
    match o {
        None => seq![],
        Some(es) => entry_values(es),
    }
}

/// The path items of the inline callbacks of a callback map.
pub open spec fn callback_items(es: Seq<(String, RefOr<Callback>)>) -> Seq<PathItem>
    decreases es.len(),
{
    if es.len() == 0 {
        seq![]
    } else {
        callback_items(es.drop_last()) + match es.last().1 {
            RefOr::Item(cb) => entry_values(cb.paths@),
            RefOr::Ref(_) => seq![],
        }
    }
}

/// Every path item held by the document's path item containers.
pub open spec fn all_path_items(spec: Spec) -> Seq<PathItem> {
    opt_values(opt_paths(spec.paths)) + opt_values(opt_paths(spec.webhooks)) + opt_values(
        component_path_items(spec),
    ) + match spec.components {
        None => seq![],
        Some(c) => match map_view(c.callbacks) {
            None => seq![],
            Some(es) => callback_items(es),
        },
    }
}

pub proof fn lemma_lookup_in<V>(es: Seq<(String, V)>, key: Seq<char>)
    requires
        lookup(es, key) is Some,
    ensures
        entry_values(es).contains(lookup(es, key)->0),
    decreases es.len(),
{
    if es[0].0@ == key {
        assert(entry_values(es)[0] == es[0].1);
    } else {
        lemma_lookup_in(es.drop_first(), key);
        let k = choose|k: int| 0 <= k < entry_values(es.drop_first()).len()
            && entry_values(es.drop_first())[k] == lookup(es, key)->0;
        assert(entry_values(es)[k + 1] == entry_values(es.drop_first())[k]);
    }
}

pub proof fn lemma_chain_in<D>(es: Seq<(String, RefOr<D>)>, prefix: Seq<char>, key: Seq<char>, fuel: nat)
    requires
        resolve_chain(es, prefix, key, fuel) is Some,
    ensures
        entry_values(es).contains(RefOr::Item(resolve_chain(es, prefix, key, fuel)->0)),
    decreases fuel,
{
    lemma_lookup_in(es, key);
    match lookup(es, key) {
        Some(RefOr::Item(d)) => {},
        Some(RefOr::Ref(r)) => {
            lemma_chain_in(es, prefix, crate::common::text::trim_start_all(r.reference@, prefix), (fuel - 1) as nat);
        },
        None => {},
    }
}

pub proof fn lemma_callback_items_in(es: Seq<(String, RefOr<Callback>)>, cb: Callback, p: PathItem)
    requires
        entry_values(es).contains(RefOr::Item(cb)),
        entry_values(cb.paths@).contains(p),
    ensures
        callback_items(es).contains(p),
    decreases es.len(),
{
    let k = choose|k: int| 0 <= k < entry_values(es).len() && entry_values(es)[k] == RefOr::<Callback>::Item(cb);
    let j = choose|j: int| 0 <= j < entry_values(cb.paths@).len() && entry_values(cb.paths@)[j] == p;
    let prev = callback_items(es.drop_last());
    if k == es.len() - 1 {
        assert(es.last().1 == RefOr::<Callback>::Item(cb));
        assert(callback_items(es)[prev.len() + j] == p);
    } else {
        assert(entry_values(es.drop_last())[k] == RefOr::<Callback>::Item(cb));
        lemma_callback_items_in(es.drop_last(), cb, p);
        let i = choose|i: int| 0 <= i < prev.len() && prev[i] == p;
        assert(callback_items(es)[i] == p);
    }
}

pub proof fn lemma_concat_contains<A>(a: Seq<A>, b: Seq<A>, x: A)
    requires
        a.contains(x) || b.contains(x),
    ensures
        (a + b).contains(x),
{
    if a.contains(x) {
        let k = choose|k: int| 0 <= k < a.len() && a[k] == x;
        assert((a + b)[k] == x);
    } else {
        let k = choose|k: int| 0 <= k < b.len() && b[k] == x;
        assert((a + b)[a.len() + k] == x);
    }
}

/// What a reference names is one of the document's path items.
pub proof fn lemma_path_item_at_in(spec: Spec, reference: Seq<char>)
    requires
        path_item_at(spec, reference) is Some,
    ensures
        all_path_items(spec).contains(path_item_at(spec, reference)->0),
{
    let p = path_item_at(spec, reference)->0;
    let a = opt_values(opt_paths(spec.paths));
    let b = opt_values(opt_paths(spec.webhooks));
    let c = opt_values(component_path_items(spec));
    let d = match spec.components {
        None => seq![],
        Some(comp) => match map_view(comp.callbacks) {
            None => seq![],
            Some(es) => callback_items(es),
        },
    };
    assert(all_path_items(spec) == a + b + c + d);
    match strip_prefix_of(reference, "#/paths/"@) {
        Some(after) => {
            let es = opt_paths(spec.paths)->0;
            lemma_lookup_in(es, unescaped_token(after));
            lemma_concat_contains(a, b, p);
            lemma_concat_contains(a + b, c, p);
            lemma_concat_contains(a + b + c, d, p);
        },
        None => match strip_prefix_of(reference, "#/webhooks/"@) {
            Some(after) => {
                let es = opt_paths(spec.webhooks)->0;
                lemma_lookup_in(es, unescaped_token(after));
                lemma_concat_contains(a, b, p);
                lemma_concat_contains(a + b, c, p);
                lemma_concat_contains(a + b + c, d, p);
            },
            None => match strip_prefix_of(reference, "#/components/pathItems/"@) {
                Some(after) => {
                    let es = component_path_items(spec)->0;
                    lemma_lookup_in(es, unescaped_token(after));
                    lemma_concat_contains(a + b, c, p);
                    lemma_concat_contains(a + b + c, d, p);
                },
                None => {
                    let after = strip_prefix_of(reference, "#/components/callbacks/"@)->0;
                    let (cbt, expr) = split_once_spec(after, '/')->0;
                    let name = unescaped_token(cbt);
                    let cb = callback_named(spec, name)->0;
                    let comp = spec.components->0;
                    let es = map_view(comp.callbacks)->0;
                    lemma_lookup_in(es, name);
                    let entry = lookup(es, name)->0;
                    match entry {
                        RefOr::Item(_) => {},
                        RefOr::Ref(r) => {
                            let key = crate::common::text::trim_start_all(r.reference@, "#/components/callbacks/"@);
                            lemma_chain_in(es, "#/components/callbacks/"@, key, es.len());
                        },
                    }
                    lemma_lookup_in(cb.paths@, unescaped_token(expr));
                    lemma_callback_items_in(es, cb, p);
                    lemma_concat_contains(a + b + c, d, p);
                },
            },
        },
    }
}

/// The path item of a container named by one pointer token.
pub(crate) fn find_by_token<'a>(container: Option<&'a Vec<(String, PathItem)>>, token: &str) -> (res: Option<&'a PathItem>)
    ensures
        match res {
            Some(p) => item_by_token(
                match container {
                    None => None,
                    Some(v) => Some(v@),
                },
                token@,
            ) == Some(*p),
            None => item_by_token(
                match container {
                    None => None,
                    Some(v) => Some(v@),
                },
                token@,
            ) is None,
        },
{
    if contains_char(token, '/') {
        return None;
    }
    match container {
        None => None,
        Some(es) => {
            let key = unescape_pointer_token(token);
            get_entry(es, key.as_str())
        },
    }
}

/// The path item that an internal `$ref` names, if any.
pub fn find_path_item_by_ref<'a>(spec: &'a Spec, reference: &str) -> (res: Option<&'a PathItem>)
    ensures
        match res {
            Some(p) => path_item_at(*spec, reference@) == Some(*p),
            None => path_item_at(*spec, reference@) is None,
        },
{
    if let Some(after) = strip_prefix(reference, "#/paths/") {
        let container = match &spec.paths {
            None => None,
            Some(p) => Some(&p.paths),
        };
        return find_by_token(container, after.as_str());
    }
    if let Some(after) = strip_prefix(reference, "#/webhooks/") {
        let container = match &spec.webhooks {
            None => None,
            Some(p) => Some(&p.paths),
        };
        return find_by_token(container, after.as_str());
    }
    if let Some(after) = strip_prefix(reference, "#/components/pathItems/") {
        let container = match &spec.components {
            None => None,
            Some(c) => match &c.path_items {
                None => None,
                Some(m) => Some(m),
            },
        };
        return find_by_token(container, after.as_str());
    }
    if let Some(after) = strip_prefix(reference, "#/components/callbacks/") {
        let (cb_token, expr_token) = match split_once(after.as_str(), '/') {
            None => return None,
            Some(parts) => parts,
        };
        if contains_char(expr_token.as_str(), '/') {
            return None;
        }
        let cb_name = unescape_pointer_token(cb_token.as_str());
        let expr = unescape_pointer_token(expr_token.as_str());
        let callbacks = match &spec.components {
            None => return None,
            Some(c) => match &c.callbacks {
                None => return None,
                Some(m) => m,
            },
        };
        let entry = match get_entry(callbacks, cb_name.as_str()) {
            None => return None,
            Some(e) => e,
        };
        let cb = match entry {
            RefOr::Item(cb) => cb,
            RefOr::Ref(r) => {
                if crate::common::text::starts_with(r.reference.as_str(), "#/") {
                    match resolve_in_entries(callbacks, r.reference.as_str(), "#/components/callbacks/") {
                        None => return None,
                        Some(cb) => cb,
                    }
                } else {
                    return None;
                }
            },
        };
        return get_entry(&cb.paths, expr.as_str());
    }
    None
}

/// The `$ref` of a path item, or the empty text where it has none.
pub open spec fn ref_text(p: PathItem) -> Seq<char> {
    match p.reference {
        Some(r) => r@,
        None => seq![],
    }
}

/// Follows path item `$ref`s from `current` for at most `fuel` hops: stops at
/// an item without a `$ref`, at an empty `$ref`, at a `$ref` already followed
/// (`seen`), or at a `$ref` that names no path item.
pub open spec fn chain_from(spec: Spec, current: PathItem, seen: Set<Seq<char>>, fuel: nat) -> PathItem
    decreases fuel,
{
    if fuel == 0 {
        current
    } else {
        match current.reference {
            None => current,
            Some(r) => if r@.len() == 0 || seen.contains(r@) {
                current
            } else {
                match path_item_at(spec, r@) {
                    None => current,
                    Some(next) => chain_from(spec, next, seen.insert(r@), (fuel - 1) as nat),
                }
            },
        }
    }
}

/// The path item that `item` stands for once its `$ref`s are followed. Every
/// hop after the first starts from one of the document's path items, so no
/// more hops than it has path items (and one) can be made without repeating
/// a `$ref`.
pub open spec fn effective_path_item(spec: Spec, item: PathItem) -> PathItem {
    chain_from(spec, item, Set::empty(), all_path_items(spec).len() + 2)
}

/// Walk `PathItem.reference` hops with cycle detection. Stops at the first
/// item without a `$ref`, on a dangling target, an empty ref, or a cycle
/// (returning the current item in those cases).
pub fn resolve_path_item_chain<'a>(spec: &'a Spec, item: &'a PathItem) -> (res: &'a PathItem)
    ensures
        *res == effective_path_item(*spec, *item),
{
    let ghost items = all_path_items(*spec);
    let ghost universe = items.map_values(|p: PathItem| ref_text(p)).to_set().insert(ref_text(*item));
    let ghost fuel_all: nat = items.len() + 2;
    let mut current = item;
    let mut seen: Vec<String> = Vec::new();
    proof {
        assert(views(seen@).to_set() =~= Set::<Seq<char>>::empty());
        items.map_values(|p: PathItem| ref_text(p)).lemma_cardinality_of_set();
        vstd::seq_lib::seq_to_set_is_finite(items.map_values(|p: PathItem| ref_text(p)));
        vstd::set::axiom_set_insert_len(items.map_values(|p: PathItem| ref_text(p)).to_set(), ref_text(*item));
    }
    loop
        invariant
            items == all_path_items(*spec),
            universe == items.map_values(|p: PathItem| ref_text(p)).to_set().insert(ref_text(*item)),
            fuel_all == items.len() + 2,
            universe.finite(),
            universe.len() < fuel_all,
            views(seen@).to_set().subset_of(universe),
            universe.contains(ref_text(*current)),
            chain_from(*spec, *current, views(seen@).to_set(), (fuel_all - views(seen@).to_set().len()) as nat)
                == effective_path_item(*spec, *item),
        decreases fuel_all - views(seen@).to_set().len(),
    {
        let ghost seen0 = views(seen@).to_set();
        proof {
            vstd::set_lib::lemma_len_subset(seen0, universe);
        }
        match &current.reference {
            None => return current,
            Some(r) => {
                if r.as_str().is_empty() {
                    return current;
                }
                let fresh = set_insert(&mut seen, r.clone());
                if !fresh {
                    return current;
                }
                proof {
                    vstd::set::axiom_set_insert_len(seen0, r@);
                    vstd::set_lib::lemma_len_subset(views(seen@).to_set(), universe);
                }
                match find_path_item_by_ref(spec, r.as_str()) {
                    None => return current,
                    Some(next) => {
                        proof {
                            lemma_path_item_at_in(*spec, r@);
                            let k = choose|k: int| 0 <= k < items.len() && items[k] == *next;
                            assert(items.map_values(|p: PathItem| ref_text(p))[k] == ref_text(*next));
                        }
                        current = next;
                    },
                }
            },
        }
    }
}

} // verus!
