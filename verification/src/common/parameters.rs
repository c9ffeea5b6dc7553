//! Operation parameter rules, shared by both OpenAPI versions: no parameter
//! twice at one level, and path template placeholders that match the `in: path`
//! parameters.
use vstd::prelude::*;
use crate::common::context::{error_line, Context, Options};
use crate::common::model::{location_name, Operation, Parameter, ParameterLocation, PathItem};
use crate::common::order::{insert_sorted, is_sorted_strict, lemma_sorted_of, seq_lt, sorted_contains, sorted_of};
use crate::common::patterns::{template_variables, template_vars, views};
use crate::common::security::opt_entries;
use crate::common::text::{concat, decimal, decimal_string, push_str, starts_with, str_equal};
use crate::v3_0::reference::{is_internal, resolve_in_entries, resolved_in_map, RefOr};

verus! {

/// What a parameter entry of an operation or path item stands for.
pub enum ParamResolution {
    /// The parameter, inline or reached through an internal `$ref`.
    Item(Parameter),
    /// An internal `$ref` that names no parameter.
    UnresolvedInternal,
    /// A `$ref` to another document.
    UnresolvedExternal,
}

/// What `raw` stands for, against the document's `components.parameters`.
pub open spec fn resolve_param(
    params_map: Option<Seq<(String, RefOr<Parameter>)>>,
    raw: RefOr<Parameter>,
) -> ParamResolution {
    match raw {
        RefOr::Item(p) => ParamResolution::Item(p),
        RefOr::Ref(r) => if is_internal(r.reference@) {
            match resolved_in_map(params_map, r.reference@, "#/components/parameters/"@) {
                Some(p) => ParamResolution::Item(p),
                None => ParamResolution::UnresolvedInternal,
            }
        } else {
            ParamResolution::UnresolvedExternal
        },
    }
}

/// The `(name, in)` identities of the parameters that the entries stand for, in order.
pub open spec fn item_keys(
    params_map: Option<Seq<(String, RefOr<Parameter>)>>,
    params: Seq<RefOr<Parameter>>,
) -> Seq<(Seq<char>, ParameterLocation)>
    decreases params.len(),
{
    if params.len() == 0 {
        seq![]
    } else {
        let prev = item_keys(params_map, params.drop_last());
        match resolve_param(params_map, params.last()) {
            ParamResolution::Item(p) => prev.push((p.name@, p.location)),
            _ => prev,
        }
    }
}

/// How many times `key` occurs in `keys`.
pub open spec fn count_key(
    keys: Seq<(Seq<char>, ParameterLocation)>,
    key: (Seq<char>, ParameterLocation),
) -> nat
    decreases keys.len(),
{
    if keys.len() == 0 {
        0
    } else {
        count_key(keys.drop_last(), key) + if keys.last() == key {
            1nat
        } else {
            0nat
        }
    }
}

/// The diagnostic of the second parameter `name` in `loc` at one level.
pub open spec fn duplicate_line(
    op_path: Seq<char>,
    name: Seq<char>,
    loc: ParameterLocation,
    origin: Seq<char>,
    index: nat,
) -> Seq<char> {
    error_line(
        op_path,
        ".parameters: duplicate parameter `"@ + name + "` in `"@ + location_name(loc) + "` ("@ + origin
            + "["@ + decimal(index) + "])"@,
    )
}

/// The diagnostics of the duplicated parameters of one level (`origin`): one
/// for each parameter whose `(name, in)` occurred exactly once before it.
pub open spec fn dup_errors(
    op_path: Seq<char>,
    params_map: Option<Seq<(String, RefOr<Parameter>)>>,
    params: Seq<RefOr<Parameter>>,
    origin: Seq<char>,
) -> Seq<Seq<char>>
    decreases params.len(),
{
    if params.len() == 0 {
        seq![]
    } else {
        let prev = dup_errors(op_path, params_map, params.drop_last(), origin);
        match resolve_param(params_map, params.last()) {
            ParamResolution::Item(p) => if count_key(
                item_keys(params_map, params.drop_last()),
                (p.name@, p.location),
            ) == 1 {
                prev.push(duplicate_line(op_path, p.name@, p.location, origin, (params.len() - 1) as nat))
            } else {
                prev
            },
            _ => prev,
        }
    }
}

/// The `(name, in)` keys of the duplicate diagnostics of one level, in the
/// order [`dup_errors`] reports them.
pub open spec fn dup_keys(
    params_map: Option<Seq<(String, RefOr<Parameter>)>>,
    params: Seq<RefOr<Parameter>>,
) -> Seq<(Seq<char>, ParameterLocation)>
    decreases params.len(),
{
    if params.len() == 0 {
        seq![]
    } else {
        let prev = dup_keys(params_map, params.drop_last());
        match resolve_param(params_map, params.last()) {
            ParamResolution::Item(p) => if count_key(item_keys(params_map, params.drop_last()), (p.name@, p.location))
                == 1 {
                prev.push((p.name@, p.location))
            } else {
                prev
            },
            _ => prev,
        }
    }
}

/// Within one level of parameters, a `(name, in)` key is reported as a
/// duplicate exactly once when the level declares it twice or more, and not
/// at all when it declares it at most once; the level has one diagnostic for
/// each reported key.
pub proof fn law_duplicates_reported_once(
    op_path: Seq<char>,
    params_map: Option<Seq<(String, RefOr<Parameter>)>>,
    params: Seq<RefOr<Parameter>>,
    origin: Seq<char>,
    key: (Seq<char>, ParameterLocation),
)
    ensures
        count_key(dup_keys(params_map, params), key) == (if count_key(item_keys(params_map, params), key) >= 2 {
            1nat
        } else {
            0nat
        }),
        dup_errors(op_path, params_map, params, origin).len() == dup_keys(params_map, params).len(),
    decreases params.len(),
{
    if params.len() > 0 {
        let init = params.drop_last();
        law_duplicates_reported_once(op_path, params_map, init, origin, key);
        let prev_keys = item_keys(params_map, init);
        let prev_dups = dup_keys(params_map, init);
        match resolve_param(params_map, params.last()) {
            ParamResolution::Item(p) => {
                let k = (p.name@, p.location);
                assert(item_keys(params_map, params) == prev_keys.push(k));
                assert(prev_keys.push(k).drop_last() =~= prev_keys);
                if count_key(prev_keys, k) == 1 {
                    assert(dup_keys(params_map, params) == prev_dups.push(k));
                    assert(prev_dups.push(k).drop_last() =~= prev_dups);
                }
            },
            _ => {},
        }
    }
}

/// A key declared once by the path item and once by the operation (an
/// override) is reported as a duplicate at neither level.
pub proof fn law_override_is_no_duplicate(
    op_path: Seq<char>,
    params_map: Option<Seq<(String, RefOr<Parameter>)>>,
    path_item_params: Seq<RefOr<Parameter>>,
    operation_params: Seq<RefOr<Parameter>>,
    key: (Seq<char>, ParameterLocation),
)
    requires
        count_key(item_keys(params_map, path_item_params), key) == 1,
        count_key(item_keys(params_map, operation_params), key) == 1,
    ensures
        count_key(dup_keys(params_map, path_item_params), key) == 0,
        count_key(dup_keys(params_map, operation_params), key) == 0,
{
    law_duplicates_reported_once(op_path, params_map, path_item_params, "path-item"@, key);
    law_duplicates_reported_once(op_path, params_map, operation_params, "operation"@, key);
}

/// The names of the `in: path` parameters that the entries stand for.
pub open spec fn path_names(
    params_map: Option<Seq<(String, RefOr<Parameter>)>>,
    params: Seq<RefOr<Parameter>>,
) -> Set<Seq<char>>
    decreases params.len(),
{
    if params.len() == 0 {
        Set::empty()
    } else {
        let prev = path_names(params_map, params.drop_last());
        match resolve_param(params_map, params.last()) {
            ParamResolution::Item(p) => if p.location == ParameterLocation::Path {
                prev.insert(p.name@)
            } else {
                prev
            },
            _ => prev,
        }
    }
}

/// The declared `in: path` names of a level include the name of each inline
/// `in: path` parameter, and of each `in: path` parameter that an internal
/// `$ref` entry names in `components.parameters`.
pub proof fn law_path_names_include_resolved(
    params_map: Option<Seq<(String, RefOr<Parameter>)>>,
    params: Seq<RefOr<Parameter>>,
    i: int,
    p: Parameter,
)
    requires
        0 <= i < params.len(),
        p.location == ParameterLocation::Path,
        params[i] == RefOr::Item(p) || (params[i] matches RefOr::Ref(r) && is_internal(r.reference@) && resolved_in_map(
            params_map,
            r.reference@,
            "#/components/parameters/"@,
        ) == Some(p)),
    ensures
        path_names(params_map, params).contains(p.name@),
    decreases params.len(),
{
    let init = params.drop_last();
    if i < params.len() - 1 {
        assert(init[i] == params[i]);
        law_path_names_include_resolved(params_map, init, i, p);
    }
}

/// Each declared `in: path` name of a level comes from an entry: an inline
/// `in: path` parameter, or the `in: path` parameter that an internal `$ref`
/// names in `components.parameters`.
pub proof fn law_path_names_come_from_entries(
    params_map: Option<Seq<(String, RefOr<Parameter>)>>,
    params: Seq<RefOr<Parameter>>,
    n: Seq<char>,
)
    requires
        path_names(params_map, params).contains(n),
    ensures
        exists|i: int, p: Parameter|
            #![trigger params[i], p.name]
            0 <= i < params.len() && p.location == ParameterLocation::Path && p.name@ == n && (params[i] == RefOr::Item(
                p,
            ) || (params[i] matches RefOr::Ref(r) && is_internal(r.reference@) && resolved_in_map(
                params_map,
                r.reference@,
                "#/components/parameters/"@,
            ) == Some(p))),
    decreases params.len(),
{
    let init = params.drop_last();
    let k = params.len() - 1;
    if path_names(params_map, init).contains(n) {
        law_path_names_come_from_entries(params_map, init, n);
        let (i, p) = choose|i: int, p: Parameter|
            #![trigger init[i], p.name]
            0 <= i < init.len() && p.location == ParameterLocation::Path && p.name@ == n && (init[i] == RefOr::Item(
                p,
            ) || (init[i] matches RefOr::Ref(r) && is_internal(r.reference@) && resolved_in_map(
                params_map,
                r.reference@,
                "#/components/parameters/"@,
            ) == Some(p)));
        assert(params[i] == init[i]);
        let _ = p.name;
    } else {
        match resolve_param(params_map, params[k]) {
            ParamResolution::Item(p) => {
                assert(p.location == ParameterLocation::Path && p.name@ == n);
                assert(params[k] == params.last());
                let _ = p.name;
            },
            _ => {},
        }
    }
}

/// Some entry is a `$ref` to another document.
pub open spec fn has_external(
    params_map: Option<Seq<(String, RefOr<Parameter>)>>,
    params: Seq<RefOr<Parameter>>,
) -> bool {
    exists|i: int|
        0 <= i < params.len() && resolve_param(params_map, #[trigger] params[i]) is UnresolvedExternal
}

/// The diagnostic of a template placeholder (`missing`) or of a path
/// parameter (`!missing`) that has no counterpart.
pub open spec fn unmatched_line(op_path: Seq<char>, missing: bool, name: Seq<char>) -> Seq<char> {
    if missing {
        error_line(
            op_path,
            ".parameters: path template variable `{"@ + name + "}` has no matching `in: path` parameter"@,
        )
    } else {
        error_line(
            op_path,
            ".parameters: path parameter `"@ + name + "` does not match any `{name}` in the path template"@,
        )
    }
}

/// The diagnostics of the names of `from` that `other` lacks, in increasing order.
pub open spec fn unmatched_errors(
    op_path: Seq<char>,
    missing: bool,
    from: Set<Seq<char>>,
    other: Set<Seq<char>>,
) -> Seq<Seq<char>> {
    sorted_of(from.difference(other)).map_values(|n: Seq<char>| unmatched_line(op_path, missing, n))
}

/// The entries of an optional list, as a sequence (empty where absent).
pub open spec fn opt_list<V>(l: Option<&Vec<V>>) -> Seq<V> {
    match l {
        None => seq![],
        Some(v) => v@,
    }
}

/// The identity that a stored `(name, in)` key stands for.
pub open spec fn key_of(k: (String, ParameterLocation)) -> (Seq<char>, ParameterLocation) {
    (k.0@, k.1)
}

/// What the document's `components.parameters` resolves `raw` to.
fn resolve_parameter<'a>(
    params_map: Option<&'a Vec<(String, RefOr<Parameter>)>>,
    raw: &'a RefOr<Parameter>,
) -> (res: (Option<&'a Parameter>, bool))
    ensures
        match resolve_param(opt_entries(params_map), *raw) {
            ParamResolution::Item(p) => res.0 == Some(&p) && !res.1,
            ParamResolution::UnresolvedInternal => res.0 is None && !res.1,
            ParamResolution::UnresolvedExternal => res.0 is None && res.1,
        },
{
    match raw {
        RefOr::Item(p) => (Some(p), false),
        RefOr::Ref(r) => {
            if starts_with(r.reference.as_str(), "#/") {
                match params_map {
                    None => (None, false),
                    Some(m) => (resolve_in_entries(m, r.reference.as_str(), "#/components/parameters/"), false),
                }
            } else {
                (None, true)
            }
        },
    }
}

/// How many times `(name, loc)` occurs in `keys`.
fn count_in(keys: &Vec<(String, ParameterLocation)>, name: &str, loc: ParameterLocation) -> (res: usize)
    ensures
        res == count_key(keys@.map_values(|k: (String, ParameterLocation)| key_of(k)), (name@, loc)),
{
    let ghost f = |k: (String, ParameterLocation)| key_of(k);
    let mut n: usize = 0;
    let mut i: usize = 0;
    while i < keys.len()
        invariant
            i <= keys.len(),
            n <= i,
            f == (|k: (String, ParameterLocation)| key_of(k)),
            n == count_key(keys@.take(i as int).map_values(f), (name@, loc)),
        decreases keys.len() - i,
    {
        proof {
            let next = keys@.take(i + 1).map_values(f);
            assert(next.drop_last() =~= keys@.take(i as int).map_values(f));
            assert(next.last() == f(keys@[i as int]));
            assert(f(keys@[i as int]) == (keys@[i as int].0@, keys@[i as int].1));
        }
        if str_equal(keys[i].0.as_str(), name) && keys[i].1 == loc {
            n = n + 1;
        }
        i = i + 1;
    }
    assert(keys@.take(keys.len() as int) =~= keys@);
    n
}

/// Checks one level of parameters (`origin`) for duplicates, adding the names
/// of its `in: path` parameters to `declared`; answers whether it met a `$ref`
/// to another document.
fn dup_pass<S>(
    ctx: &mut Context<'_, S>,
    op_path: &str,
    params_map: Option<&Vec<(String, RefOr<Parameter>)>>,
    params: &Vec<RefOr<Parameter>>,
    origin: &str,
    declared: &mut Vec<String>,
) -> (external: bool)
    requires
        is_sorted_strict(views(old(declared)@)),
    ensures
        final(ctx).errors_view() == old(ctx).errors_view() + dup_errors(
            op_path@,
            opt_entries(params_map),
            params@,
            origin@,
        ),
        final(ctx).visited == old(ctx).visited,
        final(ctx).spec == old(ctx).spec,
        final(ctx).options == old(ctx).options,
        is_sorted_strict(views(final(declared)@)),
        views(final(declared)@).to_set() == views(old(declared)@).to_set().union(
            path_names(opt_entries(params_map), params@),
        ),
        external == has_external(opt_entries(params_map), params@),
{
    let ghost pm = opt_entries(params_map);
    let ghost f = |k: (String, ParameterLocation)| key_of(k);
    let mut keys: Vec<(String, ParameterLocation)> = Vec::new();
    let mut external = false;
    let mut i: usize = 0;
    assert(params@.take(0) =~= Seq::<RefOr<Parameter>>::empty());
    assert(old(ctx).errors_view() + seq![] =~= old(ctx).errors_view());
    assert(views(declared@).to_set().union(Set::empty()) =~= views(declared@).to_set());
    assert(keys@.map_values(f) =~= Seq::<(Seq<char>, ParameterLocation)>::empty());
    while i < params.len()
        invariant
            i <= params.len(),
            pm == opt_entries(params_map),
            f == (|k: (String, ParameterLocation)| key_of(k)),
            ctx.spec == old(ctx).spec,
            ctx.options == old(ctx).options,
            ctx.visited == old(ctx).visited,
            ctx.errors_view() == old(ctx).errors_view() + dup_errors(op_path@, pm, params@.take(i as int), origin@),
            keys@.map_values(f) == item_keys(pm, params@.take(i as int)),
            is_sorted_strict(views(declared@)),
            views(declared@).to_set() == views(old(declared)@).to_set().union(
                path_names(pm, params@.take(i as int)),
            ),
            external == exists|j: int|
                0 <= j < i && resolve_param(pm, #[trigger] params@[j]) is UnresolvedExternal,
        decreases params.len() - i,
    {
        let ghost next = params@.take(i + 1);
        assert(next.drop_last() =~= params@.take(i as int));
        assert(next.last() == params@[i as int]);
        let (item, ext) = resolve_parameter(params_map, &params[i]);
        match item {
            Some(p) => {
                let n = count_in(&keys, p.name.as_str(), p.location);
                if n == 1 {
                    let mut msg = concat(".parameters: duplicate parameter `", p.name.as_str());
                    push_str(&mut msg, "` in `");
                    push_str(&mut msg, p.location.as_str());
                    push_str(&mut msg, "` (");
                    push_str(&mut msg, origin);
                    push_str(&mut msg, "[");
                    push_str(&mut msg, decimal_string(i).as_str());
                    push_str(&mut msg, "])");
                    ctx.error(op_path, msg.as_str());
                }
                let ghost kb = keys@;
                let nm = p.name.clone();
                assert(nm@ == p.name@);
                keys.push((nm, p.location));
                assert(f(keys@[keys@.len() - 1]) == (p.name@, p.location));
                assert(keys@.map_values(f) =~= kb.map_values(f).push((p.name@, p.location)));
                if p.location == ParameterLocation::Path {
                    let ghost db = views(declared@).to_set();
                    insert_sorted(declared, p.name.clone());
                    assert(views(declared@).to_set() =~= views(old(declared)@).to_set().union(
                        path_names(pm, next),
                    ));
                } else {
                    assert(path_names(pm, next) == path_names(pm, params@.take(i as int)));
                }
            },
            None => {
                if ext {
                    external = true;
                }
            },
        }
        proof {
            if external {
                if ext {
                    assert(resolve_param(pm, params@[i as int]) is UnresolvedExternal);
                }
            } else {
                assert forall|j: int| 0 <= j < i + 1 implies !(resolve_param(pm, #[trigger] params@[j]) is UnresolvedExternal) by {
                    if j == i {
                    }
                }
            }
        }
        i = i + 1;
    }
    assert(params@.take(params.len() as int) =~= params@);
    external
}

/// Records, in increasing order, the diagnostics of the names of the sorted
/// set `from` that the sorted set `other` lacks.
fn emit_unmatched<S>(
    ctx: &mut Context<'_, S>,
    op_path: &str,
    missing: bool,
    from: &Vec<String>,
    other: &Vec<String>,
)
    requires
        is_sorted_strict(views(from@)),
    ensures
        final(ctx).errors_view() == old(ctx).errors_view() + unmatched_errors(
            op_path@,
            missing,
            views(from@).to_set(),
            views(other@).to_set(),
        ),
        final(ctx).visited == old(ctx).visited,
        final(ctx).spec == old(ctx).spec,
        final(ctx).options == old(ctx).options,
{
    let ghost fr = views(from@);
    let ghost ot = views(other@).to_set();
    let ghost line = |n: Seq<char>| unmatched_line(op_path@, missing, n);
    let ghost mut acc: Seq<Seq<char>> = seq![];
    let mut k: usize = 0;
    assert(fr.take(0).to_set() =~= Set::<Seq<char>>::empty());
    assert(acc.to_set() =~= Set::<Seq<char>>::empty());
    assert(old(ctx).errors_view() + acc.map_values(line) =~= old(ctx).errors_view());
    while k < from.len()
        invariant
            k <= from.len(),
            fr == views(from@),
            ot == views(other@).to_set(),
            is_sorted_strict(fr),
            line == (|n: Seq<char>| unmatched_line(op_path@, missing, n)),
            is_sorted_strict(acc),
            acc.to_set() == fr.take(k as int).to_set().difference(ot),
            ctx.errors_view() == old(ctx).errors_view() + acc.map_values(line),
            ctx.visited == old(ctx).visited,
            ctx.spec == old(ctx).spec,
            ctx.options == old(ctx).options,
        decreases from.len() - k,
    {
        let name = from[k].as_str();
        assert(fr[k as int] == name@);
        let ghost prev_set = fr.take(k as int).to_set();
        assert(fr.take(k + 1) =~= fr.take(k as int).push(name@));
        proof { fr.take(k as int).lemma_push_to_set_commute(name@); }
        if !sorted_contains(other, name) {
            let mut msg = if missing {
                concat(".parameters: path template variable `{", name)
            } else {
                concat(".parameters: path parameter `", name)
            };
            if missing {
                push_str(&mut msg, "}` has no matching `in: path` parameter");
            } else {
                push_str(&mut msg, "` does not match any `{name}` in the path template");
            }
            ctx.error(op_path, msg.as_str());
            proof {
                let old_acc = acc;
                assert forall|e: Seq<char>| old_acc.contains(e) implies seq_lt(e, name@) by {
                    assert(old_acc.to_set().contains(e));
                    let j = choose|j: int| 0 <= j < fr.take(k as int).len() && fr.take(k as int)[j] == e;
                    assert(fr[j] == e);
                }
                acc = acc.push(name@);
                assert forall|i: int, j: int| 0 <= i < j < acc.len() implies seq_lt(#[trigger] acc[i], #[trigger] acc[j]) by {
                    if j == acc.len() - 1 {
                        assert(old_acc.contains(acc[i]));
                    } else {
                        assert(acc[i] == old_acc[i] && acc[j] == old_acc[j]);
                    }
                }
                old_acc.lemma_push_to_set_commute(name@);
                assert(acc.to_set() =~= fr.take(k + 1).to_set().difference(ot));
                assert(acc.map_values(line) =~= old_acc.map_values(line).push(line(name@)));
            }
        } else {
            assert(acc.to_set() =~= fr.take(k + 1).to_set().difference(ot));
        }
        k = k + 1;
    }
    proof {
        assert(fr.take(from.len() as int) =~= fr);
        lemma_sorted_of(acc);
    }
}

/// The sorted set of the placeholder names of a path template.
fn sorted_template_variables(template: &str) -> (res: Vec<String>)
    ensures
        is_sorted_strict(views(res@)),
        views(res@).to_set() == template_vars(template@).to_set(),
{
    let vars = template_variables(template);
    let mut res: Vec<String> = Vec::new();
    let mut k: usize = 0;
    assert(views(vars@).take(0).to_set() =~= Set::<Seq<char>>::empty());
    assert(views(res@).to_set() =~= Set::<Seq<char>>::empty());
    while k < vars.len()
        invariant
            k <= vars.len(),
            is_sorted_strict(views(res@)),
            views(res@).to_set() == views(vars@).take(k as int).to_set(),
        decreases vars.len() - k,
    {
        insert_sorted(&mut res, vars[k].clone());
        assert(views(vars@).take(k + 1) =~= views(vars@).take(k as int).push(vars@[k as int]@));
        proof { views(vars@).take(k as int).lemma_push_to_set_commute(vars@[k as int]@); }
        k = k + 1;
    }
    assert(views(vars@).take(vars.len() as int) =~= views(vars@));
    res
}

/// The diagnostics of the parameter rules of one operation at `op_path`,
/// mounted at the path `template`, with the path item's parameters `pi` and
/// its own `op`: duplicates within each level, then the placeholders without
/// an `in: path` parameter (unless `IgnoreExternalReferences` is on and some
/// entry is a `$ref` to another document), then the `in: path` parameters
/// without a placeholder, each group in increasing order of name.
pub open spec fn operation_parameter_errors(
    ignore_external: bool,
    pm: Option<Seq<(String, RefOr<Parameter>)>>,
    op_path: Seq<char>,
    template: Seq<char>,
    pi: Seq<RefOr<Parameter>>,
    op: Seq<RefOr<Parameter>>,
) -> Seq<Seq<char>> {
    let vars = template_vars(template).to_set();
    let declared = path_names(pm, pi).union(path_names(pm, op));
    let skip = ignore_external && (has_external(pm, pi) || has_external(pm, op));
    dup_errors(op_path, pm, pi, "path-item"@) + dup_errors(op_path, pm, op, "operation"@) + (if skip {
        seq![]
    } else {
        unmatched_errors(op_path, true, vars, declared)
    }) + unmatched_errors(op_path, false, declared, vars)
}

/// Validate the parameter rules of one operation mounted at the path
/// `template`:
/// * a `(name, in)` pair that occurs twice within one level (path item, then
///   operation) is reported at its second occurrence;
/// * operation-level entries override path-item entries with the same key;
/// * each `{var}` of the template needs an `in: path` parameter (not checked
///   when `IgnoreExternalReferences` is on and some entry is a `$ref` to
///   another document, which may declare it);
/// * each `in: path` parameter needs a `{var}` of the template.
pub fn validate_operation_parameters_in<S>(
    ctx: &mut Context<'_, S>,
    op_path: &str,
    template: &str,
    path_item_params: Option<&Vec<RefOr<Parameter>>>,
    op_params: Option<&Vec<RefOr<Parameter>>>,
    params_map: Option<&Vec<(String, RefOr<Parameter>)>>,
)
    ensures
        final(ctx).errors_view() == old(ctx).errors_view() + operation_parameter_errors(
            old(ctx).has_option(Options::IgnoreExternalReferences),
            opt_entries(params_map),
            op_path@,
            template@,
            opt_list(path_item_params),
            opt_list(op_params),
        ),
        final(ctx).visited == old(ctx).visited,
        final(ctx).spec == old(ctx).spec,
        final(ctx).options == old(ctx).options,
{
    let ghost pm = opt_entries(params_map);
    let tvars = sorted_template_variables(template);
    let ignore_external = ctx.is_option(Options::IgnoreExternalReferences);
    let mut declared: Vec<String> = Vec::new();
    assert(views(declared@).to_set() =~= Set::<Seq<char>>::empty());
    let ghost e0 = ctx.errors_view();
    let ext1 = match path_item_params {
        Some(p) => dup_pass(ctx, op_path, params_map, p, "path-item", &mut declared),
        None => {
            assert(path_names(pm, seq![]) =~= Set::<Seq<char>>::empty());
            assert(ctx.errors_view() =~= e0 + dup_errors(op_path@, pm, seq![], "path-item"@));
            false
        },
    };
    let ghost e1 = ctx.errors_view();
    let ext2 = match op_params {
        Some(p) => dup_pass(ctx, op_path, params_map, p, "operation", &mut declared),
        None => {
            assert(path_names(pm, seq![]) =~= Set::<Seq<char>>::empty());
            assert(ctx.errors_view() =~= e1 + dup_errors(op_path@, pm, seq![], "operation"@));
            false
        },
    };
    assert(views(declared@).to_set() =~= path_names(pm, opt_list(path_item_params)).union(
        path_names(pm, opt_list(op_params)),
    ));
    let ghost e2 = ctx.errors_view();
    if !(ignore_external && (ext1 || ext2)) {
        emit_unmatched(ctx, op_path, true, &tvars, &declared);
    } else {
        assert(ctx.errors_view() =~= e2 + seq![]);
    }
    let ghost e3 = ctx.errors_view();
    emit_unmatched(ctx, op_path, false, &declared, &tvars);
    assert(ctx.errors_view() =~= e0 + dup_errors(op_path@, pm, opt_list(path_item_params), "path-item"@)
        + dup_errors(op_path@, pm, opt_list(op_params), "operation"@) + (e3.subrange(e2.len() as int, e3.len() as int))
        + ctx.errors_view().subrange(e3.len() as int, ctx.errors_view().len() as int));
}

/// The entries of an optional owned list, as a sequence (empty where absent).
pub open spec fn opt_vec<V>(l: Option<Vec<V>>) -> Seq<V> {
    match l {
        None => seq![],
        Some(v) => v@,
    }
}

/// The diagnostics of the parameter rules of each operation of a path item
/// at `path` (each at `path.method`), in order.
pub open spec fn path_item_operation_errors(
    ignore_external: bool,
    pm: Option<Seq<(String, RefOr<Parameter>)>>,
    template: Seq<char>,
    path: Seq<char>,
    pi: Seq<RefOr<Parameter>>,
    ops: Seq<(String, Operation)>,
) -> Seq<Seq<char>>
    decreases ops.len(),
{
    if ops.len() == 0 {
        seq![]
    } else {
        path_item_operation_errors(ignore_external, pm, template, path, pi, ops.drop_last())
            + operation_parameter_errors(
            ignore_external,
            pm,
            path + "."@ + ops.last().0@,
            template,
            pi,
            opt_vec(ops.last().1.parameters),
        )
    }
}

/// Applies the parameter rules to each operation of `item`, mounted at the
/// path `template` and found at `path`.
pub fn validate_path_item_operations<S>(
    ctx: &mut Context<'_, S>,
    template: &str,
    path: &str,
    item: &PathItem,
    params_map: Option<&Vec<(String, RefOr<Parameter>)>>,
)
    ensures
        final(ctx).errors_view() == old(ctx).errors_view() + path_item_operation_errors(
            old(ctx).has_option(Options::IgnoreExternalReferences),
            opt_entries(params_map),
            template@,
            path@,
            opt_vec(item.parameters),
            opt_vec(item.operations),
        ),
        final(ctx).visited == old(ctx).visited,
        final(ctx).spec == old(ctx).spec,
        final(ctx).options == old(ctx).options,
{
    let pi = match &item.parameters {
        None => None,
        Some(v) => Some(v),
    };
    assert(opt_list(pi) == opt_vec(item.parameters));
    match &item.operations {
        None => {
            assert(old(ctx).errors_view() + seq![] =~= old(ctx).errors_view());
        },
        Some(ops) => {
            let mut k: usize = 0;
            assert(ops@.take(0) =~= Seq::<(String, Operation)>::empty());
            assert(old(ctx).errors_view() + seq![] =~= old(ctx).errors_view());
            while k < ops.len()
                invariant
                    k <= ops.len(),
                    item.operations == Some(*ops),
                    opt_list(pi) == opt_vec(item.parameters),
                    ctx.errors_view() == old(ctx).errors_view() + path_item_operation_errors(
                        old(ctx).has_option(Options::IgnoreExternalReferences),
                        opt_entries(params_map),
                        template@,
                        path@,
                        opt_vec(item.parameters),
                        ops@.take(k as int),
                    ),
                    ctx.visited == old(ctx).visited,
                    ctx.spec == old(ctx).spec,
                    ctx.options == old(ctx).options,
                decreases ops.len() - k,
            {
                let mut op_path = concat(path, ".");
                push_str(&mut op_path, ops[k].0.as_str());
                let op_params = match &ops[k].1.parameters {
                    None => None,
                    Some(v) => Some(v),
                };
                assert(opt_list(op_params) == opt_vec(ops@[k as int].1.parameters));
                validate_operation_parameters_in(ctx, op_path.as_str(), template, pi, op_params, params_map);
                assert(ops@.take(k + 1).drop_last() =~= ops@.take(k as int));
                k = k + 1;
            }
            assert(ops@.take(ops.len() as int) =~= ops@);
        },
    }
}

} // verus!
