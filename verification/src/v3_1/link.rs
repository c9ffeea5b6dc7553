//! Represents a possible design-time link for a response (OpenAPI 3.1).
use vstd::prelude::*;
use crate::common::context::{error_line, Context, OptionSet, Options, ValidateWithContext};
use crate::v3_0::server::{server_errors, Server};
use crate::common::entries::{get_entry, lookup, set_insert};
use crate::common::model::PathItem;
use crate::common::patterns::{lowercase, to_lowercase, views};
use crate::common::pointer::{unescape_pointer_token, unescaped_token};
use crate::common::text::{concat, contains_char, first_index, has_char, last_index, lemma_first_index, lemma_last_index, push_str, split_once, split_once_spec, starts_with, strip_prefix, strip_prefix_of};
use crate::common::uniqueness::entry_keys;
use crate::v3_0::link::{declares_method, has_method, link_errors, opt_text, operation_ref_errors, OperationRefResolution, RefOutcome, outcome_of};
use crate::v3_1::path_lookup::{component_path_items, opt_paths};
use crate::v3_1::spec::Spec;

verus! {

/// A malformed pointer: the token between the container and the method
/// holds an unescaped `/`.
pub open spec fn one_slash(s: Seq<char>) -> bool {
    has_char(s, '/') && first_index(s, '/') == last_index(s, '/')
}

/// The keys of an optional map.
pub open spec fn opt_keys<V>(o: Option<Seq<(String, V)>>) -> Seq<Seq<char>> {
    match o {
        None => seq![],
        Some(es) => entry_keys(es),
    }
}

/// Follows the `$ref` of the path item `item` (found under the key `path`)
/// through `#/paths` and `#/components/pathItems`, for at most `fuel` hops:
/// the key and item it ends at, or why it does not end at one. `seen` holds
/// the keys met so far; meeting one again is a cycle.
pub open spec fn ref_chain(
    spec: Spec,
    path: Seq<char>,
    item: PathItem,
    seen: Set<Seq<char>>,
    fuel: nat,
) -> Result<(Seq<char>, PathItem), RefOutcome>
    decreases fuel,
{
    match item.reference {
        None => Ok((path, item)),
        Some(r) => {
            let r = r@;
            if r.len() == 0 {
                Err(RefOutcome::Problem("path `"@ + path + "` carries an empty `$ref`"@))
            } else {
                match strip_prefix_of(r, "#/paths/"@) {
                    Some(after) => if has_char(after, '/') {
                        Err(RefOutcome::Problem(
                            "path `"@ + path + "` is a `$ref` to malformed JSON Pointer `"@ + r
                                + "`: the encoded path token must use `~1` for `/`"@,
                        ))
                    } else {
                        let tp = unescaped_token(after);
                        if seen.contains(tp) {
                            Err(RefOutcome::Problem(
                                "path `"@ + path + "` has a cyclic `$ref` chain through `"@ + r + "`"@,
                            ))
                        } else {
                            match opt_paths(spec.paths) {
                                None => Err(RefOutcome::Problem(
                                    "path `"@ + path + "` has a `$ref` to `"@ + r + "` but spec has no `paths`"@,
                                )),
                                Some(es) => match lookup(es, tp) {
                                    None => Err(RefOutcome::Problem(
                                        "path `"@ + path + "` is a `$ref` to `"@ + r
                                            + "`, which is not declared in `#/paths`"@,
                                    )),
                                    Some(t) => if fuel == 0 {
                                        Ok((tp, t))
                                    } else {
                                        ref_chain(spec, tp, t, seen.insert(tp), (fuel - 1) as nat)
                                    },
                                },
                            }
                        }
                    },
                    None => match strip_prefix_of(r, "#/components/pathItems/"@) {
                        Some(after) => if has_char(after, '/') {
                            Err(RefOutcome::Problem(
                                "path `"@ + path + "` is a `$ref` to malformed JSON Pointer `"@ + r + "`"@,
                            ))
                        } else {
                            let tp = unescaped_token(after);
                            if seen.contains(tp) {
                                Err(RefOutcome::Problem(
                                    "path `"@ + path + "` has a cyclic `$ref` chain through `"@ + r + "`"@,
                                ))
                            } else {
                                match component_path_items(spec) {
                                    None => Err(RefOutcome::Problem(
                                        "path `"@ + path + "` is a `$ref` to `"@ + r
                                            + "`, which is not declared in `#/components/pathItems`"@,
                                    )),
                                    Some(es) => match lookup(es, tp) {
                                        None => Err(RefOutcome::Problem(
                                            "path `"@ + path + "` is a `$ref` to `"@ + r
                                                + "`, which is not declared in `#/components/pathItems`"@,
                                        )),
                                        Some(t) => if fuel == 0 {
                                            Ok((tp, t))
                                        } else {
                                            ref_chain(spec, tp, t, seen.insert(tp), (fuel - 1) as nat)
                                        },
                                    },
                                }
                            }
                        },
                        None => Err(RefOutcome::External(r)),
                    },
                }
            }
        },
    }
}

/// The number of hops that always suffices: each hop reaches a key of
/// `#/paths` or `#/components/pathItems` not met before.
pub open spec fn chain_fuel(spec: Spec) -> nat {
    opt_keys(opt_paths(spec.paths)).len() + opt_keys(component_path_items(spec)).len() + 1
}

/// What resolving the operationRef `reference` gives: the path item
/// `<container>/<token>` (following its `$ref` chain) must declare the
/// operation `<method>` (compared in lowercase).
pub open spec fn operation_ref_outcome(spec: Spec, reference: Seq<char>) -> RefOutcome {
    let from_paths = strip_prefix_of(reference, "#/paths/"@);
    let from_components = strip_prefix_of(reference, "#/components/pathItems/"@);
    if from_paths is None && from_components is None {
        RefOutcome::Problem("must start with `#/paths/` or `#/components/pathItems/`, found `"@ + reference + "`"@)
    } else {
        let (container, after) = if from_paths is Some {
            (opt_paths(spec.paths), from_paths->0)
        } else {
            (component_path_items(spec), from_components->0)
        };
        if !has_char(after, '/') {
            RefOutcome::Problem("must point to `<container>/<encoded path>/<method>`, found `"@ + reference + "`"@)
        } else if !one_slash(after) {
            RefOutcome::Problem(
                "malformed JSON Pointer: the encoded path token must use `~1` for `/`, found `"@ + reference
                    + "`"@,
            )
        } else {
            let (token, method) = split_once_spec(after, '/')->0;
            let path = unescaped_token(token);
            let item = match container {
                None => None,
                Some(es) => lookup(es, path),
            };
            match item {
                None => RefOutcome::Problem("path `"@ + path + "` not declared in the resolved container"@),
                Some(item) => match ref_chain(spec, path, item, set![path], chain_fuel(spec)) {
                    Err(o) => o,
                    Ok((target_path, target)) => if has_method(target, lowercase(method)) {
                        RefOutcome::Found
                    } else {
                        RefOutcome::Problem(
                            "method `"@ + method + "` not declared on path `"@ + target_path + "`"@,
                        )
                    },
                },
            }
        }
    }
}

/// Whether `s` holds exactly one `/` (it holds at least one).
fn has_one_slash(s: &str) -> (res: bool)
    requires
        has_char(s@, '/'),
    ensures
        res == one_slash(s@),
{
    let cs = crate::common::text::chars_of(s);
    let mut first: usize = 0;
    while first < cs.len() && cs[first] != '/'
        invariant
            first <= cs.len(),
            cs@ == s@,
            forall|j: int| 0 <= j < first ==> cs@[j] != '/',
        decreases cs.len() - first,
    {
        first = first + 1;
    }
    if first == cs.len() {
        proof {
            let k = choose|k: int| 0 <= k < s@.len() && s@[k] == '/';
            assert(cs@[k] == '/');
        }
        return false;
    }
    proof {
        lemma_first_index(s@, '/', first as int);
    }
    let mut last: usize = cs.len();
    while last > 0 && cs[last - 1] != '/'
        invariant
            last <= cs.len(),
            first < cs.len(),
            cs@[first as int] == '/',
            first < last || last == 0,
            cs@ == s@,
            forall|j: int| last <= j < cs.len() ==> cs@[j] != '/',
        decreases last,
    {
        last = last - 1;
    }
    proof {
        lemma_last_index(s@, '/', last - 1);
    }
    last - 1 == first
}

pub proof fn lemma_lookup_key_in<V>(es: Seq<(String, V)>, key: Seq<char>)
    requires
        lookup(es, key) is Some,
    ensures
        entry_keys(es).contains(key),
    decreases es.len(),
{
    if es[0].0@ == key {
        assert(entry_keys(es)[0] == key);
    } else {
        lemma_lookup_key_in(es.drop_first(), key);
        let k = choose|k: int| 0 <= k < entry_keys(es.drop_first()).len() && entry_keys(es.drop_first())[k] == key;
        assert(entry_keys(es)[k + 1] == entry_keys(es.drop_first())[k]);
    }
}

/// The keys that a chain of path item `$ref`s can meet, starting from `path`.
pub open spec fn chain_keys(spec: Spec, path: Seq<char>) -> Set<Seq<char>> {
    opt_keys(opt_paths(spec.paths)).to_set().union(opt_keys(component_path_items(spec)).to_set()).insert(path)
}

/// A problem, with the text `a` `b` `c`.
fn problem3(a: &str, b: &str, c: &str) -> (res: OperationRefResolution)
    ensures
        outcome_of(res) == RefOutcome::Problem(a@ + b@ + c@),
{
    let mut m = concat(a, b);
    push_str(&mut m, c);
    OperationRefResolution::Invalid(m)
}

/// A problem, with the text `a` `b` `c` `d` `e`.
fn problem5(a: &str, b: &str, c: &str, d: &str, e: &str) -> (res: OperationRefResolution)
    ensures
        outcome_of(res) == RefOutcome::Problem(a@ + b@ + c@ + d@ + e@),
{
    let mut m = concat(a, b);
    push_str(&mut m, c);
    push_str(&mut m, d);
    push_str(&mut m, e);
    OperationRefResolution::Invalid(m)
}

/// Follows the `$ref` chain of the path item `item` found under the key
/// `path` (see [`ref_chain`]).
fn resolve_path_item_ref_chain<'a>(
    spec: &'a Spec,
    path: String,
    item: &'a PathItem,
) -> (res: Result<(String, &'a PathItem), OperationRefResolution>)
    ensures
        match res {
            Ok((p, t)) => ref_chain(*spec, path@, *item, set![path@], chain_fuel(*spec)) == Ok::<(Seq<char>, PathItem), RefOutcome>((p@, *t)),
            Err(e) => ref_chain(*spec, path@, *item, set![path@], chain_fuel(*spec)) == Err::<(Seq<char>, PathItem), RefOutcome>(outcome_of(e)),
        },
{
    let ghost path0 = path@;
    let ghost target = ref_chain(*spec, path@, *item, set![path@], chain_fuel(*spec));
    let ghost keys = chain_keys(*spec, path@);
    let ghost fuel_all = chain_fuel(*spec);
    let mut seen: Vec<String> = Vec::new();
    set_insert(&mut seen, path.clone());
    assert(views(seen@).to_set() =~= set![path@]);
    let ghost mut fuel: nat = fuel_all;
    proof {
        let kp = opt_keys(opt_paths(spec.paths));
        let kc = opt_keys(component_path_items(*spec));
        kp.lemma_cardinality_of_set();
        kc.lemma_cardinality_of_set();
        vstd::seq_lib::seq_to_set_is_finite(kp);
        vstd::seq_lib::seq_to_set_is_finite(kc);
        vstd::set_lib::lemma_len_union(kp.to_set(), kc.to_set());
        vstd::set::axiom_set_insert_len(kp.to_set().union(kc.to_set()), path@);
        vstd::set_lib::lemma_set_insert_finite_iff(kp.to_set().union(kc.to_set()), path@);
    }
    let mut cur_path = path;
    let mut cur = item;
    loop
        invariant
            path0 == path@,
            target == ref_chain(*spec, path0, *item, set![path0], chain_fuel(*spec)),
            keys == chain_keys(*spec, path0),
            fuel_all == chain_fuel(*spec),
            keys.finite(),
            keys.len() <= fuel_all,
            views(seen@).to_set().subset_of(keys),
            views(seen@).to_set().len() + fuel == fuel_all + 1,
            ref_chain(*spec, cur_path@, *cur, views(seen@).to_set(), fuel) == target,
        decreases fuel,
    {
        let ghost s0 = views(seen@).to_set();
        proof {
            vstd::set_lib::lemma_len_subset(s0, keys);
        }
        let r = match &cur.reference {
            None => return Ok((cur_path, cur)),
            Some(r) => r,
        };
        if r.as_str().is_empty() {
            return Err(problem3("path `", cur_path.as_str(), "` carries an empty `$ref`"));
        }
        let (in_paths, after) = match strip_prefix(r.as_str(), "#/paths/") {
            Some(after) => (true, after),
            None => match strip_prefix(r.as_str(), "#/components/pathItems/") {
                Some(after) => (false, after),
                None => return Err(OperationRefResolution::ExternalPathItemRef(r.clone())),
            },
        };
        if contains_char(after.as_str(), '/') {
            if in_paths {
                return Err(problem5("path `", cur_path.as_str(), "` is a `$ref` to malformed JSON Pointer `", r.as_str(), "`: the encoded path token must use `~1` for `/`"));
            } else {
                return Err(problem5("path `", cur_path.as_str(), "` is a `$ref` to malformed JSON Pointer `", r.as_str(), "`"));
            }
        }
        let tp = unescape_pointer_token(after.as_str());
        if !set_insert(&mut seen, tp.clone()) {
            return Err(problem5("path `", cur_path.as_str(), "` has a cyclic `$ref` chain through `", r.as_str(), "`"));
        }
        let next = if in_paths {
            match &spec.paths {
                None => return Err(problem5("path `", cur_path.as_str(), "` has a `$ref` to `", r.as_str(), "` but spec has no `paths`")),
                Some(p) => match get_entry(&p.paths, tp.as_str()) {
                    None => return Err(problem5("path `", cur_path.as_str(), "` is a `$ref` to `", r.as_str(), "`, which is not declared in `#/paths`")),
                    Some(t) => {
                        proof {
                            lemma_lookup_key_in(p.paths@, tp@);
                        }
                        t
                    },
                },
            }
        } else {
            let container = match &spec.components {
                None => None,
                Some(c) => match &c.path_items {
                    None => None,
                    Some(m) => Some(m),
                },
            };
            match container {
                None => return Err(problem5("path `", cur_path.as_str(), "` is a `$ref` to `", r.as_str(), "`, which is not declared in `#/components/pathItems`")),
                Some(m) => match get_entry(m, tp.as_str()) {
                    None => return Err(problem5("path `", cur_path.as_str(), "` is a `$ref` to `", r.as_str(), "`, which is not declared in `#/components/pathItems`")),
                    Some(t) => {
                        proof {
                            lemma_lookup_key_in(m@, tp@);
                        }
                        t
                    },
                },
            }
        };
        proof {
            vstd::set::axiom_set_insert_len(s0, tp@);
            vstd::set_lib::lemma_len_subset(views(seen@).to_set(), keys);
            fuel = (fuel - 1) as nat;
        }
        cur_path = tp;
        cur = next;
    }
}

/// The container that an operationRef names: `#/paths` (true) or
/// `#/components/pathItems` (false), and the entries it holds.
fn container_of<'a>(spec: &'a Spec, in_paths: bool) -> (res: Option<&'a Vec<(String, PathItem)>>)
    ensures
        match res {
            None => (if in_paths { opt_paths(spec.paths) } else { component_path_items(*spec) }) is None,
            Some(es) => (if in_paths { opt_paths(spec.paths) } else { component_path_items(*spec) }) == Some(es@),
        },
{
    if in_paths {
        match &spec.paths {
            None => None,
            Some(p) => Some(&p.paths),
        }
    } else {
        match &spec.components {
            None => None,
            Some(c) => match &c.path_items {
                None => None,
                Some(m) => Some(m),
            },
        }
    }
}

/// Resolve an internal operationRef against `Spec.paths` or
/// `Spec.components.pathItems`: the path item `<container>/<token>`, after
/// its chain of `$ref`s, must declare the operation `<method>`.
pub fn resolve_internal_operation_ref(spec: &Spec, reference: &str) -> (res: OperationRefResolution)
    ensures
        outcome_of(res) == operation_ref_outcome(*spec, reference@),
{
    let (in_paths, after) = match strip_prefix(reference, "#/paths/") {
        Some(rest) => (true, rest),
        None => match strip_prefix(reference, "#/components/pathItems/") {
            Some(rest) => (false, rest),
            None => {
                return problem3("must start with `#/paths/` or `#/components/pathItems/`, found `", reference, "`");
            },
        },
    };
    if !contains_char(after.as_str(), '/') {
        return problem3("must point to `<container>/<encoded path>/<method>`, found `", reference, "`");
    }
    if !has_one_slash(after.as_str()) {
        return problem3(
            "malformed JSON Pointer: the encoded path token must use `~1` for `/`, found `",
            reference,
            "`",
        );
    }
    let (path_token, method) = match split_once(after.as_str(), '/') {
        Some(parts) => parts,
        None => {
            return problem3("must point to `<container>/<encoded path>/<method>`, found `", reference, "`");
        },
    };
    let path = unescape_pointer_token(path_token.as_str());
    let item = match container_of(spec, in_paths) {
        None => None,
        Some(es) => get_entry(es, path.as_str()),
    };
    let item = match item {
        Some(item) => item,
        None => {
            return problem3("path `", path.as_str(), "` not declared in the resolved container");
        },
    };
    let (target_path, target_item) = match resolve_path_item_ref_chain(spec, path.clone(), item) {
        Ok(t) => t,
        Err(e) => return e,
    };
    let method_lower = to_lowercase(method.as_str());
    if !declares_method(target_item, method_lower.as_str()) {
        return problem5("method `", method.as_str(), "` not declared on path `", target_path.as_str(), "`");
    }
    OperationRefResolution::Resolved
}

/// The Link object represents a possible design-time link for a response:
/// the fields that validation reads.
#[derive(Debug)]
pub struct Link {
    /// A relative or absolute URI reference to an OAS operation.
    pub operation_ref: Option<String>,
    /// The name of an existing, resolvable OAS operation.
    pub operation_id: Option<String>,
    /// A server object to be used by the target operation.
    pub server: Option<Server>,
}

/// The diagnostics of the optional server of a link at `path`.
pub open spec fn link_server_errors(path: Seq<char>, server: Option<Server>, ignore_unused: bool) -> Seq<Seq<char>> {
    match server {
        Some(s) => server_errors(path + ".server"@, s, ignore_unused),
        None => seq![],
    }
}

/// What resolving a link's optional operationRef gives.
pub open spec fn link_ref_outcome(spec: Spec, r: Option<String>) -> RefOutcome {
    match r {
        Some(r) => operation_ref_outcome(spec, r@),
        None => RefOutcome::Found,
    }
}

/// Checks the operation reference part of a link.
fn validate_link_operation_ref(ctx: &mut Context<'_, Spec>, path: &str, operation_ref: &String)
    ensures
        final(ctx).errors_view() == old(ctx).errors_view() + operation_ref_errors(
            path@,
            operation_ref@,
            old(ctx).has_option(Options::IgnoreExternalReferences),
            operation_ref_outcome(*old(ctx).spec, operation_ref@),
        ),
        final(ctx).visited == old(ctx).visited,
        final(ctx).spec == old(ctx).spec,
        final(ctx).options == old(ctx).options,
{
    let ghost expected = operation_ref_errors(
        path@,
        operation_ref@,
        old(ctx).has_option(Options::IgnoreExternalReferences),
        operation_ref_outcome(*old(ctx).spec, operation_ref@),
    );
    if operation_ref.as_str().is_empty() {
        ctx.error(path, ".operationRef: must not be empty");
        assert(expected =~= seq![error_line(path@, ".operationRef: must not be empty"@)]);
    } else if starts_with(operation_ref.as_str(), "#/") {
        let spec = ctx.spec;
        match resolve_internal_operation_ref(spec, operation_ref.as_str()) {
            OperationRefResolution::Resolved => {
                assert(expected =~= Seq::<Seq<char>>::empty());
                assert(ctx.errors_view() =~= old(ctx).errors_view() + expected);
            },
            OperationRefResolution::Invalid(msg) => {
                let m = concat(".operationRef: ", msg.as_str());
                ctx.error(path, m.as_str());
                assert(expected =~= seq![error_line(path@, ".operationRef: "@ + msg@)]);
            },
            OperationRefResolution::ExternalPathItemRef(target) => {
                if !ctx.is_option(Options::IgnoreExternalReferences) {
                    let mut m = concat(".operationRef: target PathItem is a `$ref` to external document `", target.as_str());
                    push_str(&mut m, "`, which is not supported");
                    ctx.error(path, m.as_str());
                    assert(expected =~= seq![error_line(path@, m@)]);
                } else {
                    assert(expected =~= Seq::<Seq<char>>::empty());
                    assert(ctx.errors_view() =~= old(ctx).errors_view() + expected);
                }
            },
        }
    } else if !ctx.is_option(Options::IgnoreExternalReferences) {
        let mut m = concat(".operationRef: external reference `", operation_ref.as_str());
        push_str(&mut m, "` is not supported");
        ctx.error(path, m.as_str());
        assert(expected =~= seq![error_line(path@, m@)]);
    } else {
        assert(expected =~= Seq::<Seq<char>>::empty());
        assert(ctx.errors_view() =~= old(ctx).errors_view() + expected);
    }
}

impl Link {
    /// Checks the link, found at `path`: exactly one of `operationRef` and
    /// `operationId`; an `operationId` that some operation declares (those are
    /// visited before links are checked); an `operationRef` that resolves in
    /// `#/paths` or `#/components/pathItems`.
    pub fn validate(&self, ctx: &mut Context<'_, Spec>, path: String)
        ensures
            final(ctx).errors_view() == old(ctx).errors_view() + link_errors(
                path@,
                opt_text(self.operation_ref),
                opt_text(self.operation_id),
                old(ctx).visited_set(),
                old(ctx).has_option(Options::IgnoreExternalReferences),
                link_ref_outcome(*old(ctx).spec, self.operation_ref),
            ) + link_server_errors(path@, self.server, old(ctx).has_option(Options::IgnoreUnusedServerVariables)),
            final(ctx).visited == old(ctx).visited,
            final(ctx).spec == old(ctx).spec,
            final(ctx).options == old(ctx).options,
    {
        let ghost all = link_errors(
            path@,
            opt_text(self.operation_ref),
            opt_text(self.operation_id),
            old(ctx).visited_set(),
            old(ctx).has_option(Options::IgnoreExternalReferences),
            link_ref_outcome(*old(ctx).spec, self.operation_ref),
        );
        if self.operation_ref.is_some() && self.operation_id.is_some() {
            ctx.error(path.as_str(), "operationRef and operationId are mutually exclusive");
        } else if self.operation_ref.is_none() && self.operation_id.is_none() {
            ctx.error(path.as_str(), "must specify exactly one of operationRef or operationId");
        }
        if let Some(operation_id) = &self.operation_id {
            let marker = concat("#/paths/operations/", operation_id.as_str());
            if !ctx.is_visited(marker.as_str()) {
                let mut m = concat(".operationId: missing operation with id `", operation_id.as_str());
                push_str(&mut m, "`");
                ctx.error(path.as_str(), m.as_str());
            }
        }
        if let Some(operation_ref) = &self.operation_ref {
            validate_link_operation_ref(ctx, path.as_str(), operation_ref);
        }
        assert(ctx.errors_view() =~= old(ctx).errors_view() + all);
        if let Some(server) = &self.server {
            let sp = concat(path.as_str(), ".server");
            server.validate(ctx, sp);
        }
    }
}

impl ValidateWithContext<Spec> for Link {
    open spec fn checks(
        &self,
        spec: Spec,
        options: OptionSet,
        visited: Set<Seq<char>>,
        errors: Seq<Seq<char>>,
        path: Seq<char>,
        after: (Seq<Seq<char>>, Set<Seq<char>>),
    ) -> bool {
        after == (errors + link_errors(
                path,
                opt_text(self.operation_ref),
                opt_text(self.operation_id),
                visited,
                options.has(Options::IgnoreExternalReferences),
                link_ref_outcome(spec, self.operation_ref),
            ) + link_server_errors(path, self.server, options.has(Options::IgnoreUnusedServerVariables)), visited)
    }

    fn validate_with_context(&self, ctx: &mut Context<'_, Spec>, path: String)
        ensures
            final(ctx).errors_view() == old(ctx).errors_view() + link_errors(
                path@,
                opt_text(self.operation_ref),
                opt_text(self.operation_id),
                old(ctx).visited_set(),
                old(ctx).has_option(Options::IgnoreExternalReferences),
                link_ref_outcome(*old(ctx).spec, self.operation_ref),
            ) + link_server_errors(path@, self.server, old(ctx).has_option(Options::IgnoreUnusedServerVariables)),
            final(ctx).visited == old(ctx).visited,
            final(ctx).spec == old(ctx).spec,
            final(ctx).options == old(ctx).options,
    {
        self.validate(ctx, path);
    }
}

} // verus!
