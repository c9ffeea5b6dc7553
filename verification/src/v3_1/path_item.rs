//! Checks of a Path Item object (OpenAPI 3.1).
use vstd::prelude::*;
use crate::common::context::{error_line, lemma_prefix_trans, walked, Context, OptionSet, Options, ValidateWithContext};
use crate::common::model::Parameter;
use crate::common::reference::ResolveReference;
use crate::v3_0::reference::{empty_ref_errors, item_of, ref_or_checks, unresolved_ref_errors, RefOr};
use crate::v3_1::parameter::parameter_errors;
use crate::common::model::{Callback, PathItem};
use crate::common::text::{concat, decimal, decimal_string, push_str, starts_with, strip_prefix, strip_prefix_of};
use crate::v3_0::reference::is_internal;
use crate::v3_1::path_lookup::{component_path_items, find_by_token, item_by_token, opt_paths};
use crate::v3_1::spec::Spec;
use crate::v3_1::operation::{check_operations, operations_pass};
use crate::v3_0::operation::{opt_servers_errors, validate_servers};
use crate::common::parameters::opt_vec;

verus! {

/// Whether the internal `$ref` `r` of a path item names a path item that the
/// document declares in `#/paths`, `#/webhooks` or `#/components/pathItems`
/// (by one pointer token).
pub open spec fn ref_target_declared(spec: Spec, r: Seq<char>) -> bool {
    match strip_prefix_of(r, "#/paths/"@) {
        Some(after) => item_by_token(opt_paths(spec.paths), after) is Some,
        None => match strip_prefix_of(r, "#/webhooks/"@) {
            Some(after) => item_by_token(opt_paths(spec.webhooks), after) is Some,
            None => match strip_prefix_of(r, "#/components/pathItems/"@) {
                Some(after) => item_by_token(component_path_items(spec), after) is Some,
                None => false,
            },
        },
    }
}

/// Whether the internal `$ref` of a path item names a declared path item.
pub fn internal_path_item_ref_target_exists(spec: &Spec, reference: &str) -> (res: bool)
    ensures
        res == ref_target_declared(*spec, reference@),
{
    if let Some(after) = strip_prefix(reference, "#/paths/") {
        let paths = match &spec.paths {
            None => None,
            Some(p) => Some(&p.paths),
        };
        find_by_token(paths, after.as_str()).is_some()
    } else if let Some(after) = strip_prefix(reference, "#/webhooks/") {
        let hooks = match &spec.webhooks {
            None => None,
            Some(p) => Some(&p.paths),
        };
        find_by_token(hooks, after.as_str()).is_some()
    } else if let Some(after) = strip_prefix(reference, "#/components/pathItems/") {
        let items = match &spec.components {
            None => None,
            Some(c) => match &c.path_items {
                None => None,
                Some(m) => Some(m),
            },
        };
        find_by_token(items, after.as_str()).is_some()
    } else {
        false
    }
}

/// The diagnostics of the `$ref` `r` of a path item found at `path`.
pub open spec fn path_item_ref_errors(spec: Spec, path: Seq<char>, r: Seq<char>, ignore_external: bool) -> Seq<Seq<char>> {
    if r.len() == 0 {
        seq![error_line(path, ".$ref: must not be empty"@)]
    } else if is_internal(r) {
        if ref_target_declared(spec, r) {
            seq![]
        } else {
            seq![error_line(path, ".$ref: target `"@ + r + "` is not declared in this document"@)]
        }
    } else if ignore_external {
        seq![]
    } else {
        seq![error_line(path, ".$ref: external reference `"@ + r + "` is not supported"@)]
    }
}

/// Checks the `$ref` of a path item found at `path`.
fn validate_path_item_ref(ctx: &mut Context<'_, Spec>, r: &str, path: &str)
    ensures
        final(ctx).errors_view() == old(ctx).errors_view() + path_item_ref_errors(
            *old(ctx).spec,
            path@,
            r@,
            old(ctx).has_option(Options::IgnoreExternalReferences),
        ),
        final(ctx).visited == old(ctx).visited,
        final(ctx).spec == old(ctx).spec,
        final(ctx).options == old(ctx).options,
{
    if r.is_empty() {
        ctx.error(path, ".$ref: must not be empty");
    } else if starts_with(r, "#/") {
        let spec = ctx.spec;
        if !internal_path_item_ref_target_exists(spec, r) {
            let mut m = concat(".$ref: target `", r);
            push_str(&mut m, "` is not declared in this document");
            ctx.error(path, m.as_str());
        } else {
            assert(ctx.errors_view() + Seq::<Seq<char>>::empty() =~= ctx.errors_view());
        }
    } else if !ctx.is_option(Options::IgnoreExternalReferences) {
        let mut m = concat(".$ref: external reference `", r);
        push_str(&mut m, "` is not supported");
        ctx.error(path, m.as_str());
    } else {
        assert(ctx.errors_view() + Seq::<Seq<char>>::empty() =~= ctx.errors_view());
    }
}

/// What checking the parameter or `$ref` `r`, found at `path`, reports on a
/// pass with the markers `vis` visited before it, and the markers visited
/// afterwards: a `$ref` is reported if empty; the first time it is met it is
/// visited and followed, and the parameter it names checked at the location
/// the `$ref` names, or the failure to follow it reported.
pub open spec fn parameter_ref_pass<S: ResolveReference<Parameter>>(spec: S, opts: OptionSet, vis: Set<Seq<char>>, r: RefOr<Parameter>, path: Seq<char>) -> (
    Seq<Seq<char>>,
    Set<Seq<char>>,
) {
    match r {
        RefOr::Item(p) => (parameter_errors(path, p), vis),
        RefOr::Ref(x) => {
            let reference = x.reference@;
            let pre = empty_ref_errors(path, reference);
            if vis.contains(reference) {
                (pre, vis)
            } else {
                match item_of(r, spec.resolved(reference)) {
                    Ok(d) => (pre + parameter_errors(reference, d), vis.insert(reference)),
                    Err(e) => (
                        pre + unresolved_ref_errors(path, e, opts.has(Options::IgnoreExternalReferences)),
                        vis.insert(reference),
                    ),
                }
            }
        },
    }
}

/// A check of a parameter or `$ref` is [`parameter_ref_pass`].
pub proof fn lemma_parameter_ref(
    spec: Spec,
    opts: OptionSet,
    vis: Set<Seq<char>>,
    errors: Seq<Seq<char>>,
    r: RefOr<Parameter>,
    path: Seq<char>,
    after: (Seq<Seq<char>>, Set<Seq<char>>),
)
    requires
        ref_or_checks(r, spec, opts, vis, errors, path, after),
    ensures
        after == (errors + parameter_ref_pass(spec, opts, vis, r, path).0, parameter_ref_pass(spec, opts, vis, r, path).1),
{
    let w = parameter_ref_pass(spec, opts, vis, r, path);
    match r {
        RefOr::Item(p) => {},
        RefOr::Ref(x) => {
            assert(after.0 =~= errors + w.0);
        },
    }
}

/// What checking the first `n` parameters of `ps` reports, each found at
/// `<path>.parameters[<index>]`.
pub open spec fn parameters_pass<S: ResolveReference<Parameter>>(
    spec: S,
    opts: OptionSet,
    vis: Set<Seq<char>>,
    ps: Seq<RefOr<Parameter>>,
    n: nat,
    path: Seq<char>,
) -> (Seq<Seq<char>>, Set<Seq<char>>)
    decreases n,
{
    if n == 0 || n > ps.len() {
        (seq![], vis)
    } else {
        let (e1, v1) = parameters_pass(spec, opts, vis, ps, (n - 1) as nat, path);
        let (e2, v2) = parameter_ref_pass(spec, opts, v1, ps[n - 1], path + ".parameters["@ + decimal((n - 1) as nat) + "]"@);
        (e1 + e2, v2)
    }
}

/// Checks each parameter (or `$ref`) of `ps`, found at
/// `<path>.parameters[<index>]`.
pub fn check_parameters(ctx: &mut Context<'_, Spec>, ps: &Vec<RefOr<Parameter>>, path: &str)
    ensures
        walked(*old(ctx), *final(ctx), parameters_pass(*old(ctx).spec, old(ctx).options, old(ctx).visited_set(), ps@, ps@.len(), path@)),
        old(ctx).visited_set().subset_of(final(ctx).visited_set()),
{
    let ghost spec = *old(ctx).spec;
    let ghost opts = old(ctx).options;
    let ghost vis = old(ctx).visited_set();
    assert(old(ctx).errors_view() =~= old(ctx).errors_view() + parameters_pass(spec, opts, vis, ps@, 0, path@).0);
    let mut i: usize = 0;
    while i < ps.len()
        invariant
            i <= ps.len(),
            spec == *old(ctx).spec,
            opts == old(ctx).options,
            vis == old(ctx).visited_set(),
            vis.subset_of(ctx.visited_set()),
            walked(*old(ctx), *ctx, parameters_pass(spec, opts, vis, ps@, i as nat, path@)),
        decreases ps.len() - i,
    {
        let mut p = concat(path, ".parameters[");
        push_str(&mut p, decimal_string(i).as_str());
        push_str(&mut p, "]");
        let ghost c0 = *ctx;
        ps[i].validate_with_context(ctx, p);
        proof {
            lemma_parameter_ref(spec, opts, c0.visited_set(), c0.errors_view(), ps@[i as int], p@, (ctx.errors_view(), ctx.visited_set()));
            assert(ctx.errors_view() =~= old(ctx).errors_view() + parameters_pass(spec, opts, vis, ps@, (i + 1) as nat, path@).0);
        }
        i = i + 1;
    }
}

/// What checking the path item `item`, found at `path`, reports: its `$ref`
/// (not empty; an internal one names a declared path item; an external one
/// is reported unless `IgnoreExternalReferences`), each operation (at
/// `<path>.<method>`), each server (at `<path>.servers[<index>]`), then each
/// parameter.
pub open spec fn path_item_pass(spec: Spec, opts: OptionSet, vis: Set<Seq<char>>, item: PathItem, path: Seq<char>) -> (
    Seq<Seq<char>>,
    Set<Seq<char>>,
) {
    let e0 = match item.reference {
        None => seq![],
        Some(r) => path_item_ref_errors(spec, path, r@, opts.has(Options::IgnoreExternalReferences)),
    };
    let ops = opt_vec(item.operations);
    let o = operations_pass(spec, opts, vis, ops, ops.len(), path);
    let sv = opt_servers_errors(path, item.servers, opts.has(Options::IgnoreUnusedServerVariables));
    let w = match item.parameters {
        Some(ps) => parameters_pass(spec, opts, o.1, ps@, ps@.len(), path),
        None => (seq![], o.1),
    };
    (e0 + o.0 + sv + w.0, w.1)
}

/// What checking the path items `paths` of a callback found at `path`
/// reports, each at `<path>[<expression>]`.
pub open spec fn callback_pass(spec: Spec, opts: OptionSet, vis: Set<Seq<char>>, paths: Seq<(String, PathItem)>, n: nat, path: Seq<char>) -> (
    Seq<Seq<char>>,
    Set<Seq<char>>,
)
    decreases n,
{
    if n == 0 || n > paths.len() {
        (seq![], vis)
    } else {
        let (e1, v1) = callback_pass(spec, opts, vis, paths, (n - 1) as nat, path);
        let (e2, v2) = path_item_pass(spec, opts, v1, paths[n - 1].1, path + "["@ + paths[n - 1].0@ + "]"@);
        (e1 + e2, v2)
    }
}

impl ValidateWithContext<Spec> for PathItem {
    open spec fn checks(
        &self,
        spec: Spec,
        options: OptionSet,
        visited: Set<Seq<char>>,
        errors: Seq<Seq<char>>,
        path: Seq<char>,
        after: (Seq<Seq<char>>, Set<Seq<char>>),
    ) -> bool {
        let w = path_item_pass(spec, options, visited, *self, path);
        after == (errors + w.0, w.1)
    }

    /// Checks the path item found at `path`: its `$ref` (not empty; an
    /// internal one names a declared path item; an external one is reported
    /// unless `IgnoreExternalReferences`), each operation, each server, then
    /// each of its parameters.
    #[verifier::spinoff_prover]
    #[verifier::rlimit(40)]
    fn validate_with_context(&self, ctx: &mut Context<'_, Spec>, path: String) {
        let ghost spec = *old(ctx).spec;
        let ghost opts = old(ctx).options;
        let ghost vis0 = old(ctx).visited_set();
        match &self.reference {
            Some(r) => validate_path_item_ref(ctx, r.as_str(), path.as_str()),
            None => {
                assert(ctx.errors_view() + Seq::<Seq<char>>::empty() =~= ctx.errors_view());
            },
        }
        let ghost ea = ctx.errors_view();
        let ghost ops = opt_vec(self.operations);
        let ghost o = operations_pass(spec, opts, vis0, ops, ops.len(), path@);
        match &self.operations {
            Some(list) => check_operations(ctx, list, path.as_str()),
            None => {
                assert(ctx.errors_view() =~= ea + o.0);
            },
        }
        let ghost eb = ctx.errors_view();
        if let Some(servers) = &self.servers {
            validate_servers(ctx, servers, path.as_str());
        }
        assert(ctx.errors_view() =~= eb + opt_servers_errors(
            path@,
            self.servers,
            opts.has(Options::IgnoreUnusedServerVariables),
        ));
        let ghost vis = ctx.visited_set();
        assert(vis == o.1);
        assert(vis0.subset_of(vis));
        assert(old(ctx).errors_view().is_prefix_of(ctx.errors_view())) by {
            assert(ctx.errors_view().subrange(0, old(ctx).errors_view().len() as int) =~= old(ctx).errors_view());
        }
        let ghost mid = ctx.errors_view();
        assert(mid.is_prefix_of(mid));
        if let Some(parameters) = &self.parameters {
            assert(mid =~= mid + parameters_pass(spec, opts, vis, parameters@, 0, path@).0);
            let mut i: usize = 0;
            while i < parameters.len()
                invariant
                    i <= parameters.len(),
                    spec == *old(ctx).spec,
                    opts == old(ctx).options,
                    vis == o.1,
                    vis0 == old(ctx).visited_set(),
                    vis0.subset_of(vis),
                    vis.subset_of(ctx.visited_set()),
                    ctx.spec == old(ctx).spec,
                    ctx.options == old(ctx).options,
                    old(ctx).errors_view().is_prefix_of(mid),
                    mid.is_prefix_of(ctx.errors_view()),
                    ctx.errors_view() == mid + parameters_pass(spec, opts, vis, parameters@, i as nat, path@).0,
                    ctx.visited_set() == parameters_pass(spec, opts, vis, parameters@, i as nat, path@).1,
                decreases parameters.len() - i,
            {
                let mut p = concat(path.as_str(), ".parameters[");
                push_str(&mut p, decimal_string(i).as_str());
                push_str(&mut p, "]");
                let ghost c0 = *ctx;
                parameters[i].validate_with_context(ctx, p);
                proof {
                    lemma_prefix_trans(mid, c0.errors_view(), ctx.errors_view());
                    lemma_parameter_ref(
                        spec,
                        opts,
                        c0.visited_set(),
                        c0.errors_view(),
                        parameters@[i as int],
                        p@,
                        (ctx.errors_view(), ctx.visited_set()),
                    );
                    assert(ctx.errors_view() =~= mid + parameters_pass(spec, opts, vis, parameters@, (i + 1) as nat, path@).0);
                }
                i = i + 1;
            }
            assert(ctx.errors_view() =~= old(ctx).errors_view() + path_item_pass(spec, opts, vis0, *self, path@).0);
            proof { lemma_prefix_trans(old(ctx).errors_view(), mid, ctx.errors_view()); }
        } else {
            assert(ctx.errors_view() =~= old(ctx).errors_view() + path_item_pass(spec, opts, vis0, *self, path@).0);
        }
    }
}

impl ValidateWithContext<Spec> for Callback {
    open spec fn checks(
        &self,
        spec: Spec,
        options: OptionSet,
        visited: Set<Seq<char>>,
        errors: Seq<Seq<char>>,
        path: Seq<char>,
        after: (Seq<Seq<char>>, Set<Seq<char>>),
    ) -> bool {
        let w = callback_pass(spec, options, visited, self.paths@, self.paths@.len(), path);
        after == (errors + w.0, w.1)
    }

    /// Checks each path item of the callback, found at `<path>[<expression>]`.
    fn validate_with_context(&self, ctx: &mut Context<'_, Spec>, path: String) {
        let ghost spec = *old(ctx).spec;
        let ghost opts = old(ctx).options;
        let ghost vis = old(ctx).visited_set();
        let ghost e0 = old(ctx).errors_view();
        assert(e0 =~= e0 + callback_pass(spec, opts, vis, self.paths@, 0, path@).0);
        let mut i: usize = 0;
        while i < self.paths.len()
            invariant
                i <= self.paths.len(),
                spec == *old(ctx).spec,
                opts == old(ctx).options,
                vis == old(ctx).visited_set(),
                e0 == old(ctx).errors_view(),
                ctx.extends(old(ctx)),
                walked(*old(ctx), *ctx, callback_pass(spec, opts, vis, self.paths@, i as nat, path@)),
            decreases self.paths.len() - i,
        {
            let (name, item) = &self.paths[i];
            let mut p = concat(path.as_str(), "[");
            push_str(&mut p, name.as_str());
            push_str(&mut p, "]");
            let ghost c0 = *ctx;
            item.validate_with_context(ctx, p);
            proof {
                lemma_prefix_trans(e0, c0.errors_view(), ctx.errors_view());
                assert(ctx.errors_view() =~= e0 + callback_pass(spec, opts, vis, self.paths@, (i + 1) as nat, path@).0);
            }
            i = i + 1;
        }
    }
}

} // verus!
