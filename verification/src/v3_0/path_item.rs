//! Checks of a Path Item object (OpenAPI 3.0).
use vstd::prelude::*;
use crate::common::context::{lemma_prefix_trans, walked, Context, OptionSet, Options, ValidateWithContext};
use crate::common::model::{Callback, Operation, PathItem};
use crate::common::parameters::opt_vec;
use crate::common::text::{concat, push_str};
use crate::v3_0::operation::{operation_pass, opt_servers_errors, validate_servers};
use crate::v3_0::spec::Spec;

verus! {

/// What checking the operations `ops` of a path item at `path` reports, in
/// order, and the markers visited afterwards.
pub open spec fn ops_pass(
    spec: Spec,
    visited: Set<Seq<char>>,
    path: Seq<char>,
    ops: Seq<(String, Operation)>,
    options: OptionSet,
) -> (Seq<Seq<char>>, Set<Seq<char>>)
    decreases ops.len(),
{
    if ops.len() == 0 {
        (seq![], visited)
    } else {
        let p = ops_pass(spec, visited, path, ops.drop_last(), options);
        let r = operation_pass(spec, p.1, path + "."@ + ops.last().0@, ops.last().1, options);
        (p.0 + r.0, r.1)
    }
}

/// What checking a path item at `path` reports (each operation, at
/// `<path>.<method>`, then each server), and the markers visited afterwards.
pub open spec fn path_item_pass(
    spec: Spec,
    visited: Set<Seq<char>>,
    path: Seq<char>,
    item: PathItem,
    options: OptionSet,
) -> (Seq<Seq<char>>, Set<Seq<char>>) {
    let o = ops_pass(spec, visited, path, opt_vec(item.operations), options);
    (o.0 + opt_servers_errors(path, item.servers, options.has(Options::IgnoreUnusedServerVariables)), o.1)
}

/// Checks the path item found at `path`: each operation, at
/// `<path>.<method>`, then each server.
pub fn validate_path_item_objects(ctx: &mut Context<'_, Spec>, item: &PathItem, path: &str)
    ensures
        ({
            let r = path_item_pass(*old(ctx).spec, old(ctx).visited_set(), path@, *item, old(ctx).options);
            final(ctx).errors_view() == old(ctx).errors_view() + r.0 && final(ctx).visited_set() == r.1
        }),
        old(ctx).visited_set().subset_of(final(ctx).visited_set()),
        final(ctx).spec == old(ctx).spec,
        final(ctx).options == old(ctx).options,
{
    let ghost e0 = ctx.errors_view();
    let ghost v0 = ctx.visited_set();
    if let Some(ops) = &item.operations {
        let mut k: usize = 0;
        assert(ops@.take(0) =~= Seq::<(String, Operation)>::empty());
        assert(e0 + Seq::<Seq<char>>::empty() =~= e0);
        while k < ops.len()
            invariant
                k <= ops.len(),
                item.operations == Some(*ops),
                ctx.spec == old(ctx).spec,
                ctx.options == old(ctx).options,
                v0.subset_of(ctx.visited_set()),
                ({
                    let r = ops_pass(*old(ctx).spec, v0, path@, ops@.take(k as int), old(ctx).options);
                    ctx.errors_view() == e0 + r.0 && ctx.visited_set() == r.1
                }),
            decreases ops.len() - k,
        {
            let (method, op) = &ops[k];
            let mut p = concat(path, ".");
            push_str(&mut p, method.as_str());
            op.validate(ctx, p);
            proof {
                assert(ops@.take(k + 1).drop_last() =~= ops@.take(k as int));
                let r = ops_pass(*old(ctx).spec, v0, path@, ops@.take(k + 1), old(ctx).options);
                assert(ctx.errors_view() =~= e0 + r.0);
            }
            k = k + 1;
        }
        assert(ops@.take(ops.len() as int) =~= ops@);
    } else {
        assert(ctx.errors_view() =~= e0 + Seq::<Seq<char>>::empty());
    }
    let ghost e1 = ctx.errors_view();
    if let Some(servers) = &item.servers {
        validate_servers(ctx, servers, path);
    }
    assert(ctx.errors_view() =~= e1 + opt_servers_errors(path@, item.servers, old(ctx).has_option(Options::IgnoreUnusedServerVariables)));
    proof {
        let r = path_item_pass(*old(ctx).spec, v0, path@, *item, old(ctx).options);
        assert(ctx.errors_view() =~= e0 + r.0);
    }
}

impl ValidateWithContext<Spec> for PathItem {
    open spec fn checks(
        &self,
        spec: Spec,
        options: OptionSet,
        visited: Set<Seq<char>>,
        errors: Seq<Seq<char>>,
        path: Seq<char>,
        after: (Seq<Seq<char>>, Set<Seq<char>>),
    ) -> bool {
        let w = path_item_pass(spec, visited, path, *self, options);
        after == (errors + w.0, w.1)
    }

    fn validate_with_context(&self, ctx: &mut Context<'_, Spec>, path: String)
        ensures
            walked(*old(ctx), *final(ctx), path_item_pass(*old(ctx).spec, old(ctx).visited_set(), path@, *self, old(ctx).options)),
    {
        validate_path_item_objects(ctx, self, path.as_str());
    }
}

/// What checking the path items `paths` of a callback found at `path`
/// reports, each at `<path>[<expression>]`, with the markers `visited`
/// visited before them.
pub open spec fn callback_pass(
    spec: Spec,
    visited: Set<Seq<char>>,
    path: Seq<char>,
    paths: Seq<(String, PathItem)>,
    options: OptionSet,
) -> (Seq<Seq<char>>, Set<Seq<char>>)
    decreases paths.len(),
{
    if paths.len() == 0 {
        (seq![], visited)
    } else {
        let r = callback_pass(spec, visited, path, paths.drop_last(), options);
        let q = path_item_pass(spec, r.1, path + "["@ + paths.last().0@ + "]"@, paths.last().1, options);
        (r.0 + q.0, q.1)
    }
}

impl ValidateWithContext<Spec> for Callback {
    open spec fn checks(
        &self,
        spec: Spec,
        options: OptionSet,
        visited: Set<Seq<char>>,
        errors: Seq<Seq<char>>,
        path: Seq<char>,
        after: (Seq<Seq<char>>, Set<Seq<char>>),
    ) -> bool {
        let w = callback_pass(spec, visited, path, self.paths@, options);
        after == (errors + w.0, w.1)
    }

    /// Checks each path item of the callback, found at `<path>[<expression>]`.
    fn validate_with_context(&self, ctx: &mut Context<'_, Spec>, path: String)
        ensures
            walked(*old(ctx), *final(ctx), callback_pass(*old(ctx).spec, old(ctx).visited_set(), path@, self.paths@, old(ctx).options)),
    {
        let ghost spec = *old(ctx).spec;
        let ghost v0 = old(ctx).visited_set();
        let ghost e0 = old(ctx).errors_view();
        assert(self.paths@.take(0) =~= Seq::<(String, PathItem)>::empty());
        assert(e0 + Seq::<Seq<char>>::empty() =~= e0);
        let mut i: usize = 0;
        while i < self.paths.len()
            invariant
                i <= self.paths.len(),
                ctx.extends(old(ctx)),
                spec == *old(ctx).spec,
                v0 == old(ctx).visited_set(),
                e0 == old(ctx).errors_view(),
                walked(*old(ctx), *ctx, callback_pass(spec, v0, path@, self.paths@.take(i as int), old(ctx).options)),
            decreases self.paths.len() - i,
        {
            let (name, item) = &self.paths[i];
            let mut p = concat(path.as_str(), "[");
            push_str(&mut p, name.as_str());
            push_str(&mut p, "]");
            let ghost c0 = *ctx;
            item.validate_with_context(ctx, p);
            proof {
                lemma_prefix_trans(old(ctx).errors_view(), c0.errors_view(), ctx.errors_view());
                assert(self.paths@.take(i + 1).drop_last() =~= self.paths@.take(i as int));
                let r = callback_pass(spec, v0, path@, self.paths@.take(i + 1), old(ctx).options);
                assert(ctx.errors_view() =~= e0 + r.0);
            }
            i = i + 1;
        }
        assert(self.paths@.take(self.paths.len() as int) =~= self.paths@);
    }
}

} // verus!
