//! Checks of the Parameter objects of an OpenAPI 3.0 document.
use vstd::prelude::*;
use crate::common::context::{walked, Context, OptionSet, ValidateWithContext};
use crate::common::model::Parameter;
use crate::common::parameters::opt_vec;
use crate::common::text::{concat, decimal_string, push_str};
use crate::v3_0::reference::{ref_or_checks, RefOr};
use crate::v3_0::spec::Spec;
use crate::v3_1::parameter::{check_parameter, parameter_errors};
use crate::v3_1::path_item::{parameter_ref_pass, parameters_pass};

verus! {

impl ValidateWithContext<Spec> for Parameter {
    open spec fn checks(
        &self,
        spec: Spec,
        options: OptionSet,
        visited: Set<Seq<char>>,
        errors: Seq<Seq<char>>,
        path: Seq<char>,
        after: (Seq<Seq<char>>, Set<Seq<char>>),
    ) -> bool {
        after == (errors + parameter_errors(path, *self), visited)
    }

    /// Checks the parameter found at `path`: a non-empty name, a path
    /// parameter that is required, and the exclusive pairs
    /// `example`/`examples` and `schema`/`content`.
    fn validate_with_context(&self, ctx: &mut Context<'_, Spec>, path: String) {
        check_parameter(self, ctx, path);
    }
}

/// A check of a parameter or `$ref` is [`parameter_ref_pass`].
pub proof fn lemma_parameter_ref(
    spec: Spec,
    opts: OptionSet,
    vis: Set<Seq<char>>,
    errors: Seq<Seq<char>>,
    r: RefOr<Parameter>,
    path: Seq<char>,
    after: (Seq<Seq<char>>, Set<Seq<char>>),
)
    requires
        ref_or_checks(r, spec, opts, vis, errors, path, after),
    ensures
        after == (errors + parameter_ref_pass(spec, opts, vis, r, path).0, parameter_ref_pass(spec, opts, vis, r, path).1),
{
    let w = parameter_ref_pass(spec, opts, vis, r, path);
    match r {
        RefOr::Item(p) => {},
        RefOr::Ref(x) => {
            assert(after.0 =~= errors + w.0);
        },
    }
}

/// What checking the optional parameters of an operation, found at `path`,
/// reports (see [`parameters_pass`]).
#[verifier::opaque]
pub open spec fn opt_parameters_pass(
    spec: Spec,
    options: OptionSet,
    vis: Set<Seq<char>>,
    ps: Option<Vec<RefOr<Parameter>>>,
    path: Seq<char>,
) -> (Seq<Seq<char>>, Set<Seq<char>>) {
    parameters_pass(spec, options, vis, opt_vec(ps), opt_vec(ps).len(), path)
}

/// Checks each parameter (or `$ref`) of `ps`, found at
/// `<path>.parameters[<index>]`.
pub fn check_parameters(ctx: &mut Context<'_, Spec>, ps: &Vec<RefOr<Parameter>>, path: &str)
    ensures
        walked(*old(ctx), *final(ctx), parameters_pass(*old(ctx).spec, old(ctx).options, old(ctx).visited_set(), ps@, ps@.len(), path@)),
        old(ctx).visited_set().subset_of(final(ctx).visited_set()),
{
    let ghost spec = *old(ctx).spec;
    let ghost opts = old(ctx).options;
    let ghost vis = old(ctx).visited_set();
    assert(old(ctx).errors_view() =~= old(ctx).errors_view() + parameters_pass(spec, opts, vis, ps@, 0, path@).0);
    let mut i: usize = 0;
    while i < ps.len()
        invariant
            i <= ps.len(),
            spec == *old(ctx).spec,
            opts == old(ctx).options,
            vis == old(ctx).visited_set(),
            vis.subset_of(ctx.visited_set()),
            walked(*old(ctx), *ctx, parameters_pass(spec, opts, vis, ps@, i as nat, path@)),
        decreases ps.len() - i,
    {
        let mut p = concat(path, ".parameters[");
        push_str(&mut p, decimal_string(i).as_str());
        push_str(&mut p, "]");
        let ghost c0 = *ctx;
        ps[i].validate_with_context(ctx, p);
        proof {
            lemma_parameter_ref(spec, opts, c0.visited_set(), c0.errors_view(), ps@[i as int], p@, (ctx.errors_view(), ctx.visited_set()));
            assert(ctx.errors_view() =~= old(ctx).errors_view() + parameters_pass(spec, opts, vis, ps@, (i + 1) as nat, path@).0);
        }
        i = i + 1;
    }
}

/// Checks the optional parameters of an operation at `path`.
pub fn check_opt_parameters(ctx: &mut Context<'_, Spec>, ps: &Option<Vec<RefOr<Parameter>>>, path: &str)
    ensures
        walked(*old(ctx), *final(ctx), opt_parameters_pass(*old(ctx).spec, old(ctx).options, old(ctx).visited_set(), *ps, path@)),
        old(ctx).visited_set().subset_of(final(ctx).visited_set()),
{
    reveal(opt_parameters_pass);
    match ps {
        Some(ps) => check_parameters(ctx, ps, path),
        None => {
            assert(ctx.errors_view() =~= old(ctx).errors_view() + Seq::<Seq<char>>::empty());
        },
    }
}

} // verus!
