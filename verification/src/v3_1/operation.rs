//! Checks of an Operation object (OpenAPI 3.1).
use vstd::prelude::*;
use crate::common::context::{walked, Context, OptionSet, Options, ValidateWithContext};
use crate::common::model::{Operation, Parameter, SecurityRequirement};
use crate::v3_0::reference::RefOr;
use crate::common::security::{requirements_errors, requirements_markers, Dialect};
use crate::common::text::{concat, push_str};
use crate::v3_0::operation::{
    lemma_tags_pass_grows, operation_lists_errors, operation_tags, opt_docs_errors, tags_pass, validate_operation_lists,
    validate_operation_tags,
};
use crate::v3_1::spec::Spec;
use crate::v3_1::path_item::{check_parameters, parameters_pass};
use crate::v3_1::response::{responses_object_pass, Responses};
use crate::common::parameters::opt_vec;
use crate::v3_1::validation::{security_schemes_of, validate_security_requirements};

verus! {

/// The diagnostics of the optional security requirements of an operation at
/// `path`, under the 3.1 rules.
pub open spec fn opt_security_errors(spec: Spec, path: Seq<char>, sec: Option<Vec<SecurityRequirement>>) -> Seq<Seq<char>> {
    match sec {
        None => seq![],
        Some(sec) => requirements_errors(Dialect::V3_1, path + ".security"@, sec@, security_schemes_of(spec)),
    }
}

/// The markers that checking the security requirements of an operation visits.
pub open spec fn opt_security_markers(spec: Spec, sec: Option<Vec<SecurityRequirement>>) -> Set<Seq<char>> {
    match sec {
        None => Set::empty(),
        Some(sec) => requirements_markers(sec@, security_schemes_of(spec)),
    }
}

/// What checking the operation `o`, found at `path`, reports in a pass over
/// `spec` that had visited `visited`, and the markers visited afterwards:
/// its tags (each must name a tag of the document unless
/// `IgnoreMissingTags`; a named tag is checked the first time it is met),
/// its parameters, its servers, code samples and badges, its responses (at
/// `<path>.responses`), its external documentation, then its security
/// requirements.
#[verifier::opaque]
pub open spec fn operation_pass(
    spec: Spec,
    visited: Set<Seq<char>>,
    path: Seq<char>,
    o: Operation,
    options: OptionSet,
) -> (Seq<Seq<char>>, Set<Seq<char>>) {
    let ie = options.has(Options::IgnoreEmptyExternalDocumentationUrl);
    let ii = options.has(Options::IgnoreInvalidUrls);
    let tags = operation_tags(o);
    let t = tags_pass(spec, visited, path, tags, tags.len(), options.has(Options::IgnoreMissingTags), ie, ii);
    let p = opt_parameters_pass(spec, options, t.1, o.parameters, path);
    let r = opt_responses_pass(spec, options, p.1, o.responses, path + ".responses"@);
    let errors = t.0 + p.0 + operation_lists_errors(path, o, options.has(Options::IgnoreUnusedServerVariables)) + r.0
        + opt_docs_errors(path, o.external_docs, ie, ii) + opt_security_errors(spec, path, o.security);
    (errors, r.1.union(opt_security_markers(spec, o.security)))
}

/// What checking the optional parameters of an operation, found at `path`,
/// reports (see [`parameters_pass`]).
#[verifier::opaque]
pub open spec fn opt_parameters_pass(
    spec: Spec,
    options: OptionSet,
    vis: Set<Seq<char>>,
    ps: Option<Vec<RefOr<Parameter>>>,
    path: Seq<char>,
) -> (Seq<Seq<char>>, Set<Seq<char>>) {
    parameters_pass(spec, options, vis, opt_vec(ps), opt_vec(ps).len(), path)
}

/// Checks the optional parameters of an operation at `path`.
fn check_opt_parameters(ctx: &mut Context<'_, Spec>, ps: &Option<Vec<RefOr<Parameter>>>, path: &str)
    ensures
        walked(*old(ctx), *final(ctx), opt_parameters_pass(*old(ctx).spec, old(ctx).options, old(ctx).visited_set(), *ps, path@)),
        old(ctx).visited_set().subset_of(final(ctx).visited_set()),
{
    reveal(opt_parameters_pass);
    match ps {
        Some(ps) => check_parameters(ctx, ps, path),
        None => {
            assert(ctx.errors_view() =~= old(ctx).errors_view() + Seq::<Seq<char>>::empty());
        },
    }
}

/// Checks the optional responses of an operation at `<path>.responses`.
fn check_opt_responses(ctx: &mut Context<'_, Spec>, r: &Option<Responses>, path: &str)
    ensures
        walked(
            *old(ctx),
            *final(ctx),
            opt_responses_pass(*old(ctx).spec, old(ctx).options, old(ctx).visited_set(), *r, path@ + ".responses"@),
        ),
        old(ctx).visited_set().subset_of(final(ctx).visited_set()),
{
    reveal(opt_responses_pass);
    match r {
        Some(rs) => {
            let q = concat(path, ".responses");
            rs.validate(ctx, q);
        },
        None => {
            assert(ctx.errors_view() =~= old(ctx).errors_view() + Seq::<Seq<char>>::empty());
        },
    }
}

/// What checking the optional responses of an operation, found at `path`,
/// reports (see [`responses_object_pass`]).
#[verifier::opaque]
pub open spec fn opt_responses_pass(
    spec: Spec,
    options: OptionSet,
    vis: Set<Seq<char>>,
    r: Option<Responses>,
    path: Seq<char>,
) -> (Seq<Seq<char>>, Set<Seq<char>>) {
    match r {
        None => (seq![], vis),
        Some(r) => responses_object_pass(spec, options, vis, r, path),
    }
}

/// [`operation_pass`] in its parts: the tags, the lists, the external
/// documentation and the security requirements.
pub proof fn lemma_operation_pass_parts(
    spec: Spec,
    visited: Set<Seq<char>>,
    path: Seq<char>,
    o: Operation,
    options: OptionSet,
)
    ensures
        ({
            let ie = options.has(Options::IgnoreEmptyExternalDocumentationUrl);
            let ii = options.has(Options::IgnoreInvalidUrls);
            let tags = operation_tags(o);
            let t = tags_pass(spec, visited, path, tags, tags.len(), options.has(Options::IgnoreMissingTags), ie, ii);
            let p = opt_parameters_pass(spec, options, t.1, o.parameters, path);
            let r = opt_responses_pass(spec, options, p.1, o.responses, path + ".responses"@);
            operation_pass(spec, visited, path, o, options) == (
                t.0 + p.0 + operation_lists_errors(path, o, options.has(Options::IgnoreUnusedServerVariables)) + r.0
                    + opt_docs_errors(path, o.external_docs, ie, ii) + opt_security_errors(spec, path, o.security),
                r.1.union(opt_security_markers(spec, o.security)),
            )
        }),
{
    reveal(operation_pass);
}

/// What checking the first `n` operations of `ops` reports, each found at
/// `<path>.<method>`.
pub open spec fn operations_pass(
    spec: Spec,
    opts: OptionSet,
    vis: Set<Seq<char>>,
    ops: Seq<(String, Operation)>,
    n: nat,
    path: Seq<char>,
) -> (Seq<Seq<char>>, Set<Seq<char>>)
    decreases n,
{
    if n == 0 || n > ops.len() {
        (seq![], vis)
    } else {
        let (e1, v1) = operations_pass(spec, opts, vis, ops, (n - 1) as nat, path);
        let (e2, v2) = operation_pass(spec, v1, path + "."@ + ops[n - 1].0@, ops[n - 1].1, opts);
        (e1 + e2, v2)
    }
}

/// Checks the external documentation and the security requirements of an
/// operation at `path`.
fn check_operation_tail(ctx: &mut Context<'_, Spec>, o: &Operation, path: &str)
    ensures
        final(ctx).errors_view() == old(ctx).errors_view() + opt_docs_errors(
            path@,
            o.external_docs,
            old(ctx).has_option(Options::IgnoreEmptyExternalDocumentationUrl),
            old(ctx).has_option(Options::IgnoreInvalidUrls),
        ) + opt_security_errors(*old(ctx).spec, path@, o.security),
        final(ctx).visited_set() == old(ctx).visited_set().union(opt_security_markers(*old(ctx).spec, o.security)),
        final(ctx).spec == old(ctx).spec,
        final(ctx).options == old(ctx).options,
{
    let ghost e0 = ctx.errors_view();
    if let Some(docs) = &o.external_docs {
        let p = concat(path, ".externalDocs");
        docs.validate(ctx, p);
    }
    let ghost e1 = ctx.errors_view();
    assert(e1 =~= e0 + opt_docs_errors(
        path@,
        o.external_docs,
        old(ctx).has_option(Options::IgnoreEmptyExternalDocumentationUrl),
        old(ctx).has_option(Options::IgnoreInvalidUrls),
    ));
    if let Some(sec) = &o.security {
        let p = concat(path, ".security");
        validate_security_requirements(ctx, p.as_str(), sec);
    } else {
        assert(ctx.visited_set() =~= old(ctx).visited_set().union(Set::empty()));
    }
    assert(ctx.errors_view() =~= e1 + opt_security_errors(*old(ctx).spec, path@, o.security));
}

/// Checks the operation `o` found at `path` (see [`operation_pass`]); its
/// `operationId` is checked by the pass over the paths.
#[verifier::spinoff_prover]
#[verifier::rlimit(80)]
pub fn check_operation(ctx: &mut Context<'_, Spec>, o: &Operation, path: &str)
    ensures
        walked(*old(ctx), *final(ctx), operation_pass(*old(ctx).spec, old(ctx).visited_set(), path@, *o, old(ctx).options)),
        old(ctx).visited_set().subset_of(final(ctx).visited_set()),
{
    let ghost spec = *old(ctx).spec;
    let ghost ie = old(ctx).has_option(Options::IgnoreEmptyExternalDocumentationUrl);
    let ghost ii = old(ctx).has_option(Options::IgnoreInvalidUrls);
    let ghost e0 = ctx.errors_view();
    let ghost tags = operation_tags(*o);
    let ghost t = tags_pass(
        spec,
        old(ctx).visited_set(),
        path@,
        tags,
        tags.len(),
        old(ctx).has_option(Options::IgnoreMissingTags),
        ie,
        ii,
    );
    match &o.tags {
        Some(tags) => validate_operation_tags(ctx, tags, path),
        None => {
            assert(ctx.errors_view() =~= e0 + Seq::<Seq<char>>::empty());
        },
    }
    let ghost e1 = ctx.errors_view();
    assert(e1 == e0 + t.0 && ctx.visited_set() == t.1);
    proof {
        lemma_tags_pass_grows(
            spec,
            old(ctx).visited_set(),
            path@,
            tags,
            tags.len(),
            old(ctx).has_option(Options::IgnoreMissingTags),
            ie,
            ii,
        );
    }
    let ghost p = opt_parameters_pass(spec, old(ctx).options, t.1, o.parameters, path@);
    check_opt_parameters(ctx, &o.parameters, path);
    let ghost e1p = ctx.errors_view();
    assert(e1p == e1 + p.0 && ctx.visited_set() == p.1);
    validate_operation_lists(ctx, o, path);
    let ghost e2 = ctx.errors_view();
    let ghost r = opt_responses_pass(spec, old(ctx).options, p.1, o.responses, path@ + ".responses"@);
    check_opt_responses(ctx, &o.responses, path);
    let ghost e3 = ctx.errors_view();
    assert(e3 == e2 + r.0 && ctx.visited_set() == r.1);
    assert(old(ctx).visited_set().subset_of(ctx.visited_set()));
    check_operation_tail(ctx, o, path);
    proof {
        let lists = operation_lists_errors(path@, *o, old(ctx).has_option(Options::IgnoreUnusedServerVariables));
        let docs = opt_docs_errors(path@, o.external_docs, ie, ii);
        let sec = opt_security_errors(spec, path@, o.security);
        assert(e2 == e1p + lists);
        assert(ctx.errors_view() == e3 + docs + sec);
        lemma_operation_pass_parts(spec, old(ctx).visited_set(), path@, *o, old(ctx).options);
        assert(ctx.errors_view() =~= e0 + (t.0 + p.0 + lists + r.0 + docs + sec));
    }
}

/// Checks each operation of `ops`, found at `<path>.<method>`.
pub fn check_operations(ctx: &mut Context<'_, Spec>, ops: &Vec<(String, Operation)>, path: &str)
    ensures
        walked(*old(ctx), *final(ctx), operations_pass(*old(ctx).spec, old(ctx).options, old(ctx).visited_set(), ops@, ops@.len(), path@)),
        old(ctx).visited_set().subset_of(final(ctx).visited_set()),
{
    let ghost spec = *old(ctx).spec;
    let ghost opts = old(ctx).options;
    let ghost vis = old(ctx).visited_set();
    assert(old(ctx).errors_view() =~= old(ctx).errors_view() + operations_pass(spec, opts, vis, ops@, 0, path@).0);
    let mut i: usize = 0;
    while i < ops.len()
        invariant
            i <= ops.len(),
            spec == *old(ctx).spec,
            opts == old(ctx).options,
            vis == old(ctx).visited_set(),
            vis.subset_of(ctx.visited_set()),
            walked(*old(ctx), *ctx, operations_pass(spec, opts, vis, ops@, i as nat, path@)),
        decreases ops.len() - i,
    {
        let (method, op) = &ops[i];
        let mut p = concat(path, ".");
        push_str(&mut p, method.as_str());
        let ghost e1 = ctx.errors_view();
        check_operation(ctx, op, p.as_str());
        proof {
            assert(ctx.errors_view() =~= old(ctx).errors_view() + operations_pass(spec, opts, vis, ops@, (i + 1) as nat, path@).0);
        }
        i = i + 1;
    }
}

impl ValidateWithContext<Spec> for Operation {
    open spec fn checks(
        &self,
        spec: Spec,
        options: OptionSet,
        visited: Set<Seq<char>>,
        errors: Seq<Seq<char>>,
        path: Seq<char>,
        after: (Seq<Seq<char>>, Set<Seq<char>>),
    ) -> bool {
        let r = operation_pass(spec, visited, path, *self, options);
        after == (errors + r.0, r.1)
    }

    /// Checks the operation found at `path` (see [`operation_pass`]).
    fn validate_with_context(&self, ctx: &mut Context<'_, Spec>, path: String) {
        check_operation(ctx, self, path.as_str());
    }
}

} // verus!
