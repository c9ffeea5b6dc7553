//! Checks of an Operation object (OpenAPI 3.0).
use vstd::prelude::*;
use crate::common::checks::{required_string_errors, validate_required_string};
use crate::common::context::{error_line, walked, Context, OptionSet, Options, ValidateWithContext};
use crate::common::model::{Operation, SecurityRequirement, Tag};
use crate::common::reference::ResolveReference;
use crate::common::security::{requirements_errors, requirements_markers, Dialect};
use crate::common::text::{concat, decimal, decimal_string, push_str};
use crate::v3_0::content::{lemma_request_body_ref, opt_request_body_pass};
use crate::v3_0::components::RequestBody;
use crate::v3_0::parameter::{check_opt_parameters, opt_parameters_pass};
use crate::v3_0::reference::RefOr;
use crate::v3_0::server::{server_errors, Server};
use crate::v3_0::spec::Spec;
use crate::v3_0::tag::{tag_errors, validate_tag};
use crate::v3_0::validation::{security_schemes_of, validate_security_requirements};
use crate::v3_1::external_documentation::{external_docs_errors, ExternalDocumentation};

verus! {

/// A code sample (`x-codeSamples`).
#[derive(Debug)]
pub struct CodeSample {
    /// **Required** The language of the sample.
    pub lang: String,
    /// The label of the sample.
    pub label: Option<String>,
    /// **Required** The source of the sample.
    pub source: String,
}

/// A badge (`x-badges`).
#[derive(Debug)]
pub struct Badge {
    /// **Required** The text of the badge.
    pub name: String,
    /// Where the badge is shown.
    pub position: Option<String>,
    /// The color of the badge.
    pub color: Option<String>,
}

/// The diagnostics of a code sample found at `path`.
pub open spec fn code_sample_errors(path: Seq<char>, c: CodeSample) -> Seq<Seq<char>> {
    required_string_errors(path + ".lang"@, c.lang@) + required_string_errors(path + ".source"@, c.source@)
}

impl CodeSample {
    /// Checks the code sample found at `path`: a language and a source.
    pub fn validate<S>(&self, ctx: &mut Context<'_, S>, path: String)
        ensures
            final(ctx).errors_view() == old(ctx).errors_view() + code_sample_errors(path@, *self),
            final(ctx).visited == old(ctx).visited,
            final(ctx).spec == old(ctx).spec,
            final(ctx).options == old(ctx).options,
    {
        let ghost e0 = ctx.errors_view();
        let p = concat(path.as_str(), ".lang");
        validate_required_string(ctx, self.lang.as_str(), p.as_str());
        let p = concat(path.as_str(), ".source");
        validate_required_string(ctx, self.source.as_str(), p.as_str());
        assert(ctx.errors_view() =~= e0 + code_sample_errors(path@, *self));
    }
}

impl Badge {
    /// Checks the badge found at `path`: a name.
    pub fn validate<S>(&self, ctx: &mut Context<'_, S>, path: String)
        ensures
            final(ctx).errors_view() == old(ctx).errors_view() + required_string_errors(path@ + ".name"@, self.name@),
            final(ctx).visited == old(ctx).visited,
            final(ctx).spec == old(ctx).spec,
            final(ctx).options == old(ctx).options,
    {
        let p = concat(path.as_str(), ".name");
        validate_required_string(ctx, self.name.as_str(), p.as_str());
    }
}

impl ValidateWithContext<Spec> for CodeSample {
    open spec fn checks(
        &self,
        spec: Spec,
        options: OptionSet,
        visited: Set<Seq<char>>,
        errors: Seq<Seq<char>>,
        path: Seq<char>,
        after: (Seq<Seq<char>>, Set<Seq<char>>),
    ) -> bool {
        after == (errors + code_sample_errors(path, *self), visited)
    }

    fn validate_with_context(&self, ctx: &mut Context<'_, Spec>, path: String)
        ensures
            final(ctx).errors_view() == old(ctx).errors_view() + code_sample_errors(path@, *self),
            final(ctx).visited == old(ctx).visited,
            final(ctx).spec == old(ctx).spec,
            final(ctx).options == old(ctx).options,
    {
        self.validate(ctx, path);
    }
}

impl ValidateWithContext<Spec> for Badge {
    open spec fn checks(
        &self,
        spec: Spec,
        options: OptionSet,
        visited: Set<Seq<char>>,
        errors: Seq<Seq<char>>,
        path: Seq<char>,
        after: (Seq<Seq<char>>, Set<Seq<char>>),
    ) -> bool {
        after == (errors + required_string_errors(path + ".name"@, self.name@), visited)
    }

    fn validate_with_context(&self, ctx: &mut Context<'_, Spec>, path: String)
        ensures
            final(ctx).errors_view() == old(ctx).errors_view() + required_string_errors(path@ + ".name"@, self.name@),
            final(ctx).visited == old(ctx).visited,
            final(ctx).spec == old(ctx).spec,
            final(ctx).options == old(ctx).options,
    {
        self.validate(ctx, path);
    }
}

/// What the first `k` tags of an operation at `path` report, and the
/// markers visited afterwards, starting from the markers `visited`: each
/// tag name is required; a non-empty one must name a tag of `Spec.tags`
/// (unless `IgnoreMissingTags`), and that tag is checked, at `#/tags/<name>`,
/// the first time some operation names it.
pub open spec fn tags_pass<S: ResolveReference<Tag>>(
    spec: S,
    visited: Set<Seq<char>>,
    path: Seq<char>,
    tags: Seq<Seq<char>>,
    k: nat,
    ignore_missing: bool,
    ie: bool,
    ii: bool,
) -> (Seq<Seq<char>>, Set<Seq<char>>)
    decreases k,
{
    if k == 0 {
        (seq![], visited)
    } else {
        let prev = tags_pass(spec, visited, path, tags, (k - 1) as nat, ignore_missing, ie, ii);
        let i = (k - 1) as nat;
        let t = tags[i as int];
        let p = path + ".tags["@ + decimal(i) + "]"@;
        let e = prev.0 + required_string_errors(p, t);
        if t.len() == 0 {
            (e, prev.1)
        } else {
            let r = "#/tags/"@ + t;
            match spec.resolved(r) {
                Some(tag) => if prev.1.contains(r) {
                    (e, prev.1)
                } else {
                    (e + tag_errors(r, tag, ie, ii), prev.1.insert(r))
                },
                None => if ignore_missing {
                    (e, prev.1)
                } else {
                    (e + seq![error_line(p, ".tags["@ + decimal(i) + "]: `"@ + t + "` not found in spec"@)], prev.1)
                },
            }
        }
    }
}

/// The diagnostics of a list of objects checked one by one at
/// `<path><section>[<i>]`.
pub open spec fn servers_errors(path: Seq<char>, servers: Seq<Server>, k: nat, ignore_unused: bool) -> Seq<Seq<char>>
    decreases k,
{
    if k == 0 {
        seq![]
    } else {
        servers_errors(path, servers, (k - 1) as nat, ignore_unused) + server_errors(
            path + ".servers["@ + decimal((k - 1) as nat) + "]"@,
            servers[k - 1],
            ignore_unused,
        )
    }
}

/// The diagnostics of the first `k` code samples at `path`.
pub open spec fn samples_errors(path: Seq<char>, samples: Seq<CodeSample>, k: nat) -> Seq<Seq<char>>
    decreases k,
{
    if k == 0 {
        seq![]
    } else {
        samples_errors(path, samples, (k - 1) as nat) + code_sample_errors(
            path + ".x-codeSamples["@ + decimal((k - 1) as nat) + "]"@,
            samples[k - 1],
        )
    }
}

/// The diagnostics of the first `k` badges at `path`.
pub open spec fn badges_errors(path: Seq<char>, badges: Seq<Badge>, k: nat) -> Seq<Seq<char>>
    decreases k,
{
    if k == 0 {
        seq![]
    } else {
        badges_errors(path, badges, (k - 1) as nat) + required_string_errors(
            path + ".x-badges["@ + decimal((k - 1) as nat) + "]"@ + ".name"@,
            badges[k - 1].name@,
        )
    }
}

/// The tag names of an operation.
pub open spec fn operation_tags(o: Operation) -> Seq<Seq<char>> {
    match o.tags {
        None => seq![],
        Some(t) => crate::common::patterns::views(t@),
    }
}

/// The diagnostics of the optional servers of an operation at `path`.
pub open spec fn opt_servers_errors(path: Seq<char>, servers: Option<Vec<Server>>, ignore_unused: bool) -> Seq<Seq<char>> {
    match servers {
        None => seq![],
        Some(s) => servers_errors(path, s@, s@.len(), ignore_unused),
    }
}

/// The diagnostics of the optional code samples of an operation at `path`.
pub open spec fn opt_samples_errors(path: Seq<char>, samples: Option<Vec<CodeSample>>) -> Seq<Seq<char>> {
    match samples {
        None => seq![],
        Some(s) => samples_errors(path, s@, s@.len()),
    }
}

/// The diagnostics of the optional badges of an operation at `path`.
pub open spec fn opt_badges_errors(path: Seq<char>, badges: Option<Vec<Badge>>) -> Seq<Seq<char>> {
    match badges {
        None => seq![],
        Some(b) => badges_errors(path, b@, b@.len()),
    }
}

/// The diagnostics of the optional external documentation of an object at `path`.
pub open spec fn opt_docs_errors(path: Seq<char>, docs: Option<ExternalDocumentation>, ie: bool, ii: bool) -> Seq<Seq<char>> {
    match docs {
        None => seq![],
        Some(d) => external_docs_errors(path + ".externalDocs"@, d, ie, ii),
    }
}

/// The diagnostics of the optional security requirements of an operation at `path`.
pub open spec fn opt_security_errors(spec: Spec, path: Seq<char>, sec: Option<Vec<SecurityRequirement>>) -> Seq<Seq<char>> {
    match sec {
        None => seq![],
        Some(sec) => requirements_errors(Dialect::V3_0, path + ".security"@, sec@, security_schemes_of(spec)),
    }
}

/// The diagnostics of an operation found at `path`, and the markers visited
/// afterwards, in a pass over `spec` that had visited `visited`: its tags,
/// its parameters, its request body, its servers, code samples and badges,
/// its external documentation, then its security requirements.
#[verifier::opaque]
pub open spec fn operation_pass(
    spec: Spec,
    visited: Set<Seq<char>>,
    path: Seq<char>,
    o: Operation,
    options: crate::common::context::OptionSet,
) -> (Seq<Seq<char>>, Set<Seq<char>>) {
    let ie = options.has(Options::IgnoreEmptyExternalDocumentationUrl);
    let ii = options.has(Options::IgnoreInvalidUrls);
    let tags = operation_tags(o);
    let t = tags_pass(spec, visited, path, tags, tags.len(), options.has(Options::IgnoreMissingTags), ie, ii);
    let p = opt_parameters_pass(spec, options, t.1, o.parameters, path);
    let b = opt_request_body_pass(spec, options, p.1, o.request_body, path + ".requestBody"@);
    let errors = t.0 + p.0 + b.0 + operation_lists_errors(path, o, options.has(Options::IgnoreUnusedServerVariables))
        + opt_docs_errors(path, o.external_docs, ie, ii) + opt_security_errors(spec, path, o.security);
    let marks = b.1.union(opt_security_markers(spec, o.security));
    (errors, marks)
}

/// Checks the tags of an operation found at `path`.
pub fn validate_operation_tags<S: ResolveReference<Tag>>(ctx: &mut Context<'_, S>, tags: &Vec<String>, path: &str)
    ensures
        (final(ctx).errors_view(), final(ctx).visited_set()) == ({
            let t = tags_pass(
                *old(ctx).spec,
                old(ctx).visited_set(),
                path@,
                crate::common::patterns::views(tags@),
                tags@.len(),
                old(ctx).has_option(Options::IgnoreMissingTags),
                old(ctx).has_option(Options::IgnoreEmptyExternalDocumentationUrl),
                old(ctx).has_option(Options::IgnoreInvalidUrls),
            );
            (old(ctx).errors_view() + t.0, t.1)
        }),
        final(ctx).spec == old(ctx).spec,
        final(ctx).options == old(ctx).options,
{
    let ghost names = crate::common::patterns::views(tags@);
    let ghost im = old(ctx).has_option(Options::IgnoreMissingTags);
    let ghost ie = old(ctx).has_option(Options::IgnoreEmptyExternalDocumentationUrl);
    let ghost ii = old(ctx).has_option(Options::IgnoreInvalidUrls);
    let ghost e0 = ctx.errors_view();
    assert(e0 + Seq::<Seq<char>>::empty() =~= e0);
    let mut i: usize = 0;
    while i < tags.len()
        invariant
            i <= tags.len(),
            names == crate::common::patterns::views(tags@),
            im == ctx.has_option(Options::IgnoreMissingTags),
            ie == ctx.has_option(Options::IgnoreEmptyExternalDocumentationUrl),
            ii == ctx.has_option(Options::IgnoreInvalidUrls),
            ctx.spec == old(ctx).spec,
            ctx.options == old(ctx).options,
            ({
                let t = tags_pass(*old(ctx).spec, old(ctx).visited_set(), path@, names, i as nat, im, ie, ii);
                ctx.errors_view() == e0 + t.0 && ctx.visited_set() == t.1
            }),
        decreases tags.len() - i,
    {
        let tag = &tags[i];
        let mut p = concat(path, ".tags[");
        push_str(&mut p, decimal_string(i).as_str());
        push_str(&mut p, "]");
        let ghost before = ctx.errors_view();
        validate_required_string(ctx, tag.as_str(), p.as_str());
        proof {
            assert(names[i as int] == tag@);
        }
        if !tag.as_str().is_empty() {
            let reference = concat("#/tags/", tag.as_str());
            let spec = ctx.spec;
            match spec.resolve_reference(reference.as_str()) {
                Some(spec_tag) => {
                    if ctx.visit(to_owned(reference.as_str())) {
                        validate_tag(ctx, spec_tag, reference.as_str());
                    }
                },
                None => {
                    if !ctx.is_option(Options::IgnoreMissingTags) {
                        let mut m = concat(".tags[", decimal_string(i).as_str());
                        push_str(&mut m, "]: `");
                        push_str(&mut m, tag.as_str());
                        push_str(&mut m, "` not found in spec");
                        ctx.error(p.as_str(), m.as_str());
                    }
                },
            }
        }
        proof {
            let t = tags_pass(*old(ctx).spec, old(ctx).visited_set(), path@, names, (i + 1) as nat, im, ie, ii);
            assert(ctx.errors_view() =~= e0 + t.0);
            assert(ctx.visited_set() =~= t.1);
        }
        i = i + 1;
    }
}

/// Checks each server of a list found at `<path>.servers[<i>]`.
pub fn validate_servers<S>(ctx: &mut Context<'_, S>, servers: &Vec<Server>, path: &str)
    ensures
        final(ctx).errors_view() == old(ctx).errors_view() + servers_errors(
            path@,
            servers@,
            servers@.len(),
            old(ctx).has_option(Options::IgnoreUnusedServerVariables),
        ),
        final(ctx).visited == old(ctx).visited,
        final(ctx).spec == old(ctx).spec,
        final(ctx).options == old(ctx).options,
{
    let ghost e0 = ctx.errors_view();
    assert(e0 + Seq::<Seq<char>>::empty() =~= e0);
    let mut i: usize = 0;
    while i < servers.len()
        invariant
            i <= servers.len(),
            ctx.errors_view() == e0 + servers_errors(
                path@,
                servers@,
                i as nat,
                old(ctx).has_option(Options::IgnoreUnusedServerVariables),
            ),
            ctx.visited == old(ctx).visited,
            ctx.spec == old(ctx).spec,
            ctx.options == old(ctx).options,
        decreases servers.len() - i,
    {
        let mut p = concat(path, ".servers[");
        push_str(&mut p, decimal_string(i).as_str());
        push_str(&mut p, "]");
        servers[i].validate(ctx, p);
        i = i + 1;
    }
}

/// Checks each code sample of a list found at `<path>.x-codeSamples[<i>]`.
fn validate_samples<S>(ctx: &mut Context<'_, S>, samples: &Vec<CodeSample>, path: &str)
    ensures
        final(ctx).errors_view() == old(ctx).errors_view() + samples_errors(path@, samples@, samples@.len()),
        final(ctx).visited == old(ctx).visited,
        final(ctx).spec == old(ctx).spec,
        final(ctx).options == old(ctx).options,
{
    let ghost e0 = ctx.errors_view();
    assert(e0 + Seq::<Seq<char>>::empty() =~= e0);
    let mut i: usize = 0;
    while i < samples.len()
        invariant
            i <= samples.len(),
            ctx.errors_view() == e0 + samples_errors(path@, samples@, i as nat),
            ctx.visited == old(ctx).visited,
            ctx.spec == old(ctx).spec,
            ctx.options == old(ctx).options,
        decreases samples.len() - i,
    {
        let mut p = concat(path, ".x-codeSamples[");
        push_str(&mut p, decimal_string(i).as_str());
        push_str(&mut p, "]");
        samples[i].validate(ctx, p);
        i = i + 1;
    }
}

/// Checks each badge of a list found at `<path>.x-badges[<i>]`.
fn validate_badges<S>(ctx: &mut Context<'_, S>, badges: &Vec<Badge>, path: &str)
    ensures
        final(ctx).errors_view() == old(ctx).errors_view() + badges_errors(path@, badges@, badges@.len()),
        final(ctx).visited == old(ctx).visited,
        final(ctx).spec == old(ctx).spec,
        final(ctx).options == old(ctx).options,
{
    let ghost e0 = ctx.errors_view();
    assert(e0 + Seq::<Seq<char>>::empty() =~= e0);
    let mut i: usize = 0;
    while i < badges.len()
        invariant
            i <= badges.len(),
            ctx.errors_view() == e0 + badges_errors(path@, badges@, i as nat),
            ctx.visited == old(ctx).visited,
            ctx.spec == old(ctx).spec,
            ctx.options == old(ctx).options,
        decreases badges.len() - i,
    {
        let mut p = concat(path, ".x-badges[");
        push_str(&mut p, decimal_string(i).as_str());
        push_str(&mut p, "]");
        badges[i].validate(ctx, p);
        i = i + 1;
    }
}

/// The tags pass only adds markers.
pub proof fn lemma_tags_pass_grows<S: ResolveReference<Tag>>(
    spec: S,
    visited: Set<Seq<char>>,
    path: Seq<char>,
    tags: Seq<Seq<char>>,
    k: nat,
    ignore_missing: bool,
    ie: bool,
    ii: bool,
)
    ensures
        visited.subset_of(tags_pass(spec, visited, path, tags, k, ignore_missing, ie, ii).1),
    decreases k,
{
    if k > 0 {
        lemma_tags_pass_grows(spec, visited, path, tags, (k - 1) as nat, ignore_missing, ie, ii);
    }
}

/// A copy of `s`.
fn to_owned(s: &str) -> (res: String)
    ensures
        res@ == s@,
{
    crate::common::text::to_owned_string(s)
}

/// The diagnostics of the lists of an operation at `path`: servers, code
/// samples and badges.
pub open spec fn operation_lists_errors(path: Seq<char>, o: Operation, ignore_unused: bool) -> Seq<Seq<char>> {
    opt_servers_errors(path, o.servers, ignore_unused) + opt_samples_errors(path, o.x_code_samples) + opt_badges_errors(
        path,
        o.x_badges,
    )
}

/// Checks the servers, code samples and badges of an operation at `path`.
pub fn validate_operation_lists<S>(ctx: &mut Context<'_, S>, o: &Operation, path: &str)
    ensures
        final(ctx).errors_view() == old(ctx).errors_view() + operation_lists_errors(
            path@,
            *o,
            old(ctx).has_option(Options::IgnoreUnusedServerVariables),
        ),
        final(ctx).visited == old(ctx).visited,
        final(ctx).spec == old(ctx).spec,
        final(ctx).options == old(ctx).options,
{
    let ghost e0 = ctx.errors_view();
    if let Some(servers) = &o.servers {
        validate_servers(ctx, servers, path);
    }
    let ghost e1 = ctx.errors_view();
    assert(e1 =~= e0 + opt_servers_errors(path@, o.servers, old(ctx).has_option(Options::IgnoreUnusedServerVariables)));
    if let Some(samples) = &o.x_code_samples {
        validate_samples(ctx, samples, path);
    }
    let ghost e2 = ctx.errors_view();
    assert(e2 =~= e1 + opt_samples_errors(path@, o.x_code_samples));
    if let Some(badges) = &o.x_badges {
        validate_badges(ctx, badges, path);
    }
    assert(ctx.errors_view() =~= e2 + opt_badges_errors(path@, o.x_badges));
    assert(ctx.errors_view() =~= e0 + operation_lists_errors(
        path@,
        *o,
        old(ctx).has_option(Options::IgnoreUnusedServerVariables),
    ));
}

/// The markers that checking the security requirements of an operation visits.
pub open spec fn opt_security_markers(spec: Spec, sec: Option<Vec<SecurityRequirement>>) -> Set<Seq<char>> {
    match sec {
        None => Set::empty(),
        Some(sec) => requirements_markers(sec@, security_schemes_of(spec)),
    }
}

/// Checks the external documentation and the security requirements of an
/// operation at `path`.
fn validate_operation_tail(ctx: &mut Context<'_, Spec>, o: &Operation, path: &str)
    ensures
        final(ctx).errors_view() == old(ctx).errors_view() + opt_docs_errors(
            path@,
            o.external_docs,
            old(ctx).has_option(Options::IgnoreEmptyExternalDocumentationUrl),
            old(ctx).has_option(Options::IgnoreInvalidUrls),
        ) + opt_security_errors(*old(ctx).spec, path@, o.security),
        final(ctx).visited_set() == old(ctx).visited_set().union(opt_security_markers(*old(ctx).spec, o.security)),
        final(ctx).spec == old(ctx).spec,
        final(ctx).options == old(ctx).options,
{
    let ghost e0 = ctx.errors_view();
    if let Some(docs) = &o.external_docs {
        let p = concat(path, ".externalDocs");
        docs.validate(ctx, p);
    }
    let ghost e1 = ctx.errors_view();
    assert(e1 =~= e0 + opt_docs_errors(
        path@,
        o.external_docs,
        old(ctx).has_option(Options::IgnoreEmptyExternalDocumentationUrl),
        old(ctx).has_option(Options::IgnoreInvalidUrls),
    ));
    if let Some(sec) = &o.security {
        let p = concat(path, ".security");
        validate_security_requirements(ctx, p.as_str(), sec);
    } else {
        assert(ctx.visited_set() =~= old(ctx).visited_set().union(Set::empty()));
    }
    assert(ctx.errors_view() =~= e1 + opt_security_errors(*old(ctx).spec, path@, o.security));
}

/// [`operation_pass`] in its parts: the tags, the parameters, the request body, the lists,
/// the external documentation and the security requirements.
pub proof fn lemma_operation_pass_parts(
    spec: Spec,
    visited: Set<Seq<char>>,
    path: Seq<char>,
    o: Operation,
    options: OptionSet,
)
    ensures
        ({
            let ie = options.has(Options::IgnoreEmptyExternalDocumentationUrl);
            let ii = options.has(Options::IgnoreInvalidUrls);
            let tags = operation_tags(o);
            let t = tags_pass(spec, visited, path, tags, tags.len(), options.has(Options::IgnoreMissingTags), ie, ii);
            let p = opt_parameters_pass(spec, options, t.1, o.parameters, path);
            let b = opt_request_body_pass(spec, options, p.1, o.request_body, path + ".requestBody"@);
            operation_pass(spec, visited, path, o, options) == (
                t.0 + p.0 + b.0 + operation_lists_errors(path, o, options.has(Options::IgnoreUnusedServerVariables))
                    + opt_docs_errors(path, o.external_docs, ie, ii) + opt_security_errors(spec, path, o.security),
                b.1.union(opt_security_markers(spec, o.security)),
            )
        }),
{
    reveal(operation_pass);
}

/// Checks the optional request body (or `$ref`) of an operation at
/// `<path>.requestBody`.
fn validate_opt_request_body(ctx: &mut Context<'_, Spec>, rb: &Option<RefOr<RequestBody>>, path: &str)
    ensures
        walked(
            *old(ctx),
            *final(ctx),
            opt_request_body_pass(*old(ctx).spec, old(ctx).options, old(ctx).visited_set(), *rb, path@ + ".requestBody"@),
        ),
        old(ctx).visited_set().subset_of(final(ctx).visited_set()),
{
    reveal(opt_request_body_pass);
    match rb {
        Some(rb) => {
            let p = concat(path, ".requestBody");
            rb.validate_with_context(ctx, p);
            proof {
                lemma_request_body_ref(
                    *old(ctx).spec,
                    old(ctx).options,
                    old(ctx).visited_set(),
                    old(ctx).errors_view(),
                    *rb,
                    path@ + ".requestBody"@,
                    (ctx.errors_view(), ctx.visited_set()),
                );
            }
        },
        None => {
            assert(ctx.errors_view() =~= old(ctx).errors_view() + Seq::<Seq<char>>::empty());
        },
    }
}

impl Operation {
    /// Checks the operation found at `path` (its `operationId` is checked by
    /// the pass over the paths): its tags, parameters, request body, servers, code samples, badges,
    /// external documentation and security requirements.
    #[verifier::spinoff_prover]
    #[verifier::rlimit(80)]
    pub fn validate(&self, ctx: &mut Context<'_, Spec>, path: String)
        ensures
            ({
                let r = operation_pass(*old(ctx).spec, old(ctx).visited_set(), path@, *self, old(ctx).options);
                final(ctx).errors_view() == old(ctx).errors_view() + r.0 && final(ctx).visited_set() == r.1
            }),
            old(ctx).visited_set().subset_of(final(ctx).visited_set()),
            final(ctx).spec == old(ctx).spec,
            final(ctx).options == old(ctx).options,
    {
        let ghost ie = old(ctx).has_option(Options::IgnoreEmptyExternalDocumentationUrl);
        let ghost ii = old(ctx).has_option(Options::IgnoreInvalidUrls);
        let ghost e0 = ctx.errors_view();
        let ghost tags = operation_tags(*self);
        let ghost t = tags_pass(
            *old(ctx).spec,
            old(ctx).visited_set(),
            path@,
            tags,
            tags.len(),
            old(ctx).has_option(Options::IgnoreMissingTags),
            ie,
            ii,
        );
        match &self.tags {
            Some(tags) => validate_operation_tags(ctx, tags, path.as_str()),
            None => {
                assert(ctx.errors_view() =~= e0 + Seq::<Seq<char>>::empty());
            },
        }
        let ghost e1 = ctx.errors_view();
        assert(e1 == e0 + t.0 && ctx.visited_set() == t.1);
        proof {
            lemma_tags_pass_grows(
                *old(ctx).spec,
                old(ctx).visited_set(),
                path@,
                tags,
                tags.len(),
                old(ctx).has_option(Options::IgnoreMissingTags),
                ie,
                ii,
            );
        }
        let ghost p = opt_parameters_pass(*old(ctx).spec, old(ctx).options, t.1, self.parameters, path@);
        check_opt_parameters(ctx, &self.parameters, path.as_str());
        let ghost e1p = ctx.errors_view();
        assert(e1p == e1 + p.0 && ctx.visited_set() == p.1);
        let ghost b = opt_request_body_pass(*old(ctx).spec, old(ctx).options, p.1, self.request_body, path@ + ".requestBody"@);
        validate_opt_request_body(ctx, &self.request_body, path.as_str());
        let ghost e1b = ctx.errors_view();
        assert(e1b == e1p + b.0 && ctx.visited_set() == b.1);
        assert(old(ctx).visited_set().subset_of(ctx.visited_set()));
        validate_operation_lists(ctx, self, path.as_str());
        let ghost e2 = ctx.errors_view();
        validate_operation_tail(ctx, self, path.as_str());
        proof {
            let spec = *old(ctx).spec;
            let lists = operation_lists_errors(path@, *self, old(ctx).has_option(Options::IgnoreUnusedServerVariables));
            let docs = opt_docs_errors(path@, self.external_docs, ie, ii);
            let sec = opt_security_errors(spec, path@, self.security);
            assert(e2 == e1b + lists);
            assert(ctx.errors_view() == e2 + docs + sec);
            assert(ctx.visited_set() == b.1.union(opt_security_markers(spec, self.security)));
            lemma_operation_pass_parts(spec, old(ctx).visited_set(), path@, *self, old(ctx).options);
            assert(ctx.errors_view() =~= e0 + (t.0 + p.0 + b.0 + lists + docs + sec));
        }
    }
}

impl ValidateWithContext<Spec> for Operation {
    open spec fn checks(
        &self,
        spec: Spec,
        options: OptionSet,
        visited: Set<Seq<char>>,
        errors: Seq<Seq<char>>,
        path: Seq<char>,
        after: (Seq<Seq<char>>, Set<Seq<char>>),
    ) -> bool {
        let r = operation_pass(spec, visited, path, *self, options);
        after == (errors + r.0, r.1)
    }

    fn validate_with_context(&self, ctx: &mut Context<'_, Spec>, path: String)
        ensures
            ({
                let r = operation_pass(*old(ctx).spec, old(ctx).visited_set(), path@, *self, old(ctx).options);
                final(ctx).errors_view() == old(ctx).errors_view() + r.0 && final(ctx).visited_set() == r.1
            }),
            old(ctx).visited_set().subset_of(final(ctx).visited_set()),
            final(ctx).spec == old(ctx).spec,
            final(ctx).options == old(ctx).options,
    {
        self.validate(ctx, path);
    }
}


} // verus!
