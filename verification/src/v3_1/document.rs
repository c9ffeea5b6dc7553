//! Validation of a whole OpenAPI 3.1 document.
use vstd::prelude::*;
use crate::common::context::{error_line, lemma_prefix_trans, walked, Context, OptionSet, Options, ValidateWithContext, ValidationError};
use crate::v3_1::path_item::path_item_pass;
use crate::common::model::{PathItem, Paths};
use crate::common::patterns::views;
use crate::common::text::{concat, is_prefix_of, push_str, starts_with, to_owned_string};
use crate::v3_0::document::{check_operation_ids, check_unused_tags, ids_pass, unused_tags_pass};
use crate::v3_0::operation::opt_docs_errors;
use crate::v3_1::components::components_checks;
use crate::v3_0::info::info_errors;
use crate::v3_0::operation::{opt_servers_errors, validate_servers};
use crate::v3_1::spec::Spec;

verus! {

/// The entries of an optional Paths object.
pub open spec fn paths_entries(p: Option<Paths>) -> Seq<(String, PathItem)> {
    match p {
        None => seq![],
        Some(p) => p.paths@,
    }
}

/// The diagnostics that a pass over the document finds before it checks any
/// path item: the info, the servers, and operation ids used twice.
pub open spec fn document_head_errors(spec: Spec, options: OptionSet) -> Seq<Seq<char>> {
    info_errors(
        "#.info"@,
        spec.info,
        options.has(Options::IgnoreEmptyInfoTitle),
        options.has(Options::IgnoreEmptyInfoVersion),
        options.has(Options::IgnoreInvalidUrls),
    ) + opt_servers_errors("#"@, spec.servers, options.has(Options::IgnoreUnusedServerVariables)) + ids_pass(
        Set::empty(),
        paths_entries(spec.paths),
    ).0
}

/// What a pass over the document reports for its path items and webhooks,
/// which it checks right after the document's head (see
/// [`document_head_errors`]), and the markers it has visited then.
pub open spec fn document_paths_pass(spec: Spec, options: OptionSet) -> (Seq<Seq<char>>, Set<Seq<char>>) {
    let paths = paths_entries(spec.paths);
    let hooks = paths_entries(spec.webhooks);
    let v0 = ids_pass(Set::empty(), paths).1;
    let p = path_items_pass(spec, options, v0, paths, paths.len(), "#.paths"@, true);
    let w = path_items_pass(spec, options, p.1, hooks, hooks.len(), "#.webhooks"@, false);
    (p.0 + w.0, w.1)
}

/// What the document's checks after its components report, with the
/// markers `vis` visited by then: a document that uses none of `paths`,
/// `webhooks` and `components`, the external documentation, then each tag
/// that nothing used.
pub open spec fn document_tail_errors(spec: Spec, options: OptionSet, vis: Set<Seq<char>>) -> Seq<Seq<char>> {
    let ie = options.has(Options::IgnoreEmptyExternalDocumentationUrl);
    let ii = options.has(Options::IgnoreInvalidUrls);
    (if spec.components is None && spec.paths is None && spec.webhooks is None {
        seq![empty_document_line()]
    } else {
        seq![]
    }) + opt_docs_errors("#"@, spec.external_docs, ie, ii) + match spec.tags {
        None => seq![],
        Some(t) => unused_tags_pass(vis, t@, options.has(Options::IgnoreUnusedTags), ie, ii).0,
    }
}

/// What checking the components of the document does to a pass that had
/// visited `vis` and reported `errs` (at the location `{}.components`).
pub open spec fn document_components_checks(
    spec: Spec,
    options: OptionSet,
    vis: Set<Seq<char>>,
    errs: Seq<Seq<char>>,
    after: (Seq<Seq<char>>, Set<Seq<char>>),
) -> bool {
    match spec.components {
        None => after == (errs, vis),
        Some(c) => components_checks(c, spec, options, vis, errs, "{}.components"@, after),
    }
}

/// `errors` is every diagnostic of one pass over the document, in order: the
/// head (info, servers, operation ids), the path items and webhooks, the
/// components, then the document's tail (see [`document_tail_errors`]).
pub open spec fn document_reports(spec: Spec, options: OptionSet, errors: Seq<Seq<char>>) -> bool {
    let pw = document_paths_pass(spec, options);
    exists|s: (Seq<Seq<char>>, Set<Seq<char>>)|
        #[trigger] document_components_checks(spec, options, pw.1, document_head_errors(spec, options) + pw.0, s)
            && errors == s.0 + document_tail_errors(spec, options, s.1)
}

/// The diagnostic of a document that uses none of `paths`, `webhooks` and
/// `components`.
pub open spec fn empty_document_line() -> Seq<char> {
    error_line("#"@, "at least one of `paths`, `webhooks` or `components` must be used"@)
}

/// What checking the first `n` path items of `entries` reports, each found
/// at `<section>[<name>]`; with `rooted`, a name that does not start with `/`
/// is reported first.
pub open spec fn path_items_pass(
    spec: Spec,
    opts: OptionSet,
    vis: Set<Seq<char>>,
    entries: Seq<(String, PathItem)>,
    n: nat,
    section: Seq<char>,
    rooted: bool,
) -> (Seq<Seq<char>>, Set<Seq<char>>)
    decreases n,
{
    if n == 0 || n > entries.len() {
        (seq![], vis)
    } else {
        let (e1, v1) = path_items_pass(spec, opts, vis, entries, (n - 1) as nat, section, rooted);
        let p = section + "["@ + entries[n - 1].0@ + "]"@;
        let e2 = if rooted && !is_prefix_of("/"@, entries[n - 1].0@) {
            seq![error_line(p, "must start with `/`"@)]
        } else {
            seq![]
        };
        let (e3, v3) = path_item_pass(spec, opts, v1, entries[n - 1].1, p);
        (e1 + e2 + e3, v3)
    }
}

/// Checks each path item of `entries`, found at `<section>[<name>]`; with
/// `rooted`, a name that does not start with `/` is reported too.
fn check_path_items(ctx: &mut Context<'_, Spec>, entries: &Vec<(String, PathItem)>, section: &str, rooted: bool)
    ensures
        final(ctx).extends(old(ctx)),
        walked(
            *old(ctx),
            *final(ctx),
            path_items_pass(*old(ctx).spec, old(ctx).options, old(ctx).visited_set(), entries@, entries@.len(), section@, rooted),
        ),
{
    let ghost spec = *old(ctx).spec;
    let ghost opts = old(ctx).options;
    let ghost vis = old(ctx).visited_set();
    let ghost e0 = old(ctx).errors_view();
    assert(e0 =~= e0 + path_items_pass(spec, opts, vis, entries@, 0, section@, rooted).0);
    let mut i: usize = 0;
    while i < entries.len()
        invariant
            i <= entries.len(),
            spec == *old(ctx).spec,
            opts == old(ctx).options,
            vis == old(ctx).visited_set(),
            e0 == old(ctx).errors_view(),
            ctx.extends(old(ctx)),
            walked(*old(ctx), *ctx, path_items_pass(spec, opts, vis, entries@, i as nat, section@, rooted)),
        decreases entries.len() - i,
    {
        let (name, item) = &entries[i];
        let mut path = concat(section, "[");
        push_str(&mut path, name.as_str());
        push_str(&mut path, "]");
        let ghost c0 = *ctx;
        if rooted && !starts_with(name.as_str(), "/") {
            ctx.error(path.as_str(), "must start with `/`");
        }
        let ghost c1 = *ctx;
        item.validate_with_context(ctx, path);
        proof {
            crate::v3_1::components::lemma_extends_trans(c0, c1, *ctx);
            crate::v3_1::components::lemma_extends_trans(*old(ctx), c0, *ctx);
            assert(ctx.errors_view() =~= e0 + path_items_pass(spec, opts, vis, entries@, (i + 1) as nat, section@, rooted).0);
        }
        i = i + 1;
    }
}

/// Checks the document's head (the info, the servers, operation ids used
/// twice), then its path items and webhooks, on a fresh pass.
#[verifier::spinoff_prover]
#[verifier::rlimit(60)]
fn check_document_front(ctx: &mut Context<'_, Spec>)
    requires
        old(ctx).visited_set() == Set::<Seq<char>>::empty(),
    ensures
        final(ctx).extends(old(ctx)),
        final(ctx).errors_view() == old(ctx).errors_view() + document_head_errors(*old(ctx).spec, old(ctx).options)
            + document_paths_pass(*old(ctx).spec, old(ctx).options).0,
        final(ctx).visited_set() == document_paths_pass(*old(ctx).spec, old(ctx).options).1,
{
    let spec: &Spec = ctx.spec;
    let ghost options = ctx.options;
    let ghost e0 = ctx.errors_view();
    spec.info.validate(ctx, to_owned_string("#.info"));
    if let Some(servers) = &spec.servers {
        validate_servers(ctx, servers, "#");
    }
    if let Some(paths) = &spec.paths {
        check_operation_ids(ctx, &paths.paths);
    } else {
        assert(ctx.errors_view() =~= ctx.errors_view() + Seq::<Seq<char>>::empty());
    }
    let ghost head = ctx.errors_view();
    assert(head =~= e0 + document_head_errors(*spec, options));
    let ghost c0 = *ctx;
    if let Some(paths) = &spec.paths {
        check_path_items(ctx, &paths.paths, "#.paths", true);
    }
    let ghost c1 = *ctx;
    if let Some(hooks) = &spec.webhooks {
        check_path_items(ctx, &hooks.paths, "#.webhooks", false);
    }
    proof {
        let paths = paths_entries(spec.paths);
        let hooks = paths_entries(spec.webhooks);
        let v0 = ids_pass(Set::empty(), paths).1;
        let pp = path_items_pass(*spec, options, v0, paths, paths.len(), "#.paths"@, true);
        assert(c0.visited_set() == v0);
        assert(c1.errors_view() =~= head + pp.0);
        assert(c1.visited_set() == pp.1);
        assert(ctx.errors_view() =~= e0 + document_head_errors(*spec, options) + document_paths_pass(*spec, options).0);
        crate::v3_1::components::lemma_extends_trans(*old(ctx), c0, c1);
        crate::v3_1::components::lemma_extends_trans(*old(ctx), c1, *ctx);
    }
}

/// Checks the document's components, if any, at `{}.components`.
fn check_document_components(ctx: &mut Context<'_, Spec>)
    ensures
        final(ctx).extends(old(ctx)),
        document_components_checks(
            *old(ctx).spec,
            old(ctx).options,
            old(ctx).visited_set(),
            old(ctx).errors_view(),
            (final(ctx).errors_view(), final(ctx).visited_set()),
        ),
{
    let spec: &Spec = ctx.spec;
    if let Some(components) = &spec.components {
        components.validate(ctx, to_owned_string("{}.components"));
    }
}

/// Checks the document's tail (see [`document_tail_errors`]).
fn check_document_tail(ctx: &mut Context<'_, Spec>)
    ensures
        final(ctx).extends(old(ctx)),
        final(ctx).errors_view() == old(ctx).errors_view() + document_tail_errors(
            *old(ctx).spec,
            old(ctx).options,
            old(ctx).visited_set(),
        ),
{
    let spec: &Spec = ctx.spec;
    let ghost options = ctx.options;
    let ghost e0 = ctx.errors_view();
    if spec.components.is_none() && spec.paths.is_none() && spec.webhooks.is_none() {
        ctx.error("#", "at least one of `paths`, `webhooks` or `components` must be used");
    }
    let ghost e1 = ctx.errors_view();
    if let Some(docs) = &spec.external_docs {
        let p = concat("#", ".externalDocs");
        docs.validate(ctx, p);
    }
    let ghost c2 = *ctx;
    assert(c2.visited_set() == old(ctx).visited_set());
    if let Some(tags) = &spec.tags {
        check_unused_tags(ctx, tags);
        proof {
            crate::v3_0::document::lemma_unused_tags_grows(
                c2.visited_set(),
                tags@,
                c2.has_option(Options::IgnoreUnusedTags),
                c2.has_option(Options::IgnoreEmptyExternalDocumentationUrl),
                c2.has_option(Options::IgnoreInvalidUrls),
            );
        }
    }
    assert(ctx.errors_view() =~= e0 + document_tail_errors(*spec, options, old(ctx).visited_set()));
    assert(e0.is_prefix_of(ctx.errors_view())) by {
        assert(ctx.errors_view().subrange(0, e0.len() as int) =~= e0);
    }
}

impl Spec {
    /// Validates the whole document under the switches `options`: the info,
    /// the servers, operation ids used twice, each path (which must start with
    /// `/`) and webhook, the components, that at least one of `paths`,
    /// `webhooks` and `components` is used, the external documentation and
    /// unused tags. Succeeds when the pass finds nothing, and otherwise
    /// answers every diagnostic it found, in order.
    pub fn validate(&self, options: OptionSet) -> (res: Result<(), ValidationError>)
        ensures
            match res {
                Ok(_) => document_reports(*self, options, Seq::<Seq<char>>::empty()) && document_head_errors(
                    *self,
                    options,
                ).len() == 0 && document_paths_pass(*self, options).0.len() == 0 && !(self.components is None
                    && self.paths is None && self.webhooks is None),
                Err(e) => {
                    &&& e.errors@.len() > 0
                    &&& document_reports(*self, options, views(e.errors@))
                    &&& (document_head_errors(*self, options) + document_paths_pass(*self, options).0).is_prefix_of(
                        views(e.errors@),
                    )
                    &&& (self.components is None && self.paths is None && self.webhooks is None) ==> views(
                        e.errors@,
                    ).contains(empty_document_line())
                },
            },
    {
        let mut ctx = Context::new(self, options);
        check_document_front(&mut ctx);
        let ghost c2 = ctx;
        check_document_components(&mut ctx);
        let ghost c3 = ctx;
        check_document_tail(&mut ctx);
        proof {
            let pw = document_paths_pass(*self, options);
            let s3 = (c3.errors_view(), c3.visited_set());
            assert(c2.errors_view() =~= document_head_errors(*self, options) + pw.0);
            assert(document_components_checks(*self, options, pw.1, document_head_errors(*self, options) + pw.0, s3));
            assert(ctx.errors_view() == s3.0 + document_tail_errors(*self, options, s3.1));
            assert(c3.errors_view().is_prefix_of(ctx.errors_view())) by {
                assert(ctx.errors_view().subrange(0, c3.errors_view().len() as int) =~= c3.errors_view());
            }
            lemma_prefix_trans(c2.errors_view(), c3.errors_view(), ctx.errors_view());
            if self.components is None && self.paths is None && self.webhooks is None {
                assert(ctx.errors_view()[c3.errors_view().len() as int] == empty_document_line());
            }
        }
        ctx.into_result()
    }
}

} // verus!
