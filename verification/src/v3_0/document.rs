//! Validation of a whole OpenAPI 3.0 document.
use vstd::prelude::*;
use crate::common::context::{error_line, lemma_prefix_trans, Context, OptionSet, Options, ValidationError};
use crate::v3_0::components::components_checks;
use crate::common::model::{Operation, PathItem, Tag};
use crate::common::parameters::{opt_vec, path_item_operation_errors};
use crate::common::patterns::views;
use crate::common::text::{concat, decimal, decimal_string, is_prefix_of, push_str, starts_with, to_owned_string};
use crate::common::uniqueness::{duplicate_tag_errors, entry_keys, equivalent_templates_errors, tag_names};
use crate::v3_0::info::info_errors;
use crate::v3_0::operation::{
    opt_docs_errors, opt_security_errors, opt_security_markers, opt_servers_errors, validate_servers,
};
use crate::v3_0::path_item::{path_item_pass, validate_path_item_objects};
use crate::v3_0::spec::Spec;
use crate::v3_0::tag::{tag_errors, tag_group_errors, validate_tag, TagGroup};
use crate::v3_0::validation::{
    parameters_of, validate_path_item, validate_path_template_uniqueness, validate_security_requirements,
    validate_tag_uniqueness,
};

verus! {

/// The diagnostics of the operation ids of the operations `ops` of the path
/// `name`, and the markers visited afterwards: an id met before is reported.
pub open spec fn op_ids_pass(visited: Set<Seq<char>>, name: Seq<char>, ops: Seq<(String, Operation)>) -> (Seq<Seq<char>>, Set<Seq<char>>)
    decreases ops.len(),
{
    if ops.len() == 0 {
        (seq![], visited)
    } else {
        let p = op_ids_pass(visited, name, ops.drop_last());
        let method = ops.last().0@;
        match ops.last().1.operation_id {
            None => p,
            Some(id) => {
                let m = "#/paths/operations/"@ + id@;
                if p.1.contains(m) {
                    (
                        p.0 + seq![
                            error_line(
                                "#"@,
                                ".paths["@ + name + "]."@ + method + ".operationId: `"@ + id@ + "` already in use"@,
                            ),
                        ],
                        p.1,
                    )
                } else {
                    (p.0, p.1.insert(m))
                }
            },
        }
    }
}

/// The diagnostics of the operation ids of all the paths, and the markers
/// visited afterwards.
pub open spec fn ids_pass(visited: Set<Seq<char>>, paths: Seq<(String, PathItem)>) -> (Seq<Seq<char>>, Set<Seq<char>>)
    decreases paths.len(),
{
    if paths.len() == 0 {
        (seq![], visited)
    } else {
        let p = ids_pass(visited, paths.drop_last());
        let r = op_ids_pass(p.1, paths.last().0@, opt_vec(paths.last().1.operations));
        (p.0 + r.0, r.1)
    }
}

/// What checking each path item of `paths` reports (a path must start with
/// `/`; the path item itself; the parameter rules of its operations), and the
/// markers visited afterwards.
pub open spec fn paths_pass(spec: Spec, visited: Set<Seq<char>>, paths: Seq<(String, PathItem)>, options: OptionSet) -> (Seq<Seq<char>>, Set<Seq<char>>)
    decreases paths.len(),
{
    if paths.len() == 0 {
        (seq![], visited)
    } else {
        let p = paths_pass(spec, visited, paths.drop_last(), options);
        let name = paths.last().0@;
        let item = paths.last().1;
        let path = "#.paths["@ + name + "]"@;
        let start = if is_prefix_of("/"@, name) {
            seq![]
        } else {
            seq![error_line(path, "must start with `/`"@)]
        };
        let r = path_item_pass(spec, p.1, path, item, options);
        (
            p.0 + start + r.0 + path_item_operation_errors(
                options.has(Options::IgnoreExternalReferences),
                parameters_of(spec),
                name,
                path,
                opt_vec(item.parameters),
                opt_vec(item.operations),
            ),
            r.1,
        )
    }
}

/// What checking the declared tags reports: each tag that nothing visited is
/// unused (unless `ignore`) and is then checked, at `#/tags/<name>`.
pub open spec fn unused_tags_pass(visited: Set<Seq<char>>, tags: Seq<Tag>, ignore: bool, ie: bool, ii: bool) -> (Seq<Seq<char>>, Set<Seq<char>>)
    decreases tags.len(),
{
    if tags.len() == 0 {
        (seq![], visited)
    } else {
        let p = unused_tags_pass(visited, tags.drop_last(), ignore, ie, ii);
        let t = tags.last();
        let path = "#/tags/"@ + t.name@;
        if p.1.contains(path) {
            p
        } else {
            (
                p.0 + (if ignore { seq![] } else { seq![error_line(path, "unused"@)] }) + tag_errors(path, t, ie, ii),
                p.1.insert(path),
            )
        }
    }
}

/// The diagnostics of the first `k` tag groups.
pub open spec fn groups_errors(groups: Seq<TagGroup>, k: nat) -> Seq<Seq<char>>
    decreases k,
{
    if k == 0 {
        seq![]
    } else {
        groups_errors(groups, (k - 1) as nat) + tag_group_errors(
            "#.x-tagGroups["@ + decimal((k - 1) as nat) + "]"@,
            groups[k - 1],
        )
    }
}

/// The diagnostics that a pass over the document `spec` finds before it
/// checks the components, in order: the info, the servers, operation ids used
/// twice, the top-level security requirements, equivalent path templates and
/// each path.
pub open spec fn document_front_errors(spec: Spec, options: OptionSet) -> Seq<Seq<char>> {
    let paths = spec.paths.paths@;
    let ids = ids_pass(Set::empty(), paths);
    let after_sec = ids.1.union(opt_security_markers(spec, spec.security));
    info_errors(
        "#.info"@,
        spec.info,
        options.has(Options::IgnoreEmptyInfoTitle),
        options.has(Options::IgnoreEmptyInfoVersion),
        options.has(Options::IgnoreInvalidUrls),
    ) + opt_servers_errors("#"@, spec.servers, options.has(Options::IgnoreUnusedServerVariables)) + ids.0
        + opt_security_errors(spec, "#"@, spec.security) + equivalent_templates_errors(
        "#.paths"@,
        entry_keys(paths),
        paths.len(),
    ) + paths_pass(spec, after_sec, paths, options).0
}

/// The markers that a pass over the document `spec` has visited once it has
/// checked the paths.
pub open spec fn document_front_markers(spec: Spec, options: OptionSet) -> Set<Seq<char>> {
    let paths = spec.paths.paths@;
    let ids = ids_pass(Set::empty(), paths);
    paths_pass(spec, ids.1.union(opt_security_markers(spec, spec.security)), paths, options).1
}

/// What the document's checks after its components report, with the markers
/// `vis` visited by then: the external documentation, the tag groups,
/// duplicate tag names and each tag that nothing used.
pub open spec fn document_tail_errors(spec: Spec, options: OptionSet, vis: Set<Seq<char>>) -> Seq<Seq<char>> {
    let ie = options.has(Options::IgnoreEmptyExternalDocumentationUrl);
    let ii = options.has(Options::IgnoreInvalidUrls);
    opt_docs_errors("#"@, spec.external_docs, ie, ii) + match spec.x_tag_groups {
        None => seq![],
        Some(g) => groups_errors(g@, g@.len()),
    } + match spec.tags {
        None => seq![],
        Some(t) => duplicate_tag_errors(tag_names(t@), t@.len()) + unused_tags_pass(
            vis,
            t@,
            options.has(Options::IgnoreUnusedTags),
            ie,
            ii,
        ).0,
    }
}

/// What checking the components of the document does to a pass that had
/// visited `vis` and reported `errs` (at the location `#.components`).
pub open spec fn document_components_checks(
    spec: Spec,
    options: OptionSet,
    vis: Set<Seq<char>>,
    errs: Seq<Seq<char>>,
    after: (Seq<Seq<char>>, Set<Seq<char>>),
) -> bool {
    match spec.components {
        None => after == (errs, vis),
        Some(c) => components_checks(c, spec, options, vis, errs, "#.components"@, after),
    }
}

/// `errors` is every diagnostic of one pass over the document `spec` under
/// the switches `options`, in order: the front (see
/// [`document_front_errors`]), the components, then the tail (see
/// [`document_tail_errors`]).
pub open spec fn document_reports(spec: Spec, options: OptionSet, errors: Seq<Seq<char>>) -> bool {
    exists|s: (Seq<Seq<char>>, Set<Seq<char>>)|
        #[trigger] document_components_checks(
            spec,
            options,
            document_front_markers(spec, options),
            document_front_errors(spec, options),
            s,
        ) && errors == s.0 + document_tail_errors(spec, options, s.1)
}

/// Records each operation id of the document, reporting the ones used twice.
pub fn check_operation_ids<S>(ctx: &mut Context<'_, S>, paths: &Vec<(String, PathItem)>)
    ensures
        ({
            let r = ids_pass(old(ctx).visited_set(), paths@);
            final(ctx).errors_view() == old(ctx).errors_view() + r.0 && final(ctx).visited_set() == r.1
        }),
        final(ctx).spec == old(ctx).spec,
        final(ctx).options == old(ctx).options,
{
    let ghost e0 = ctx.errors_view();
    let ghost v0 = ctx.visited_set();
    assert(paths@.take(0) =~= Seq::<(String, PathItem)>::empty());
    assert(e0 + Seq::<Seq<char>>::empty() =~= e0);
    let mut i: usize = 0;
    while i < paths.len()
        invariant
            i <= paths.len(),
            ctx.spec == old(ctx).spec,
            ctx.options == old(ctx).options,
            ({
                let r = ids_pass(v0, paths@.take(i as int));
                ctx.errors_view() == e0 + r.0 && ctx.visited_set() == r.1
            }),
        decreases paths.len() - i,
    {
        let (name, item) = &paths[i];
        let ghost e1 = ctx.errors_view();
        let ghost v1 = ctx.visited_set();
        if let Some(ops) = &item.operations {
            let mut k: usize = 0;
            assert(ops@.take(0) =~= Seq::<(String, Operation)>::empty());
            assert(e1 + Seq::<Seq<char>>::empty() =~= e1);
            while k < ops.len()
                invariant
                    k <= ops.len(),
                    ctx.spec == old(ctx).spec,
                    ctx.options == old(ctx).options,
                    ({
                        let r = op_ids_pass(v1, name@, ops@.take(k as int));
                        ctx.errors_view() == e1 + r.0 && ctx.visited_set() == r.1
                    }),
                decreases ops.len() - k,
            {
                let (method, op) = &ops[k];
                if let Some(id) = &op.operation_id {
                    let m = concat("#/paths/operations/", id.as_str());
                    if !ctx.visit(m) {
                        let mut msg = concat(".paths[", name.as_str());
                        push_str(&mut msg, "].");
                        push_str(&mut msg, method.as_str());
                        push_str(&mut msg, ".operationId: `");
                        push_str(&mut msg, id.as_str());
                        push_str(&mut msg, "` already in use");
                        ctx.error("#", msg.as_str());
                    }
                }
                proof {
                    assert(ops@.take(k + 1).drop_last() =~= ops@.take(k as int));
                    let r = op_ids_pass(v1, name@, ops@.take(k + 1));
                    assert(ctx.errors_view() =~= e1 + r.0);
                    assert(ctx.visited_set() =~= r.1);
                }
                k = k + 1;
            }
            assert(ops@.take(ops.len() as int) =~= ops@);
        } else {
            assert(ctx.errors_view() =~= e1 + Seq::<Seq<char>>::empty());
        }
        proof {
            assert(paths@.take(i + 1).drop_last() =~= paths@.take(i as int));
            let r = ids_pass(v0, paths@.take(i + 1));
            assert(ctx.errors_view() =~= e0 + r.0);
        }
        i = i + 1;
    }
    assert(paths@.take(paths.len() as int) =~= paths@);
}

/// Checks each path of the document.
fn check_paths(ctx: &mut Context<'_, Spec>, paths: &Vec<(String, PathItem)>)
    ensures
        ({
            let r = paths_pass(*old(ctx).spec, old(ctx).visited_set(), paths@, old(ctx).options);
            final(ctx).errors_view() == old(ctx).errors_view() + r.0 && final(ctx).visited_set() == r.1
        }),
        final(ctx).spec == old(ctx).spec,
        final(ctx).options == old(ctx).options,
{
    let ghost e0 = ctx.errors_view();
    let ghost v0 = ctx.visited_set();
    assert(paths@.take(0) =~= Seq::<(String, PathItem)>::empty());
    assert(e0 + Seq::<Seq<char>>::empty() =~= e0);
    let mut i: usize = 0;
    while i < paths.len()
        invariant
            i <= paths.len(),
            ctx.spec == old(ctx).spec,
            ctx.options == old(ctx).options,
            ({
                let r = paths_pass(*old(ctx).spec, v0, paths@.take(i as int), old(ctx).options);
                ctx.errors_view() == e0 + r.0 && ctx.visited_set() == r.1
            }),
        decreases paths.len() - i,
    {
        let (name, item) = &paths[i];
        let mut path = concat("#.paths[", name.as_str());
        push_str(&mut path, "]");
        if !starts_with(name.as_str(), "/") {
            ctx.error(path.as_str(), "must start with `/`");
        }
        validate_path_item_objects(ctx, item, path.as_str());
        validate_path_item(ctx, name.as_str(), path.as_str(), item);
        proof {
            assert(paths@.take(i + 1).drop_last() =~= paths@.take(i as int));
            let r = paths_pass(*old(ctx).spec, v0, paths@.take(i + 1), old(ctx).options);
            assert(ctx.errors_view() =~= e0 + r.0);
        }
        i = i + 1;
    }
    assert(paths@.take(paths.len() as int) =~= paths@);
}

/// Checks the declared tags: each one nothing visited is unused (unless
/// `IgnoreUnusedTags`) and is then checked.
pub fn check_unused_tags<S>(ctx: &mut Context<'_, S>, tags: &Vec<Tag>)
    ensures
        ({
            let r = unused_tags_pass(
                old(ctx).visited_set(),
                tags@,
                old(ctx).has_option(Options::IgnoreUnusedTags),
                old(ctx).has_option(Options::IgnoreEmptyExternalDocumentationUrl),
                old(ctx).has_option(Options::IgnoreInvalidUrls),
            );
            final(ctx).errors_view() == old(ctx).errors_view() + r.0 && final(ctx).visited_set() == r.1
        }),
        final(ctx).spec == old(ctx).spec,
        final(ctx).options == old(ctx).options,
{
    let ghost e0 = ctx.errors_view();
    let ghost v0 = ctx.visited_set();
    let ghost ig = old(ctx).has_option(Options::IgnoreUnusedTags);
    let ghost ie = old(ctx).has_option(Options::IgnoreEmptyExternalDocumentationUrl);
    let ghost ii = old(ctx).has_option(Options::IgnoreInvalidUrls);
    assert(tags@.take(0) =~= Seq::<Tag>::empty());
    assert(e0 + Seq::<Seq<char>>::empty() =~= e0);
    let mut i: usize = 0;
    while i < tags.len()
        invariant
            i <= tags.len(),
            ctx.spec == old(ctx).spec,
            ctx.options == old(ctx).options,
            ig == ctx.has_option(Options::IgnoreUnusedTags),
            ie == ctx.has_option(Options::IgnoreEmptyExternalDocumentationUrl),
            ii == ctx.has_option(Options::IgnoreInvalidUrls),
            ({
                let r = unused_tags_pass(v0, tags@.take(i as int), ig, ie, ii);
                ctx.errors_view() == e0 + r.0 && ctx.visited_set() == r.1
            }),
        decreases tags.len() - i,
    {
        let tag = &tags[i];
        let path = concat("#/tags/", tag.name.as_str());
        if ctx.visit(crate::common::text::to_owned_string(path.as_str())) {
            if !ctx.is_option(Options::IgnoreUnusedTags) {
                ctx.error(path.as_str(), "unused");
            }
            validate_tag(ctx, tag, path.as_str());
        }
        proof {
            assert(tags@.take(i + 1).drop_last() =~= tags@.take(i as int));
            let r = unused_tags_pass(v0, tags@.take(i + 1), ig, ie, ii);
            assert(ctx.errors_view() =~= e0 + r.0);
            assert(ctx.visited_set() =~= r.1);
        }
        i = i + 1;
    }
    assert(tags@.take(tags.len() as int) =~= tags@);
}

/// Checks the tag groups of the document.
fn check_tag_groups(ctx: &mut Context<'_, Spec>, groups: &Vec<TagGroup>)
    ensures
        final(ctx).errors_view() == old(ctx).errors_view() + groups_errors(groups@, groups@.len()),
        final(ctx).visited == old(ctx).visited,
        final(ctx).spec == old(ctx).spec,
        final(ctx).options == old(ctx).options,
{
    let ghost e0 = ctx.errors_view();
    assert(e0 + Seq::<Seq<char>>::empty() =~= e0);
    let mut i: usize = 0;
    while i < groups.len()
        invariant
            i <= groups.len(),
            ctx.errors_view() == e0 + groups_errors(groups@, i as nat),
            ctx.visited == old(ctx).visited,
            ctx.spec == old(ctx).spec,
            ctx.options == old(ctx).options,
        decreases groups.len() - i,
    {
        let mut p = concat("#.x-tagGroups[", decimal_string(i).as_str());
        push_str(&mut p, "]");
        groups[i].validate(ctx, p);
        i = i + 1;
    }
}


/// The first part of a pass: info, servers, operation ids, security,
/// equivalent templates and the paths.
#[verifier::spinoff_prover]
fn check_document_head(ctx: &mut Context<'_, Spec>)
    requires
        old(ctx).visited_set() == Set::<Seq<char>>::empty(),
    ensures
        ({
            let spec = *old(ctx).spec;
            let options = old(ctx).options;
            let paths = spec.paths.paths@;
            let ids = ids_pass(Set::empty(), paths);
            let after_sec = ids.1.union(opt_security_markers(spec, spec.security));
            let ps = paths_pass(spec, after_sec, paths, options);
            &&& final(ctx).errors_view() == old(ctx).errors_view() + (info_errors(
                "#.info"@,
                spec.info,
                options.has(Options::IgnoreEmptyInfoTitle),
                options.has(Options::IgnoreEmptyInfoVersion),
                options.has(Options::IgnoreInvalidUrls),
            ) + opt_servers_errors("#"@, spec.servers, options.has(Options::IgnoreUnusedServerVariables))) + ids.0
                + opt_security_errors(spec, "#"@, spec.security) + equivalent_templates_errors(
                "#.paths"@,
                entry_keys(paths),
                paths.len(),
            ) + ps.0
            &&& final(ctx).visited_set() == ps.1
        }),
        final(ctx).spec == old(ctx).spec,
        final(ctx).options == old(ctx).options,
{
    let spec = ctx.spec;
    let ghost e0 = ctx.errors_view();
    spec.info.validate(ctx, crate::common::text::to_owned_string("#.info"));
    if let Some(servers) = &spec.servers {
        validate_servers(ctx, servers, "#");
    }
    let ghost e1 = ctx.errors_view();
    assert(e1 =~= e0 + (info_errors(
        "#.info"@,
        spec.info,
        old(ctx).has_option(Options::IgnoreEmptyInfoTitle),
        old(ctx).has_option(Options::IgnoreEmptyInfoVersion),
        old(ctx).has_option(Options::IgnoreInvalidUrls),
    ) + opt_servers_errors("#"@, spec.servers, old(ctx).has_option(Options::IgnoreUnusedServerVariables))));
    check_operation_ids(ctx, &spec.paths.paths);
    let ghost e2 = ctx.errors_view();
    let ghost v2 = ctx.visited_set();
    if let Some(sec) = &spec.security {
        let p = concat("#", ".security");
        validate_security_requirements(ctx, p.as_str(), sec);
    } else {
        assert(ctx.visited_set() =~= v2.union(Set::empty()));
    }
    let ghost e3 = ctx.errors_view();
    assert(e3 =~= e2 + opt_security_errors(*spec, "#"@, spec.security));
    validate_path_template_uniqueness(ctx, &spec.paths.paths);
    let ghost e4 = ctx.errors_view();
    check_paths(ctx, &spec.paths.paths);
    let ghost e5 = ctx.errors_view();
    proof {
        let options = old(ctx).options;
        let paths = spec.paths.paths@;
        let a = info_errors(
            "#.info"@,
            spec.info,
            options.has(Options::IgnoreEmptyInfoTitle),
            options.has(Options::IgnoreEmptyInfoVersion),
            options.has(Options::IgnoreInvalidUrls),
        ) + opt_servers_errors("#"@, spec.servers, options.has(Options::IgnoreUnusedServerVariables));
        let ids = ids_pass(Set::empty(), paths);
        let c = opt_security_errors(*spec, "#"@, spec.security);
        let d = equivalent_templates_errors("#.paths"@, entry_keys(paths), paths.len());
        let after_sec = ids.1.union(opt_security_markers(*spec, spec.security));
        let ps = paths_pass(*spec, after_sec, paths, options);
        assert(e1 == e0 + a);
        assert(e2 == e1 + ids.0);
        assert(e3 == e2 + c);
        assert(e4 == e3 + d);
        assert(e5 == e4 + ps.0);
        assert(e5 =~= e0 + a + ids.0 + c + d + ps.0);
    }
}


impl Spec {
    /// Validates the whole document under the switches `options`: the info,
    /// the servers, operation ids used twice, the top-level security
    /// requirements, equivalent path templates, each path, the components,
    /// the external documentation, the tag groups, duplicate tag names and
    /// unused tags. Succeeds when the pass finds nothing, and otherwise
    /// answers every diagnostic it found, in order (see [`document_reports`]).
    #[verifier::spinoff_prover]
    #[verifier::rlimit(60)]
    pub fn validate(&self, options: OptionSet) -> (res: Result<(), ValidationError>)
        ensures
            match res {
                Ok(_) => document_reports(*self, options, Seq::<Seq<char>>::empty())
                    && document_front_errors(*self, options).len() == 0,
                Err(e) => {
                    &&& e.errors@.len() > 0
                    &&& document_reports(*self, options, views(e.errors@))
                    &&& document_front_errors(*self, options).is_prefix_of(views(e.errors@))
                },
            },
    {
        let mut ctx = Context::new(self, options);
        let ghost e0 = ctx.errors_view();
        check_document_head(&mut ctx);
        let ghost c1 = ctx;
        proof {
            assert(c1.errors_view() =~= document_front_errors(*self, options));
        }
        if let Some(components) = &self.components {
            components.validate(&mut ctx, to_owned_string("#.components"));
        }
        let ghost c2 = ctx;
        proof {
            let s2 = (c2.errors_view(), c2.visited_set());
            assert(document_components_checks(
                *self,
                options,
                document_front_markers(*self, options),
                document_front_errors(*self, options),
                s2,
            ));
            assert(c1.errors_view().is_prefix_of(c2.errors_view()));
        }
        if let Some(docs) = &self.external_docs {
            let p = concat("#", ".externalDocs");
            docs.validate(&mut ctx, p);
        }
        if let Some(groups) = &self.x_tag_groups {
            check_tag_groups(&mut ctx, groups);
        }
        if let Some(tags) = &self.tags {
            validate_tag_uniqueness(&mut ctx, tags);
            check_unused_tags(&mut ctx, tags);
        }
        proof {
            let s2 = (c2.errors_view(), c2.visited_set());
            assert(ctx.errors_view() =~= s2.0 + document_tail_errors(*self, options, s2.1));
            assert(c2.errors_view().is_prefix_of(ctx.errors_view())) by {
                assert(ctx.errors_view().subrange(0, c2.errors_view().len() as int) =~= c2.errors_view());
            }
            lemma_prefix_trans(c1.errors_view(), c2.errors_view(), ctx.errors_view());
        }
        ctx.into_result()
    }
}


/// Checking the declared tags only adds markers.
pub proof fn lemma_unused_tags_grows(visited: Set<Seq<char>>, tags: Seq<Tag>, ignore: bool, ie: bool, ii: bool)
    ensures
        visited.subset_of(unused_tags_pass(visited, tags, ignore, ie, ii).1),
    decreases tags.len(),
{
    if tags.len() > 0 {
        lemma_unused_tags_grows(visited, tags.drop_last(), ignore, ie, ii);
    }
}

/// The operation ids of the operations `ops`, in order.
pub open spec fn op_ids(ops: Seq<(String, Operation)>) -> Seq<Seq<char>>
    decreases ops.len(),
{
    if ops.len() == 0 {
        seq![]
    } else {
        op_ids(ops.drop_last()) + match ops.last().1.operation_id {
            Some(id) => seq![id@],
            None => seq![],
        }
    }
}

/// The operation ids of all the operations of the paths, in order.
pub open spec fn path_op_ids(paths: Seq<(String, PathItem)>) -> Seq<Seq<char>>
    decreases paths.len(),
{
    if paths.len() == 0 {
        seq![]
    } else {
        path_op_ids(paths.drop_last()) + op_ids(opt_vec(paths.last().1.operations))
    }
}

/// The marker that a pass visits for the operation id `id`.
pub open spec fn id_marker(id: Seq<char>) -> Seq<char> {
    "#/paths/operations/"@ + id
}

/// The markers of the ids `ids`.
pub open spec fn id_markers(ids: Seq<Seq<char>>) -> Set<Seq<char>> {
    Set::new(|m: Seq<char>| exists|i: int| 0 <= i < ids.len() && m == id_marker(ids[i]))
}

/// No id occurs twice in `ids`, and none has its marker in `visited`.
pub open spec fn fresh_ids(visited: Set<Seq<char>>, ids: Seq<Seq<char>>) -> bool {
    &&& forall|i: int, j: int| 0 <= i < j < ids.len() ==> ids[i] != ids[j]
    &&& forall|i: int| 0 <= i < ids.len() ==> !visited.contains(#[trigger] id_marker(ids[i]))
}

proof fn lemma_marker_injective(a: Seq<char>, b: Seq<char>)
    requires
        id_marker(a) == id_marker(b),
    ensures
        a == b,
{
    let n = "#/paths/operations/"@.len() as int;
    assert(id_marker(a).skip(n) =~= a);
    assert(id_marker(b).skip(n) =~= b);
}

proof fn lemma_markers_push(ids: Seq<Seq<char>>, id: Seq<char>)
    ensures
        id_markers(ids.push(id)) == id_markers(ids).insert(id_marker(id)),
{
    let l = ids.push(id);
    assert forall|m: Seq<char>| id_markers(l).contains(m) <==> id_markers(ids).insert(id_marker(id)).contains(m) by {
        if id_markers(l).contains(m) {
            let i = choose|i: int| 0 <= i < l.len() && m == id_marker(l[i]);
            if i < ids.len() {
                assert(l[i] == ids[i]);
                assert(id_markers(ids).contains(m));
            }
        }
        if id_markers(ids).contains(m) {
            let i = choose|i: int| 0 <= i < ids.len() && m == id_marker(ids[i]);
            assert(l[i] == ids[i]);
        }
        if m == id_marker(id) {
            assert(l[ids.len() as int] == id);
        }
    };
    assert(id_markers(l) =~= id_markers(ids).insert(id_marker(id)));
}

proof fn lemma_op_ids_pass(visited: Set<Seq<char>>, name: Seq<char>, ops: Seq<(String, Operation)>)
    ensures
        op_ids_pass(visited, name, ops).1 == visited.union(id_markers(op_ids(ops))),
        op_ids_pass(visited, name, ops).0.len() == 0 <==> fresh_ids(visited, op_ids(ops)),
    decreases ops.len(),
{
    if ops.len() == 0 {
        assert(id_markers(op_ids(ops)) =~= Set::empty());
        assert(visited.union(Set::empty()) =~= visited);
    } else {
        let init = ops.drop_last();
        lemma_op_ids_pass(visited, name, init);
        let p = op_ids_pass(visited, name, init);
        let prev = op_ids(init);
        match ops.last().1.operation_id {
            None => {
                assert(op_ids(ops) =~= prev);
            },
            Some(id) => {
                let ids = op_ids(ops);
                assert(ids =~= prev.push(id@));
                lemma_markers_push(prev, id@);
                let m = id_marker(id@);
                if p.1.contains(m) {
                    if visited.contains(m) {
                        assert(!visited.contains(id_marker(ids[ids.len() - 1])) == false);
                    } else {
                        let i = choose|i: int| 0 <= i < prev.len() && m == id_marker(prev[i]);
                        lemma_marker_injective(prev[i], id@);
                        assert(ids[i] == ids[ids.len() - 1]);
                    }
                } else {
                    assert(visited.union(id_markers(prev)).insert(m) =~= visited.union(id_markers(ids)));
                    if fresh_ids(visited, prev) {
                        assert forall|i: int, j: int| 0 <= i < j < ids.len() implies ids[i] != ids[j] by {
                            if j == ids.len() - 1 {
                                assert(ids[i] == prev[i]);
                                if ids[i] == id@ {
                                    assert(id_markers(prev).contains(m));
                                }
                            } else {
                                assert(ids[i] == prev[i] && ids[j] == prev[j]);
                            }
                        };
                        assert forall|i: int| 0 <= i < ids.len() implies !visited.contains(#[trigger] id_marker(ids[i])) by {
                            if i < ids.len() - 1 {
                                assert(ids[i] == prev[i]);
                            }
                        };
                    } else {
                        assert(!fresh_ids(visited, ids)) by {
                            if forall|i: int, j: int| 0 <= i < j < ids.len() ==> ids[i] != ids[j] {
                                assert forall|i: int, j: int| 0 <= i < j < prev.len() implies prev[i] != prev[j] by {
                                    assert(ids[i] == prev[i] && ids[j] == prev[j]);
                                };
                                let i = choose|i: int| 0 <= i < prev.len() && visited.contains(#[trigger] id_marker(prev[i]));
                                assert(ids[i] == prev[i]);
                            }
                        };
                    }
                }
            },
        }
    }
}

proof fn lemma_fresh_concat(visited: Set<Seq<char>>, a: Seq<Seq<char>>, b: Seq<Seq<char>>)
    ensures
        fresh_ids(visited, a + b) <==> fresh_ids(visited, a) && fresh_ids(visited.union(id_markers(a)), b),
{
    let ab = a + b;
    if fresh_ids(visited, ab) {
        assert forall|i: int, j: int| 0 <= i < j < a.len() implies a[i] != a[j] by {
            assert(ab[i] == a[i] && ab[j] == a[j]);
        };
        assert forall|i: int| 0 <= i < a.len() implies !visited.contains(#[trigger] id_marker(a[i])) by {
            assert(ab[i] == a[i]);
        };
        assert forall|i: int, j: int| 0 <= i < j < b.len() implies b[i] != b[j] by {
            assert(ab[a.len() + i] == b[i] && ab[a.len() + j] == b[j]);
        };
        assert forall|j: int| 0 <= j < b.len() implies !visited.union(id_markers(a)).contains(#[trigger] id_marker(b[j])) by {
            assert(ab[a.len() + j] == b[j]);
            if id_markers(a).contains(id_marker(b[j])) {
                let i = choose|i: int| 0 <= i < a.len() && id_marker(b[j]) == id_marker(a[i]);
                lemma_marker_injective(b[j], a[i]);
                assert(ab[i] == a[i]);
            }
        };
    }
    if fresh_ids(visited, a) && fresh_ids(visited.union(id_markers(a)), b) {
        assert forall|i: int, j: int| 0 <= i < j < ab.len() implies ab[i] != ab[j] by {
            if j < a.len() {
                assert(ab[i] == a[i] && ab[j] == a[j]);
            } else if i >= a.len() {
                assert(ab[i] == b[i - a.len()] && ab[j] == b[j - a.len()]);
            } else {
                assert(ab[i] == a[i] && ab[j] == b[j - a.len()]);
                assert(id_markers(a).contains(id_marker(a[i])));
                assert(!visited.union(id_markers(a)).contains(id_marker(b[j - a.len()])));
            }
        };
        assert forall|i: int| 0 <= i < ab.len() implies !visited.contains(#[trigger] id_marker(ab[i])) by {
            if i < a.len() {
                assert(ab[i] == a[i]);
            } else {
                assert(ab[i] == b[i - a.len()]);
                assert(!visited.union(id_markers(a)).contains(id_marker(b[i - a.len()])));
            }
        };
    }
}

proof fn lemma_ids_pass(visited: Set<Seq<char>>, paths: Seq<(String, PathItem)>)
    ensures
        ids_pass(visited, paths).1 == visited.union(id_markers(path_op_ids(paths))),
        ids_pass(visited, paths).0.len() == 0 <==> fresh_ids(visited, path_op_ids(paths)),
    decreases paths.len(),
{
    if paths.len() == 0 {
        assert(id_markers(path_op_ids(paths)) =~= Set::empty());
        assert(visited.union(Set::empty()) =~= visited);
    } else {
        let init = paths.drop_last();
        lemma_ids_pass(visited, init);
        let p = ids_pass(visited, init);
        let a = path_op_ids(init);
        let b = op_ids(opt_vec(paths.last().1.operations));
        lemma_op_ids_pass(p.1, paths.last().0@, opt_vec(paths.last().1.operations));
        lemma_fresh_concat(visited, a, b);
        assert(path_op_ids(paths) == a + b);
        assert forall|m: Seq<char>| id_markers(a + b).contains(m) <==> id_markers(a).union(id_markers(b)).contains(m) by {
            if id_markers(a + b).contains(m) {
                let i = choose|i: int| 0 <= i < (a + b).len() && m == id_marker((a + b)[i]);
                if i < a.len() {
                    assert((a + b)[i] == a[i]);
                } else {
                    assert((a + b)[i] == b[i - a.len()]);
                }
            }
            if id_markers(a).contains(m) {
                let i = choose|i: int| 0 <= i < a.len() && m == id_marker(a[i]);
                assert((a + b)[i] == a[i]);
            }
            if id_markers(b).contains(m) {
                let i = choose|i: int| 0 <= i < b.len() && m == id_marker(b[i]);
                assert((a + b)[a.len() + i] == b[i]);
            }
        };
        assert(id_markers(a + b) =~= id_markers(a).union(id_markers(b)));
        assert(visited.union(id_markers(a)).union(id_markers(b)) =~= visited.union(id_markers(a + b)));
    }
}

/// A document draws no "already in use" diagnostic for operation ids exactly
/// when no two of its operations share an id.
pub proof fn law_operation_ids_unique_iff_distinct(paths: Seq<(String, PathItem)>)
    ensures
        ids_pass(Set::empty(), paths).0.len() == 0 <==> forall|i: int, j: int|
            0 <= i < j < path_op_ids(paths).len() ==> path_op_ids(paths)[i] != path_op_ids(paths)[j],
{
    lemma_ids_pass(Set::empty(), paths);
}

} // verus!
