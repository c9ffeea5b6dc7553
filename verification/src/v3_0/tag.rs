//! The Tag object and tag groups (OpenAPI 3.0).
use vstd::prelude::*;
use crate::common::checks::{required_string_errors, validate_required_string};
use crate::common::context::{Context, OptionSet, Options, ValidateWithContext};
use crate::common::model::Tag;
use crate::common::text::{concat, decimal, decimal_string, push_str};
use crate::v3_0::spec::Spec;
use crate::v3_1::external_documentation::external_docs_errors;

verus! {

/// The diagnostics of a tag found at `path`: a non-empty name, and its
/// external documentation.
pub open spec fn tag_errors(path: Seq<char>, t: Tag, ignore_empty: bool, ignore_invalid: bool) -> Seq<Seq<char>> {
    required_string_errors(path + ".name"@, t.name@) + match t.external_docs {
        Some(d) => external_docs_errors(path + ".externalDocs"@, d, ignore_empty, ignore_invalid),
        None => seq![],
    }
}

/// Checks the tag found at `path`.
pub fn validate_tag<S>(ctx: &mut Context<'_, S>, t: &Tag, path: &str)
    ensures
        final(ctx).errors_view() == old(ctx).errors_view() + tag_errors(
            path@,
            *t,
            old(ctx).has_option(Options::IgnoreEmptyExternalDocumentationUrl),
            old(ctx).has_option(Options::IgnoreInvalidUrls),
        ),
        final(ctx).visited == old(ctx).visited,
        final(ctx).spec == old(ctx).spec,
        final(ctx).options == old(ctx).options,
{
    let ghost e0 = ctx.errors_view();
    let p = concat(path, ".name");
    validate_required_string(ctx, t.name.as_str(), p.as_str());
    if let Some(docs) = &t.external_docs {
        let p = concat(path, ".externalDocs");
        docs.validate(ctx, p);
    }
    assert(ctx.errors_view() =~= e0 + tag_errors(
        path@,
        *t,
        old(ctx).has_option(Options::IgnoreEmptyExternalDocumentationUrl),
        old(ctx).has_option(Options::IgnoreInvalidUrls),
    ));
}

impl ValidateWithContext<Spec> for Tag {
    open spec fn checks(
        &self,
        spec: Spec,
        options: OptionSet,
        visited: Set<Seq<char>>,
        errors: Seq<Seq<char>>,
        path: Seq<char>,
        after: (Seq<Seq<char>>, Set<Seq<char>>),
    ) -> bool {
        after == (errors + tag_errors(
                path,
                *self,
                options.has(Options::IgnoreEmptyExternalDocumentationUrl),
                options.has(Options::IgnoreInvalidUrls),
            ), visited)
    }

    fn validate_with_context(&self, ctx: &mut Context<'_, Spec>, path: String)
        ensures
            final(ctx).errors_view() == old(ctx).errors_view() + tag_errors(
                path@,
                *self,
                old(ctx).has_option(Options::IgnoreEmptyExternalDocumentationUrl),
                old(ctx).has_option(Options::IgnoreInvalidUrls),
            ),
            final(ctx).visited == old(ctx).visited,
    {
        validate_tag(ctx, self, path.as_str());
    }
}

/// A group of tags (`x-tagGroups`).
#[derive(Debug)]
pub struct TagGroup {
    /// **Required** The name of the group.
    pub name: String,
    /// The names of the tags of the group.
    pub tags: Vec<String>,
}

/// The diagnostics of the first `k` tag names of a group at `path`.
pub open spec fn group_tags_errors(path: Seq<char>, tags: Seq<String>, k: nat) -> Seq<Seq<char>>
    decreases k,
{
    if k == 0 {
        seq![]
    } else {
        group_tags_errors(path, tags, (k - 1) as nat) + required_string_errors(
            path + ".tags["@ + decimal((k - 1) as nat) + "]"@,
            tags[k - 1]@,
        )
    }
}

/// The diagnostics of a tag group found at `path`: a non-empty name and
/// non-empty tag names.
pub open spec fn tag_group_errors(path: Seq<char>, g: TagGroup) -> Seq<Seq<char>> {
    required_string_errors(path + ".name"@, g.name@) + group_tags_errors(path, g.tags@, g.tags@.len())
}

impl TagGroup {
    /// Checks the tag group found at `path`.
    pub fn validate(&self, ctx: &mut Context<'_, Spec>, path: String)
        ensures
            final(ctx).errors_view() == old(ctx).errors_view() + tag_group_errors(path@, *self),
            final(ctx).visited == old(ctx).visited,
            final(ctx).spec == old(ctx).spec,
            final(ctx).options == old(ctx).options,
    {
        let ghost e0 = ctx.errors_view();
        let p = concat(path.as_str(), ".name");
        validate_required_string(ctx, self.name.as_str(), p.as_str());
        let ghost e1 = ctx.errors_view();
        let mut i: usize = 0;
        while i < self.tags.len()
            invariant
                i <= self.tags.len(),
                ctx.errors_view() == e1 + group_tags_errors(path@, self.tags@, i as nat),
                ctx.visited == old(ctx).visited,
                ctx.spec == old(ctx).spec,
                ctx.options == old(ctx).options,
            decreases self.tags.len() - i,
        {
            let mut tp = concat(path.as_str(), ".tags[");
            push_str(&mut tp, decimal_string(i).as_str());
            push_str(&mut tp, "]");
            validate_required_string(ctx, self.tags[i].as_str(), tp.as_str());
            i = i + 1;
        }
        assert(ctx.errors_view() =~= e0 + tag_group_errors(path@, *self));
    }
}

impl ValidateWithContext<Spec> for TagGroup {
    open spec fn checks(
        &self,
        spec: Spec,
        options: OptionSet,
        visited: Set<Seq<char>>,
        errors: Seq<Seq<char>>,
        path: Seq<char>,
        after: (Seq<Seq<char>>, Set<Seq<char>>),
    ) -> bool {
        after == (errors + tag_group_errors(path, *self), visited)
    }

    fn validate_with_context(&self, ctx: &mut Context<'_, Spec>, path: String)
        ensures
            final(ctx).errors_view() == old(ctx).errors_view() + tag_group_errors(path@, *self),
            final(ctx).visited == old(ctx).visited,
            final(ctx).spec == old(ctx).spec,
            final(ctx).options == old(ctx).options,
    {
        self.validate(ctx, path);
    }
}

} // verus!
