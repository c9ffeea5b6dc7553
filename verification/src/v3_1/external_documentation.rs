//! References an external resource for extended documentation (OpenAPI 3.1).
use vstd::prelude::*;
use crate::common::checks::{required_url_errors, validate_required_url};
use crate::common::context::{Context, OptionSet, Options, ValidateWithContext};
use crate::common::text::concat;

verus! {

/// Allows referencing an external resource for extended documentation.
#[derive(Debug)]
pub struct ExternalDocumentation {
    /// **Required** The URL for the target documentation.
    pub url: String,
    /// A short description of the target documentation.
    pub description: Option<String>,
}

/// The diagnostics of external documentation found at `path`.
pub open spec fn external_docs_errors(path: Seq<char>, d: ExternalDocumentation, ignore_empty: bool, ignore_invalid: bool) -> Seq<Seq<char>> {
    required_url_errors(path + ".url"@, d.url@, ignore_empty, ignore_invalid)
}

impl ExternalDocumentation {
    /// Checks the documentation found at `path`: its URL is required and
    /// must be well formed.
    pub fn validate<S>(&self, ctx: &mut Context<'_, S>, path: String)
        ensures
            final(ctx).errors_view() == old(ctx).errors_view() + external_docs_errors(
                path@,
                *self,
                old(ctx).has_option(Options::IgnoreEmptyExternalDocumentationUrl),
                old(ctx).has_option(Options::IgnoreInvalidUrls),
            ),
            final(ctx).visited == old(ctx).visited,
            final(ctx).spec == old(ctx).spec,
            final(ctx).options == old(ctx).options,
    {
        let p = concat(path.as_str(), ".url");
        validate_required_url(ctx, self.url.as_str(), p.as_str());
    }
}

impl<S> ValidateWithContext<S> for ExternalDocumentation {
    open spec fn checks(
        &self,
        spec: S,
        options: OptionSet,
        visited: Set<Seq<char>>,
        errors: Seq<Seq<char>>,
        path: Seq<char>,
        after: (Seq<Seq<char>>, Set<Seq<char>>),
    ) -> bool {
        after == (errors + external_docs_errors(
                path,
                *self,
                options.has(Options::IgnoreEmptyExternalDocumentationUrl),
                options.has(Options::IgnoreInvalidUrls),
            ), visited)
    }

    fn validate_with_context(&self, ctx: &mut Context<'_, S>, path: String)
        ensures
            final(ctx).errors_view() == old(ctx).errors_view() + external_docs_errors(
                path@,
                *self,
                old(ctx).has_option(Options::IgnoreEmptyExternalDocumentationUrl),
                old(ctx).has_option(Options::IgnoreInvalidUrls),
            ),
            final(ctx).visited == old(ctx).visited,
    {
        self.validate(ctx, path);
    }
}

} // verus!
