//! The Example object (OpenAPI 3.1).
use vstd::prelude::*;
use crate::common::checks::{optional_url_errors, validate_optional_url};
use crate::common::context::{error_line, Context, OptionSet, Options, ValidateWithContext};
use crate::common::text::concat;
use crate::v3_0::link::opt_text;
use crate::v3_1::spec::Spec;

verus! {

/// An Example object: the fields that validation reads.
#[derive(Debug)]
pub struct Example {
    /// Whether an embedded literal `value` is given.
    pub has_value: bool,
    /// A URL that points to the literal example.
    pub external_value: Option<String>,
}

/// The diagnostics of an Example found at `path`: `value` and
/// `externalValue` are mutually exclusive, and `externalValue` is a URL.
pub open spec fn example_errors(path: Seq<char>, e: Example, ignore_invalid: bool) -> Seq<Seq<char>> {
    (if e.has_value && e.external_value is Some {
        seq![error_line(path, "value and externalValue are mutually exclusive"@)]
    } else {
        seq![]
    }) + optional_url_errors(path + ".externalValue"@, opt_text(e.external_value), ignore_invalid)
}

impl Example {
    /// Checks the example found at `path`.
    pub fn validate(&self, ctx: &mut Context<'_, Spec>, path: String)
        ensures
            final(ctx).errors_view() == old(ctx).errors_view() + example_errors(
                path@,
                *self,
                old(ctx).has_option(Options::IgnoreInvalidUrls),
            ),
            final(ctx).visited == old(ctx).visited,
            final(ctx).spec == old(ctx).spec,
            final(ctx).options == old(ctx).options,
    {
        let ghost e0 = ctx.errors_view();
        if self.has_value && self.external_value.is_some() {
            ctx.error(path.as_str(), "value and externalValue are mutually exclusive");
        }
        let p = concat(path.as_str(), ".externalValue");
        validate_optional_url(ctx, &self.external_value, p.as_str());
        assert(ctx.errors_view() =~= e0 + example_errors(path@, *self, ctx.has_option(Options::IgnoreInvalidUrls)));
    }
}

impl ValidateWithContext<Spec> for Example {
    open spec fn checks(
        &self,
        spec: Spec,
        options: OptionSet,
        visited: Set<Seq<char>>,
        errors: Seq<Seq<char>>,
        path: Seq<char>,
        after: (Seq<Seq<char>>, Set<Seq<char>>),
    ) -> bool {
        after == (errors + example_errors(
                path,
                *self,
                options.has(Options::IgnoreInvalidUrls),
            ), visited)
    }

    fn validate_with_context(&self, ctx: &mut Context<'_, Spec>, path: String)
        ensures
            final(ctx).errors_view() == old(ctx).errors_view() + example_errors(
                path@,
                *self,
                old(ctx).has_option(Options::IgnoreInvalidUrls),
            ),
            final(ctx).visited == old(ctx).visited,
            final(ctx).spec == old(ctx).spec,
            final(ctx).options == old(ctx).options,
    {
        self.validate(ctx, path);
    }
}

} // verus!
