//! Checks that every schema with one type gets, in both versions.
use vstd::prelude::*;
use crate::common::context::{error_line, Context, Options};
use crate::common::text::concat;
use crate::v3_1::external_documentation::{external_docs_errors, ExternalDocumentation};

verus! {

/// The diagnostics of a schema at `path` that is both read-only and write-only.
pub open spec fn read_write_errors(path: Seq<char>, read_only: Option<bool>, write_only: Option<bool>) -> Seq<Seq<char>> {
    if read_only == Some(true) && write_only == Some(true) {
        seq![error_line(path, ".readOnly and .writeOnly are mutually exclusive"@)]
    } else {
        seq![]
    }
}

/// `readOnly` and `writeOnly` are reported, once, exactly when both are true.
pub proof fn law_read_write(path: Seq<char>, read_only: Option<bool>, write_only: Option<bool>)
    ensures
        read_write_errors(path, read_only, write_only).len() > 0 <==> (read_only == Some(true) && write_only == Some(
            true,
        )),
        read_write_errors(path, read_only, write_only).len() <= 1,
{
}

/// The diagnostics of optional external documentation of a schema at `path`.
pub open spec fn schema_docs_errors(path: Seq<char>, d: Option<ExternalDocumentation>, ignore_empty: bool, ignore_invalid: bool) -> Seq<Seq<char>> {
    match d {
        None => seq![],
        Some(d) => external_docs_errors(path + ".externalDocs"@, d, ignore_empty, ignore_invalid),
    }
}

/// The diagnostics that every schema with one type at `path` may get first:
/// read-only with write-only, and its external documentation.
pub open spec fn common_head_errors(
    path: Seq<char>,
    read_only: Option<bool>,
    write_only: Option<bool>,
    docs: Option<ExternalDocumentation>,
    ie: bool,
    ii: bool,
) -> Seq<Seq<char>> {
    read_write_errors(path, read_only, write_only) + schema_docs_errors(path, docs, ie, ii)
}

/// Checks the optional external documentation of a schema found at `path`.
pub fn check_schema_docs<S>(ctx: &mut Context<'_, S>, path: &str, d: &Option<ExternalDocumentation>)
    ensures
        final(ctx).errors_view() == old(ctx).errors_view() + schema_docs_errors(
            path@,
            *d,
            old(ctx).has_option(Options::IgnoreEmptyExternalDocumentationUrl),
            old(ctx).has_option(Options::IgnoreInvalidUrls),
        ),
        final(ctx).visited == old(ctx).visited,
        final(ctx).spec == old(ctx).spec,
        final(ctx).options == old(ctx).options,
{
    match d {
        Some(docs) => {
            let p = concat(path, ".externalDocs");
            docs.validate(ctx, p);
        },
        None => {
            assert(ctx.errors_view() + Seq::<Seq<char>>::empty() =~= ctx.errors_view());
        },
    }
}

/// Reports a schema at `path` that is both read-only and write-only.
pub fn check_read_write<S>(ctx: &mut Context<'_, S>, path: &str, read_only: Option<bool>, write_only: Option<bool>)
    ensures
        final(ctx).errors_view() == old(ctx).errors_view() + read_write_errors(path@, read_only, write_only),
        final(ctx).visited == old(ctx).visited,
        final(ctx).spec == old(ctx).spec,
        final(ctx).options == old(ctx).options,
{
    if read_only == Some(true) && write_only == Some(true) {
        ctx.error(path, ".readOnly and .writeOnly are mutually exclusive");
    } else {
        assert(ctx.errors_view() + Seq::<Seq<char>>::empty() =~= ctx.errors_view());
    }
}

/// The checks that every schema with one type at `path` gets first.
pub fn check_common_head<S>(
    ctx: &mut Context<'_, S>,
    path: &str,
    read_only: Option<bool>,
    write_only: Option<bool>,
    docs: &Option<ExternalDocumentation>,
)
    ensures
        final(ctx).errors_view() == old(ctx).errors_view() + common_head_errors(
            path@,
            read_only,
            write_only,
            *docs,
            old(ctx).has_option(Options::IgnoreEmptyExternalDocumentationUrl),
            old(ctx).has_option(Options::IgnoreInvalidUrls),
        ),
        final(ctx).visited == old(ctx).visited,
        final(ctx).spec == old(ctx).spec,
        final(ctx).options == old(ctx).options,
{
    let ghost e0 = ctx.errors_view();
    check_read_write(ctx, path, read_only, write_only);
    check_schema_docs(ctx, path, docs);
    assert(ctx.errors_view() =~= e0 + common_head_errors(
        path@,
        read_only,
        write_only,
        *docs,
        old(ctx).has_option(Options::IgnoreEmptyExternalDocumentationUrl),
        old(ctx).has_option(Options::IgnoreInvalidUrls),
    ));
}

} // verus!
