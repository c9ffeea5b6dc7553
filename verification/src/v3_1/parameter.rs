//! Describes a single operation parameter (OpenAPI 3.1).
use vstd::prelude::*;
use crate::common::checks::{required_string_errors, validate_required_string};
use crate::common::context::{error_line, Context, OptionSet, ValidateWithContext};
use crate::common::model::{Parameter, ParameterLocation};
use crate::common::text::{concat, push_str};
use crate::v3_1::spec::Spec;

verus! {

/// How a path parameter value is serialized.
#[derive(Clone, Copy, Debug, PartialEq, Eq, Structural)]
pub enum InPathStyle {
    /// Path-style parameters defined by RFC6570.
    Matrix,
    /// Label style parameters defined by RFC6570.
    Label,
    /// Simple style parameters defined by RFC6570.
    Simple,
}

/// How a query parameter value is serialized.
#[derive(Clone, Copy, Debug, PartialEq, Eq, Structural)]
pub enum InQueryStyle {
    /// Form style parameters defined by RFC6570.
    Form,
    /// Space separated array values.
    SpaceDelimited,
    /// Pipe separated array values.
    PipeDelimited,
    /// A simple way of rendering nested objects using form parameters.
    DeepObject,
}

/// How a header parameter value is serialized.
#[derive(Clone, Copy, Debug, PartialEq, Eq, Structural)]
pub enum InHeaderStyle {
    /// Simple style parameters defined by RFC6570.
    Simple,
}

/// How a cookie parameter value is serialized.
#[derive(Clone, Copy, Debug, PartialEq, Eq, Structural)]
pub enum InCookieStyle {
    /// Form style parameters defined by RFC6570.
    Form,
}

/// The diagnostic of a path parameter `name` at `path` that is not required.
pub open spec fn must_be_required_errors(path: Seq<char>, required: Option<bool>, name: Seq<char>) -> Seq<Seq<char>> {
    if required == Some(true) {
        seq![]
    } else {
        seq![error_line(path, "."@ + name + ": must be required"@)]
    }
}

/// Reports the parameter `name` at `path` unless it is required.
pub fn must_be_required<S>(p: &Option<bool>, ctx: &mut Context<'_, S>, path: String, name: String)
    ensures
        final(ctx).errors_view() == old(ctx).errors_view() + must_be_required_errors(path@, *p, name@),
        final(ctx).visited == old(ctx).visited,
        final(ctx).spec == old(ctx).spec,
        final(ctx).options == old(ctx).options,
{
    let required = match p {
        Some(x) => *x,
        None => false,
    };
    if !required {
        let mut m = concat(".", name.as_str());
        push_str(&mut m, ": must be required");
        ctx.error(path.as_str(), m.as_str());
    } else {
        assert(ctx.errors_view() + Seq::<Seq<char>>::empty() =~= ctx.errors_view());
    }
}

/// The diagnostic of an object at `path` that gives both `first` and
/// `second`, which are mutually exclusive.
pub open spec fn exclusive_errors(path: Seq<char>, both: bool, msg: Seq<char>) -> Seq<Seq<char>> {
    if both {
        seq![error_line(path, msg)]
    } else {
        seq![]
    }
}

/// Reports a parameter at `path` that gives both `example` and `examples`.
pub fn either_example_or_examples<S>(ctx: &mut Context<'_, S>, example: bool, examples: bool, path: String)
    ensures
        final(ctx).errors_view() == old(ctx).errors_view() + exclusive_errors(
            path@,
            example && examples,
            "example and examples are mutually exclusive"@,
        ),
        final(ctx).visited == old(ctx).visited,
        final(ctx).spec == old(ctx).spec,
        final(ctx).options == old(ctx).options,
{
    if example && examples {
        ctx.error(path.as_str(), "example and examples are mutually exclusive");
    } else {
        assert(ctx.errors_view() + Seq::<Seq<char>>::empty() =~= ctx.errors_view());
    }
}

/// Reports a parameter at `path` that gives both `schema` and `content`.
pub fn either_schema_or_content<S>(ctx: &mut Context<'_, S>, schema: bool, content: bool, path: String)
    ensures
        final(ctx).errors_view() == old(ctx).errors_view() + exclusive_errors(
            path@,
            schema && content,
            "schema and content are mutually exclusive"@,
        ),
        final(ctx).visited == old(ctx).visited,
        final(ctx).spec == old(ctx).spec,
        final(ctx).options == old(ctx).options,
{
    if schema && content {
        ctx.error(path.as_str(), "schema and content are mutually exclusive");
    } else {
        assert(ctx.errors_view() + Seq::<Seq<char>>::empty() =~= ctx.errors_view());
    }
}

/// The diagnostics of a parameter found at `path`: a non-empty name, a path
/// parameter that is required, and the exclusive pairs
/// `example`/`examples` and `schema`/`content`.
pub open spec fn parameter_errors(path: Seq<char>, p: Parameter) -> Seq<Seq<char>> {
    required_string_errors(path + ".name"@, p.name@) + (if p.location == ParameterLocation::Path {
        must_be_required_errors(path, p.required, p.name@)
    } else {
        seq![]
    }) + exclusive_errors(path, p.has_example && p.has_examples, "example and examples are mutually exclusive"@)
        + exclusive_errors(path, p.has_schema && p.has_content, "schema and content are mutually exclusive"@)
}

/// A parameter gets no diagnostic exactly when its name is not empty, it is
/// required if it is carried in the path, and it gives neither both
/// `example` and `examples` nor both `schema` and `content`; it gets at most
/// one diagnostic per rule.
pub proof fn law_parameter_rules(path: Seq<char>, p: Parameter)
    ensures
        parameter_errors(path, p).len() == 0 <==> (p.name@.len() > 0 && (p.location == ParameterLocation::Path
            ==> p.required == Some(true)) && !(p.has_example && p.has_examples) && !(p.has_schema && p.has_content)),
        parameter_errors(path, p).len() <= 4,
{
}

impl ValidateWithContext<Spec> for Parameter {
    open spec fn checks(
        &self,
        spec: Spec,
        options: OptionSet,
        visited: Set<Seq<char>>,
        errors: Seq<Seq<char>>,
        path: Seq<char>,
        after: (Seq<Seq<char>>, Set<Seq<char>>),
    ) -> bool {
        after == (errors + parameter_errors(path, *self), visited)
    }

    fn validate_with_context(&self, ctx: &mut Context<'_, Spec>, path: String)
        ensures
            final(ctx).errors_view() == old(ctx).errors_view() + parameter_errors(path@, *self),
            final(ctx).visited == old(ctx).visited,
    {
        check_parameter(self, ctx, path);
    }
}

/// Checks the parameter `param` found at `path` (see [`parameter_errors`]).
pub fn check_parameter<S>(param: &Parameter, ctx: &mut Context<'_, S>, path: String)
    ensures
        final(ctx).errors_view() == old(ctx).errors_view() + parameter_errors(path@, *param),
        final(ctx).visited == old(ctx).visited,
        final(ctx).spec == old(ctx).spec,
        final(ctx).options == old(ctx).options,
{
    let ghost e0 = ctx.errors_view();
    let p = concat(path.as_str(), ".name");
    validate_required_string(ctx, param.name.as_str(), p.as_str());
    let ghost e1 = ctx.errors_view();
    if param.location == ParameterLocation::Path {
        must_be_required(&param.required, ctx, path.clone(), param.name.clone());
    }
    let ghost e2 = ctx.errors_view();
    either_example_or_examples(ctx, param.has_example, param.has_examples, path.clone());
    either_schema_or_content(ctx, param.has_schema, param.has_content, path);
    assert(ctx.errors_view() =~= e0 + parameter_errors(path@, *param));
}

} // verus!
