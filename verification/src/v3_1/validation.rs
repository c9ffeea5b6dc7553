//! Cross-cutting v3.1 validation rules that span multiple objects:
//! parameter `(name, in)` uniqueness and path template correspondence,
//! equivalent templated paths, tag-name uniqueness, and security requirements
//! (per OAS 3.1 only OAuth2 scopes are resolved; other schemes MAY list
//! free-form role names).
use vstd::prelude::*;
use crate::common::context::{Context, Options};
use crate::common::model::{Parameter, PathItem, SecurityRequirement, SecurityScheme, Tag};
use crate::common::parameters::{
    opt_list, opt_vec, operation_parameter_errors, path_item_operation_errors,
    validate_operation_parameters_in, validate_path_item_operations,
};
use crate::common::security::{
    opt_entries, requirements_errors, requirements_markers, validate_security_requirements_in, Dialect,
};
use crate::common::uniqueness::{
    duplicate_tag_errors, entry_keys, equivalent_templates_errors, tag_names,
    validate_path_template_uniqueness_in, validate_tag_uniqueness_in,
};
use crate::v3_0::reference::{map_view, RefOr};
use crate::v3_1::path_lookup::{effective_path_item, resolve_path_item_chain};
use crate::v3_1::spec::Spec;

verus! {

/// The document's `components.parameters`.
pub open spec fn parameters_of(spec: Spec) -> Option<Seq<(String, RefOr<Parameter>)>> {
    match spec.components {
        None => None,
        Some(c) => map_view(c.parameters),
    }
}

/// The document's `components.securitySchemes`.
pub open spec fn security_schemes_of(spec: Spec) -> Option<Seq<(String, RefOr<SecurityScheme>)>> {
    match spec.components {
        None => None,
        Some(c) => map_view(c.security_schemes),
    }
}

fn parameters_map<'a>(spec: &'a Spec) -> (res: Option<&'a Vec<(String, RefOr<Parameter>)>>)
    ensures
        opt_entries(res) == parameters_of(*spec),
{
    match &spec.components {
        None => None,
        Some(c) => match &c.parameters {
            None => None,
            Some(m) => Some(m),
        },
    }
}

fn security_schemes_map<'a>(spec: &'a Spec) -> (res: Option<&'a Vec<(String, RefOr<SecurityScheme>)>>)
    ensures
        opt_entries(res) == security_schemes_of(*spec),
{
    match &spec.components {
        None => None,
        Some(c) => match &c.security_schemes {
            None => None,
            Some(m) => Some(m),
        },
    }
}

/// Validate operation-level parameter rules:
/// * (name, in) duplicates *within the same level* are flagged.
/// * Operation-level entries override path-item-level entries with the same key.
/// * Each path template `{var}` has a matching `in: path` parameter.
/// * Each `in: path` parameter is referenced by the path template.
pub fn validate_operation_parameters(
    ctx: &mut Context<'_, Spec>,
    op_path: &str,
    template: &str,
    path_item_params: Option<&Vec<RefOr<Parameter>>>,
    op_params: Option<&Vec<RefOr<Parameter>>>,
)
    ensures
        final(ctx).errors_view() == old(ctx).errors_view() + operation_parameter_errors(
            old(ctx).has_option(Options::IgnoreExternalReferences),
            parameters_of(*old(ctx).spec),
            op_path@,
            template@,
            opt_list(path_item_params),
            opt_list(op_params),
        ),
        final(ctx).visited == old(ctx).visited,
        final(ctx).spec == old(ctx).spec,
        final(ctx).options == old(ctx).options,
{
    let spec = ctx.spec;
    validate_operation_parameters_in(ctx, op_path, template, path_item_params, op_params, parameters_map(spec));
}

/// Validate a list of security requirements. Marks each named scheme as
/// visited and enforces:
/// * the named scheme exists in `components.securitySchemes`,
/// * `oauth2` scopes (if any) are listed in some flow;
/// `apiKey` / `http` / `mutualTLS` / `openIdConnect` accept any scope list.
pub fn validate_security_requirements(
    ctx: &mut Context<'_, Spec>,
    path: &str,
    requirements: &Vec<SecurityRequirement>,
)
    ensures
        final(ctx).errors_view() == old(ctx).errors_view() + requirements_errors(
            Dialect::V3_1,
            path@,
            requirements@,
            security_schemes_of(*old(ctx).spec),
        ),
        final(ctx).visited_set() == old(ctx).visited_set().union(
            requirements_markers(requirements@, security_schemes_of(*old(ctx).spec)),
        ),
        final(ctx).spec == old(ctx).spec,
        final(ctx).options == old(ctx).options,
{
    let spec = ctx.spec;
    validate_security_requirements_in(ctx, Dialect::V3_1, path, requirements, security_schemes_map(spec));
}

/// Validate Spec.tags: every tag name MUST be unique.
pub fn validate_tag_uniqueness(ctx: &mut Context<'_, Spec>, tags: &Vec<Tag>)
    ensures
        final(ctx).errors_view() == old(ctx).errors_view() + duplicate_tag_errors(
            tag_names(tags@),
            tags@.len(),
        ),
        final(ctx).visited == old(ctx).visited,
        final(ctx).spec == old(ctx).spec,
        final(ctx).options == old(ctx).options,
{
    validate_tag_uniqueness_in(ctx, tags);
}

/// Validate that no two paths in a path map collapse to the same canonical
/// (template-stripped) form, reporting at `section`. Extension keys (`x-...`)
/// are skipped.
pub fn validate_path_template_uniqueness<V>(ctx: &mut Context<'_, Spec>, section: &str, paths: &Vec<(String, V)>)
    ensures
        final(ctx).errors_view() == old(ctx).errors_view() + equivalent_templates_errors(
            section@,
            entry_keys(paths@),
            paths@.len(),
        ),
        final(ctx).visited == old(ctx).visited,
        final(ctx).spec == old(ctx).spec,
        final(ctx).options == old(ctx).options,
{
    validate_path_template_uniqueness_in(ctx, section, paths);
}

/// The path item whose operations are checked for a path entry: the entry
/// itself, or (when it carries neither parameters nor operations, as a `$ref`
/// wrapper does) the item its chain of `$ref`s leads to.
pub open spec fn mounted_item(spec: Spec, item: PathItem) -> PathItem {
    if item.parameters is None && item.operations is None {
        effective_path_item(spec, item)
    } else {
        item
    }
}

/// Per-path entry point: parameter dedup and path-template ↔ `in: path`
/// correspondence for each operation actually mounted on `template`,
/// following a `$ref` wrapper to the operations it stands for.
pub fn validate_path_item(ctx: &mut Context<'_, Spec>, template: &str, path: &str, item: &PathItem)
    ensures
        ({
            let effective = mounted_item(*old(ctx).spec, *item);
            final(ctx).errors_view() == old(ctx).errors_view() + path_item_operation_errors(
                old(ctx).has_option(Options::IgnoreExternalReferences),
                parameters_of(*old(ctx).spec),
                template@,
                path@,
                opt_vec(effective.parameters),
                opt_vec(effective.operations),
            )
        }),
        final(ctx).visited == old(ctx).visited,
        final(ctx).spec == old(ctx).spec,
        final(ctx).options == old(ctx).options,
{
    let spec = ctx.spec;
    let effective = if item.parameters.is_none() && item.operations.is_none() {
        resolve_path_item_chain(spec, item)
    } else {
        item
    };
    validate_path_item_operations(ctx, template, path, effective, parameters_map(spec));
}

} // verus!
