use roas::common::context::{Context, OptionSet, Options};
use roas::common::model::{
    OAuth2Flows, Operation, Parameter, ParameterLocation, PathItem, Paths, SecurityScheme, Tag,
};
use roas::v3_0::info::Info;
use roas::v3_0::reference::RefOr;

fn info() -> Info {
    Info {
        title: String::new(),
        description: None,
        terms_of_service: None,
        contact: None,
        license: None,
        version: String::new(),
    }
}

fn param(name: &str, location: ParameterLocation, required: Option<bool>) -> RefOr<Parameter> {
    RefOr::new_item(Parameter {
        name: name.into(),
        location,
        required,
        has_example: false,
        has_examples: false,
        has_schema: false,
        has_content: false,
    })
}

fn path_param(name: &str) -> RefOr<Parameter> {
    param(name, ParameterLocation::Path, Some(true))
}

fn query_param(name: &str) -> RefOr<Parameter> {
    param(name, ParameterLocation::Query, None)
}

fn header_param(name: &str) -> RefOr<Parameter> {
    param(name, ParameterLocation::Header, None)
}

fn cookie_param(name: &str) -> RefOr<Parameter> {
    param(name, ParameterLocation::Cookie, None)
}

fn empty_item() -> PathItem {
    PathItem { reference: None, operations: None, parameters: None, servers: None }
}

fn tag(name: &str) -> Tag {
    Tag { name: name.into(), description: None, external_docs: None }
}

fn op() -> Operation {
    Operation {
        tags: None,
        external_docs: None,
        operation_id: None,
        parameters: None,
        request_body: None,
        responses: None,
        security: None,
        servers: None,
        x_code_samples: None,
        x_badges: None,
    }
}


fn components30(schemes: Vec<(String, RefOr<SecurityScheme>)>) -> roas::v3_0::components::Components {
    roas::v3_0::components::Components {
        schemas: None,
        responses: None,
        parameters: None,
        examples: None,
        request_bodies: None,
        headers: None,
        security_schemes: Some(schemes),
        links: None,
        callbacks: None,
        path_items: None,
    }
}

fn spec30(components: Option<roas::v3_0::components::Components>) -> roas::v3_0::spec::Spec {
    roas::v3_0::spec::Spec {
        openapi: roas::v3_0::spec::Version::default(),
        info: info(),
        servers: None,
        paths: Paths { paths: vec![] },
        components,
        security: None,
        tags: None,
        external_docs: None,
        x_tag_groups: None,
    }
}

fn components31(
    schemes: Option<Vec<(String, RefOr<SecurityScheme>)>>,
    path_items: Option<Vec<(String, PathItem)>>,
) -> roas::v3_1::components::Components {
    roas::v3_1::components::Components {
        schemas: None,
        responses: None,
        parameters: None,
        examples: None,
        request_bodies: None,
        headers: None,
        security_schemes: schemes,
        links: None,
        callbacks: None,
        path_items,
    }
}

fn spec31(components: Option<roas::v3_1::components::Components>) -> roas::v3_1::spec::Spec {
    roas::v3_1::spec::Spec {
        openapi: roas::v3_1::spec::Version::default(),
        info: info(),
        servers: None,
        paths: None,
        webhooks: None,
        components,
        security: None,
        tags: None,
        external_docs: None,
    }
}

fn oauth_read_only() -> SecurityScheme {
    SecurityScheme::OAuth2(OAuth2Flows {
        implicit: Some(vec!["read".to_owned()]),
        password: None,
        client_credentials: None,
        authorization_code: None,
    })
}

fn requirement(name: &str, scopes: &[&str]) -> Vec<(String, Vec<String>)> {
    vec![(name.to_owned(), scopes.iter().map(|s| (*s).to_owned()).collect())]
}

fn ops30(
    template: &str,
    pi: Option<&Vec<RefOr<Parameter>>>,
    op: Option<&Vec<RefOr<Parameter>>>,
    options: OptionSet,
) -> Vec<String> {
    let spec = spec30(None);
    let mut ctx = Context::new(&spec, options);
    roas::v3_0::validation::validate_operation_parameters(&mut ctx, "op", template, pi, op);
    ctx.errors
}

fn ops31(
    template: &str,
    pi: Option<&Vec<RefOr<Parameter>>>,
    op: Option<&Vec<RefOr<Parameter>>>,
    options: OptionSet,
) -> Vec<String> {
    let spec = spec31(None);
    let mut ctx = Context::new(&spec, options);
    roas::v3_1::validation::validate_operation_parameters(&mut ctx, "op", template, pi, op);
    ctx.errors
}

fn security30(schemes: Vec<(String, RefOr<SecurityScheme>)>, req: Vec<(String, Vec<String>)>) -> Vec<String> {
    let spec = spec30(Some(components30(schemes)));
    let mut ctx = Context::new(&spec, OptionSet::new());
    roas::v3_0::validation::validate_security_requirements(&mut ctx, "#.security", &vec![req]);
    ctx.errors
}

fn security31(schemes: Vec<(String, RefOr<SecurityScheme>)>, req: Vec<(String, Vec<String>)>) -> Vec<String> {
    let spec = spec31(Some(components31(Some(schemes), None)));
    let mut ctx = Context::new(&spec, OptionSet::new());
    roas::v3_1::validation::validate_security_requirements(&mut ctx, "#.security", &vec![req]);
    ctx.errors
}

#[test]
fn validation_duplicate_param_within_level_flagged() {
    let params = vec![query_param("q"), query_param("q")];
    let errors = ops30("/p", None, Some(&params), OptionSet::new());
    assert!(errors.iter().any(|e| e.contains("duplicate parameter `q`")), "errors: {:?}", errors);
}

#[test]
fn op_overrides_path_item_no_dup_error() {
    let pi = vec![query_param("limit")];
    let op = vec![query_param("limit")];
    let errors = ops30("/p", Some(&pi), Some(&op), OptionSet::new());
    assert!(errors.is_empty(), "override should not be a duplicate: {:?}", errors);
}

#[test]
fn validation_cookie_and_header_locations_distinct() {
    let params = vec![header_param("session"), cookie_param("session")];
    let errors = ops30("/p", None, Some(&params), OptionSet::new());
    assert!(errors.is_empty(), "different locations should not duplicate: {:?}", errors);
}

#[test]
fn validation_template_var_missing_path_param() {
    let errors = ops30("/users/{id}", None, None, OptionSet::new());
    assert!(errors.iter().any(|e| e.contains("path template variable `{id}`")), "errors: {:?}", errors);
}

#[test]
fn validation_path_param_without_template_var() {
    let params = vec![path_param("id")];
    let errors = ops30("/no-vars", None, Some(&params), OptionSet::new());
    assert!(
        errors.iter().any(|e| e.contains("path parameter `id` does not match any `{name}` in the path template")),
        "errors: {:?}",
        errors
    );
}

#[test]
fn validation_external_ref_suppresses_template_correspondence_under_ignore_external() {
    let params: Vec<RefOr<Parameter>> =
        vec![RefOr::new_ref("https://other.example/spec.yaml#/components/parameters/PetId".to_owned())];
    let errors = ops30("/users/{id}", None, Some(&params), OptionSet::new());
    assert!(errors.iter().any(|e| e.contains("template variable `{id}`")), "errors: {:?}", errors);
    let errors = ops30("/users/{id}", None, Some(&params), OptionSet::only(Options::IgnoreExternalReferences));
    assert!(errors.iter().all(|e| !e.contains("template variable")), "errors: {:?}", errors);
}

#[test]
fn template_correspondence_ok() {
    let params = vec![path_param("id")];
    let errors = ops30("/users/{id}", None, Some(&params), OptionSet::new());
    assert!(errors.is_empty(), "errors: {:?}", errors);
}

#[test]
fn equivalent_templates_are_flagged() {
    let paths = vec![("/pets/{id}".to_owned(), empty_item()), ("/pets/{name}".to_owned(), empty_item())];
    let spec = spec30(None);
    let mut ctx = Context::new(&spec, OptionSet::new());
    roas::v3_0::validation::validate_path_template_uniqueness(&mut ctx, &paths);
    assert!(ctx.errors.iter().any(|e| e.contains("collapse to the same shape")), "errors: {:?}", ctx.errors);
}

#[test]
fn distinct_templates_are_not_flagged() {
    let paths = vec![("/pets/{id}".to_owned(), empty_item()), ("/pets/{id}/owner".to_owned(), empty_item())];
    let spec = spec30(None);
    let mut ctx = Context::new(&spec, OptionSet::new());
    roas::v3_0::validation::validate_path_template_uniqueness(&mut ctx, &paths);
    assert!(ctx.errors.is_empty(), "errors: {:?}", ctx.errors);
}

#[test]
fn validation_duplicate_tag_names_flagged() {
    let spec = spec30(None);
    let mut ctx = Context::new(&spec, OptionSet::new());
    roas::v3_0::validation::validate_tag_uniqueness(&mut ctx, &vec![tag("pets"), tag("pets")]);
    assert!(ctx.errors.iter().any(|e| e.contains("duplicate tag name `pets`")), "errors: {:?}", ctx.errors);
}

#[test]
fn security_apikey_with_scopes_invalid() {
    let errors = security30(vec![("ak".to_owned(), RefOr::new_item(SecurityScheme::ApiKey))], requirement("ak", &["read"]));
    assert!(errors.iter().any(|e| e.contains("requires an empty scope list")), "errors: {:?}", errors);
}

#[test]
fn security_http_with_scopes_invalid() {
    let errors = security30(vec![("h".to_owned(), RefOr::new_item(SecurityScheme::Http))], requirement("h", &["read"]));
    assert!(errors.iter().any(|e| e.contains("requires an empty scope list")), "errors: {:?}", errors);
}

#[test]
fn validation_security_oauth2_undefined_scope() {
    let errors = security30(vec![("o".to_owned(), RefOr::new_item(oauth_read_only()))], requirement("o", &["write"]));
    assert!(errors.iter().any(|e| e.contains("scope `write` not declared")), "errors: {:?}", errors);
}

#[test]
fn validation_security_openidconnect_accepts_any_scopes() {
    let errors = security30(
        vec![("oid".to_owned(), RefOr::new_item(SecurityScheme::OpenIdConnect))],
        requirement("oid", &["openid", "email"]),
    );
    assert!(errors.is_empty(), "openIdConnect should accept any scopes: {:?}", errors);
}

#[test]
fn validation_security_missing_scheme_reported() {
    let errors = security30(vec![], requirement("missing", &[]));
    assert!(errors.iter().any(|e| e.contains("not declared")), "errors: {:?}", errors);
}

#[test]
fn duplicate_param_within_level_flagged() {
    let params = vec![query_param("q"), query_param("q")];
    let errors = ops31("/p", None, Some(&params), OptionSet::new());
    assert!(errors.iter().any(|e| e.contains("duplicate parameter `q`")), "errors: {:?}", errors);
}

#[test]
fn cookie_and_header_locations_distinct() {
    let params = vec![header_param("session"), cookie_param("session")];
    let errors = ops31("/p", None, Some(&params), OptionSet::new());
    assert!(errors.is_empty(), "different locations should not duplicate: {:?}", errors);
}

#[test]
fn template_var_missing_path_param() {
    let errors = ops31("/users/{id}", None, None, OptionSet::new());
    assert!(errors.iter().any(|e| e.contains("template variable `{id}`")), "errors: {:?}", errors);
}

#[test]
fn path_param_without_template_var() {
    let params = vec![path_param("id")];
    let errors = ops31("/no-vars", None, Some(&params), OptionSet::new());
    assert!(
        errors.iter().any(|e| e.contains("path parameter `id` does not match any `{name}` in the path template")),
        "errors: {:?}",
        errors
    );
}

#[test]
fn equivalent_templates_flagged() {
    let paths = vec![("/pets/{id}".to_owned(), empty_item()), ("/pets/{name}".to_owned(), empty_item())];
    let spec = spec31(None);
    let mut ctx = Context::new(&spec, OptionSet::new());
    roas::v3_1::validation::validate_path_template_uniqueness(&mut ctx, "#.paths", &paths);
    assert!(ctx.errors.iter().any(|e| e.contains("collapse to the same shape")), "errors: {:?}", ctx.errors);
}

#[test]
fn duplicate_tag_names_flagged() {
    let spec = spec31(None);
    let mut ctx = Context::new(&spec, OptionSet::new());
    roas::v3_1::validation::validate_tag_uniqueness(&mut ctx, &vec![tag("pets"), tag("pets")]);
    assert!(ctx.errors.iter().any(|e| e.contains("duplicate tag name `pets`")), "errors: {:?}", ctx.errors);
}

#[test]
fn security_oauth2_undefined_scope() {
    let errors = security31(vec![("o".to_owned(), RefOr::new_item(oauth_read_only()))], requirement("o", &["write"]));
    assert!(errors.iter().any(|e| e.contains("scope `write` not declared")), "errors: {:?}", errors);
}

#[test]
fn security_apikey_with_role_array_accepted_in_3_1() {
    let errors = security31(vec![("ak".to_owned(), RefOr::new_item(SecurityScheme::ApiKey))], requirement("ak", &["admin"]));
    assert!(errors.is_empty(), "non-empty role names should be allowed in 3.1: {:?}", errors);
}

#[test]
fn security_mutual_tls_with_role_array_accepted() {
    let errors =
        security31(vec![("mtls".to_owned(), RefOr::new_item(SecurityScheme::MutualTls))], requirement("mtls", &["operator"]));
    assert!(errors.is_empty(), "errors: {:?}", errors);
}

#[test]
fn security_openidconnect_accepts_any_scopes() {
    let errors =
        security31(vec![("oid".to_owned(), RefOr::new_item(SecurityScheme::OpenIdConnect))], requirement("oid", &["openid"]));
    assert!(errors.is_empty(), "errors: {:?}", errors);
}

#[test]
fn security_missing_scheme_reported() {
    let errors = security31(vec![], requirement("missing", &[]));
    assert!(errors.iter().any(|e| e.contains("not declared")), "errors: {:?}", errors);
}

#[test]
fn external_ref_suppresses_template_correspondence_under_ignore_external() {
    let params: Vec<RefOr<Parameter>> =
        vec![RefOr::new_ref("https://other.example/spec.yaml#/components/parameters/PetId".to_owned())];
    let errors = ops31("/users/{id}", None, Some(&params), OptionSet::new());
    assert!(errors.iter().any(|e| e.contains("template variable `{id}`")), "errors: {:?}", errors);
    let errors = ops31("/users/{id}", None, Some(&params), OptionSet::only(Options::IgnoreExternalReferences));
    assert!(errors.iter().all(|e| !e.contains("template variable")), "errors: {:?}", errors);
}

#[test]
fn validate_path_item_follows_internal_ref_chain() {
    let mut get = op();
    get.parameters = Some(vec![RefOr::new_item(Parameter {
        name: "wrong".into(),
        location: ParameterLocation::Path,
        required: Some(true),
        has_example: false,
        has_examples: false,
        has_schema: false,
        has_content: true,
    })]);
    let target = PathItem { reference: None, operations: Some(vec![("get".to_owned(), get)]), parameters: None, servers: None };
    let spec = spec31(Some(components31(None, Some(vec![("Reusable".to_owned(), target)]))));
    let item = PathItem {
        reference: Some("#/components/pathItems/Reusable".into()),
        operations: None,
        parameters: None,
        servers: None,
    };
    let mut ctx = Context::new(&spec, OptionSet::new());
    roas::v3_1::validation::validate_path_item(&mut ctx, "/users/{id}", "#.paths[/users/{id}]", &item);
    assert!(
        ctx.errors.iter().any(|e| e.contains("template variable `{id}`") || e.contains("parameter `wrong`")),
        "expected param-mismatch report after chain follow: {:?}",
        ctx.errors
    );
}

#[test]
fn a_key_declared_three_times_is_reported_once() {
    let params = vec![query_param("q"), query_param("q"), query_param("q"), query_param("r")];
    let errors = ops30("/p", None, Some(&params), OptionSet::new());
    assert_eq!(errors.iter().filter(|e| e.contains("duplicate parameter `q`")).count(), 1, "errors: {:?}", errors);
    assert_eq!(errors.iter().filter(|e| e.contains("duplicate parameter `r`")).count(), 0, "errors: {:?}", errors);
}
