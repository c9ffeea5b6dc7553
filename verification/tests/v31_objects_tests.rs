use roas::common::context::{Context, OptionSet, Options, ValidateWithContext};
use roas::common::keys::{check_keys, path_item_key_3_1, path_map_key, KeyProblem};
use roas::common::model::{Callback, OAuth2Flows, Operation, Parameter, ParameterLocation, PathItem, Paths, SecurityScheme};
use roas::v3_0::info::Info;
use roas::v3_0::reference::RefOr;
use roas::v3_1::components::Components;
use roas::v3_1::discriminator::Discriminator;
use roas::v3_1::example::Example;
use roas::v3_1::link::Link;
use roas::v3_1::response::{is_response_code_key, Response, Responses};
use roas::v3_1::schema::{ObjectSchema, Schema, SingleSchema, StringSchema};
use roas::v3_1::spec::{Spec, Version};

fn info() -> Info {
    Info {
        title: String::new(),
        description: None,
        terms_of_service: None,
        contact: None,
        license: None,
        version: String::new(),
    }
}

fn spec_with(components: Option<Components>, paths: Option<Paths>, webhooks: Option<Paths>) -> Spec {
    Spec {
        openapi: Version::default(),
        info: info(),
        servers: None,
        paths,
        webhooks,
        components,
        security: None,
        tags: None,
        external_docs: None,
    }
}

fn no_components() -> Components {
    Components {
        schemas: None,
        responses: None,
        parameters: None,
        examples: None,
        request_bodies: None,
        headers: None,
        security_schemes: None,
        links: None,
        callbacks: None,
        path_items: None,
    }
}

fn string_schema() -> Schema {
    Schema::Single(Box::new(SingleSchema::String(StringSchema {
        title: None,
        enum_values: None,
        x_enum_descriptions: None,
        max_length: None,
        min_length: None,
        read_only: None,
        write_only: None,
        external_docs: None,
    })))
}

fn object_schema() -> Schema {
    Schema::Single(Box::new(SingleSchema::Object(ObjectSchema {
        properties: None,
        pattern_properties: None,
        max_properties: None,
        min_properties: None,
        additional_properties: None,
        unevaluated_properties: None,
        property_names: None,
        x_tags: None,
        x_discriminator_value: None,
        read_only: None,
        write_only: None,
        external_docs: None,
    })))
}

fn empty_item() -> PathItem {
    PathItem { reference: None, operations: None, parameters: None, servers: None }
}

fn op() -> Operation {
    Operation {
        tags: None,
        external_docs: None,
        operation_id: None,
        parameters: None,
        request_body: None,
        responses: None,
        security: None,
        servers: None,
        x_code_samples: None,
        x_badges: None,
    }
}

fn with<T>(name: &str, t: T) -> Option<Vec<(String, RefOr<T>)>> {
    Some(vec![(name.to_owned(), RefOr::new_item(t))])
}

fn ok_response() -> Response {
    Response { description: "ok".into(), links: None }
}

fn all_kinds(link_target: &str) -> Components {
    Components {
        schemas: with("S", string_schema()),
        responses: with("R", ok_response()),
        parameters: with(
            "P",
            Parameter {
                name: "q".into(),
                location: ParameterLocation::Query,
                required: None,
                has_example: false,
                has_examples: false,
                has_schema: true,
                has_content: false,
            },
        ),
        examples: with("E", Example { has_value: false, external_value: None }),
        request_bodies: Some(vec!["RB".to_owned()]),
        headers: Some(vec!["H".to_owned()]),
        security_schemes: with(
            "SS",
            SecurityScheme::OAuth2(OAuth2Flows {
                implicit: Some(vec!["read".to_owned()]),
                password: Some(vec!["write".to_owned()]),
                client_credentials: Some(vec!["admin".to_owned()]),
                authorization_code: Some(vec!["delete".to_owned()]),
            }),
        ),
        links: with("L", Link { operation_ref: None, operation_id: Some(link_target.into()), server: None }),
        callbacks: with("CB", Callback { paths: vec![] }),
        path_items: Some(vec![(
            "PI".to_owned(),
            PathItem { reference: None, operations: Some(vec![("get".to_owned(), op())]), parameters: None, servers: None },
        )]),
    }
}

#[test]
fn unused_components_each_kind_reports() {
    let spec = spec_with(Some(all_kinds("does-not-exist")), None, None);
    let mut ctx = Context::new(&spec, OptionSet::new());
    spec.components.as_ref().unwrap().validate_with_context(&mut ctx, "#.components".into());
    for path in [
        "#/components/schemas/S",
        "#/components/responses/R",
        "#/components/parameters/P",
        "#/components/examples/E",
        "#/components/requestBodies/RB",
        "#/components/headers/H",
        "#/components/securitySchemes/SS",
        "#/components/links/L",
        "#/components/callbacks/CB",
        "#/components/pathItems/PI",
    ] {
        assert!(
            ctx.errors.iter().any(|e| e.contains(path) && e.contains("unused")),
            "expected `{path}: unused`: {:?}",
            ctx.errors
        );
    }
    for scope in ["read", "write", "admin", "delete"] {
        let p = format!("#/components/securitySchemes/SS/{scope}");
        assert!(
            ctx.errors.iter().any(|e| e.contains(&p) && e.contains("unused")),
            "expected unused scope `{scope}`: {:?}",
            ctx.errors
        );
    }
}

#[test]
fn ignored_unused_options_silence_each_kind() {
    let mut comp = all_kinds("dne");
    comp.security_schemes = None;
    comp.path_items = None;
    comp.parameters = None;
    let spec = spec_with(Some(comp), None, None);
    let mut opts = OptionSet::new();
    for o in [
        Options::IgnoreUnusedSchemas,
        Options::IgnoreUnusedResponses,
        Options::IgnoreUnusedParameters,
        Options::IgnoreUnusedExamples,
        Options::IgnoreUnusedRequestBodies,
        Options::IgnoreUnusedHeaders,
        Options::IgnoreUnusedLinks,
        Options::IgnoreUnusedCallbacks,
    ] {
        opts.insert(o);
    }
    let mut ctx = Context::new(&spec, opts);
    spec.components.as_ref().unwrap().validate_with_context(&mut ctx, "#.components".into());
    assert!(ctx.errors.iter().all(|e| !e.contains("unused")), "no unused errors when ignored: {:?}", ctx.errors);
}

#[test]
fn invalid_component_name_reported() {
    let mut comp = no_components();
    comp.schemas = with("bad name", string_schema());
    let spec = spec_with(Some(comp), None, None);
    let mut ctx = Context::new(&spec, OptionSet::only(Options::IgnoreUnusedSchemas));
    spec.components.as_ref().unwrap().validate_with_context(&mut ctx, "#.components".into());
    assert!(ctx.errors.iter().any(|e| e.contains("must match pattern")), "expected pattern error: {:?}", ctx.errors);
}

#[test]
fn validate_empty_property_name_errors() {
    let spec = spec_with(None, None, None);
    let mut ctx = Context::new(&spec, OptionSet::new());
    Discriminator { property_name: String::new(), mapping: None }.validate_with_context(&mut ctx, "d".to_owned());
    assert!(
        ctx.errors.iter().any(|e| e.contains("propertyName") && e.contains("must not be empty")),
        "errors: {:?}",
        ctx.errors
    );
}

#[test]
fn mapping_resolves_against_components() {
    let mut comp = no_components();
    comp.schemas = with("Cat", object_schema());
    let spec = spec_with(Some(comp), None, None);
    let d = Discriminator {
        property_name: "type".into(),
        mapping: Some(vec![("cat".to_owned(), "Cat".to_owned()), ("missing".to_owned(), "Missing".to_owned())]),
    };
    let mut ctx = Context::new(&spec, OptionSet::new());
    d.validate_with_context(&mut ctx, "d".to_owned());
    assert!(ctx.errors.iter().any(|e| e.contains("Missing")), "expected missing schema error: {:?}", ctx.errors);
}

fn item_ref(r: &str) -> PathItem {
    PathItem { reference: Some(r.into()), operations: None, parameters: None, servers: None }
}

#[test]
fn empty_ref_reported() {
    let spec = spec_with(None, None, None);
    let mut ctx = Context::new(&spec, OptionSet::new());
    item_ref("").validate_with_context(&mut ctx, "p".into());
    assert!(ctx.errors.iter().any(|e| e.contains(".$ref: must not be empty")), "errors: {:?}", ctx.errors);
}

#[test]
fn dangling_internal_ref_reported() {
    let spec = spec_with(None, None, None);
    let mut ctx = Context::new(&spec, OptionSet::new());
    item_ref("#/components/pathItems/Missing").validate_with_context(&mut ctx, "p".into());
    assert!(ctx.errors.iter().any(|e| e.contains("not declared in this document")), "errors: {:?}", ctx.errors);
}

#[test]
fn external_ref_reported_unless_ignored() {
    let spec = spec_with(None, None, None);
    let pi = item_ref("https://example.com/spec#/paths/~1pets");
    let mut ctx = Context::new(&spec, OptionSet::new());
    pi.validate_with_context(&mut ctx, "p".into());
    assert!(ctx.errors.iter().any(|e| e.contains("external reference")), "errors: {:?}", ctx.errors);
    let mut ctx = Context::new(&spec, OptionSet::only(Options::IgnoreExternalReferences));
    pi.validate_with_context(&mut ctx, "p".into());
    assert!(ctx.errors.iter().all(|e| !e.contains("external reference")), "errors: {:?}", ctx.errors);
}

#[test]
fn internal_ref_resolved_against_each_container() {
    let mut comp = no_components();
    comp.path_items = Some(vec![("Reusable".to_owned(), empty_item())]);
    let spec = spec_with(
        Some(comp),
        Some(Paths { paths: vec![("/pets".to_owned(), empty_item())] }),
        Some(Paths { paths: vec![("petCreated".to_owned(), empty_item())] }),
    );
    for r in ["#/paths/~1pets", "#/webhooks/petCreated", "#/components/pathItems/Reusable"] {
        let mut ctx = Context::new(&spec, OptionSet::new());
        item_ref(r).validate_with_context(&mut ctx, "p".into());
        assert!(ctx.errors.iter().all(|e| !e.contains("not declared")), "{r} should resolve: {:?}", ctx.errors);
    }
}

#[test]
fn paths_iter_and_from() {
    let p = Paths { paths: vec![("/a".to_owned(), empty_item())] };
    assert_eq!(p.len(), 1);
    assert_eq!(p.paths.iter().count(), 1);
    assert!(!p.is_empty());
}

#[test]
fn paths_dup_path_errors() {
    let keys = vec![path_map_key("/a"), path_map_key("/a")];
    assert!(matches!(check_keys(&keys), Some(KeyProblem::Duplicate(k)) if k == "/a"));
}

#[test]
fn unknown_method_key_rejected() {
    let keys = vec![path_item_key_3_1("gett")];
    assert!(matches!(check_keys(&keys), Some(KeyProblem::Unknown(k)) if k == "gett"));
}

#[test]
fn uppercase_method_rejected() {
    let keys = vec![path_item_key_3_1("GET")];
    assert!(matches!(check_keys(&keys), Some(KeyProblem::Unknown(k)) if k == "GET"));
}

#[test]
fn responses_default_only_is_valid() {
    let spec = spec_with(None, None, None);
    let mut ctx = Context::new(&spec, OptionSet::new());
    Responses { default: Some(RefOr::new_item(ok_response())), responses: None }
        .validate_with_context(&mut ctx, "responses".to_owned());
    assert!(ctx.errors.is_empty(), "default-only Responses should validate clean: {:?}", ctx.errors);
}

#[test]
fn responses_empty_is_rejected() {
    let spec = spec_with(None, None, None);
    let mut ctx = Context::new(&spec, OptionSet::new());
    Responses { default: None, responses: None }.validate_with_context(&mut ctx, "responses".to_owned());
    assert!(
        ctx.errors.iter().any(|e| e.contains("must declare at least one response")),
        "empty Responses should be flagged: {:?}",
        ctx.errors
    );
}

#[test]
fn path_item_keys_accept_fixed_fields_and_methods() {
    let keys: Vec<_> = ["$ref", "summary", "get", "post", "x-internal", "parameters"]
        .iter()
        .map(|k| path_item_key_3_1(k))
        .collect();
    assert!(check_keys(&keys).is_none());
    let dup = vec![path_item_key_3_1("get"), path_item_key_3_1("get")];
    assert!(matches!(check_keys(&dup), Some(KeyProblem::Duplicate(k)) if k == "get"));
}

#[test]
fn test_response_validate() {
    let spec = spec_with(None, None, None);
    let mut ctx = Context::new(&spec, OptionSet::new());
    Response {
        description: "A simple response".to_owned(),
        links: Some(vec![(
            "next".to_owned(),
            RefOr::new_item(Link { operation_ref: None, operation_id: Some("getNextPage".to_owned()), server: None }),
        )]),
    }
    .validate_with_context(&mut ctx, "response".to_owned());
    assert!(ctx.errors.iter().all(|e| e.contains("missing operation with id")), "unexpected errors: {:?}", ctx.errors);

    let mut ctx = Context::new(&spec, OptionSet::new());
    Response { description: "A simple response".to_owned(), links: None }.validate_with_context(&mut ctx, "response".to_owned());
    assert!(ctx.errors.is_empty(), "no errors: {:?}", ctx.errors);

    let mut ctx = Context::new(&spec, OptionSet::new());
    Response { description: String::new(), links: None }.validate_with_context(&mut ctx, "response".to_owned());
    assert!(ctx.errors.contains(&"response.description: must not be empty".to_owned()), "expected error: {:?}", ctx.errors);

    let mut ctx = Context::new(&spec, OptionSet::only(Options::IgnoreEmptyResponseDescription));
    Response { description: String::new(), links: None }.validate_with_context(&mut ctx, "response".to_owned());
    assert!(ctx.errors.is_empty(), "no errors: {:?}", ctx.errors);
}

#[test]
fn response_code_keys_are_three_digits_or_ranges() {
    for k in ["200", "599", "100", "2XX", "5XX"] {
        assert!(is_response_code_key(k), "{k}");
    }
    for k in ["600", "099", "2xx", "+200", "0200", "20", "6XX", ""] {
        assert!(!is_response_code_key(k), "{k}");
    }
}

#[test]
fn path_item_checks_its_operations_and_servers() {
    let spec = spec_with(None, None, None);
    let mut get = op();
    get.tags = Some(vec!["missing".into()]);
    let item = PathItem {
        reference: None,
        operations: Some(vec![("get".to_owned(), get)]),
        parameters: None,
        servers: Some(vec![roas::v3_0::server::Server { url: "".into(), description: None, variables: None }]),
    };
    let mut ctx = Context::new(&spec, OptionSet::new());
    item.validate_with_context(&mut ctx, "p".into());
    assert!(
        ctx.errors.iter().any(|e| e.contains("p.get.tags[0]") && e.contains("`missing` not found in spec")),
        "errors: {:?}",
        ctx.errors
    );
    assert!(ctx.errors.iter().any(|e| e.contains("p.servers[0].url")), "errors: {:?}", ctx.errors);

    let mut ctx = Context::new(&spec, OptionSet::only(Options::IgnoreMissingTags));
    item.validate_with_context(&mut ctx, "p".into());
    assert!(ctx.errors.iter().all(|e| !e.contains("not found in spec")), "errors: {:?}", ctx.errors);
}

#[test]
fn operation_checks_parameters_and_responses() {
    let spec = spec_with(None, None, None);
    let mut get = op();
    get.parameters = Some(vec![RefOr::new_ref("#/components/parameters/Missing".to_owned())]);
    get.responses = Some(Responses { default: None, responses: None });
    let mut ctx = Context::new(&spec, OptionSet::new());
    get.validate_with_context(&mut ctx, "op".into());
    assert!(ctx.errors.iter().any(|e| e.contains("op.parameters[0]")), "errors: {:?}", ctx.errors);
    assert!(ctx.errors.iter().any(|e| e.contains("op.responses")), "errors: {:?}", ctx.errors);

    let mut fine = op();
    fine.responses = Some(Responses { default: Some(RefOr::new_item(ok_response())), responses: None });
    let mut ctx = Context::new(&spec, OptionSet::new());
    fine.validate_with_context(&mut ctx, "op".into());
    assert!(ctx.errors.is_empty(), "errors: {:?}", ctx.errors);
}
