use roas::common::context::{Context, OptionSet, Options, ValidateWithContext};
use roas::common::model::{Operation, PathItem, Paths, Tag};
use roas::v3_0::info::Info;
use roas::v3_0::operation::{Badge, CodeSample};
use roas::v3_0::server::Server;
use roas::v3_0::spec::{Spec, Version};
use roas::v3_1::external_documentation::ExternalDocumentation;
use roas::v3_0::components::{Components, Example, RequestBody};
use roas::v3_0::reference::{resolve_in_map, RefOr};
use roas::common::model::{Parameter, ParameterLocation};

fn info(title: &str, version: &str) -> Info {
    Info {
        title: title.into(),
        description: None,
        terms_of_service: None,
        contact: None,
        license: None,
        version: version.into(),
    }
}

fn spec(paths: Vec<(String, PathItem)>, tags: Option<Vec<Tag>>) -> Spec {
    Spec {
        openapi: Version::default(),
        info: info("x", "1"),
        servers: None,
        paths: Paths { paths },
        components: None,
        security: None,
        tags,
        external_docs: None,
        x_tag_groups: None,
    }
}

fn op() -> Operation {
    Operation {
        tags: None,
        external_docs: None,
        operation_id: None,
        parameters: None,
        request_body: None,
        responses: None,
        security: None,
        servers: None,
        x_code_samples: None,
        x_badges: None,
    }
}

#[test]
fn validate_walks_tags_servers_external_docs() {
    let spec = spec(vec![], Some(vec![Tag { name: "pets".into(), description: None, external_docs: None }]));
    let mut o = op();
    o.tags = Some(vec!["pets".into(), "".into(), "missing".into()]);
    o.servers = Some(vec![Server { url: "".into(), description: None, variables: None }]);
    o.external_docs = Some(ExternalDocumentation { url: "".into(), description: None });

    let mut ctx = Context::new(&spec, OptionSet::new());
    o.validate_with_context(&mut ctx, "op".into());
    assert!(
        ctx.errors.iter().any(|e| e.contains("op.tags[1]") && e.contains("must not be empty")),
        "errors: {:?}",
        ctx.errors
    );
    assert!(ctx.errors.iter().any(|e| e.contains("`missing` not found in spec")), "errors: {:?}", ctx.errors);
    assert!(ctx.errors.iter().any(|e| e.contains("op.servers[0].url")), "errors: {:?}", ctx.errors);
    assert!(ctx.errors.iter().any(|e| e.contains("op.externalDocs.url")), "errors: {:?}", ctx.errors);

    let mut ctx = Context::new(&spec, OptionSet::only(Options::IgnoreMissingTags));
    o.validate_with_context(&mut ctx, "op".into());
    assert!(ctx.errors.iter().all(|e| !e.contains("not found in spec")), "missing-tags should be silenced: {:?}", ctx.errors);
}

#[test]
fn full_spec_validate_drives_path_template_uniqueness() {
    let item = || PathItem { reference: None, operations: Some(vec![("get".to_owned(), op())]), parameters: None, servers: None };
    let spec = spec(vec![("/pets/{id}".into(), item()), ("/pets/{name}".into(), item())], None);
    let err = spec.validate(OptionSet::new()).unwrap_err();
    assert!(
        err.errors.iter().any(|e| e.contains("collapse to the same shape")),
        "expected equivalent-template error: {:?}",
        err.errors
    );
}

#[test]
fn code_sample_and_badge_required_fields() {
    let spec = spec(vec![], None);
    let mut ctx = Context::new(&spec, OptionSet::new());
    CodeSample { lang: String::new(), label: None, source: String::new() }.validate_with_context(&mut ctx, "sample".to_owned());
    assert_eq!(ctx.errors.len(), 2, "expected lang/source errors");
    let mut ctx = Context::new(&spec, OptionSet::new());
    Badge { name: String::new(), position: None, color: None }.validate_with_context(&mut ctx, "badge".to_owned());
    assert_eq!(ctx.errors, vec!["badge.name: must not be empty"]);
}

#[test]
fn valid_document_passes() {
    let mut get = op();
    get.operation_id = Some("listPets".into());
    let spec = spec(
        vec![("/pets".into(), PathItem { reference: None, operations: Some(vec![("get".to_owned(), get)]), parameters: None, servers: None })],
        None,
    );
    assert!(spec.validate(OptionSet::new()).is_ok());
}

#[test]
fn shared_operation_id_is_reported_once() {
    let with_id = |id: &str| {
        let mut o = op();
        o.operation_id = Some(id.into());
        o
    };
    let spec = spec(
        vec![
            ("/a".into(), PathItem { reference: None, operations: Some(vec![("get".to_owned(), with_id("x"))]), parameters: None, servers: None }),
            ("/b".into(), PathItem { reference: None, operations: Some(vec![("post".to_owned(), with_id("x"))]), parameters: None, servers: None }),
        ],
        None,
    );
    let err = spec.validate(OptionSet::new()).unwrap_err();
    assert_eq!(
        err.errors.iter().filter(|e| e.contains("already in use")).cloned().collect::<Vec<_>>(),
        vec!["#.paths[/b].post.operationId: `x` already in use".to_owned()]
    );
    let distinct = self::spec(
        vec![
            ("/a".into(), PathItem { reference: None, operations: Some(vec![("get".to_owned(), with_id("x"))]), parameters: None, servers: None }),
            ("/b".into(), PathItem { reference: None, operations: Some(vec![("post".to_owned(), with_id("y"))]), parameters: None, servers: None }),
        ],
        None,
    );
    assert!(distinct.validate(OptionSet::new()).is_ok());
}

#[test]
fn documentation_extensions_round_trip_and_validate() {
    let mut operation = op();
    operation.x_code_samples = Some(vec![CodeSample {
        lang: "curl".into(),
        label: Some("cURL".into()),
        source: "curl https://example.com/pets".into(),
    }]);
    operation.x_badges = Some(vec![Badge { name: "Beta".into(), position: Some("before".into()), color: Some("purple".into()) }]);
    let spec = spec(vec![], None);
    let mut ctx = Context::new(&spec, OptionSet::new());
    operation.validate_with_context(&mut ctx, "operation".to_owned());
    assert!(ctx.errors.is_empty(), "no errors: {:?}", ctx.errors);

    let mut ctx = Context::new(&spec, OptionSet::new());
    CodeSample { lang: String::new(), label: None, source: String::new() }.validate_with_context(&mut ctx, "sample".to_owned());
    assert_eq!(ctx.errors.len(), 2, "expected lang/source errors");

    let mut ctx = Context::new(&spec, OptionSet::new());
    Badge { name: String::new(), position: None, color: None }.validate_with_context(&mut ctx, "badge".to_owned());
    assert_eq!(ctx.errors, vec!["badge.name: must not be empty"]);
}

fn components_with_example(name: &str) -> Components {
    Components {
        schemas: None,
        responses: None,
        parameters: None,
        examples: Some(vec![(name.to_owned(), RefOr::new_item(Example { summary: None, has_value: true, external_value: None }))]),
        request_bodies: None,
        headers: None,
        security_schemes: None,
        links: None,
        callbacks: None,
        path_items: None,
    }
}

#[test]
fn request_body_ref_that_names_nothing_is_reported() {
    let spec = spec(vec![], None);
    let mut o = op();
    o.request_body = Some(RefOr::new_ref("#/components/requestBodies/Missing".to_owned()));
    let mut ctx = Context::new(&spec, OptionSet::new());
    o.validate_with_context(&mut ctx, "op".into());
    assert!(ctx.errors.iter().any(|e| e.contains("op.requestBody")), "errors: {:?}", ctx.errors);

    let mut ok = op();
    ok.request_body = Some(RefOr::new_item(RequestBody { description: None, content: vec![], required: None }));
    let mut ctx = Context::new(&spec, OptionSet::new());
    ok.validate_with_context(&mut ctx, "op".into());
    assert!(ctx.errors.is_empty(), "errors: {:?}", ctx.errors);
}

#[test]
fn whole_document_reports_unused_components() {
    let mut doc = spec(vec![], None);
    doc.components = Some(components_with_example("Unused"));
    let err = doc.validate(OptionSet::new()).unwrap_err();
    assert!(
        err.errors.iter().any(|e| e.contains("#/components/examples/Unused") && e.contains("unused")),
        "errors: {:?}",
        err.errors
    );
    assert!(doc.validate(OptionSet::only(Options::IgnoreUnusedExamples)).is_ok());

    let mut bad_name = spec(vec![], None);
    bad_name.components = Some(components_with_example("bad name"));
    let err = bad_name.validate(OptionSet::only(Options::IgnoreUnusedExamples)).unwrap_err();
    assert!(err.errors.iter().any(|e| e.contains("#.components.examples") && e.contains("found `bad name`")), "errors: {:?}", err.errors);
}

#[test]
fn equivalent_templates_are_listed_in_debug_form() {
    let item = || PathItem { reference: None, operations: Some(vec![("get".to_owned(), op())]), parameters: None, servers: None };
    let spec = spec(vec![("/pets/{id}".into(), item()), ("/pets/{name}".into(), item())], None);
    let err = spec.validate(OptionSet::new()).unwrap_err();
    assert!(
        err.errors.iter().any(|e| e.contains(r#"templated paths ["/pets/{id}", "/pets/{name}"] collapse"#)),
        "errors: {:?}",
        err.errors
    );
}

#[test]
fn operation_parameters_are_checked() {
    let doc = spec(vec![], None);
    let mut o = op();
    o.parameters = Some(vec![
        RefOr::new_item(Parameter {
            name: "id".into(),
            location: ParameterLocation::Path,
            required: None,
            has_example: false,
            has_examples: false,
            has_schema: true,
            has_content: false,
        }),
        RefOr::new_ref("#/components/parameters/Missing".to_owned()),
    ]);
    let mut ctx = Context::new(&doc, OptionSet::new());
    o.validate_with_context(&mut ctx, "op".into());
    assert!(ctx.errors.iter().any(|e| e == "op.parameters[0].id: must be required"), "errors: {:?}", ctx.errors);
    assert!(ctx.errors.iter().any(|e| e.contains("op.parameters[1]")), "errors: {:?}", ctx.errors);
}

#[test]
fn resolve_in_map_follows_the_document_for_ref_entries() {
    let mut doc = spec(vec![], None);
    doc.components = Some(components_with_example("E"));
    let inline = Some(vec![("S".to_owned(), RefOr::new_item(Example { summary: Some("s".into()), has_value: true, external_value: None }))]);
    let found = resolve_in_map(&doc, "#/components/examples/S", "#/components/examples/", &inline);
    assert_eq!(found.and_then(|e| e.summary.clone()), Some("s".to_owned()));
    let aliases: Option<Vec<(String, RefOr<Example>)>> =
        Some(vec![("A".to_owned(), RefOr::new_ref("#/components/examples/E".to_owned()))]);
    assert!(resolve_in_map(&doc, "#/components/examples/A", "#/components/examples/", &aliases).is_some());
    assert!(resolve_in_map(&doc, "#/components/examples/B", "#/components/examples/", &aliases).is_none());
    let external: Option<Vec<(String, RefOr<Example>)>> =
        Some(vec![("X".to_owned(), RefOr::new_ref("other.yaml#/E".to_owned()))]);
    assert!(resolve_in_map(&doc, "#/components/examples/X", "#/components/examples/", &external).is_none());
}
