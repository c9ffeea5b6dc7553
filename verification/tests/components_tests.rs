use roas::common::context::{Context, OptionSet};
use roas::common::model::{Callback, Parameter, ParameterLocation, Paths, SecurityScheme, Tag};
use roas::common::reference::ResolveReference;
use roas::v3_0::components::{Components, Example, Header, RequestBody, Response};
use roas::v3_0::info::Info;
use roas::v3_0::link::Link;
use roas::v3_0::reference::RefOr;
use roas::v3_0::schema::{Schema, SingleSchema, StringSchema};
use roas::v3_0::spec::{Spec, Version};

fn info() -> Info {
    Info {
        title: String::new(),
        description: None,
        terms_of_service: None,
        contact: None,
        license: None,
        version: String::new(),
    }
}

fn spec() -> Spec {
    Spec {
        openapi: Version::default(),
        info: info(),
        servers: None,
        paths: Paths { paths: vec![] },
        components: None,
        security: None,
        tags: None,
        external_docs: None,
        x_tag_groups: None,
    }
}

fn no_components() -> Components {
    Components {
        schemas: None,
        responses: None,
        parameters: None,
        examples: None,
        request_bodies: None,
        headers: None,
        security_schemes: None,
        links: None,
        callbacks: None,
        path_items: None,
    }
}

fn string_schema(title: Option<&str>) -> Schema {
    Schema::Single(Box::new(SingleSchema::String(StringSchema {
        title: title.map(|t| t.to_owned()),
        pattern: None,
        read_only: None,
        write_only: None,
        external_docs: None,
    })))
}

fn query(name: &str) -> Parameter {
    Parameter {
        name: name.into(),
        location: ParameterLocation::Query,
        required: None,
        has_example: false,
        has_examples: false,
        has_schema: false,
        has_content: false,
    }
}

fn response() -> Response {
    Response { description: String::new() }
}

fn example() -> Example {
    Example { summary: None, has_value: false, external_value: None }
}

fn request_body() -> RequestBody {
    RequestBody { description: None, content: vec![], required: None }
}

fn header() -> Header {
    Header { description: None, required: None, schema: None, has_example: false, examples: None, content: None }
}

fn link() -> Link {
    Link { operation_ref: None, operation_id: None, server: None }
}

fn callback() -> Callback {
    Callback { paths: vec![] }
}

fn has_key<V>(entries: &Option<Vec<(String, V)>>, key: &str) -> bool {
    entries.as_ref().unwrap().iter().any(|(k, _)| k == key)
}

fn reference_of<D>(r: &RefOr<D>) -> &str {
    match r {
        RefOr::Ref(r) => r.reference.as_str(),
        RefOr::Item(_) => panic!("expected Ref"),
    }
}

#[test]
fn test_define_schema() {
    let mut spec = spec();
    let pet_ref = spec.define_schema("Pet".into(), string_schema(None)).expect("valid name");
    assert_eq!(reference_of(&pet_ref), "#/components/schemas/Pet");
    assert!(spec.components.is_some());
    assert!(has_key(&spec.components.as_ref().unwrap().schemas, "Pet"));
}

#[test]
fn test_define_replaces_existing() {
    let mut spec = spec();
    spec.define_schema("Pet".into(), string_schema(None)).unwrap();
    spec.define_schema("Pet".into(), string_schema(Some("Pet"))).unwrap();
    let schemas = spec.components.unwrap().schemas.unwrap();
    assert_eq!(schemas.len(), 1);
    let pet = &schemas.iter().find(|(k, _)| k == "Pet").unwrap().1;
    match pet {
        RefOr::Item(Schema::Single(s)) => match s.as_ref() {
            SingleSchema::String(s) => assert_eq!(s.title.as_deref(), Some("Pet")),
            _ => panic!("expected String schema"),
        },
        _ => panic!("expected inline schema"),
    }
}

#[test]
fn test_define_rejects_invalid_name() {
    let mut spec = spec();
    let err = spec.define_schema("My Pet".into(), string_schema(None)).unwrap_err();
    assert_eq!(err.name, "My Pet");
    assert!(spec.components.is_none(), "name validation must run before mutation");
}

#[test]
fn all_define_helpers_insert_and_return_ref() {
    let mut spec = spec();
    let r = spec.define_response("Ok".into(), response()).unwrap();
    assert_eq!(reference_of(&r), "#/components/responses/Ok");
    let r = spec.define_parameter("Q".into(), query("q")).unwrap();
    assert_eq!(reference_of(&r), "#/components/parameters/Q");
    let r = spec.define_example("Ex".into(), example()).unwrap();
    assert_eq!(reference_of(&r), "#/components/examples/Ex");
    let r = spec.define_request_body("RB".into(), request_body()).unwrap();
    assert_eq!(reference_of(&r), "#/components/requestBodies/RB");
    let r = spec.define_header("H".into(), header()).unwrap();
    assert_eq!(reference_of(&r), "#/components/headers/H");
    let r = spec.define_security_scheme("S".into(), SecurityScheme::Http).unwrap();
    assert_eq!(reference_of(&r), "#/components/securitySchemes/S");
    let r = spec.define_link("L".into(), link()).unwrap();
    assert_eq!(reference_of(&r), "#/components/links/L");
    let r = spec.define_callback("CB".into(), callback()).unwrap();
    assert_eq!(reference_of(&r), "#/components/callbacks/CB");

    let comp = spec.components.as_ref().unwrap();
    assert!(has_key(&comp.responses, "Ok"));
    assert!(has_key(&comp.parameters, "Q"));
    assert!(has_key(&comp.examples, "Ex"));
    assert!(has_key(&comp.request_bodies, "RB"));
    assert!(has_key(&comp.headers, "H"));
    assert!(has_key(&comp.security_schemes, "S"));
    assert!(has_key(&comp.links, "L"));
    assert!(has_key(&comp.callbacks, "CB"));
}

#[test]
fn define_helpers_reject_invalid_names() {
    let mut spec = spec();
    let bad = "x y";
    assert!(spec.define_response(bad.into(), response()).is_err());
    assert!(spec.define_example(bad.into(), example()).is_err());
    assert!(spec.define_request_body(bad.into(), request_body()).is_err());
    assert!(spec.define_header(bad.into(), header()).is_err());
    assert!(spec.define_security_scheme(bad.into(), SecurityScheme::Http).is_err());
    assert!(spec.define_link(bad.into(), link()).is_err());
    assert!(spec.define_callback(bad.into(), callback()).is_err());
    assert!(spec.components.is_none());
}

#[test]
fn resolve_reference_paths_for_each_component_kind() {
    let mut spec = spec();
    spec.define_schema("S".into(), string_schema(None)).unwrap();
    spec.define_response("R".into(), response()).unwrap();
    spec.define_parameter("P".into(), query("q")).unwrap();
    spec.define_request_body("RB".into(), request_body()).unwrap();
    spec.define_header("H".into(), header()).unwrap();
    spec.define_example("E".into(), example()).unwrap();
    spec.define_callback("CB".into(), callback()).unwrap();
    spec.define_link("L".into(), link()).unwrap();
    spec.define_security_scheme("SS".into(), SecurityScheme::Http).unwrap();

    assert!(<Spec as ResolveReference<Schema>>::resolve_reference(&spec, "#/components/schemas/S").is_some());
    assert!(<Spec as ResolveReference<Response>>::resolve_reference(&spec, "#/components/responses/R").is_some());
    assert!(<Spec as ResolveReference<Parameter>>::resolve_reference(&spec, "#/components/parameters/P").is_some());
    assert!(
        <Spec as ResolveReference<RequestBody>>::resolve_reference(&spec, "#/components/requestBodies/RB").is_some()
    );
    assert!(<Spec as ResolveReference<Header>>::resolve_reference(&spec, "#/components/headers/H").is_some());
    assert!(<Spec as ResolveReference<Example>>::resolve_reference(&spec, "#/components/examples/E").is_some());
    assert!(<Spec as ResolveReference<Callback>>::resolve_reference(&spec, "#/components/callbacks/CB").is_some());
    assert!(<Spec as ResolveReference<Link>>::resolve_reference(&spec, "#/components/links/L").is_some());
    assert!(
        <Spec as ResolveReference<SecurityScheme>>::resolve_reference(&spec, "#/components/securitySchemes/SS")
            .is_some()
    );

    let mut spec = self::spec();
    spec.tags = Some(vec![Tag { name: "pets".into(), description: None, external_docs: None }]);
    assert!(<Spec as ResolveReference<Tag>>::resolve_reference(&spec, "#/tags/pets").is_some());
    assert!(<Spec as ResolveReference<Tag>>::resolve_reference(&spec, "#/tags/missing").is_none());
}

#[test]
fn component_reference_alias_chain_resolves() {
    let mut c = no_components();
    c.schemas = Some(vec![
        ("AliasA".to_owned(), RefOr::new_ref("#/components/schemas/AliasB".to_owned())),
        ("AliasB".to_owned(), RefOr::new_ref("#/components/schemas/Target".to_owned())),
        ("Target".to_owned(), RefOr::new_item(string_schema(None))),
    ]);
    let mut spec = spec();
    spec.components = Some(c);
    assert!(<Spec as ResolveReference<Schema>>::resolve_reference(&spec, "#/components/schemas/AliasA").is_some());
}

#[test]
fn component_reference_alias_cycle_does_not_recurse_forever() {
    let mut c = no_components();
    c.schemas = Some(vec![
        ("AliasA".to_owned(), RefOr::new_ref("#/components/schemas/AliasB".to_owned())),
        ("AliasB".to_owned(), RefOr::new_ref("#/components/schemas/AliasA".to_owned())),
    ]);
    let mut spec = spec();
    spec.components = Some(c);
    assert!(<Spec as ResolveReference<Schema>>::resolve_reference(&spec, "#/components/schemas/AliasA").is_none());

    let mut ctx = Context::new(&spec, OptionSet::new());
    RefOr::<Schema>::new_ref("#/components/schemas/AliasA".to_owned())
        .validate_with_context(&mut ctx, "#.schema".to_owned());
    assert!(
        ctx.errors.iter().any(|e| e.contains("not found")),
        "cycle should be reported as an unresolved ref, not recurse: {:?}",
        ctx.errors
    );
}
