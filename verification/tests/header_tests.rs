use roas::common::context::{Context, OptionSet, ValidateWithContext};
use roas::common::model::Paths;
use roas::v3_0::components::{Components, Encoding, Example, Header, MediaType, RequestBody};
use roas::v3_0::info::Info;
use roas::v3_0::reference::RefOr;
use roas::v3_0::schema::{ObjectSchema, Schema, SingleSchema};
use roas::v3_0::spec::{Spec, Version};

fn spec(components: Option<Components>) -> Spec {
    Spec {
        openapi: Version::default(),
        info: Info {
            title: String::new(),
            description: None,
            terms_of_service: None,
            contact: None,
            license: None,
            version: String::new(),
        },
        servers: None,
        paths: Paths { paths: vec![] },
        components,
        security: None,
        tags: None,
        external_docs: None,
        x_tag_groups: None,
    }
}

fn header() -> Header {
    Header { description: None, required: None, schema: None, has_example: false, examples: None, content: None }
}

fn media() -> MediaType {
    MediaType { schema: None, examples: None, encoding: None }
}

fn object_schema() -> RefOr<Schema> {
    RefOr::new_item(Schema::Single(Box::new(SingleSchema::Object(ObjectSchema {
        properties: None,
        additional_properties: None,
        read_only: None,
        write_only: None,
        external_docs: None,
    }))))
}

fn example() -> Example {
    Example { summary: None, has_value: false, external_value: None }
}

#[test]
fn header_must_define_schema_or_content() {
    let spec = spec(None);
    let mut ctx = Context::new(&spec, OptionSet::new());
    header().validate_with_context(&mut ctx, "h".into());
    assert!(ctx.errors.iter().any(|e| e.contains("must define either `schema` or `content`")), "errors: {:?}", ctx.errors);
}

#[test]
fn validate_schema_and_content_mutex() {
    let spec = spec(None);
    let mut ctx = Context::new(&spec, OptionSet::new());
    let mut h = header();
    h.schema = Some(object_schema());
    h.content = Some(vec![("application/json".to_owned(), media())]);
    h.validate_with_context(&mut ctx, "h".into());
    assert!(ctx.errors.iter().any(|e| e.contains("schema and content are mutually exclusive")), "errors: {:?}", ctx.errors);
}

#[test]
fn validate_example_examples_xor_and_content_size() {
    let spec = spec(None);
    let mut ctx = Context::new(&spec, OptionSet::new());
    let mut h = header();
    h.has_example = true;
    h.examples = Some(vec![("a".into(), RefOr::new_item(example()))]);
    h.validate_with_context(&mut ctx, "h".into());
    assert!(ctx.errors.iter().any(|e| e.contains("example and examples")), "errors: {:?}", ctx.errors);

    let mut ctx = Context::new(&spec, OptionSet::new());
    let mut h = header();
    h.content = Some(vec![("application/json".to_owned(), media()), ("text/plain".to_owned(), media())]);
    h.validate_with_context(&mut ctx, "h".into());
    assert!(
        ctx.errors.iter().any(|e| e.contains("must contain exactly one media type entry")),
        "errors: {:?}",
        ctx.errors
    );
    assert!(ctx.errors.contains(&"h.content: must contain exactly one media type entry, found 2".to_owned()));
}

#[test]
fn encoding_header_refs_are_followed_once() {
    let mut target = header();
    target.schema = Some(object_schema());
    target.content = Some(vec![("a".to_owned(), media()), ("b".to_owned(), media())]);
    let mut c = Components {
        schemas: None,
        responses: None,
        parameters: None,
        examples: None,
        request_bodies: None,
        headers: Some(vec![("Rate".to_owned(), RefOr::new_item(target))]),
        security_schemes: None,
        links: None,
        callbacks: None,
        path_items: None,
    };
    c.examples = None;
    let spec = spec(Some(c));
    let enc = Encoding {
        headers: Some(vec![
            ("X-Rate".to_owned(), RefOr::new_ref("#/components/headers/Rate".to_owned())),
            ("X-Again".to_owned(), RefOr::new_ref("#/components/headers/Rate".to_owned())),
            ("X-Missing".to_owned(), RefOr::new_ref("#/components/headers/Nope".to_owned())),
        ]),
    };
    let mut m = media();
    m.encoding = Some(vec![("file".to_owned(), enc)]);
    let body = RequestBody { description: None, content: vec![("multipart/form-data".to_owned(), m)], required: None };
    let mut ctx = Context::new(&spec, OptionSet::new());
    body.validate_with_context(&mut ctx, "rb".into());
    assert_eq!(
        ctx.errors,
        vec![
            "#/components/headers/Rate: schema and content are mutually exclusive".to_owned(),
            "#/components/headers/Rate.content: must contain exactly one media type entry, found 2".to_owned(),
            "rb.content[multipart/form-data].encoding[file].headers[X-Missing].$ref: `#/components/headers/Nope` not found"
                .to_owned(),
        ]
    );
}

#[test]
fn example_value_and_external_value_exclusive() {
    let spec = spec(None);
    let mut ctx = Context::new(&spec, OptionSet::new());
    Example { summary: None, has_value: true, external_value: Some("https://x.example/e.json".into()) }
        .validate_with_context(&mut ctx, "e".into());
    assert_eq!(ctx.errors, vec!["e: value and externalValue are mutually exclusive"]);
}

#[test]
fn media_type_schema_and_example_refs_are_checked_once() {
    let spec = spec(None);
    let mut m = media();
    m.schema = Some(RefOr::new_ref("#/components/schemas/Missing".to_owned()));
    m.examples = Some(vec![
        ("a".to_owned(), RefOr::new_ref("#/components/examples/Gone".to_owned())),
        ("b".to_owned(), RefOr::new_ref("#/components/examples/Gone".to_owned())),
        ("c".to_owned(), RefOr::new_ref(String::new())),
    ]);
    let mut ctx = Context::new(&spec, OptionSet::new());
    m.validate_with_context(&mut ctx, "m".into());
    assert_eq!(
        ctx.errors,
        vec![
            "m.schema.$ref: `#/components/schemas/Missing` not found".to_owned(),
            "m.examples[a].$ref: `#/components/examples/Gone` not found".to_owned(),
            "m.examples[c].$ref: must not be empty".to_owned(),
            "m.examples[c].$ref: external reference `` is not supported".to_owned(),
        ]
    );
}
