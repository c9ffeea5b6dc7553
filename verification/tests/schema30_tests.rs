use roas::common::context::{Context, OptionSet, ValidateWithContext};
use roas::common::model::Paths;
use roas::v3_0::info::Info;
use roas::v3_1::external_documentation::ExternalDocumentation;
use roas::common::model::BoolOr;
use roas::v3_0::discriminator::Discriminator;
use roas::v3_0::reference::RefOr;
use roas::v3_0::schema::{
    AllOfSchema, ArraySchema, BooleanSchema, IntegerSchema, NullSchema, NumberSchema, ObjectSchema, Schema, SingleSchema,
    StringSchema,
};

fn info() -> Info {
    Info {
        title: String::new(),
        description: None,
        terms_of_service: None,
        contact: None,
        license: None,
        version: String::new(),
    }
}

fn spec30() -> roas::v3_0::spec::Spec {
    roas::v3_0::spec::Spec {
        openapi: roas::v3_0::spec::Version::default(),
        info: info(),
        servers: None,
        paths: Paths { paths: vec![] },
        components: None,
        security: None,
        tags: None,
        external_docs: None,
        x_tag_groups: None,
    }
}

fn bad_docs() -> Option<ExternalDocumentation> {
    Some(ExternalDocumentation { url: "".into(), description: None })
}


pub fn all_variants(
    read_only: Option<bool>,
    write_only: Option<bool>,
    docs: &dyn Fn() -> Option<ExternalDocumentation>,
) -> Vec<(String, Schema)> {
    let single = |s: SingleSchema| Schema::Single(Box::new(s));
    vec![
        (
            "string".into(),
            single(SingleSchema::String(StringSchema {
                title: None,
                pattern: None,
                read_only,
                write_only,
                external_docs: docs(),
            })),
        ),
        ("integer".into(), single(SingleSchema::Integer(IntegerSchema { read_only, write_only, external_docs: docs() }))),
        ("number".into(), single(SingleSchema::Number(NumberSchema { read_only, write_only, external_docs: docs() }))),
        ("boolean".into(), single(SingleSchema::Boolean(BooleanSchema { read_only, write_only, external_docs: docs() }))),
        (
            "array".into(),
            single(SingleSchema::Array(ArraySchema { items: None, read_only, write_only, external_docs: docs() })),
        ),
        (
            "object".into(),
            single(SingleSchema::Object(ObjectSchema {
                properties: None,
                additional_properties: None,
                read_only,
                write_only,
                external_docs: docs(),
            })),
        ),
        ("null".into(), single(SingleSchema::Null(NullSchema { read_only, write_only, external_docs: docs() }))),
    ]
}

#[test]
fn read_only_write_only_mutex_each_variant() {
    let spec = spec30();
    for (name, schema) in &all_variants(Some(true), Some(true), &|| None) {
        let mut ctx = Context::new(&spec, OptionSet::new());
        schema.validate_with_context(&mut ctx, format!("s.{name}"));
        assert!(
            ctx.errors.iter().any(|e| e.contains(".readOnly and .writeOnly are mutually exclusive")),
            "variant `{name}` should reject readOnly+writeOnly: errors {:?}",
            ctx.errors
        );
    }
}

#[test]
fn read_only_xor_write_only_individually_ok() {
    let spec = spec30();
    let only_read = all_variants(Some(true), None, &|| None).remove(0).1;
    let only_write = all_variants(None, Some(true), &|| None).remove(0).1;
    for s in [only_read, only_write] {
        let mut ctx = Context::new(&spec, OptionSet::new());
        s.validate_with_context(&mut ctx, "s".into());
        assert!(!ctx.errors.iter().any(|e| e.contains("mutually exclusive")), "single flag should not error: {:?}", ctx.errors);
    }
}

#[test]
fn validate_walks_external_docs_per_variant() {
    let spec = spec30();
    for (i, (_, schema)) in all_variants(None, None, &bad_docs).iter().enumerate() {
        let mut ctx = Context::new(&spec, OptionSet::new());
        schema.validate_with_context(&mut ctx, format!("c[{i}]"));
        assert!(ctx.errors.iter().any(|e| e.contains("externalDocs")), "case {i}: errors: {:?}", ctx.errors);
    }
}

#[test]
fn schema_display_impl() {
    let names: Vec<String> =
        all_variants(None, None, &|| None).iter().map(|(_, s)| match s {
            Schema::Single(s) => s.to_string(),
            _ => unreachable!(),
        }).collect();
    assert_eq!(names, vec!["string", "integer", "number", "boolean", "array", "object", "null"]);
}


#[test]
fn schema_default_is_empty_object_30() {
    match Schema::default() {
        Schema::Single(inner) => assert!(matches!(*inner, SingleSchema::Object(_))),
        _ => panic!("default should be Single"),
    }
}

fn bad_string() -> RefOr<Schema> {
    RefOr::Item(Schema::Single(Box::new(SingleSchema::String(StringSchema {
        title: None,
        pattern: Some("[".into()),
        read_only: None,
        write_only: None,
        external_docs: None,
    }))))
}

fn errors_of(schema: &Schema, path: &str) -> Vec<String> {
    let spec = spec30();
    let mut ctx = Context::new(&spec, OptionSet::new());
    schema.validate_with_context(&mut ctx, path.to_string());
    ctx.errors
}

#[test]
fn object_validate_walks_properties() {
    let s = Schema::Single(Box::new(SingleSchema::Object(ObjectSchema {
        properties: Some(vec![("bad".into(), bad_string())]),
        additional_properties: None,
        read_only: None,
        write_only: None,
        external_docs: None,
    })));
    let errors = errors_of(&s, "obj");
    assert!(errors.iter().any(|e| e.contains("obj.properties.bad")), "errors: {:?}", errors);
}

#[test]
fn one_of_any_of_not_round_trip_and_validate() {
    let composition = Schema::AllOf(Box::new(AllOfSchema {
        all_of: vec![bad_string()],
        discriminator: Some(Discriminator { property_name: String::new(), mapping: None }),
    }));
    let errors = errors_of(&composition, "s");
    assert!(errors.iter().any(|e| e.contains("pattern")), "expected nested string pattern error: {:?}", errors);
    assert!(
        errors.iter().any(|e| e.contains("propertyName")),
        "expected discriminator empty propertyName: {:?}",
        errors
    );
}

#[test]
fn additional_properties_bool_and_schema_round_trip() {
    let parsed = Schema::Single(Box::new(SingleSchema::Object(ObjectSchema {
        properties: None,
        additional_properties: Some(BoolOr::Item(bad_string())),
        read_only: None,
        write_only: None,
        external_docs: None,
    })));
    let errors = errors_of(&parsed, "s");
    assert!(errors.iter().any(|e| e.contains("additionalProperties")), "expected additionalProperties walk error: {:?}", errors);
}

#[test]
fn array_items_validate_walks() {
    let parsed = Schema::Single(Box::new(SingleSchema::Array(ArraySchema {
        items: Some(bad_string()),
        read_only: None,
        write_only: None,
        external_docs: None,
    })));
    let errors = errors_of(&parsed, "arr");
    assert!(errors.iter().any(|e| e.contains("arr.items.pattern")), "errors: {:?}", errors);
}
