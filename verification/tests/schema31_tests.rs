use roas::common::context::{Context, OptionSet, ValidateWithContext};
use roas::v3_0::info::Info;
use roas::v3_1::discriminator::Discriminator;
use roas::v3_1::external_documentation::ExternalDocumentation;
use roas::v3_1::schema::{
    AllOfSchema, AnyOfSchema, ArraySchema, BooleanSchema, EmptySchema, IntegerSchema, MultiSchema, MultipleOf, NullSchema,
    NumberSchema, ObjectSchema, OneOfSchema, Schema, SingleSchema, StringSchema,
};

fn info() -> Info {
    Info {
        title: String::new(),
        description: None,
        terms_of_service: None,
        contact: None,
        license: None,
        version: String::new(),
    }
}

fn spec31() -> roas::v3_1::spec::Spec {
    roas::v3_1::spec::Spec {
        openapi: roas::v3_1::spec::Version::default(),
        info: info(),
        servers: None,
        paths: None,
        webhooks: None,
        components: None,
        security: None,
        tags: None,
        external_docs: None,
    }
}

fn bad_docs() -> Option<ExternalDocumentation> {
    Some(ExternalDocumentation { url: "".into(), description: None })
}


pub fn string(min_length: Option<u64>, max_length: Option<u64>) -> StringSchema {
    StringSchema {
        title: None,
        enum_values: None,
        x_enum_descriptions: None,
        max_length,
        min_length,
        read_only: None,
        write_only: None,
        external_docs: None,
    }
}

pub fn multiple_of(m: f64) -> MultipleOf {
    MultipleOf { positive: m > 0.0, text: format!("{m}") }
}

pub fn array(min_items: Option<u64>, max_items: Option<u64>) -> ArraySchema {
    ArraySchema { items: None, max_items, min_items, read_only: None, write_only: None, external_docs: None }
}

pub fn object(min_properties: Option<u64>, max_properties: Option<u64>) -> ObjectSchema {
    ObjectSchema {
        properties: None,
        pattern_properties: None,
        max_properties,
        min_properties,
        additional_properties: None,
        unevaluated_properties: None,
        property_names: None,
        x_tags: None,
        x_discriminator_value: None,
        read_only: None,
        write_only: None,
        external_docs: None,
    }
}

#[test]
fn single_schema_display_each_variant() {
    assert_eq!(SingleSchema::String(string(None, None)).to_string(), "string");
    assert_eq!(
        SingleSchema::Integer(IntegerSchema {
            multiple_of: None,
            enum_values: None,
            x_enum_descriptions: None,
            read_only: None,
            write_only: None,
            external_docs: None
        })
        .to_string(),
        "integer"
    );
    assert_eq!(
        SingleSchema::Number(NumberSchema {
            multiple_of: None,
            enum_len: None,
            x_enum_descriptions: None,
            read_only: None,
            write_only: None,
            external_docs: None
        })
        .to_string(),
        "number"
    );
    assert_eq!(
        SingleSchema::Boolean(BooleanSchema { read_only: None, write_only: None, external_docs: None }).to_string(),
        "boolean"
    );
    assert_eq!(SingleSchema::Array(array(None, None)).to_string(), "array");
    assert_eq!(SingleSchema::Object(object(None, None)).to_string(), "object");
    assert_eq!(SingleSchema::Null(NullSchema { read_only: None, write_only: None, external_docs: None }).to_string(), "null");
}

#[test]
fn composition_validate_dispatches_with_discriminator() {
    let spec = spec31();
    let bad_disc = || Some(Discriminator { property_name: String::new(), mapping: None });
    for s in [
        Schema::AllOf(Box::new(AllOfSchema { all_of: vec![], discriminator: bad_disc() })),
        Schema::AnyOf(Box::new(AnyOfSchema { any_of: vec![], discriminator: bad_disc() })),
        Schema::OneOf(Box::new(OneOfSchema { one_of: vec![], discriminator: bad_disc() })),
    ] {
        let mut ctx = Context::new(&spec, OptionSet::new());
        s.validate_with_context(&mut ctx, "s".into());
        assert!(
            ctx.errors.iter().any(|e| e.contains("propertyName") && e.contains("must not be empty")),
            "expected discriminator empty-propertyName error: {:?}",
            ctx.errors
        );
    }
}

#[test]
fn boolean_and_null_variants_validate() {
    let spec = spec31();
    for s in [
        Schema::Single(Box::new(SingleSchema::Boolean(BooleanSchema {
            read_only: None,
            write_only: None,
            external_docs: bad_docs(),
        }))),
        Schema::Single(Box::new(SingleSchema::Null(NullSchema { read_only: None, write_only: None, external_docs: bad_docs() }))),
    ] {
        let mut ctx = Context::new(&spec, OptionSet::new());
        s.validate_with_context(&mut ctx, "s".into());
        assert!(ctx.errors.iter().any(|e| e.contains("externalDocs.url")), "expected externalDocs walk: {:?}", ctx.errors);
    }
}

#[test]
fn keyword_consistency_violations_reported() {
    let spec = spec31();
    let cases: Vec<(&str, Schema, &str)> = vec![
        ("string min/max", Schema::Single(Box::new(SingleSchema::String(string(Some(10), Some(5))))), "minLength"),
        (
            "integer multipleOf <= 0",
            Schema::Single(Box::new(SingleSchema::Integer(IntegerSchema {
                multiple_of: Some(multiple_of(0.0)),
                enum_values: None,
                x_enum_descriptions: None,
                read_only: None,
                write_only: None,
                external_docs: None,
            }))),
            "multipleOf",
        ),
        (
            "number multipleOf < 0",
            Schema::Single(Box::new(SingleSchema::Number(NumberSchema {
                multiple_of: Some(multiple_of(-1.0)),
                enum_len: None,
                x_enum_descriptions: None,
                read_only: None,
                write_only: None,
                external_docs: None,
            }))),
            "multipleOf",
        ),
        ("array min/max items", Schema::Single(Box::new(SingleSchema::Array(array(Some(10), Some(5))))), "minItems"),
        (
            "object min/max properties",
            Schema::Single(Box::new(SingleSchema::Object(object(Some(10), Some(5))))),
            "minProperties",
        ),
    ];
    for (label, schema, needle) in cases {
        let mut ctx = Context::new(&spec, OptionSet::new());
        schema.validate_with_context(&mut ctx, "s".into());
        assert!(ctx.errors.iter().any(|e| e.contains(needle)), "case `{label}`: expected `{needle}` error: {:?}", ctx.errors);
    }
}

#[test]
fn multi_schema_type_array_must_be_non_empty() {
    let spec = spec31();
    let mut ctx = Context::new(&spec, OptionSet::new());
    let s = Schema::Multi(Box::new(MultiSchema { schema_types: vec![], read_only: None, write_only: None, external_docs: None }));
    s.validate_with_context(&mut ctx, "s".into());
    assert!(
        ctx.errors.iter().any(|e| e.contains("s.type") && e.contains("must contain at least one element")),
        "errors: {:?}",
        ctx.errors
    );
}

#[test]
fn empty_schema_validates_clean() {
    let spec = spec31();
    let mut ctx = Context::new(&spec, OptionSet::new());
    Schema::Empty(EmptySchema).validate_with_context(&mut ctx, "s".into());
    assert!(ctx.errors.is_empty(), "errors: {:?}", ctx.errors);
}

#[test]
fn composition_arrays_must_be_non_empty() {
    let spec = spec31();
    for (s, kw) in [
        (Schema::AllOf(Box::new(AllOfSchema { all_of: vec![], discriminator: None })), "allOf"),
        (Schema::AnyOf(Box::new(AnyOfSchema { any_of: vec![], discriminator: None })), "anyOf"),
        (Schema::OneOf(Box::new(OneOfSchema { one_of: vec![], discriminator: None })), "oneOf"),
    ] {
        let mut ctx = Context::new(&spec, OptionSet::new());
        s.validate_with_context(&mut ctx, "s".into());
        assert!(
            ctx.errors.iter().any(|e| e.contains(&format!("`{kw}` must be a non-empty array"))),
            "{kw} errors: {:?}",
            ctx.errors
        );
    }
}

#[test]
fn enum_descriptions_length_checked() {
    let spec = spec31();
    let mut st = string(None, None);
    st.enum_values = Some(vec!["open".to_owned(), "closed".to_owned()]);
    st.x_enum_descriptions = Some(vec!["Open state".to_owned()]);
    let mut ctx = Context::new(&spec, OptionSet::new());
    Schema::Single(Box::new(SingleSchema::String(st))).validate_with_context(&mut ctx, "s".into());
    assert!(ctx.errors.iter().any(|e| e.contains("s.x-enumDescriptions")), "enum descriptions length: {:?}", ctx.errors);
}

#[test]
fn multiple_of_message_names_the_value() {
    let spec = spec31();
    let mut ctx = Context::new(&spec, OptionSet::new());
    Schema::Single(Box::new(SingleSchema::Number(NumberSchema {
        multiple_of: Some(multiple_of(-1.5)),
        enum_len: None,
        x_enum_descriptions: None,
        read_only: None,
        write_only: None,
        external_docs: None,
    })))
    .validate_with_context(&mut ctx, "n".into());
    assert_eq!(ctx.errors, vec!["n: `multipleOf` (-1.5) must be > 0"]);
    let mut ctx = Context::new(&spec, OptionSet::new());
    Schema::Single(Box::new(SingleSchema::Number(NumberSchema {
        multiple_of: Some(multiple_of(0.5)),
        enum_len: None,
        x_enum_descriptions: None,
        read_only: None,
        write_only: None,
        external_docs: None,
    })))
    .validate_with_context(&mut ctx, "n".into());
    assert!(ctx.errors.is_empty(), "errors: {:?}", ctx.errors);
}

#[test]
fn schema_from_bool_helper() {
    let t: Schema = true.into();
    let f: Schema = false.into();
    assert!(matches!(t, Schema::Bool(true)));
    assert!(matches!(f, Schema::Bool(false)));
}

#[test]
fn schema_default_is_empty_object() {
    assert!(matches!(Schema::default(), Schema::Single(_)));
    assert!(matches!(SingleSchema::default(), SingleSchema::Object(_)));
    let spec = spec31();
    let mut ctx = Context::new(&spec, OptionSet::new());
    Schema::default().validate_with_context(&mut ctx, "s".into());
    assert!(ctx.errors.is_empty(), "errors: {:?}", ctx.errors);
}

#[test]
fn read_only_write_only_mutex() {
    let spec = spec31();
    let mut st = string(None, None);
    st.read_only = Some(true);
    st.write_only = Some(true);
    let mut ctx = Context::new(&spec, OptionSet::new());
    Schema::Single(Box::new(SingleSchema::String(st))).validate_with_context(&mut ctx, "s".into());
    assert!(
        ctx.errors.iter().any(|e| e.contains("readOnly and .writeOnly are mutually exclusive")),
        "errors: {:?}",
        ctx.errors
    );
}

#[test]
fn common_codegen_extensions_round_trip_and_validate() {
    let spec = spec31();
    let mut st = string(None, None);
    st.enum_values = Some(vec!["open".to_owned(), "closed".to_owned()]);
    st.x_enum_descriptions = Some(vec!["Open state".to_owned(), "Closed state".to_owned()]);
    let mut ctx = Context::new(&spec, OptionSet::new());
    Schema::Single(Box::new(SingleSchema::String(st))).validate_with_context(&mut ctx, "s".into());
    assert!(ctx.errors.is_empty(), "no errors: {:?}", ctx.errors);

    let mut ob = object(None, None);
    ob.x_tags = Some(vec!["models".to_owned()]);
    ob.x_discriminator_value = Some("pet".to_owned());
    let mut ctx = Context::new(&spec, OptionSet::new());
    Schema::Single(Box::new(SingleSchema::Object(ob))).validate_with_context(&mut ctx, "s".into());
    assert!(ctx.errors.is_empty(), "no errors: {:?}", ctx.errors);

    let mut st = string(None, None);
    st.enum_values = Some(vec!["open".to_owned(), "closed".to_owned()]);
    st.x_enum_descriptions = Some(vec!["Open state".to_owned()]);
    let mut ctx = Context::new(&spec, OptionSet::new());
    Schema::Single(Box::new(SingleSchema::String(st))).validate_with_context(&mut ctx, "s".into());
    assert!(ctx.errors.iter().any(|e| e.contains("s.x-enumDescriptions")), "enum descriptions length: {:?}", ctx.errors);
}

#[test]
fn test_multi_serialize_deserialize() {
    let spec_owner = spec31();
    let mut ctx = Context::new(&spec_owner, OptionSet::new());
    let multi = MultiSchema {
        schema_types: vec![
            "string".into(),
            "integer".into(),
            "number".into(),
            "boolean".into(),
            "object".into(),
            "array".into(),
            "null".into(),
        ],
        read_only: None,
        write_only: None,
        external_docs: None,
    };
    Schema::Multi(Box::new(multi)).validate_with_context(&mut ctx, "schema".into());
    assert!(ctx.errors.is_empty(), "all primitive types should be valid: {:?}", ctx.errors);
}

#[test]
fn boolean_schema_true_and_false_round_trip() {
    assert!(matches!(Schema::from(true), Schema::Bool(true)));
    assert!(matches!(Schema::from(false), Schema::Bool(false)));
    let spec = spec31();
    let mut ctx = Context::new(&spec, OptionSet::new());
    Schema::Bool(true).validate_with_context(&mut ctx, "s".into());
    assert!(ctx.errors.is_empty(), "errors: {:?}", ctx.errors);
}
