use roas::common::context::{Context, OptionSet, Options, ValidateWithContext};
use roas::common::keys::{check_keys, path_item_key_3_0, responses_key, FieldKind, KeyProblem};
use roas::common::model::Paths;
use roas::v3_0::info::Info;
use roas::v3_0::schema::{Schema, SingleSchema, StringSchema};
use roas::v3_0::server::{Server, ServerVariable};
use roas::v3_0::spec::{Spec, Version};

fn spec() -> Spec {
    Spec {
        openapi: Version::default(),
        info: Info {
            title: String::new(),
            description: None,
            terms_of_service: None,
            contact: None,
            license: None,
            version: String::new(),
        },
        servers: None,
        paths: Paths { paths: vec![] },
        components: None,
        security: None,
        tags: None,
        external_docs: None,
        x_tag_groups: None,
    }
}

fn var(default: &str) -> ServerVariable {
    ServerVariable { enum_values: None, default: default.into(), description: None }
}

fn vars(names: &[(&str, &str)]) -> Option<Vec<(String, ServerVariable)>> {
    Some(names.iter().map(|(n, d)| ((*n).to_owned(), var(d))).collect())
}

#[test]
fn test_server_validate() {
    let spec = spec();
    let mut ctx = Context::new(&spec, OptionSet::new());
    Server { url: String::from("https://development.gigantic-server.com/v1"), description: None, variables: None }
        .validate_with_context(&mut ctx, String::from("server"));
    assert_eq!(ctx.errors.len(), 0, "no errors: {:?}", ctx.errors);

    let templated = "https://{username}.gigantic-server.com:{port}/{basePath}";
    Server { url: String::from(templated), description: None, variables: None }
        .validate_with_context(&mut ctx, String::from("server"));
    assert_eq!(ctx.errors.len(), 3, "3 errors: {:?}", ctx.errors);

    ctx = Context::new(&spec, OptionSet::new());
    let defined = [("basePath", "v2"), ("port", "8443"), ("username", "demo")];
    Server { url: String::from(templated), description: None, variables: vars(&defined) }
        .validate_with_context(&mut ctx, String::from("server"));
    assert_eq!(ctx.errors.len(), 0, "all variables are defined: {:?}", ctx.errors);

    let extra = [("basePath", "v2"), ("foo", "bar"), ("port", "8443"), ("username", "demo")];
    Server { url: String::from(templated), description: None, variables: vars(&extra) }
        .validate_with_context(&mut ctx, String::from("server"));
    assert_eq!(ctx.errors.len(), 1, "with used variable: {:?}", ctx.errors);

    ctx = Context::new(&spec, OptionSet::only(Options::IgnoreUnusedServerVariables));
    Server { url: String::from(templated), description: None, variables: vars(&extra) }
        .validate_with_context(&mut ctx, String::from("server"));
    assert_eq!(ctx.errors.len(), 0, "ignore used variable: {:?}", ctx.errors);
}

#[test]
fn v3_0_operation_keys_are_kept_lowercase() {
    let k = path_item_key_3_0("GET");
    assert_eq!(k.kind, FieldKind::Operation);
    assert_eq!(k.name, "get");
    let dup = vec![path_item_key_3_0("get"), path_item_key_3_0("Get")];
    assert!(matches!(check_keys(&dup), Some(KeyProblem::Duplicate(k)) if k == "get"));
    assert_eq!(path_item_key_3_0("x-Ext").name, "x-Ext");
}

#[test]
fn response_keys_accept_codes_and_ranges() {
    assert_eq!(responses_key("200").kind, FieldKind::Code);
    assert_eq!(responses_key("2XX").kind, FieldKind::Code);
    assert_eq!(responses_key("default").kind, FieldKind::Default);
    assert_eq!(responses_key("x-note").kind, FieldKind::Extension);
    assert_eq!(responses_key("600").kind, FieldKind::Unknown);
    assert_eq!(responses_key("2xx").kind, FieldKind::Unknown);
    assert_eq!(responses_key("20").kind, FieldKind::Unknown);
}

#[test]
fn string_pattern_must_compile() {
    let spec = spec();
    let bad = Schema::Single(Box::new(SingleSchema::String(StringSchema {
        title: None,
        pattern: Some("([a-z".into()),
        read_only: None,
        write_only: None,
        external_docs: None,
    })));
    let mut ctx = Context::new(&spec, OptionSet::new());
    bad.validate_with_context(&mut ctx, "s".into());
    assert_eq!(ctx.errors, vec!["s.pattern: must be a valid regular expression, found `([a-z`"]);
    let good = Schema::Single(Box::new(SingleSchema::String(StringSchema {
        title: None,
        pattern: Some("^[a-z]+$".into()),
        read_only: None,
        write_only: None,
        external_docs: None,
    })));
    let mut ctx = Context::new(&spec, OptionSet::new());
    good.validate_with_context(&mut ctx, "s".into());
    assert!(ctx.errors.is_empty(), "errors: {:?}", ctx.errors);
}

#[test]
fn server_url_variable_used_twice_is_defined() {
    let spec = spec();
    let mut ctx = Context::new(&spec, OptionSet::new());
    Server { url: String::from("https://{host}/{host}"), description: None, variables: vars(&[("host", "h")]) }
        .validate_with_context(&mut ctx, String::from("server"));
    assert!(ctx.errors.is_empty(), "errors: {:?}", ctx.errors);
}
