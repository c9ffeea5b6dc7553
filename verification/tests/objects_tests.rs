use roas::common::context::{Context, OptionSet, Options, ValidateWithContext};
use roas::common::model::{Paths, Tag};
use roas::v3_0::info::{Contact, Info, License};
use roas::v3_0::server::ServerVariable;
use roas::v3_0::tag::TagGroup;
use roas::v3_1::external_documentation::ExternalDocumentation;

fn info(title: &str, version: &str) -> Info {
    Info {
        title: title.into(),
        description: None,
        terms_of_service: None,
        contact: None,
        license: None,
        version: version.into(),
    }
}

fn spec() -> roas::v3_0::spec::Spec {
    roas::v3_0::spec::Spec {
        openapi: roas::v3_0::spec::Version::default(),
        info: info("", ""),
        servers: None,
        paths: Paths { paths: vec![] },
        components: None,
        security: None,
        tags: None,
        external_docs: None,
        x_tag_groups: None,
    }
}

fn spec31() -> roas::v3_1::spec::Spec {
    roas::v3_1::spec::Spec {
        openapi: roas::v3_1::spec::Version::default(),
        info: info("", ""),
        servers: None,
        paths: None,
        webhooks: None,
        components: None,
        security: None,
        tags: None,
        external_docs: None,
    }
}

fn contact(name: Option<&str>, url: Option<&str>, email: Option<&str>) -> Contact {
    Contact { name: name.map(String::from), url: url.map(String::from), email: email.map(String::from) }
}

fn license(name: &str, url: Option<&str>) -> License {
    License { name: name.into(), url: url.map(String::from) }
}

#[test]
fn test_contact_validate() {
    let spec = spec();
    let mut ctx = Context::new(&spec, OptionSet::new());
    contact(Some("API Support"), Some("https://www.example.com/support"), Some("support@example.com"))
        .validate_with_context(&mut ctx, String::from("contact"));
    assert!(ctx.errors.is_empty(), "no errors: {:?}", ctx.errors);

    contact(None, Some("https://www.example.com/support"), Some("support@example.com"))
        .validate_with_context(&mut ctx, String::from("contact"));
    assert!(ctx.errors.is_empty(), "no errors: {:?}", ctx.errors);

    contact(None, Some("foo - bar"), None).validate_with_context(&mut ctx, String::from("contact"));
    assert_eq!(ctx.errors.len(), 1, "incorrect url: {:?}", ctx.errors);

    ctx = Context::new(&spec, OptionSet::new());
    contact(None, None, Some("foo - bar")).validate_with_context(&mut ctx, String::from("contact"));
    assert_eq!(ctx.errors.len(), 1, "incorrect email: {:?}", ctx.errors);
}

#[test]
fn test_license_validate() {
    let spec = spec();
    let mut ctx = Context::new(&spec, OptionSet::new());
    license("Apache 2.0", Some("https://www.apache.org/licenses/LICENSE-2.0.html"))
        .validate_with_context(&mut ctx, String::from("license"));
    assert!(ctx.errors.is_empty(), "no errors: {:?}", ctx.errors);

    license("Apache 2.0", None).validate_with_context(&mut ctx, String::from("license"));
    assert!(ctx.errors.is_empty(), "no errors: {:?}", ctx.errors);

    ctx = Context::new(&spec, OptionSet::new());
    license("", None).validate_with_context(&mut ctx, String::from("license"));
    assert_eq!(ctx.errors.len(), 1, "empty name: {:?}", ctx.errors);

    ctx = Context::new(&spec, OptionSet::new());
    license("Apache 2.0", Some("foo - bar")).validate_with_context(&mut ctx, String::from("license"));
    assert_eq!(ctx.errors.len(), 1, "incorrect url: {:?}", ctx.errors);
}

#[test]
fn test_info_validate() {
    let spec = spec();
    let mut ctx = Context::new(&spec, OptionSet::new());
    let mut full = info("Swagger Sample App", "1.0.1");
    full.description = Some(String::from("This is a sample server Petstore server."));
    full.terms_of_service = Some(String::from("https://example.com/terms/"));
    full.contact = Some(contact(Some("API Support"), Some("https://www.example.com/support"), Some("support@example.com")));
    full.license = Some(license("Apache 2.0", Some("https://www.apache.org/licenses/LICENSE-2.0.html")));
    full.validate_with_context(&mut ctx, String::from("info"));
    assert!(ctx.errors.is_empty(), "no errors: {:?}", ctx.errors);

    let mut partial = info("Swagger Sample App", "1.0.1");
    partial.description = Some(String::from("This is a sample server Petstore server."));
    partial.terms_of_service = Some(String::from("https://example.com/terms/"));
    partial.validate_with_context(&mut ctx, String::from("info"));
    assert!(ctx.errors.is_empty(), "no errors: {:?}", ctx.errors);

    info("Swagger Sample App", "1.0.1").validate_with_context(&mut ctx, String::from("info"));
    assert!(ctx.errors.is_empty(), "no errors: {:?}", ctx.errors);

    info("Swagger Sample App", "").validate_with_context(&mut ctx, String::from("info"));
    assert_eq!(ctx.errors.len(), 1, "empty version: {:?}", ctx.errors);

    ctx = Context::new(&spec, OptionSet::new());
    info("", "1.0.1").validate_with_context(&mut ctx, String::from("info"));
    assert_eq!(ctx.errors.len(), 1, "empty title: {:?}", ctx.errors);

    ctx = Context::new(&spec, OptionSet::only(Options::IgnoreEmptyInfoTitle));
    info("", "1.0.1").validate_with_context(&mut ctx, String::from("info"));
    assert!(ctx.errors.is_empty(), "no errors: {:?}", ctx.errors);

    ctx = Context::new(&spec, OptionSet::only(Options::IgnoreEmptyInfoVersion));
    info("Swagger Sample App", "").validate_with_context(&mut ctx, String::from("info"));
    assert!(ctx.errors.is_empty(), "no errors: {:?}", ctx.errors);
}

#[test]
fn test_server_variable_validate() {
    let spec = spec();
    let mut ctx = Context::new(&spec, OptionSet::new());
    ServerVariable {
        enum_values: Some(vec![String::from("8443"), String::from("443")]),
        default: String::from("8443"),
        description: None,
    }
    .validate_with_context(&mut ctx, String::from("serverVariable"));
    assert_eq!(ctx.errors.len(), 0, "no errors: {:?}", ctx.errors);

    ServerVariable { enum_values: Some(vec![String::from("443")]), default: String::from("8443"), description: None }
        .validate_with_context(&mut ctx, String::from("serverVariable"));
    assert_eq!(ctx.errors.len(), 1, "one error: {:?}", ctx.errors);
    assert_eq!(ctx.errors[0], "serverVariable.default: `8443` must be in enum values: [\"443\"]",);
}

#[test]
fn validate() {
    let spec = spec();
    let mut ctx = Context::new(&spec, OptionSet::new());
    Tag {
        name: String::from("pet"),
        description: Some(String::from("Pets operations")),
        external_docs: Some(ExternalDocumentation {
            description: Some(String::from("Find more info here")),
            url: String::from("https://example.com/about"),
        }),
    }
    .validate_with_context(&mut ctx, String::from("tag"));
    assert!(ctx.errors.is_empty(), "no errors: {:?}", ctx.errors);

    Tag { name: String::from("pet"), description: Some(String::from("Pets operations")), external_docs: None }
        .validate_with_context(&mut ctx, String::from("tag"));
    assert!(ctx.errors.is_empty(), "no errors: {:?}", ctx.errors);

    Tag { name: String::from("pet"), description: None, external_docs: None }
        .validate_with_context(&mut ctx, String::from("tag"));
    assert!(ctx.errors.is_empty(), "no errors: {:?}", ctx.errors);

    Tag { name: String::new(), description: None, external_docs: None }.validate_with_context(&mut ctx, String::from("tag"));
    assert_eq!(ctx.errors, vec!["tag.name: must not be empty"], "name error: {:?}", ctx.errors);
}

#[test]
fn test_external_documentation_validate() {
    let spec = spec31();
    let mut ctx = Context::new(&spec, OptionSet::new());
    let ed = ExternalDocumentation { url: String::from("https://swagger.io"), description: Some(String::from("Find more info here")) };
    ed.validate_with_context(&mut ctx, String::from("externalDocs"));
    assert!(ctx.errors.is_empty(), "Validation should pass: {:?}", ctx.errors);

    let mut ctx = Context::new(&spec, OptionSet::new());
    let ed = ExternalDocumentation { url: String::new(), description: Some(String::from("Find more info here")) };
    ed.validate_with_context(&mut ctx, String::from("externalDocs"));
    assert!(ctx.errors.contains(&"externalDocs.url: must not be empty".to_string()), "Validation should fail: {:?}", ctx.errors);

    let mut ctx = Context::new(&spec, OptionSet::new());
    let ed = ExternalDocumentation { url: String::from("invalid-url"), description: Some(String::from("Find more info here")) };
    ed.validate_with_context(&mut ctx, String::from("externalDocs"));
    assert!(
        ctx.errors.contains(&"externalDocs.url: must be a valid URL, found `invalid-url`".to_string()),
        "Validation should fail: {:?}",
        ctx.errors
    );

    let mut ctx = Context::new(&spec, OptionSet::only(Options::IgnoreEmptyExternalDocumentationUrl));
    let ed = ExternalDocumentation { url: String::new(), description: Some(String::from("Find more info here")) };
    ed.validate_with_context(&mut ctx, String::from("externalDocs"));
    assert!(ctx.errors.is_empty(), "Validation should pass: {:?}", ctx.errors);

    let mut ctx = Context::new(&spec, OptionSet::only(Options::IgnoreInvalidUrls));
    let ed = ExternalDocumentation { url: String::from("invalid-url"), description: Some(String::from("Find more info here")) };
    ed.validate_with_context(&mut ctx, String::from("externalDocs"));
    assert!(ctx.errors.is_empty(), "Validation should pass: {:?}", ctx.errors);
}

#[test]
fn x_tag_groups_round_trip_and_validate() {
    let mut doc = spec();
    doc.info = info("Pets", "1.0.0");
    doc.x_tag_groups = Some(vec![TagGroup { name: "Animals".into(), tags: vec!["pets".into()] }]);

    let mut ctx = Context::new(&doc, OptionSet::new());
    doc.x_tag_groups.as_ref().unwrap().first().unwrap().validate_with_context(&mut ctx, "#.x-tagGroups[0]".to_owned());
    assert!(ctx.errors.is_empty(), "no errors: {:?}", ctx.errors);

    let mut ctx = Context::new(&doc, OptionSet::new());
    TagGroup { name: String::new(), tags: vec![] }.validate_with_context(&mut ctx, "#.x-tagGroups[0]".to_owned());
    assert!(
        ctx.errors.contains(&"#.x-tagGroups[0].name: must not be empty".to_owned()),
        "expected name error: {:?}",
        ctx.errors
    );
}
