use roas::common::context::{Context, OptionSet, Options, ValidateWithContext};
use roas::common::model::{Operation, PathItem, Paths};
use roas::v3_0::info::Info;
use roas::v3_0::server::Server;

fn info() -> Info {
    Info {
        title: String::new(),
        description: None,
        terms_of_service: None,
        contact: None,
        license: None,
        version: String::new(),
    }
}

fn op() -> Operation {
    Operation {
        tags: None,
        external_docs: None,
        operation_id: None,
        parameters: None,
        request_body: None,
        responses: None,
        security: None,
        servers: None,
        x_code_samples: None,
        x_badges: None,
    }
}

fn item_with_get() -> PathItem {
    PathItem { reference: None, operations: Some(vec![("get".to_owned(), op())]), parameters: None, servers: None }
}

fn alias(target: &str) -> PathItem {
    PathItem { reference: Some(target.to_owned()), operations: None, parameters: None, servers: None }
}

fn spec30(paths: Vec<(String, PathItem)>) -> roas::v3_0::spec::Spec {
    roas::v3_0::spec::Spec {
        openapi: roas::v3_0::spec::Version::default(),
        info: info(),
        servers: None,
        paths: Paths { paths },
        components: None,
        security: None,
        tags: None,
        external_docs: None,
        x_tag_groups: None,
    }
}

fn spec31(paths: Option<Vec<(String, PathItem)>>) -> roas::v3_1::spec::Spec {
    roas::v3_1::spec::Spec {
        openapi: roas::v3_1::spec::Version::default(),
        info: info(),
        servers: None,
        paths: paths.map(|paths| Paths { paths }),
        webhooks: None,
        components: None,
        security: None,
        tags: None,
        external_docs: None,
    }
}

fn link30(operation_ref: Option<&str>, operation_id: Option<&str>) -> roas::v3_0::link::Link {
    roas::v3_0::link::Link {
        operation_ref: operation_ref.map(|s| s.to_owned()),
        operation_id: operation_id.map(|s| s.to_owned()),
        server: None,
    }
}

fn link31(operation_ref: Option<&str>, operation_id: Option<&str>) -> roas::v3_1::link::Link {
    roas::v3_1::link::Link {
        operation_ref: operation_ref.map(|s| s.to_owned()),
        operation_id: operation_id.map(|s| s.to_owned()),
        server: None,
    }
}

fn errors30(spec: &roas::v3_0::spec::Spec, options: OptionSet, link: roas::v3_0::link::Link) -> Vec<String> {
    let mut ctx = Context::new(spec, options);
    link.validate_with_context(&mut ctx, "l".into());
    ctx.errors
}

fn errors31(spec: &roas::v3_1::spec::Spec, options: OptionSet, link: roas::v3_1::link::Link) -> Vec<String> {
    let mut ctx = Context::new(spec, options);
    link.validate_with_context(&mut ctx, "l".into());
    ctx.errors
}

fn pets30() -> roas::v3_0::spec::Spec {
    spec30(vec![("/pets".to_owned(), item_with_get())])
}

fn pets31() -> roas::v3_1::spec::Spec {
    spec31(Some(vec![("/pets".to_owned(), item_with_get())]))
}

#[test]
fn link_xor_both_present_errors() {
    let errors = errors30(&spec30(vec![]), OptionSet::new(), link30(Some("ref"), Some("id")));
    assert!(errors.iter().any(|e| e.contains("mutually exclusive")), "errors: {:?}", errors);
}

#[test]
fn link_xor_neither_errors() {
    let errors = errors30(&spec30(vec![]), OptionSet::new(), link30(None, None));
    assert!(errors.iter().any(|e| e.contains("must specify exactly one")), "errors: {:?}", errors);
}

#[test]
fn link_missing_operation_id_reported() {
    let errors = errors30(&spec30(vec![]), OptionSet::new(), link30(None, Some("nonexistent")));
    assert!(
        errors.iter().any(|e| e.contains("missing operation with id `nonexistent`")),
        "errors: {:?}",
        errors
    );
}

#[test]
fn server_validates() {
    let spec = pets30();
    let mut link = link30(Some("#/paths/~1pets/get"), None);
    link.server = Some(Server { url: "".into(), description: None, variables: None });
    let errors = errors30(&spec, OptionSet::new(), link);
    assert!(errors.iter().any(|e| e.contains("server.url")), "expected server.url error: {:?}", errors);
}

#[test]
fn link_operation_ref_internal_resolves() {
    let errors = errors30(&pets30(), OptionSet::new(), link30(Some("#/paths/~1pets/get"), None));
    assert!(errors.iter().all(|e| !e.contains(".operationRef")), "valid ref should not error: {:?}", errors);
}

#[test]
fn link_operation_ref_unknown_path_errors() {
    let errors = errors30(&pets30(), OptionSet::new(), link30(Some("#/paths/~1users/get"), None));
    assert!(
        errors.iter().any(|e| e.contains(".operationRef") && e.contains("`/users` not declared")),
        "expected unknown path: {:?}",
        errors
    );
}

#[test]
fn link_operation_ref_unknown_method_errors() {
    let errors = errors30(&pets30(), OptionSet::new(), link30(Some("#/paths/~1pets/post"), None));
    assert!(
        errors.iter().any(|e| e.contains(".operationRef") && e.contains("method `post`")),
        "expected unknown method: {:?}",
        errors
    );
}

#[test]
fn link_operation_ref_bad_prefix_errors() {
    let errors = errors30(&pets30(), OptionSet::new(), link30(Some("#/components/schemas/Foo"), None));
    assert!(
        errors.iter().any(|e| e.contains(".operationRef") && e.contains("must start with `#/paths/`")),
        "expected bad-prefix error: {:?}",
        errors
    );
}

#[test]
fn link_operation_ref_empty_errors() {
    let errors = errors30(&spec30(vec![]), OptionSet::new(), link30(Some(""), None));
    assert!(
        errors.iter().any(|e| e.contains(".operationRef") && e.contains("must not be empty")),
        "expected empty-ref error: {:?}",
        errors
    );
}

#[test]
fn link_operation_ref_external_unsupported() {
    let spec = spec30(vec![]);
    let r = "https://example.com/spec.yaml#/paths/~1pets/get";
    let errors = errors30(&spec, OptionSet::new(), link30(Some(r), None));
    assert!(
        errors.iter().any(|e| e.contains("external reference") && e.contains("not supported")),
        "expected external-unsupported error: {:?}",
        errors
    );
    let errors = errors30(&spec, OptionSet::only(Options::IgnoreExternalReferences), link30(Some(r), None));
    assert!(errors.iter().all(|e| !e.contains("external reference")), "with option, no external error: {:?}", errors);
}

#[test]
fn operation_ref_follows_internal_path_item_ref() {
    let spec = spec30(vec![
        ("/canonical-pets".to_owned(), item_with_get()),
        ("/pets".to_owned(), alias("#/paths/~1canonical-pets")),
    ]);
    let errors = errors30(&spec, OptionSet::new(), link30(Some("#/paths/~1pets/get"), None));
    assert!(errors.iter().all(|e| !e.contains(".operationRef")), "ref-of-ref should resolve: {:?}", errors);
    let errors = errors30(&spec, OptionSet::new(), link30(Some("#/paths/~1pets/post"), None));
    assert!(errors.iter().any(|e| e.contains("method `post`")), "expected unknown method on resolved target: {:?}", errors);
}

#[test]
fn operation_ref_path_item_ref_target_missing() {
    let spec = spec30(vec![("/pets".to_owned(), alias("#/paths/~1missing"))]);
    let errors = errors30(&spec, OptionSet::new(), link30(Some("#/paths/~1pets/get"), None));
    assert!(
        errors.iter().any(|e| e.contains("$ref") && e.contains("not declared")),
        "expected dangling-target error: {:?}",
        errors
    );
}

#[test]
fn operation_ref_external_path_item_ref() {
    let spec = spec30(vec![("/pets".to_owned(), alias("https://other.example/spec.yaml#/paths/~1pets"))]);
    let errors = errors30(&spec, OptionSet::new(), link30(Some("#/paths/~1pets/get"), None));
    assert!(errors.iter().any(|e| e.contains("external document")), "expected external-PathItem-ref error: {:?}", errors);
    let errors = errors30(&spec, OptionSet::only(Options::IgnoreExternalReferences), link30(Some("#/paths/~1pets/get"), None));
    assert!(errors.iter().all(|e| !e.contains(".operationRef")), "with option, no .operationRef error: {:?}", errors);
}

#[test]
fn operation_ref_tilde0_decodes_to_tilde() {
    let spec = spec30(vec![("/~weird".to_owned(), item_with_get())]);
    let errors = errors30(&spec, OptionSet::new(), link30(Some("#/paths/~1~0weird/get"), None));
    assert!(errors.iter().all(|e| !e.contains(".operationRef")), "tilde-encoded ref should resolve: {:?}", errors);
}

#[test]
fn xor_both_present_errors() {
    let errors = errors31(&spec31(None), OptionSet::new(), link31(Some("ref"), Some("id")));
    assert!(errors.iter().any(|e| e.contains("mutually exclusive")), "errors: {:?}", errors);
}

#[test]
fn xor_neither_errors() {
    let errors = errors31(&spec31(None), OptionSet::new(), link31(None, None));
    assert!(errors.iter().any(|e| e.contains("must specify exactly one")), "errors: {:?}", errors);
}

#[test]
fn missing_operation_id_reported() {
    let errors = errors31(&spec31(None), OptionSet::new(), link31(None, Some("nonexistent")));
    assert!(
        errors.iter().any(|e| e.contains("missing operation with id `nonexistent`")),
        "errors: {:?}",
        errors
    );
}

#[test]
fn operation_ref_internal_resolves() {
    let errors = errors31(&pets31(), OptionSet::new(), link31(Some("#/paths/~1pets/get"), None));
    assert!(errors.iter().all(|e| !e.contains(".operationRef")), "valid ref should not error: {:?}", errors);
}

#[test]
fn operation_ref_unknown_path_errors() {
    let errors = errors31(&pets31(), OptionSet::new(), link31(Some("#/paths/~1users/get"), None));
    assert!(
        errors.iter().any(|e| e.contains(".operationRef") && e.contains("`/users` not declared")),
        "errors: {:?}",
        errors
    );
}

#[test]
fn operation_ref_unknown_method_errors() {
    let errors = errors31(&pets31(), OptionSet::new(), link31(Some("#/paths/~1pets/post"), None));
    assert!(errors.iter().any(|e| e.contains("method `post`")), "errors: {:?}", errors);
}

#[test]
fn operation_ref_bad_prefix_errors() {
    let errors = errors31(&pets31(), OptionSet::new(), link31(Some("#/components/schemas/Foo"), None));
    assert!(errors.iter().any(|e| e.contains("must start with `#/paths/`")), "errors: {:?}", errors);
}

#[test]
fn operation_ref_unescaped_slash_malformed() {
    let errors = errors31(&pets31(), OptionSet::new(), link31(Some("#/paths//pets/get"), None));
    assert!(errors.iter().any(|e| e.contains("malformed JSON Pointer")), "errors: {:?}", errors);
}

#[test]
fn operation_ref_external_unsupported() {
    let spec = spec31(None);
    let r = "https://example.com/spec.yaml#/paths/~1pets/get";
    let errors = errors31(&spec, OptionSet::new(), link31(Some(r), None));
    assert!(
        errors.iter().any(|e| e.contains("external reference") && e.contains("not supported")),
        "errors: {:?}",
        errors
    );
    let errors = errors31(&spec, OptionSet::only(Options::IgnoreExternalReferences), link31(Some(r), None));
    assert!(errors.iter().all(|e| !e.contains("external reference")), "with option: {:?}", errors);
}

#[test]
fn operation_ref_empty_errors() {
    let errors = errors31(&spec31(None), OptionSet::new(), link31(Some(""), None));
    assert!(
        errors.iter().any(|e| e.contains(".operationRef") && e.contains("must not be empty")),
        "errors: {:?}",
        errors
    );
}

#[test]
fn link_server_variables_checked() {
    let spec = pets31();
    let mut link = link31(Some("#/paths/~1pets/get"), None);
    link.server = Some(Server { url: "https://x.example".into(), description: None, variables: None });
    let errors = errors31(&spec, OptionSet::new(), link);
    assert!(errors.is_empty(), "errors: {:?}", errors);
}
