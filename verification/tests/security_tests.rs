use std::collections::BTreeMap;
use roas::v3_1::security_scheme::AuthorizationCodeOAuth2Flow;

#[test]
fn authorization_code_flow_is_smoke_compiled() {
    // Construction sanity for one of the four oauth2 flows so we know
    // the import surface is right.
    let _ = AuthorizationCodeOAuth2Flow {
        authorization_url: "x".into(),
        token_url: "y".into(),
        refresh_url: None,
        scopes: BTreeMap::new(),
        extensions: None,
    };
}
