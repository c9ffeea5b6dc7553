//! The OAuth2 flows of an OAuth2 Security Scheme Object.
use vstd::prelude::*;
use std::collections::BTreeMap;
use crate::common::json::JsonValue;

verus! {

/// Configuration details for the OAuth2 implicit flow.
#[derive(Debug)]
pub struct ImplicitOAuth2Flow {
    /// **Required** The authorization URL to be used for this flow.
    pub authorization_url: String,
    /// The URL to be used for obtaining refresh tokens.
    pub refresh_url: Option<String>,
    /// **Required** The available scopes, each with a short description.
    pub scopes: BTreeMap<String, String>,
    /// Specification extensions (`x-...` keys).
    pub extensions: Option<BTreeMap<String, JsonValue>>,
}

/// Configuration details for the OAuth2 resource owner password flow.
#[derive(Debug)]
pub struct PasswordOAuth2Flow {
    /// **Required** The token URL to be used for this flow.
    pub token_url: String,
    /// The URL to be used for obtaining refresh tokens.
    pub refresh_url: Option<String>,
    /// **Required** The available scopes, each with a short description.
    pub scopes: BTreeMap<String, String>,
    /// Specification extensions (`x-...` keys).
    pub extensions: Option<BTreeMap<String, JsonValue>>,
}

/// Configuration details for the OAuth2 client credentials flow.
#[derive(Debug)]
pub struct ClientCredentialsOAuth2Flow {
    /// **Required** The token URL to be used for this flow.
    pub token_url: String,
    /// The URL to be used for obtaining refresh tokens.
    pub refresh_url: Option<String>,
    /// **Required** The available scopes, each with a short description.
    pub scopes: BTreeMap<String, String>,
    /// Specification extensions (`x-...` keys).
    pub extensions: Option<BTreeMap<String, JsonValue>>,
}

/// Configuration details for the OAuth2 authorization code flow.
#[derive(Debug)]
pub struct AuthorizationCodeOAuth2Flow {
    /// **Required** The authorization URL to be used for this flow.
    pub authorization_url: String,
    /// **Required** The token URL to be used for this flow.
    pub token_url: String,
    /// The URL to be used for obtaining refresh tokens.
    pub refresh_url: Option<String>,
    /// **Required** The available scopes, each with a short description.
    pub scopes: BTreeMap<String, String>,
    /// Specification extensions (`x-...` keys).
    pub extensions: Option<BTreeMap<String, JsonValue>>,
}

} // verus!
