//! The parts of an OpenAPI document that the validation rules read, as plain
//! values. Maps are lists of `(key, value)` entries in key order, with no key
//! twice.
use vstd::prelude::*;
use crate::v3_0::components::RequestBody;
use crate::v3_0::operation::{Badge, CodeSample};
use crate::v3_0::reference::RefOr;
use crate::v3_0::server::Server;
use crate::v3_1::external_documentation::ExternalDocumentation;
use crate::v3_1::response::Responses;

verus! {

/// Where a parameter is carried.
#[derive(Clone, Copy, Debug, PartialEq, Eq, Structural)]
pub enum ParameterLocation {
    Path,
    Query,
    Header,
    Cookie,
}

/// The name of a parameter location, as written in a document.
pub open spec fn location_name(l: ParameterLocation) -> Seq<char> {
    match l {
        ParameterLocation::Path => "path"@,
        ParameterLocation::Query => "query"@,
        ParameterLocation::Header => "header"@,
        ParameterLocation::Cookie => "cookie"@,
    }
}

impl ParameterLocation {
    /// The name of the location, as written in a document.
    pub fn as_str(&self) -> (res: &'static str)
        ensures
            res@ == location_name(*self),
    {
        match self {
            ParameterLocation::Path => "path",
            ParameterLocation::Query => "query",
            ParameterLocation::Header => "header",
            ParameterLocation::Cookie => "cookie",
        }
    }
}

/// A Parameter Object: the fields that validation reads.
#[derive(Debug)]
pub struct Parameter {
    /// **Required** The name of the parameter.
    pub name: String,
    /// **Required** Where the parameter is carried (`in`).
    pub location: ParameterLocation,
    /// Whether the parameter is mandatory.
    pub required: Option<bool>,
    /// Whether an `example` is given.
    pub has_example: bool,
    /// Whether an `examples` map is given.
    pub has_examples: bool,
    /// Whether a `schema` is given.
    pub has_schema: bool,
    /// Whether a `content` map is given.
    pub has_content: bool,
}

/// The scope names declared by the flows of an OAuth2 security scheme
/// (each flow's `scopes` keys, or `None` where the flow is absent).
#[derive(Debug)]
pub struct OAuth2Flows {
    pub implicit: Option<Vec<String>>,
    pub password: Option<Vec<String>>,
    pub client_credentials: Option<Vec<String>>,
    pub authorization_code: Option<Vec<String>>,
}

/// A Security Scheme Object: its type and, for OAuth2, its flows.
#[derive(Debug)]
pub enum SecurityScheme {
    ApiKey,
    Http,
    MutualTls,
    OAuth2(OAuth2Flows),
    OpenIdConnect,
}

/// The `type` of a security scheme, as written in a document.
pub open spec fn scheme_type_name(s: SecurityScheme) -> Seq<char> {
    match s {
        SecurityScheme::ApiKey => "apiKey"@,
        SecurityScheme::Http => "http"@,
        SecurityScheme::MutualTls => "mutualTLS"@,
        SecurityScheme::OAuth2(_) => "oauth2"@,
        SecurityScheme::OpenIdConnect => "openIdConnect"@,
    }
}

impl SecurityScheme {
    /// The `type` of the scheme, as written in a document.
    pub fn kind_name(&self) -> (res: &'static str)
        ensures
            res@ == scheme_type_name(*self),
    {
        match self {
            SecurityScheme::ApiKey => "apiKey",
            SecurityScheme::Http => "http",
            SecurityScheme::MutualTls => "mutualTLS",
            SecurityScheme::OAuth2(_) => "oauth2",
            SecurityScheme::OpenIdConnect => "openIdConnect",
        }
    }
}

/// A Security Requirement Object: scheme names and the scopes (or roles) each
/// one requires.
pub type SecurityRequirement = Vec<(String, Vec<String>)>;

/// An Operation Object: the fields that the cross-cutting rules read.
#[derive(Debug)]
pub struct Operation {
    /// Tags for API documentation control.
    pub tags: Option<Vec<String>>,
    /// Additional external documentation for this operation.
    pub external_docs: Option<ExternalDocumentation>,
    /// Unique string used to identify the operation.
    pub operation_id: Option<String>,
    /// The parameters of the operation.
    pub parameters: Option<Vec<RefOr<Parameter>>>,
    /// The request body of the operation, or a `$ref` to one.
    pub request_body: Option<RefOr<RequestBody>>,
    /// The responses the operation may answer with (in the 3.1 shape; the
    /// 3.1 checks of an operation read them).
    pub responses: Option<Responses>,
    /// The security requirements of the operation.
    pub security: Option<Vec<SecurityRequirement>>,
    /// Alternative servers for this operation.
    pub servers: Option<Vec<Server>>,
    /// Code samples (`x-codeSamples`).
    pub x_code_samples: Option<Vec<CodeSample>>,
    /// Badges (`x-badges`).
    pub x_badges: Option<Vec<Badge>>,
}

/// A Path Item Object.
#[derive(Debug)]
pub struct PathItem {
    /// A `$ref` to another path item.
    pub reference: Option<String>,
    /// Operations, keyed by lowercase HTTP method name.
    pub operations: Option<Vec<(String, Operation)>>,
    /// Parameters shared by all the operations of the path.
    pub parameters: Option<Vec<RefOr<Parameter>>>,
    /// Alternative servers for all the operations of the path.
    pub servers: Option<Vec<Server>>,
}

/// A Paths Object (or a Webhooks Object, which has the same shape).
#[derive(Debug)]
pub struct Paths {
    /// Path items keyed by path (or webhook name).
    pub paths: Vec<(String, PathItem)>,
}

impl Paths {
    /// The number of path items.
    pub fn len(&self) -> (res: usize)
        ensures
            res == self.paths@.len(),
    {
        self.paths.len()
    }

    /// Whether there is no path item.
    pub fn is_empty(&self) -> (res: bool)
        ensures
            res == (self.paths@.len() == 0),
    {
        self.paths.len() == 0
    }
}

/// A Callback Object: path items keyed by runtime expression.
#[derive(Debug)]
pub struct Callback {
    pub paths: Vec<(String, PathItem)>,
}

/// A Tag Object.
#[derive(Debug)]
pub struct Tag {
    /// **Required** The name of the tag.
    pub name: String,
    /// A description for the tag.
    pub description: Option<String>,
    /// Additional external documentation for this tag.
    pub external_docs: Option<ExternalDocumentation>,
}

/// Either a boolean or an item.
#[derive(Debug)]
pub enum BoolOr<T> {
    Bool(bool),
    Item(T),
}


} // verus!
