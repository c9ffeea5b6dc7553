//! The root document object of the OpenAPI v3.1.X specification.
use vstd::prelude::*;
use crate::common::model::{Callback, Parameter, Paths, SecurityRequirement, SecurityScheme, Tag};
use crate::v3_0::info::Info;
use crate::v3_0::server::Server;
use crate::v3_1::components::Components;
use crate::v3_1::external_documentation::ExternalDocumentation;
use crate::v3_1::example::Example;
use crate::v3_1::link::Link;
use crate::v3_1::response::Response;
use crate::v3_1::schema::{schema_at, Schema};
use crate::common::reference::ResolveReference;
use crate::common::text::{to_owned_string, trim_start_all, trim_start_matches};
use crate::v3_0::reference::{map_view, resolve_in_optional_entries, resolved_in_map};
use crate::v3_0::spec::{find_tag, find_tag_by_name};

verus! {

/// The OpenAPI Specification version of a v3.1 document.
#[derive(Clone, Copy, Debug, PartialEq, Eq, Structural)]
pub enum Version {
    /// `3.1.0` version
    V3_1_0,
}

impl Default for Version {
    fn default() -> (res: Version)
        ensures
            res == Version::V3_1_0,
    {
        Version::V3_1_0
    }
}

impl Version {
    /// The version text.
    pub fn as_str(&self) -> (res: &'static str)
        ensures
            res@ == "3.1.0"@,
    {
        match self {
            Version::V3_1_0 => "3.1.0",
        }
    }

    /// The version text, as written in a document.
    pub fn to_string(&self) -> (res: String)
        ensures
            res@ == "3.1.0"@,
    {
        to_owned_string(self.as_str())
    }
}

/// The root document object of an OpenAPI v3.1 description: the parts that
/// validation reads.
#[derive(Debug)]
pub struct Spec {
    /// **Required** The version of the OpenAPI Specification the document uses.
    pub openapi: Version,
    /// **Required** Provides metadata about the API.
    pub info: Info,
    /// Connectivity information to target servers.
    pub servers: Option<Vec<Server>>,
    /// The available paths and operations for the API.
    pub paths: Option<Paths>,
    /// The incoming webhooks that MAY be received as part of this API.
    pub webhooks: Option<Paths>,
    /// The reusable components of the document.
    pub components: Option<Components>,
    /// A declaration of which security mechanisms can be used across the API.
    pub security: Option<Vec<SecurityRequirement>>,
    /// The tags used by the document, with additional metadata.
    pub tags: Option<Vec<Tag>>,
    /// Additional external documentation.
    pub external_docs: Option<ExternalDocumentation>,
}

impl ResolveReference<Parameter> for Spec {
    open spec fn resolved(&self, reference: Seq<char>) -> Option<Parameter> {
        match self.components {
            None => None,
            Some(c) => resolved_in_map(map_view(c.parameters), reference, "#/components/parameters/"@),
        }
    }

    fn resolve_reference(&self, reference: &str) -> (res: Option<&Parameter>) {
        match &self.components {
            None => None,
            Some(c) => resolve_in_optional_entries(&c.parameters, reference, "#/components/parameters/"),
        }
    }
}

impl ResolveReference<SecurityScheme> for Spec {
    open spec fn resolved(&self, reference: Seq<char>) -> Option<SecurityScheme> {
        match self.components {
            None => None,
            Some(c) => resolved_in_map(map_view(c.security_schemes), reference, "#/components/securitySchemes/"@),
        }
    }

    fn resolve_reference(&self, reference: &str) -> (res: Option<&SecurityScheme>) {
        match &self.components {
            None => None,
            Some(c) => resolve_in_optional_entries(&c.security_schemes, reference, "#/components/securitySchemes/"),
        }
    }
}

impl ResolveReference<Callback> for Spec {
    open spec fn resolved(&self, reference: Seq<char>) -> Option<Callback> {
        match self.components {
            None => None,
            Some(c) => resolved_in_map(map_view(c.callbacks), reference, "#/components/callbacks/"@),
        }
    }

    fn resolve_reference(&self, reference: &str) -> (res: Option<&Callback>) {
        match &self.components {
            None => None,
            Some(c) => resolve_in_optional_entries(&c.callbacks, reference, "#/components/callbacks/"),
        }
    }
}

impl ResolveReference<Tag> for Spec {
    open spec fn resolved(&self, reference: Seq<char>) -> Option<Tag> {
        match self.tags {
            None => None,
            Some(t) => find_tag(t@, trim_start_all(reference, "#/tags/"@)),
        }
    }

    fn resolve_reference(&self, reference: &str) -> (res: Option<&Tag>) {
        match &self.tags {
            None => None,
            Some(t) => {
                let name = trim_start_matches(reference, "#/tags/");
                find_tag_by_name(t, name.as_str())
            },
        }
    }
}


impl ResolveReference<Response> for Spec {
    open spec fn resolved(&self, reference: Seq<char>) -> Option<Response> {
        match self.components {
            None => None,
            Some(c) => resolved_in_map(map_view(c.responses), reference, "#/components/responses/"@),
        }
    }

    fn resolve_reference(&self, reference: &str) -> (res: Option<&Response>) {
        match &self.components {
            None => None,
            Some(c) => resolve_in_optional_entries(&c.responses, reference, "#/components/responses/"),
        }
    }
}

impl ResolveReference<Example> for Spec {
    open spec fn resolved(&self, reference: Seq<char>) -> Option<Example> {
        match self.components {
            None => None,
            Some(c) => resolved_in_map(map_view(c.examples), reference, "#/components/examples/"@),
        }
    }

    fn resolve_reference(&self, reference: &str) -> (res: Option<&Example>) {
        match &self.components {
            None => None,
            Some(c) => resolve_in_optional_entries(&c.examples, reference, "#/components/examples/"),
        }
    }
}

impl ResolveReference<Link> for Spec {
    open spec fn resolved(&self, reference: Seq<char>) -> Option<Link> {
        match self.components {
            None => None,
            Some(c) => resolved_in_map(map_view(c.links), reference, "#/components/links/"@),
        }
    }

    fn resolve_reference(&self, reference: &str) -> (res: Option<&Link>) {
        match &self.components {
            None => None,
            Some(c) => resolve_in_optional_entries(&c.links, reference, "#/components/links/"),
        }
    }
}


impl ResolveReference<Schema> for Spec {
    open spec fn resolved(&self, reference: Seq<char>) -> Option<Schema> {
        schema_at(*self, reference)
    }

    fn resolve_reference(&self, reference: &str) -> (res: Option<&Schema>) {
        match &self.components {
            None => None,
            Some(c) => resolve_in_optional_entries(&c.schemas, reference, "#/components/schemas/"),
        }
    }
}

} // verus!
