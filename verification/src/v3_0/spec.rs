//! The root document object of the OpenAPI v3.0.X specification.
use vstd::prelude::*;
use crate::common::model::{Callback, Parameter, Paths, SecurityRequirement, SecurityScheme, Tag};
use crate::v3_0::components::{Components, Example, Header, RequestBody, Response};
use crate::v3_0::link::Link;
use crate::common::patterns::{matches_version_3_0, version_3_0_matches};
use crate::common::reference::ResolveReference;
use crate::common::text::{trim_start_all, trim_start_matches};
use crate::v3_0::info::Info;
use crate::v3_0::reference::{map_view, resolve_in_optional_entries, resolved_in_map};
use crate::v3_0::schema::{schema_at, Schema};
use crate::v3_0::server::Server;
use crate::v3_0::tag::TagGroup;
use crate::v3_1::external_documentation::ExternalDocumentation;
use crate::common::text::{concat, debug_quoted, debug_string, push_str, str_equal, to_owned_string};

verus! {

/// The OpenAPI Specification version. Per the OAS 3.0 JSON Schema, the
/// `openapi` field matches `^3\.0\.\d+(-.+)?$`, any 3.0.x patch version,
/// optionally with a prerelease suffix. The bare `3.0` short alias is
/// accepted and normalised to `3.0.4`.
#[derive(Debug, PartialEq, Eq)]
pub struct Version(String);

impl View for Version {
    type V = Seq<char>;

    closed spec fn view(&self) -> Seq<char> {
        self.0@
    }
}

/// Returned when a version text does not match the OAS 3.0 schema pattern.
#[derive(Debug, PartialEq, Eq)]
pub struct InvalidVersion(pub String);

/// What parsing `s` as a version gives, where `matched` says whether `s`
/// matches the schema pattern: the `3.0` alias becomes `3.0.4`, a matching
/// text is kept as it is, anything else is refused with the text itself.
pub open spec fn parsed_version(s: Seq<char>, matched: bool) -> Result<Seq<char>, Seq<char>> {
    if s == "3.0"@ {
        Ok("3.0.4"@)
    } else if matched {
        Ok(s)
    } else {
        Err(s)
    }
}

/// The text of an [`InvalidVersion`] refusing `s`.
pub open spec fn invalid_version_text(s: Seq<char>) -> Seq<char> {
    "version "@ + debug_quoted(s) + " must match the OAS 3.0 schema pattern `^3\\.0\\.\\d+(-.+)?$`"@
}

impl InvalidVersion {
    /// The text of the error.
    pub fn to_string(&self) -> (res: String)
        ensures
            res@ == invalid_version_text(self.0@),
    {
        let quoted = debug_string(self.0.as_str());
        let mut s = concat("version ", quoted.as_str());
        push_str(&mut s, " must match the OAS 3.0 schema pattern `^3\\.0\\.\\d+(-.+)?$`");
        s
    }
}

impl Default for Version {
    fn default() -> (res: Version)
        ensures
            res@ == "3.0.4"@,
    {
        Version(to_owned_string("3.0.4"))
    }
}

impl Version {
    /// Convenience constructor for the `3.0.0` value.
    #[allow(non_snake_case)]
    pub fn V3_0_0() -> (res: Version)
        ensures
            res@ == "3.0.0"@,
    {
        Version(to_owned_string("3.0.0"))
    }

    /// Convenience constructor for the `3.0.1` value.
    #[allow(non_snake_case)]
    pub fn V3_0_1() -> (res: Version)
        ensures
            res@ == "3.0.1"@,
    {
        Version(to_owned_string("3.0.1"))
    }

    /// Convenience constructor for the `3.0.2` value.
    #[allow(non_snake_case)]
    pub fn V3_0_2() -> (res: Version)
        ensures
            res@ == "3.0.2"@,
    {
        Version(to_owned_string("3.0.2"))
    }

    /// Convenience constructor for the `3.0.3` value.
    #[allow(non_snake_case)]
    pub fn V3_0_3() -> (res: Version)
        ensures
            res@ == "3.0.3"@,
    {
        Version(to_owned_string("3.0.3"))
    }

    /// Convenience constructor for the canonical `3.0.4` value.
    #[allow(non_snake_case)]
    pub fn V3_0_4() -> (res: Version)
        ensures
            res@ == "3.0.4"@,
    {
        Version(to_owned_string("3.0.4"))
    }

    /// The version text.
    pub fn as_str(&self) -> (res: &str)
        ensures
            res@ == self@,
    {
        self.0.as_str()
    }

    /// The version text, as written in a document.
    pub fn to_string(&self) -> (res: String)
        ensures
            res@ == self@,
    {
        to_owned_string(self.0.as_str())
    }

    /// Builds the version of the text `s`, given whether `s` matches the
    /// schema pattern `^3\.0\.\d+(-.+)?$`.
    pub fn from_pattern_match(s: &str, matched: bool) -> (res: Result<Version, InvalidVersion>)
        ensures
            match res {
                Ok(v) => parsed_version(s@, matched) == Ok::<Seq<char>, Seq<char>>(v@),
                Err(e) => parsed_version(s@, matched) == Err::<Seq<char>, Seq<char>>(e.0@),
            },
    {
        if str_equal(s, "3.0") {
            Ok(Version(to_owned_string("3.0.4")))
        } else if matched {
            Ok(Version(to_owned_string(s)))
        } else {
            Err(InvalidVersion(to_owned_string(s)))
        }
    }

    /// Parses a version text: the `3.0` alias, or any text matching the schema
    /// pattern.
    pub fn from_str(s: &str) -> (res: Result<Version, InvalidVersion>)
        ensures
            match res {
                Ok(v) => parsed_version(s@, matches_version_3_0(s@)) == Ok::<Seq<char>, Seq<char>>(v@),
                Err(e) => parsed_version(s@, matches_version_3_0(s@)) == Err::<Seq<char>, Seq<char>>(e.0@),
            },
    {
        if str_equal(s, "3.0") {
            Self::from_pattern_match(s, false)
        } else {
            let matched = version_3_0_matches(s);
            Self::from_pattern_match(s, matched)
        }
    }
}

/// The root document object of an OpenAPI v3.0 description: the parts that
/// validation reads.
#[derive(Debug)]
pub struct Spec {
    /// **Required** The version of the OpenAPI Specification the document uses.
    pub openapi: Version,
    /// **Required** Provides metadata about the API.
    pub info: Info,
    /// Connectivity information to target servers.
    pub servers: Option<Vec<Server>>,
    /// **Required** The available paths and operations for the API.
    pub paths: Paths,
    /// The reusable components of the document.
    pub components: Option<Components>,
    /// A declaration of which security mechanisms can be used across the API.
    pub security: Option<Vec<SecurityRequirement>>,
    /// The tags used by the document, with additional metadata.
    pub tags: Option<Vec<Tag>>,
    /// Additional external documentation.
    pub external_docs: Option<ExternalDocumentation>,
    /// Groups of tags (`x-tagGroups`).
    pub x_tag_groups: Option<Vec<TagGroup>>,
}

/// The tag named by `reference`: the first tag whose name is `reference`
/// without its leading `#/tags/`.
pub open spec fn find_tag(tags: Seq<Tag>, name: Seq<char>) -> Option<Tag>
    decreases tags.len(),
{
    if tags.len() == 0 {
        None
    } else if tags[0].name@ == name {
        Some(tags[0])
    } else {
        find_tag(tags.drop_first(), name)
    }
}

/// The tag of a tag list named by `name`.
pub fn find_tag_by_name<'a>(tags: &'a Vec<Tag>, name: &str) -> (res: Option<&'a Tag>)
    ensures
        match res {
            Some(t) => find_tag(tags@, name@) == Some(*t),
            None => find_tag(tags@, name@) is None,
        },
{
    let mut i: usize = 0;
    assert(tags@.skip(0) =~= tags@);
    while i < tags.len()
        invariant
            i <= tags.len(),
            find_tag(tags@.skip(i as int), name@) == find_tag(tags@, name@),
        decreases tags.len() - i,
    {
        if str_equal(tags[i].name.as_str(), name) {
            return Some(&tags[i]);
        }
        assert(tags@.skip(i as int).drop_first() =~= tags@.skip(i + 1));
        i = i + 1;
    }
    None
}

impl ResolveReference<Parameter> for Spec {
    open spec fn resolved(&self, reference: Seq<char>) -> Option<Parameter> {
        match self.components {
            None => None,
            Some(c) => resolved_in_map(map_view(c.parameters), reference, "#/components/parameters/"@),
        }
    }

    fn resolve_reference(&self, reference: &str) -> (res: Option<&Parameter>) {
        match &self.components {
            None => None,
            Some(c) => resolve_in_optional_entries(&c.parameters, reference, "#/components/parameters/"),
        }
    }
}

impl ResolveReference<SecurityScheme> for Spec {
    open spec fn resolved(&self, reference: Seq<char>) -> Option<SecurityScheme> {
        match self.components {
            None => None,
            Some(c) => resolved_in_map(map_view(c.security_schemes), reference, "#/components/securitySchemes/"@),
        }
    }

    fn resolve_reference(&self, reference: &str) -> (res: Option<&SecurityScheme>) {
        match &self.components {
            None => None,
            Some(c) => resolve_in_optional_entries(&c.security_schemes, reference, "#/components/securitySchemes/"),
        }
    }
}

impl ResolveReference<Tag> for Spec {
    open spec fn resolved(&self, reference: Seq<char>) -> Option<Tag> {
        match self.tags {
            None => None,
            Some(t) => find_tag(t@, trim_start_all(reference, "#/tags/"@)),
        }
    }

    fn resolve_reference(&self, reference: &str) -> (res: Option<&Tag>) {
        match &self.tags {
            None => None,
            Some(t) => {
                let name = trim_start_matches(reference, "#/tags/");
                find_tag_by_name(t, name.as_str())
            },
        }
    }
}

impl std::str::FromStr for Version {
    type Err = InvalidVersion;

    fn from_str(s: &str) -> (res: Result<Version, InvalidVersion>)
        ensures
            match res {
                Ok(v) => parsed_version(s@, matches_version_3_0(s@)) == Ok::<Seq<char>, Seq<char>>(v@),
                Err(e) => parsed_version(s@, matches_version_3_0(s@)) == Err::<Seq<char>, Seq<char>>(e.0@),
            },
    {
        Version::from_str(s)
    }
}

impl vstd::std_specs::convert::TryFromSpecImpl<&str> for Version {
    open spec fn obeys_try_from_spec() -> bool {
        false
    }

    open spec fn try_from_spec(v: &str) -> Result<Version, InvalidVersion> {
        vstd::pervasive::arbitrary()
    }
}

impl vstd::std_specs::convert::TryFromSpecImpl<String> for Version {
    open spec fn obeys_try_from_spec() -> bool {
        false
    }

    open spec fn try_from_spec(v: String) -> Result<Version, InvalidVersion> {
        vstd::pervasive::arbitrary()
    }
}

impl TryFrom<&str> for Version {
    type Error = InvalidVersion;

    fn try_from(s: &str) -> (res: Result<Version, InvalidVersion>)
        ensures
            match res {
                Ok(v) => parsed_version(s@, matches_version_3_0(s@)) == Ok::<Seq<char>, Seq<char>>(v@),
                Err(e) => parsed_version(s@, matches_version_3_0(s@)) == Err::<Seq<char>, Seq<char>>(e.0@),
            },
    {
        Version::from_str(s)
    }
}

impl TryFrom<String> for Version {
    type Error = InvalidVersion;

    fn try_from(s: String) -> (res: Result<Version, InvalidVersion>)
        ensures
            match res {
                Ok(v) => parsed_version(s@, matches_version_3_0(s@)) == Ok::<Seq<char>, Seq<char>>(v@),
                Err(e) => parsed_version(s@, matches_version_3_0(s@)) == Err::<Seq<char>, Seq<char>>(e.0@),
            },
    {
        Version::from_str(s.as_str())
    }
}


impl ResolveReference<Schema> for Spec {
    open spec fn resolved(&self, reference: Seq<char>) -> Option<Schema> {
        schema_at(*self, reference)
    }

    fn resolve_reference(&self, reference: &str) -> (res: Option<&Schema>) {
        match &self.components {
            None => None,
            Some(c) => resolve_in_optional_entries(&c.schemas, reference, "#/components/schemas/"),
        }
    }
}

impl ResolveReference<Response> for Spec {
    open spec fn resolved(&self, reference: Seq<char>) -> Option<Response> {
        match self.components {
            None => None,
            Some(c) => resolved_in_map(map_view(c.responses), reference, "#/components/responses/"@),
        }
    }

    fn resolve_reference(&self, reference: &str) -> (res: Option<&Response>) {
        match &self.components {
            None => None,
            Some(c) => resolve_in_optional_entries(&c.responses, reference, "#/components/responses/"),
        }
    }
}

impl ResolveReference<Example> for Spec {
    open spec fn resolved(&self, reference: Seq<char>) -> Option<Example> {
        match self.components {
            None => None,
            Some(c) => resolved_in_map(map_view(c.examples), reference, "#/components/examples/"@),
        }
    }

    fn resolve_reference(&self, reference: &str) -> (res: Option<&Example>) {
        match &self.components {
            None => None,
            Some(c) => resolve_in_optional_entries(&c.examples, reference, "#/components/examples/"),
        }
    }
}

impl ResolveReference<RequestBody> for Spec {
    open spec fn resolved(&self, reference: Seq<char>) -> Option<RequestBody> {
        match self.components {
            None => None,
            Some(c) => resolved_in_map(map_view(c.request_bodies), reference, "#/components/requestBodies/"@),
        }
    }

    fn resolve_reference(&self, reference: &str) -> (res: Option<&RequestBody>) {
        match &self.components {
            None => None,
            Some(c) => resolve_in_optional_entries(&c.request_bodies, reference, "#/components/requestBodies/"),
        }
    }
}

impl ResolveReference<Header> for Spec {
    open spec fn resolved(&self, reference: Seq<char>) -> Option<Header> {
        match self.components {
            None => None,
            Some(c) => resolved_in_map(map_view(c.headers), reference, "#/components/headers/"@),
        }
    }

    fn resolve_reference(&self, reference: &str) -> (res: Option<&Header>) {
        match &self.components {
            None => None,
            Some(c) => resolve_in_optional_entries(&c.headers, reference, "#/components/headers/"),
        }
    }
}

impl ResolveReference<Link> for Spec {
    open spec fn resolved(&self, reference: Seq<char>) -> Option<Link> {
        match self.components {
            None => None,
            Some(c) => resolved_in_map(map_view(c.links), reference, "#/components/links/"@),
        }
    }

    fn resolve_reference(&self, reference: &str) -> (res: Option<&Link>) {
        match &self.components {
            None => None,
            Some(c) => resolve_in_optional_entries(&c.links, reference, "#/components/links/"),
        }
    }
}

impl ResolveReference<Callback> for Spec {
    open spec fn resolved(&self, reference: Seq<char>) -> Option<Callback> {
        match self.components {
            None => None,
            Some(c) => resolved_in_map(map_view(c.callbacks), reference, "#/components/callbacks/"@),
        }
    }

    fn resolve_reference(&self, reference: &str) -> (res: Option<&Callback>) {
        match &self.components {
            None => None,
            Some(c) => resolve_in_optional_entries(&c.callbacks, reference, "#/components/callbacks/"),
        }
    }
}

} // verus!
