//! The reusable components of an OpenAPI 3.0 document, and the helpers that
//! define them.
use vstd::prelude::*;
use crate::common::entries::{keyed, keys_of, lookup, upsert};
use crate::common::model::{Callback, Parameter, SecurityScheme};
use crate::common::order::is_sorted_strict;
use crate::common::patterns::{component_name_matches, is_component_name};
use crate::common::reference::ResolveReference;
use crate::common::context::{Context, OptionSet, Options, ValidateWithContext};
use crate::common::sections::{check_opt_entry_names, check_opt_section, lemma_extends_chain, opt_entry_names_errors, opt_section_checks};
use crate::common::text::{concat, is_prefix_of, trim_start_all};
use crate::v3_0::reference::resolved_in_map;
use crate::v3_0::link::Link;
use crate::v3_0::reference::{is_internal, resolve_chain, Ref, RefOr};
use crate::v3_0::schema::Schema;
use crate::v3_0::spec::Spec;

verus! {

/// Describes a single response from an API operation.
#[derive(Debug)]
pub struct Response {
    /// **Required** A description of the response.
    pub description: String,
}

/// An example of a value.
#[derive(Debug)]
pub struct Example {
    /// Short description for the example.
    pub summary: Option<String>,
    /// Whether an embedded literal `value` is given.
    pub has_value: bool,
    /// A URL that points to the literal example.
    pub external_value: Option<String>,
}

/// Describes a single header.
#[derive(Debug)]
pub struct Header {
    /// A brief description of the header.
    pub description: Option<String>,
    /// Determines whether this header is mandatory.
    pub required: Option<bool>,
    /// The schema defining the type used for the header.
    pub schema: Option<RefOr<Schema>>,
    /// Whether an `example` of the header's value is given.
    pub has_example: bool,
    /// Examples of the header's value, by name.
    pub examples: Option<Vec<(String, RefOr<Example>)>>,
    /// A map containing the representations for the header.
    pub content: Option<Vec<(String, MediaType)>>,
}

/// Each Media Type Object provides schema and examples for the media type.
#[derive(Debug)]
pub struct MediaType {
    /// The schema defining the content of the request, response, or parameter.
    pub schema: Option<RefOr<Schema>>,
    /// Examples of the media type, by name.
    pub examples: Option<Vec<(String, RefOr<Example>)>>,
    /// The encoding of single properties, by property name.
    pub encoding: Option<Vec<(String, Encoding)>>,
}

/// A single encoding definition applied to a single schema property.
#[derive(Debug)]
pub struct Encoding {
    /// Additional headers, by name.
    pub headers: Option<Vec<(String, RefOr<Header>)>>,
}

/// Describes a single request body.
#[derive(Debug)]
pub struct RequestBody {
    /// A brief description of the request body.
    pub description: Option<String>,
    /// **Required** The content of the request body, by media type.
    pub content: Vec<(String, MediaType)>,
    /// Determines if the request body is required in the request.
    pub required: Option<bool>,
}

/// Holds a set of reusable objects for different aspects of the OAS, each
/// keyed by component name.
#[derive(Debug)]
pub struct Components {
    pub schemas: Option<Vec<(String, RefOr<Schema>)>>,
    pub responses: Option<Vec<(String, RefOr<Response>)>>,
    pub parameters: Option<Vec<(String, RefOr<Parameter>)>>,
    pub examples: Option<Vec<(String, RefOr<Example>)>>,
    pub request_bodies: Option<Vec<(String, RefOr<RequestBody>)>>,
    pub headers: Option<Vec<(String, RefOr<Header>)>>,
    pub security_schemes: Option<Vec<(String, RefOr<SecurityScheme>)>>,
    pub links: Option<Vec<(String, RefOr<Link>)>>,
    pub callbacks: Option<Vec<(String, RefOr<Callback>)>>,
    pub path_items: Option<Vec<(String, crate::common::model::PathItem)>>,
}

impl Components {
    /// Each section lists its entries in strictly increasing name order, so
    /// that no name occurs twice.
    pub open spec fn well_formed(self) -> bool {
        &&& keyed(self.schemas)
        &&& keyed(self.responses)
        &&& keyed(self.parameters)
        &&& keyed(self.examples)
        &&& keyed(self.request_bodies)
        &&& keyed(self.headers)
        &&& keyed(self.security_schemes)
        &&& keyed(self.links)
        &&& keyed(self.callbacks)
        &&& keyed(self.path_items)
    }
}

impl Spec {
    /// The document's maps list their entries in strictly increasing key
    /// order: the paths and each section of the components.
    pub open spec fn well_formed(self) -> bool {
        &&& is_sorted_strict(keys_of(self.paths.paths@))
        &&& match self.components {
            None => true,
            Some(c) => c.well_formed(),
        }
    }
}

/// Returned when a component name does not match `^[a-zA-Z0-9.\-_]+$`.
#[derive(Debug)]
pub struct InvalidComponentName {
    /// The name that was refused.
    pub name: String,
}

/// The components of a document with no components.
pub open spec fn no_components() -> Components {
    Components {
        schemas: None,
        responses: None,
        parameters: None,
        examples: None,
        request_bodies: None,
        headers: None,
        security_schemes: None,
        links: None,
        callbacks: None,
        path_items: None,
    }
}

/// The components of a document, or none at all.
pub open spec fn components_or_none(c: Option<Components>) -> Components {
    match c {
        Some(c) => c,
        None => no_components(),
    }
}

/// The entries of an optional section.
pub open spec fn section<V>(o: Option<Vec<(String, RefOr<V>)>>) -> Seq<(String, RefOr<V>)> {
    match o {
        Some(v) => v@,
        None => seq![],
    }
}

/// `after` holds what `before` holds, with `key` set to `v`; key order is kept.
pub open spec fn upserted<V>(before: Seq<(String, V)>, after: Seq<(String, V)>, key: Seq<char>, v: V) -> bool {
    &&& lookup(after, key) == Some(v)
    &&& forall|k: Seq<char>| k != key ==> lookup(after, k) == lookup(before, k)
    &&& is_sorted_strict(keys_of(before)) ==> is_sorted_strict(keys_of(after))
}

/// An empty set of components.
fn empty_components() -> (res: Components)
    ensures
        res == no_components(),
{
    Components {
        schemas: None,
        responses: None,
        parameters: None,
        examples: None,
        request_bodies: None,
        headers: None,
        security_schemes: None,
        links: None,
        callbacks: None,
        path_items: None,
    }
}

/// Sets `name` in an optional section to the inline `item`.
fn define_in<V>(sec: Option<Vec<(String, RefOr<V>)>>, name: String, item: V) -> (res: Option<Vec<(String, RefOr<V>)>>)
    ensures
        res is Some,
        upserted(section(sec), res->0@, name@, RefOr::Item(item)),
{
    let mut entries = match sec {
        Some(v) => v,
        None => Vec::new(),
    };
    upsert(&mut entries, name, RefOr::Item(item));
    Some(entries)
}

impl Spec {
    /// Sets the component `name` of `schemas` to `schema`, replacing any
    /// existing entry, and answers a `$ref` to it. A name that does not match
    /// `^[a-zA-Z0-9.\-_]+$` is refused, and the document is left unchanged.
    pub fn define_schema(&mut self, name: String, schema: Schema) -> (res: Result<RefOr<Schema>, InvalidComponentName>)
        ensures
            is_component_name(name@) <==> res is Ok,
            old(self).well_formed() ==> final(self).well_formed(),
            match res {
                Ok(r) => {
                    &&& r == RefOr::<Schema>::Ref(Ref { reference: r->Ref_0.reference })
                    &&& r->Ref_0.reference@ == "#/components/schemas/"@ + name@
                    &&& final(self).components is Some
                    &&& final(self).components->0.schemas is Some
                    &&& upserted(
                        section(components_or_none(old(self).components).schemas),
                        final(self).components->0.schemas->0@,
                        name@,
                        RefOr::Item(schema),
                    )
                    &&& final(self).components->0.responses == components_or_none(old(self).components).responses
                    &&& final(self).components->0.parameters == components_or_none(old(self).components).parameters
                    &&& final(self).components->0.examples == components_or_none(old(self).components).examples
                    &&& final(self).components->0.request_bodies == components_or_none(old(self).components).request_bodies
                    &&& final(self).components->0.headers == components_or_none(old(self).components).headers
                    &&& final(self).components->0.security_schemes == components_or_none(old(self).components).security_schemes
                    &&& final(self).components->0.links == components_or_none(old(self).components).links
                    &&& final(self).components->0.callbacks == components_or_none(old(self).components).callbacks
                    &&& final(self).components->0.path_items == components_or_none(old(self).components).path_items
                    &&& *final(self) == (Spec { components: final(self).components, ..*old(self) })
                },
                Err(e) => e.name == name && *final(self) == *old(self),
            },
    {
        if !component_name_matches(name.as_str()) {
            return Err(InvalidComponentName { name });
        }
        let reference = concat("#/components/schemas/", name.as_str());
        let mut c = match self.components.take() {
            Some(c) => c,
            None => empty_components(),
        };
        let sec = c.schemas.take();
        c.schemas = define_in(sec, name, schema);
        self.components = Some(c);
        Ok(RefOr::Ref(Ref { reference }))
    }

    /// Sets the component `name` of `responses` to `response`, replacing any
    /// existing entry, and answers a `$ref` to it. A name that does not match
    /// `^[a-zA-Z0-9.\-_]+$` is refused, and the document is left unchanged.
    pub fn define_response(&mut self, name: String, response: Response) -> (res: Result<RefOr<Response>, InvalidComponentName>)
        ensures
            is_component_name(name@) <==> res is Ok,
            old(self).well_formed() ==> final(self).well_formed(),
            match res {
                Ok(r) => {
                    &&& r == RefOr::<Response>::Ref(Ref { reference: r->Ref_0.reference })
                    &&& r->Ref_0.reference@ == "#/components/responses/"@ + name@
                    &&& final(self).components is Some
                    &&& final(self).components->0.responses is Some
                    &&& upserted(
                        section(components_or_none(old(self).components).responses),
                        final(self).components->0.responses->0@,
                        name@,
                        RefOr::Item(response),
                    )
                    &&& final(self).components->0.schemas == components_or_none(old(self).components).schemas
                    &&& final(self).components->0.parameters == components_or_none(old(self).components).parameters
                    &&& final(self).components->0.examples == components_or_none(old(self).components).examples
                    &&& final(self).components->0.request_bodies == components_or_none(old(self).components).request_bodies
                    &&& final(self).components->0.headers == components_or_none(old(self).components).headers
                    &&& final(self).components->0.security_schemes == components_or_none(old(self).components).security_schemes
                    &&& final(self).components->0.links == components_or_none(old(self).components).links
                    &&& final(self).components->0.callbacks == components_or_none(old(self).components).callbacks
                    &&& final(self).components->0.path_items == components_or_none(old(self).components).path_items
                    &&& *final(self) == (Spec { components: final(self).components, ..*old(self) })
                },
                Err(e) => e.name == name && *final(self) == *old(self),
            },
    {
        if !component_name_matches(name.as_str()) {
            return Err(InvalidComponentName { name });
        }
        let reference = concat("#/components/responses/", name.as_str());
        let mut c = match self.components.take() {
            Some(c) => c,
            None => empty_components(),
        };
        let sec = c.responses.take();
        c.responses = define_in(sec, name, response);
        self.components = Some(c);
        Ok(RefOr::Ref(Ref { reference }))
    }

    /// Sets the component `name` of `parameters` to `parameter`, replacing any
    /// existing entry, and answers a `$ref` to it. A name that does not match
    /// `^[a-zA-Z0-9.\-_]+$` is refused, and the document is left unchanged.
    pub fn define_parameter(&mut self, name: String, parameter: Parameter) -> (res: Result<RefOr<Parameter>, InvalidComponentName>)
        ensures
            is_component_name(name@) <==> res is Ok,
            old(self).well_formed() ==> final(self).well_formed(),
            match res {
                Ok(r) => {
                    &&& r == RefOr::<Parameter>::Ref(Ref { reference: r->Ref_0.reference })
                    &&& r->Ref_0.reference@ == "#/components/parameters/"@ + name@
                    &&& final(self).components is Some
                    &&& final(self).components->0.parameters is Some
                    &&& upserted(
                        section(components_or_none(old(self).components).parameters),
                        final(self).components->0.parameters->0@,
                        name@,
                        RefOr::Item(parameter),
                    )
                    &&& final(self).components->0.schemas == components_or_none(old(self).components).schemas
                    &&& final(self).components->0.responses == components_or_none(old(self).components).responses
                    &&& final(self).components->0.examples == components_or_none(old(self).components).examples
                    &&& final(self).components->0.request_bodies == components_or_none(old(self).components).request_bodies
                    &&& final(self).components->0.headers == components_or_none(old(self).components).headers
                    &&& final(self).components->0.security_schemes == components_or_none(old(self).components).security_schemes
                    &&& final(self).components->0.links == components_or_none(old(self).components).links
                    &&& final(self).components->0.callbacks == components_or_none(old(self).components).callbacks
                    &&& final(self).components->0.path_items == components_or_none(old(self).components).path_items
                    &&& *final(self) == (Spec { components: final(self).components, ..*old(self) })
                },
                Err(e) => e.name == name && *final(self) == *old(self),
            },
    {
        if !component_name_matches(name.as_str()) {
            return Err(InvalidComponentName { name });
        }
        let reference = concat("#/components/parameters/", name.as_str());
        let mut c = match self.components.take() {
            Some(c) => c,
            None => empty_components(),
        };
        let sec = c.parameters.take();
        c.parameters = define_in(sec, name, parameter);
        self.components = Some(c);
        Ok(RefOr::Ref(Ref { reference }))
    }

    /// Sets the component `name` of `examples` to `example`, replacing any
    /// existing entry, and answers a `$ref` to it. A name that does not match
    /// `^[a-zA-Z0-9.\-_]+$` is refused, and the document is left unchanged.
    pub fn define_example(&mut self, name: String, example: Example) -> (res: Result<RefOr<Example>, InvalidComponentName>)
        ensures
            is_component_name(name@) <==> res is Ok,
            old(self).well_formed() ==> final(self).well_formed(),
            match res {
                Ok(r) => {
                    &&& r == RefOr::<Example>::Ref(Ref { reference: r->Ref_0.reference })
                    &&& r->Ref_0.reference@ == "#/components/examples/"@ + name@
                    &&& final(self).components is Some
                    &&& final(self).components->0.examples is Some
                    &&& upserted(
                        section(components_or_none(old(self).components).examples),
                        final(self).components->0.examples->0@,
                        name@,
                        RefOr::Item(example),
                    )
                    &&& final(self).components->0.schemas == components_or_none(old(self).components).schemas
                    &&& final(self).components->0.responses == components_or_none(old(self).components).responses
                    &&& final(self).components->0.parameters == components_or_none(old(self).components).parameters
                    &&& final(self).components->0.request_bodies == components_or_none(old(self).components).request_bodies
                    &&& final(self).components->0.headers == components_or_none(old(self).components).headers
                    &&& final(self).components->0.security_schemes == components_or_none(old(self).components).security_schemes
                    &&& final(self).components->0.links == components_or_none(old(self).components).links
                    &&& final(self).components->0.callbacks == components_or_none(old(self).components).callbacks
                    &&& final(self).components->0.path_items == components_or_none(old(self).components).path_items
                    &&& *final(self) == (Spec { components: final(self).components, ..*old(self) })
                },
                Err(e) => e.name == name && *final(self) == *old(self),
            },
    {
        if !component_name_matches(name.as_str()) {
            return Err(InvalidComponentName { name });
        }
        let reference = concat("#/components/examples/", name.as_str());
        let mut c = match self.components.take() {
            Some(c) => c,
            None => empty_components(),
        };
        let sec = c.examples.take();
        c.examples = define_in(sec, name, example);
        self.components = Some(c);
        Ok(RefOr::Ref(Ref { reference }))
    }

    /// Sets the component `name` of `request_bodies` to `request_body`, replacing any
    /// existing entry, and answers a `$ref` to it. A name that does not match
    /// `^[a-zA-Z0-9.\-_]+$` is refused, and the document is left unchanged.
    pub fn define_request_body(&mut self, name: String, request_body: RequestBody) -> (res: Result<RefOr<RequestBody>, InvalidComponentName>)
        ensures
            is_component_name(name@) <==> res is Ok,
            old(self).well_formed() ==> final(self).well_formed(),
            match res {
                Ok(r) => {
                    &&& r == RefOr::<RequestBody>::Ref(Ref { reference: r->Ref_0.reference })
                    &&& r->Ref_0.reference@ == "#/components/requestBodies/"@ + name@
                    &&& final(self).components is Some
                    &&& final(self).components->0.request_bodies is Some
                    &&& upserted(
                        section(components_or_none(old(self).components).request_bodies),
                        final(self).components->0.request_bodies->0@,
                        name@,
                        RefOr::Item(request_body),
                    )
                    &&& final(self).components->0.schemas == components_or_none(old(self).components).schemas
                    &&& final(self).components->0.responses == components_or_none(old(self).components).responses
                    &&& final(self).components->0.parameters == components_or_none(old(self).components).parameters
                    &&& final(self).components->0.examples == components_or_none(old(self).components).examples
                    &&& final(self).components->0.headers == components_or_none(old(self).components).headers
                    &&& final(self).components->0.security_schemes == components_or_none(old(self).components).security_schemes
                    &&& final(self).components->0.links == components_or_none(old(self).components).links
                    &&& final(self).components->0.callbacks == components_or_none(old(self).components).callbacks
                    &&& final(self).components->0.path_items == components_or_none(old(self).components).path_items
                    &&& *final(self) == (Spec { components: final(self).components, ..*old(self) })
                },
                Err(e) => e.name == name && *final(self) == *old(self),
            },
    {
        if !component_name_matches(name.as_str()) {
            return Err(InvalidComponentName { name });
        }
        let reference = concat("#/components/requestBodies/", name.as_str());
        let mut c = match self.components.take() {
            Some(c) => c,
            None => empty_components(),
        };
        let sec = c.request_bodies.take();
        c.request_bodies = define_in(sec, name, request_body);
        self.components = Some(c);
        Ok(RefOr::Ref(Ref { reference }))
    }

    /// Sets the component `name` of `headers` to `header`, replacing any
    /// existing entry, and answers a `$ref` to it. A name that does not match
    /// `^[a-zA-Z0-9.\-_]+$` is refused, and the document is left unchanged.
    pub fn define_header(&mut self, name: String, header: Header) -> (res: Result<RefOr<Header>, InvalidComponentName>)
        ensures
            is_component_name(name@) <==> res is Ok,
            old(self).well_formed() ==> final(self).well_formed(),
            match res {
                Ok(r) => {
                    &&& r == RefOr::<Header>::Ref(Ref { reference: r->Ref_0.reference })
                    &&& r->Ref_0.reference@ == "#/components/headers/"@ + name@
                    &&& final(self).components is Some
                    &&& final(self).components->0.headers is Some
                    &&& upserted(
                        section(components_or_none(old(self).components).headers),
                        final(self).components->0.headers->0@,
                        name@,
                        RefOr::Item(header),
                    )
                    &&& final(self).components->0.schemas == components_or_none(old(self).components).schemas
                    &&& final(self).components->0.responses == components_or_none(old(self).components).responses
                    &&& final(self).components->0.parameters == components_or_none(old(self).components).parameters
                    &&& final(self).components->0.examples == components_or_none(old(self).components).examples
                    &&& final(self).components->0.request_bodies == components_or_none(old(self).components).request_bodies
                    &&& final(self).components->0.security_schemes == components_or_none(old(self).components).security_schemes
                    &&& final(self).components->0.links == components_or_none(old(self).components).links
                    &&& final(self).components->0.callbacks == components_or_none(old(self).components).callbacks
                    &&& final(self).components->0.path_items == components_or_none(old(self).components).path_items
                    &&& *final(self) == (Spec { components: final(self).components, ..*old(self) })
                },
                Err(e) => e.name == name && *final(self) == *old(self),
            },
    {
        if !component_name_matches(name.as_str()) {
            return Err(InvalidComponentName { name });
        }
        let reference = concat("#/components/headers/", name.as_str());
        let mut c = match self.components.take() {
            Some(c) => c,
            None => empty_components(),
        };
        let sec = c.headers.take();
        c.headers = define_in(sec, name, header);
        self.components = Some(c);
        Ok(RefOr::Ref(Ref { reference }))
    }

    /// Sets the component `name` of `security_schemes` to `scheme`, replacing any
    /// existing entry, and answers a `$ref` to it. A name that does not match
    /// `^[a-zA-Z0-9.\-_]+$` is refused, and the document is left unchanged.
    pub fn define_security_scheme(&mut self, name: String, scheme: SecurityScheme) -> (res: Result<RefOr<SecurityScheme>, InvalidComponentName>)
        ensures
            is_component_name(name@) <==> res is Ok,
            old(self).well_formed() ==> final(self).well_formed(),
            match res {
                Ok(r) => {
                    &&& r == RefOr::<SecurityScheme>::Ref(Ref { reference: r->Ref_0.reference })
                    &&& r->Ref_0.reference@ == "#/components/securitySchemes/"@ + name@
                    &&& final(self).components is Some
                    &&& final(self).components->0.security_schemes is Some
                    &&& upserted(
                        section(components_or_none(old(self).components).security_schemes),
                        final(self).components->0.security_schemes->0@,
                        name@,
                        RefOr::Item(scheme),
                    )
                    &&& final(self).components->0.schemas == components_or_none(old(self).components).schemas
                    &&& final(self).components->0.responses == components_or_none(old(self).components).responses
                    &&& final(self).components->0.parameters == components_or_none(old(self).components).parameters
                    &&& final(self).components->0.examples == components_or_none(old(self).components).examples
                    &&& final(self).components->0.request_bodies == components_or_none(old(self).components).request_bodies
                    &&& final(self).components->0.headers == components_or_none(old(self).components).headers
                    &&& final(self).components->0.links == components_or_none(old(self).components).links
                    &&& final(self).components->0.callbacks == components_or_none(old(self).components).callbacks
                    &&& final(self).components->0.path_items == components_or_none(old(self).components).path_items
                    &&& *final(self) == (Spec { components: final(self).components, ..*old(self) })
                },
                Err(e) => e.name == name && *final(self) == *old(self),
            },
    {
        if !component_name_matches(name.as_str()) {
            return Err(InvalidComponentName { name });
        }
        let reference = concat("#/components/securitySchemes/", name.as_str());
        let mut c = match self.components.take() {
            Some(c) => c,
            None => empty_components(),
        };
        let sec = c.security_schemes.take();
        c.security_schemes = define_in(sec, name, scheme);
        self.components = Some(c);
        Ok(RefOr::Ref(Ref { reference }))
    }

    /// Sets the component `name` of `links` to `link`, replacing any
    /// existing entry, and answers a `$ref` to it. A name that does not match
    /// `^[a-zA-Z0-9.\-_]+$` is refused, and the document is left unchanged.
    pub fn define_link(&mut self, name: String, link: Link) -> (res: Result<RefOr<Link>, InvalidComponentName>)
        ensures
            is_component_name(name@) <==> res is Ok,
            old(self).well_formed() ==> final(self).well_formed(),
            match res {
                Ok(r) => {
                    &&& r == RefOr::<Link>::Ref(Ref { reference: r->Ref_0.reference })
                    &&& r->Ref_0.reference@ == "#/components/links/"@ + name@
                    &&& final(self).components is Some
                    &&& final(self).components->0.links is Some
                    &&& upserted(
                        section(components_or_none(old(self).components).links),
                        final(self).components->0.links->0@,
                        name@,
                        RefOr::Item(link),
                    )
                    &&& final(self).components->0.schemas == components_or_none(old(self).components).schemas
                    &&& final(self).components->0.responses == components_or_none(old(self).components).responses
                    &&& final(self).components->0.parameters == components_or_none(old(self).components).parameters
                    &&& final(self).components->0.examples == components_or_none(old(self).components).examples
                    &&& final(self).components->0.request_bodies == components_or_none(old(self).components).request_bodies
                    &&& final(self).components->0.headers == components_or_none(old(self).components).headers
                    &&& final(self).components->0.security_schemes == components_or_none(old(self).components).security_schemes
                    &&& final(self).components->0.callbacks == components_or_none(old(self).components).callbacks
                    &&& final(self).components->0.path_items == components_or_none(old(self).components).path_items
                    &&& *final(self) == (Spec { components: final(self).components, ..*old(self) })
                },
                Err(e) => e.name == name && *final(self) == *old(self),
            },
    {
        if !component_name_matches(name.as_str()) {
            return Err(InvalidComponentName { name });
        }
        let reference = concat("#/components/links/", name.as_str());
        let mut c = match self.components.take() {
            Some(c) => c,
            None => empty_components(),
        };
        let sec = c.links.take();
        c.links = define_in(sec, name, link);
        self.components = Some(c);
        Ok(RefOr::Ref(Ref { reference }))
    }

    /// Sets the component `name` of `callbacks` to `callback`, replacing any
    /// existing entry, and answers a `$ref` to it. A name that does not match
    /// `^[a-zA-Z0-9.\-_]+$` is refused, and the document is left unchanged.
    pub fn define_callback(&mut self, name: String, callback: Callback) -> (res: Result<RefOr<Callback>, InvalidComponentName>)
        ensures
            is_component_name(name@) <==> res is Ok,
            old(self).well_formed() ==> final(self).well_formed(),
            match res {
                Ok(r) => {
                    &&& r == RefOr::<Callback>::Ref(Ref { reference: r->Ref_0.reference })
                    &&& r->Ref_0.reference@ == "#/components/callbacks/"@ + name@
                    &&& final(self).components is Some
                    &&& final(self).components->0.callbacks is Some
                    &&& upserted(
                        section(components_or_none(old(self).components).callbacks),
                        final(self).components->0.callbacks->0@,
                        name@,
                        RefOr::Item(callback),
                    )
                    &&& final(self).components->0.schemas == components_or_none(old(self).components).schemas
                    &&& final(self).components->0.responses == components_or_none(old(self).components).responses
                    &&& final(self).components->0.parameters == components_or_none(old(self).components).parameters
                    &&& final(self).components->0.examples == components_or_none(old(self).components).examples
                    &&& final(self).components->0.request_bodies == components_or_none(old(self).components).request_bodies
                    &&& final(self).components->0.headers == components_or_none(old(self).components).headers
                    &&& final(self).components->0.security_schemes == components_or_none(old(self).components).security_schemes
                    &&& final(self).components->0.links == components_or_none(old(self).components).links
                    &&& final(self).components->0.path_items == components_or_none(old(self).components).path_items
                    &&& *final(self) == (Spec { components: final(self).components, ..*old(self) })
                },
                Err(e) => e.name == name && *final(self) == *old(self),
            },
    {
        if !component_name_matches(name.as_str()) {
            return Err(InvalidComponentName { name });
        }
        let reference = concat("#/components/callbacks/", name.as_str());
        let mut c = match self.components.take() {
            Some(c) => c,
            None => empty_components(),
        };
        let sec = c.callbacks.take();
        c.callbacks = define_in(sec, name, callback);
        self.components = Some(c);
        Ok(RefOr::Ref(Ref { reference }))
    }

}

/// A name of a component never starts with the `#` of a `$ref` prefix.
pub proof fn lemma_trim_component_ref(prefix: Seq<char>, name: Seq<char>)
    requires
        prefix.len() > 0,
        prefix[0] == '#',
        is_component_name(name),
    ensures
        trim_start_all(prefix + name, prefix) == name,
{
    assert((prefix + name).subrange(0, prefix.len() as int) =~= prefix);
    assert((prefix + name).skip(prefix.len() as int) =~= name);
    assert(is_prefix_of(prefix, prefix + name));
    assert(trim_start_all(prefix + name, prefix) == trim_start_all(name, prefix));
    if is_prefix_of(prefix, name) {
        assert(name.subrange(0, prefix.len() as int)[0] == name[0]);
        assert(name[0] == prefix[0]);
        assert(crate::common::patterns::is_component_name_char(name[0]));
    }
    assert(!is_prefix_of(prefix, name));
}

/// What a component map holds inline under a valid name is what a `$ref`
/// to that name resolves to.
pub proof fn lemma_inline_entry_resolves<D>(entries: Seq<(String, RefOr<D>)>, prefix: Seq<char>, name: Seq<char>, d: D)
    requires
        lookup(entries, name) == Some(RefOr::Item(d)),
        prefix.len() > 0,
        prefix[0] == '#',
        is_component_name(name),
    ensures
        resolved_in_map(Some(entries), prefix + name, prefix) == Some(d),
{
    lemma_trim_component_ref(prefix, name);
    assert(entries.len() > 0);
}

/// Defining a schema, then resolving the `$ref` that the definition answers,
/// gives the schema back: after a definition of `schema` under the valid
/// name `name` (the schemas of `after` hold what those of `before` held, with
/// `name` set to `schema`), `#/components/schemas/<name>` names `schema`.
pub proof fn law_define_then_resolve_schema(before: Spec, after: Spec, name: Seq<char>, schema: Schema)
    requires
        is_component_name(name),
        after.components is Some,
        after.components->0.schemas is Some,
        upserted(
            section(components_or_none(before.components).schemas),
            after.components->0.schemas->0@,
            name,
            RefOr::Item(schema),
        ),
    ensures
        <Spec as ResolveReference<Schema>>::resolved(&after, "#/components/schemas/"@ + name) == Some(schema),
{
    reveal_strlit("#/components/schemas/");
    lemma_inline_entry_resolves(after.components->0.schemas->0@, "#/components/schemas/"@, name, schema);
}

/// Defining a parameter, then resolving the `$ref` that the definition
/// answers, gives the parameter back.
pub proof fn law_define_then_resolve_parameter(before: Spec, after: Spec, name: Seq<char>, parameter: Parameter)
    requires
        is_component_name(name),
        after.components is Some,
        after.components->0.parameters is Some,
        upserted(
            section(components_or_none(before.components).parameters),
            after.components->0.parameters->0@,
            name,
            RefOr::Item(parameter),
        ),
    ensures
        <Spec as ResolveReference<Parameter>>::resolved(&after, "#/components/parameters/"@ + name) == Some(parameter),
{
    reveal_strlit("#/components/parameters/");
    lemma_inline_entry_resolves(after.components->0.parameters->0@, "#/components/parameters/"@, name, parameter);
}

/// Defining a component leaves every other name of its map as it was.
pub proof fn law_define_keeps_other_names<V>(before: Seq<(String, V)>, after: Seq<(String, V)>, name: Seq<char>, v: V, other: Seq<char>)
    requires
        upserted(before, after, name, v),
        other != name,
    ensures
        lookup(after, other) == lookup(before, other),
{
}

/// Two components that name each other by `$ref` name nothing: following
/// either one loops back without reaching an item.
pub proof fn law_alias_cycle_names_nothing<D>(
    entries: Seq<(String, RefOr<D>)>,
    prefix: Seq<char>,
    a: Seq<char>,
    b: Seq<char>,
    fuel: nat,
)
    requires
        prefix.len() > 0,
        prefix[0] == '#',
        is_internal(prefix),
        is_component_name(a),
        is_component_name(b),
        lookup(entries, a) matches Some(RefOr::Ref(r)) && r.reference@ == prefix + b,
        lookup(entries, b) matches Some(RefOr::Ref(r)) && r.reference@ == prefix + a,
    ensures
        resolve_chain(entries, prefix, a, fuel) is None,
        resolve_chain(entries, prefix, b, fuel) is None,
    decreases fuel,
{
    if fuel > 0 {
        lemma_trim_component_ref(prefix, a);
        lemma_trim_component_ref(prefix, b);
        assert(is_internal(prefix + a) && is_internal(prefix + b)) by {
            reveal_strlit("#/");
            assert((prefix + a).subrange(0, 2) =~= prefix.subrange(0, 2));
            assert((prefix + b).subrange(0, 2) =~= prefix.subrange(0, 2));
        };
        law_alias_cycle_names_nothing(entries, prefix, a, b, (fuel - 1) as nat);
    }
}

/// The diagnostics of the responses and parameters of the components `c`,
/// found at `path`, which are checked by name and use only.
pub open spec fn first_named_errors(c: Components, options: OptionSet, vis: Set<Seq<char>>, path: Seq<char>) -> Seq<Seq<char>> {
    opt_entry_names_errors(options, vis, c.responses, "#/components/responses/"@, "responses"@, path, Options::IgnoreUnusedResponses)
        + opt_entry_names_errors(options, vis, c.parameters, "#/components/parameters/"@, "parameters"@, path, Options::IgnoreUnusedParameters)
}

/// The diagnostics of the security schemes of the components `c`, found at
/// `path`, which are checked by name and use only.
pub open spec fn scheme_named_errors(c: Components, options: OptionSet, vis: Set<Seq<char>>, path: Seq<char>) -> Seq<Seq<char>> {
    opt_entry_names_errors(
        options,
        vis,
        c.security_schemes,
        "#/components/securitySchemes/"@,
        "securitySchemes"@,
        path,
        Options::IgnoreUnusedSecuritySchemes,
    )
}

/// What checking the components `c`, found at `path`, does to a pass that
/// had visited `vis` and reported `errs`, section by section: schemas,
/// responses and parameters (by name), examples, request bodies, headers,
/// security schemes (by name), path items, links, callbacks. Each entry is
/// reported unused when nothing referenced it before its check (unless the
/// section's `IgnoreUnused...` switch is on) and when its name is not a
/// valid component name.
pub open spec fn components_checks(
    c: Components,
    spec: Spec,
    options: OptionSet,
    vis: Set<Seq<char>>,
    errs: Seq<Seq<char>>,
    path: Seq<char>,
    after: (Seq<Seq<char>>, Set<Seq<char>>),
) -> bool {
    exists|s1: (Seq<Seq<char>>, Set<Seq<char>>), s4: (Seq<Seq<char>>, Set<Seq<char>>), s5: (Seq<Seq<char>>, Set<Seq<char>>)|
        #[trigger] opt_section_checks(spec, options, vis, errs, c.schemas, "#/components/schemas/"@, "schemas"@, path, Options::IgnoreUnusedSchemas, s1)
        && #[trigger] opt_section_checks(spec, options, s1.1, s1.0 + first_named_errors(c, options, s1.1, path), c.examples, "#/components/examples/"@, "examples"@, path, Options::IgnoreUnusedExamples, s4)
        && #[trigger] opt_section_checks(spec, options, s4.1, s4.0, c.request_bodies, "#/components/requestBodies/"@, "requestBodies"@, path, Options::IgnoreUnusedRequestBodies, s5)
        && components_tail_checks(c, spec, options, s5.1, s5.0, path, after)
}

/// The sections of [`components_checks`] from the headers on.
pub open spec fn components_tail_checks(
    c: Components,
    spec: Spec,
    options: OptionSet,
    vis: Set<Seq<char>>,
    errs: Seq<Seq<char>>,
    path: Seq<char>,
    after: (Seq<Seq<char>>, Set<Seq<char>>),
) -> bool {
    exists|s6: (Seq<Seq<char>>, Set<Seq<char>>), s7: (Seq<Seq<char>>, Set<Seq<char>>), s8: (Seq<Seq<char>>, Set<Seq<char>>)|
        #[trigger] opt_section_checks(spec, options, vis, errs, c.headers, "#/components/headers/"@, "headers"@, path, Options::IgnoreUnusedHeaders, s6)
        && #[trigger] opt_section_checks(spec, options, s6.1, s6.0 + scheme_named_errors(c, options, s6.1, path), c.path_items, "#/components/pathItems/"@, "pathItems"@, path, Options::IgnoreUnusedPathItems, s7)
        && #[trigger] opt_section_checks(spec, options, s7.1, s7.0, c.links, "#/components/links/"@, "links"@, path, Options::IgnoreUnusedLinks, s8)
        && opt_section_checks(spec, options, s8.1, s8.0, c.callbacks, "#/components/callbacks/"@, "callbacks"@, path, Options::IgnoreUnusedCallbacks, after)
}

/// [`components_tail_checks`] from the states each of its sections leaves.
pub proof fn lemma_tail(
    c: Components,
    spec: Spec,
    options: OptionSet,
    s5: (Seq<Seq<char>>, Set<Seq<char>>),
    s6: (Seq<Seq<char>>, Set<Seq<char>>),
    s7: (Seq<Seq<char>>, Set<Seq<char>>),
    s8: (Seq<Seq<char>>, Set<Seq<char>>),
    path: Seq<char>,
    after: (Seq<Seq<char>>, Set<Seq<char>>),
)
    requires
        opt_section_checks(spec, options, s5.1, s5.0, c.headers, "#/components/headers/"@, "headers"@, path, Options::IgnoreUnusedHeaders, s6),
        opt_section_checks(spec, options, s6.1, s6.0 + scheme_named_errors(c, options, s6.1, path), c.path_items, "#/components/pathItems/"@, "pathItems"@, path, Options::IgnoreUnusedPathItems, s7),
        opt_section_checks(spec, options, s7.1, s7.0, c.links, "#/components/links/"@, "links"@, path, Options::IgnoreUnusedLinks, s8),
        opt_section_checks(spec, options, s8.1, s8.0, c.callbacks, "#/components/callbacks/"@, "callbacks"@, path, Options::IgnoreUnusedCallbacks, after),
    ensures
        components_tail_checks(c, spec, options, s5.1, s5.0, path, after),
{
}

/// [`components_checks`] from the states each of its sections leaves.
pub proof fn lemma_components(
    c: Components,
    spec: Spec,
    options: OptionSet,
    vis: Set<Seq<char>>,
    errs: Seq<Seq<char>>,
    s1: (Seq<Seq<char>>, Set<Seq<char>>),
    s4: (Seq<Seq<char>>, Set<Seq<char>>),
    s5: (Seq<Seq<char>>, Set<Seq<char>>),
    path: Seq<char>,
    after: (Seq<Seq<char>>, Set<Seq<char>>),
)
    requires
        opt_section_checks(spec, options, vis, errs, c.schemas, "#/components/schemas/"@, "schemas"@, path, Options::IgnoreUnusedSchemas, s1),
        opt_section_checks(spec, options, s1.1, s1.0 + first_named_errors(c, options, s1.1, path), c.examples, "#/components/examples/"@, "examples"@, path, Options::IgnoreUnusedExamples, s4),
        opt_section_checks(spec, options, s4.1, s4.0, c.request_bodies, "#/components/requestBodies/"@, "requestBodies"@, path, Options::IgnoreUnusedRequestBodies, s5),
        components_tail_checks(c, spec, options, s5.1, s5.0, path, after),
    ensures
        components_checks(c, spec, options, vis, errs, path, after),
{
}

impl Components {
    /// Checks the components found at `path`, section by section (see
    /// [`components_checks`]); responses, parameters and security schemes
    /// are checked by name and use only.
    #[verifier::spinoff_prover]
    #[verifier::rlimit(60)]
    pub fn validate(&self, ctx: &mut Context<'_, Spec>, path: String)
        ensures
            final(ctx).extends(old(ctx)),
            components_checks(
                *self,
                *old(ctx).spec,
                old(ctx).options,
                old(ctx).visited_set(),
                old(ctx).errors_view(),
                path@,
                (final(ctx).errors_view(), final(ctx).visited_set()),
            ),
    {
        let ghost spec = *old(ctx).spec;
        let ghost opts = old(ctx).options;
        let ghost c0 = *ctx;
        check_opt_section(ctx, &self.schemas, "#/components/schemas/", "schemas", path.as_str(), Options::IgnoreUnusedSchemas);
        let ghost c1 = *ctx;
        check_opt_entry_names(ctx, &self.responses, "#/components/responses/", "responses", path.as_str(), Options::IgnoreUnusedResponses);
        check_opt_entry_names(ctx, &self.parameters, "#/components/parameters/", "parameters", path.as_str(), Options::IgnoreUnusedParameters);
        let ghost c3 = *ctx;
        proof {
            assert(c3.errors_view() =~= c1.errors_view() + first_named_errors(*self, opts, c1.visited_set(), path@));
            assert(c3.visited_set() == c1.visited_set());
            assert(c3.extends(&c1));
        }
        check_opt_section(ctx, &self.examples, "#/components/examples/", "examples", path.as_str(), Options::IgnoreUnusedExamples);
        let ghost c4 = *ctx;
        check_opt_section(ctx, &self.request_bodies, "#/components/requestBodies/", "requestBodies", path.as_str(), Options::IgnoreUnusedRequestBodies);
        let ghost c5 = *ctx;
        check_opt_section(ctx, &self.headers, "#/components/headers/", "headers", path.as_str(), Options::IgnoreUnusedHeaders);
        let ghost c6 = *ctx;
        check_opt_entry_names(ctx, &self.security_schemes, "#/components/securitySchemes/", "securitySchemes", path.as_str(), Options::IgnoreUnusedSecuritySchemes);
        let ghost c6b = *ctx;
        proof {
            assert(c6b.errors_view() =~= c6.errors_view() + scheme_named_errors(*self, opts, c6.visited_set(), path@));
            assert(c6b.visited_set() == c6.visited_set());
            assert(c6b.extends(&c6));
        }
        check_opt_section(ctx, &self.path_items, "#/components/pathItems/", "pathItems", path.as_str(), Options::IgnoreUnusedPathItems);
        let ghost c7 = *ctx;
        check_opt_section(ctx, &self.links, "#/components/links/", "links", path.as_str(), Options::IgnoreUnusedLinks);
        let ghost c8 = *ctx;
        check_opt_section(ctx, &self.callbacks, "#/components/callbacks/", "callbacks", path.as_str(), Options::IgnoreUnusedCallbacks);
        proof {
            let fin = (ctx.errors_view(), ctx.visited_set());
            let s1 = (c1.errors_view(), c1.visited_set());
            let s4 = (c4.errors_view(), c4.visited_set());
            let s5 = (c5.errors_view(), c5.visited_set());
            let s6 = (c6.errors_view(), c6.visited_set());
            let s7 = (c7.errors_view(), c7.visited_set());
            let s8 = (c8.errors_view(), c8.visited_set());
            lemma_tail(*self, spec, opts, s5, s6, s7, s8, path@, fin);
            lemma_components(*self, spec, opts, c0.visited_set(), c0.errors_view(), s1, s4, s5, path@, fin);
            lemma_extends_chain(c7, c8, *ctx);
            lemma_extends_chain(c6b, c7, *ctx);
            lemma_extends_chain(c6, c6b, *ctx);
            lemma_extends_chain(c5, c6, *ctx);
            lemma_extends_chain(c4, c5, *ctx);
            lemma_extends_chain(c3, c4, *ctx);
            lemma_extends_chain(c1, c3, *ctx);
            lemma_extends_chain(c0, c1, *ctx);
        }
    }
}

impl ValidateWithContext<Spec> for Components {
    open spec fn checks(
        &self,
        spec: Spec,
        options: OptionSet,
        visited: Set<Seq<char>>,
        errors: Seq<Seq<char>>,
        path: Seq<char>,
        after: (Seq<Seq<char>>, Set<Seq<char>>),
    ) -> bool {
        components_checks(*self, spec, options, visited, errors, path, after)
    }

    fn validate_with_context(&self, ctx: &mut Context<'_, Spec>, path: String) {
        self.validate(ctx, path);
    }
}

} // verus!
