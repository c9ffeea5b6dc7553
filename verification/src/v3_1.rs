//! OpenAPI v3.1.X.
pub mod spec;
pub mod components;
pub mod example;
pub mod external_documentation;
pub mod link;
pub mod parameter;
pub mod operation;
pub mod path_item;
pub mod path_lookup;
pub mod response;
pub mod schema;
pub mod discriminator;
pub mod document;
pub mod validation;
pub mod security_scheme;
pub mod from_v3_0;
