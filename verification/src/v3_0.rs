//! OpenAPI v3.0.X.
pub mod components;
pub mod discriminator;
pub mod document;
pub mod info;
pub mod link;
pub mod operation;
pub mod parameter;
pub mod path_item;
pub mod reference;
pub mod schema;
pub mod server;
pub mod spec;
pub mod tag;
pub mod validation;
pub mod content;
