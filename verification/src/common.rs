//! Building blocks shared by both OpenAPI versions.
pub mod checks;
pub mod context;
pub mod entries;
pub mod json;
pub mod keys;
pub mod model;
pub mod order;
pub mod parameters;
pub mod patterns;
pub mod pointer;
pub mod reach;
pub mod reference;
pub mod schema_checks;
pub mod sections;
pub mod security;
pub mod text;
pub mod uniqueness;
