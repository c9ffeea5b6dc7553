//! Verified core of an OpenAPI 3.0 / 3.1 description library: references and
//! their resolution, specification versions, and the cross-cutting validation
//! rules of a description document.
pub mod common;
pub mod v3_0;
pub mod v3_1;
