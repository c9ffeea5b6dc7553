//! Resolution of `$ref`s against the document that holds them.
use vstd::prelude::*;
use crate::common::text::{concat, push_str};

verus! {

/// Why a `$ref` could not be followed.
#[derive(Debug, PartialEq, Eq)]
pub enum ResolveError {
    /// An internal reference whose target is not declared, or whose chain of
    /// aliases loops back on itself.
    NotFound(String),
    /// A reference to another document, which is not followed.
    ExternalUnsupported(String),
}

/// The text of a [`ResolveError`].
pub open spec fn resolve_error_text(e: ResolveError) -> Seq<char> {
    match e {
        ResolveError::NotFound(r) => "`"@ + r@ + "` not found"@,
        ResolveError::ExternalUnsupported(r) => "external reference `"@ + r@ + "` is not supported"@,
    }
}

impl ResolveError {
    /// The text of the error.
    pub fn message(&self) -> (res: String)
        ensures
            res@ == resolve_error_text(*self),
    {
        match self {
            ResolveError::NotFound(r) => {
                let mut s = concat("`", r.as_str());
                push_str(&mut s, "` not found");
                s
            },
            ResolveError::ExternalUnsupported(r) => {
                let mut s = concat("external reference `", r.as_str());
                push_str(&mut s, "` is not supported");
                s
            },
        }
    }
}

/// A document that can look up the `D` that an internal `$ref` names.
pub trait ResolveReference<D> {
    /// The `D` that `reference` names in this document, if any.
    spec fn resolved(&self, reference: Seq<char>) -> Option<D>;

    /// Looks up the `D` that `reference` names.
    fn resolve_reference(&self, reference: &str) -> (res: Option<&D>)
        ensures
            match res {
                Some(d) => self.resolved(reference@) == Some(*d),
                None => self.resolved(reference@) is None,
            },
    ;
}

} // verus!
