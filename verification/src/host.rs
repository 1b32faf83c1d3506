//! The host integration seam for data: the `DataResolver` trait.
//!
//! A spec references its data by an opaque identifier; the host implements this
//! trait to map that identifier to a `Table`, keeping file access, sandboxing, and
//! network policy host-side. The core never reads files itself.

use crate::data::Table;
use vstd::prelude::*;

verus! {

/// An error a resolver returns when an identifier cannot be mapped to a table.
/// Wraps a host-supplied message (e.g. "file not found", "permission denied").
#[derive(Debug, PartialEq, Eq)]
pub struct ResolveError(pub String);

impl Clone for ResolveError {
    fn clone(&self) -> (r: Self)
        ensures
            r == *self,
    {
        ResolveError(self.0.clone())
    }
}

impl ResolveError {
    /// The host-supplied message.
    pub fn message(&self) -> (r: String)
        ensures
            r@ == self.0@,
    {
        self.0.clone()
    }
}

/// Implemented by a host to turn a data identifier into a raw `Table`. The core
/// calls this; it never interprets, rewrites, or persists the identifier itself.
pub trait DataResolver {
    /// Resolve a data identifier to a table, or fail with a host-supplied message.
    fn resolve(&self, id: &str) -> Result<Table, ResolveError>;
}

} // verus!
