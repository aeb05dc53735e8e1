use vstd::prelude::*;

verus! {

/// The failures that travel on the error channel of a service operation.
#[derive(Debug, Clone, Copy, PartialEq, Eq, Structural)]
pub enum ServiceError {
    /// Missing, malformed or expired token, or no membership in the realm.
    Forbidden,
    /// The entity that the request names does not exist.
    NotFound,
    /// A uniqueness rule would be broken.
    Conflict,
    /// Malformed input: a bad id, a missing field, a broken invariant.
    Invalid,
    /// The store refused a write that the checks let through.
    Internal,
}

} // verus!
