use vstd::prelude::*;

verus! {

/// The error taxonomy of the filter.
///
/// Verification failures that a remote browser may trigger all collapse
/// to "deny" at the handler boundary; administrative commands surface
/// these variants directly.
#[derive(Clone, Copy, Debug, PartialEq, Eq, Structural)]
pub enum AuthError {
    /// No such account or session; an expected outcome, not a fault.
    NotFound,
    /// Unparseable cookie, invalid field, or corrupt stored hash.
    Malformed,
    /// The cache or the store could not be reached; treated as deny.
    Connectivity,
    /// An account with the same username already exists.
    Conflict,
    /// The on-disk layout is not the version the migrator expects.
    VersionMismatch,
    /// An unexpected failure (hashing internals, identifier collision).
    Fatal,
}

} // verus!
