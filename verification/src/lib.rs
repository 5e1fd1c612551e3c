//! Core logic of a tutoring-management backend: account credentials,
//! time-bounded session tokens, an ownership-based authorization check,
//! an append-only submission ledger, and the state machine that drives
//! project builds.

use vstd::prelude::*;

pub mod accounts;
pub mod classes;
pub mod curriculum;
pub mod pipeline;
pub mod projects;
pub mod sessions;
pub mod students;
pub mod submissions;

verus! {

/// Outcome of a rejected operation.
///
/// Authentication failures (missing, unknown or expired token) and
/// authorization failures (the account does not own the target resource)
/// are surfaced as the same `Unauthorized` value, so a caller cannot
/// tell whether the resource exists.
#[derive(Clone, Copy, Debug, PartialEq, Eq, Structural)]
pub enum ApiError {
    /// The caller is not allowed to see or touch the resource.
    Unauthorized,
    /// An administrative operation named a record that does not exist.
    NotFound,
    /// The requested username is already in use.
    UsernameTaken,
    /// The supplied session token string is already stored.
    TokenInUse,
    /// The password-hashing routine reported a failure.
    HashFailed,
    /// A class status string was not one of the recognized statuses.
    InvalidStatus,
    /// The project is not in a state that allows the transition.
    InvalidState,
}

} // verus!
