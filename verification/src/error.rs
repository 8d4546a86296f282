//! Typed error results shared by every operation entry point.
//!
//! Each operation returns one of these kinds instead of panicking or
//! swallowing a failure; an HTTP layer on top maps them to status codes.

use vstd::prelude::*;

verus! {

/// A mutable field of a patchable resource, named in validation failures,
/// plus the pagination cursor, which is validated on decoding.
#[derive(Clone, Copy, PartialEq, Eq, Structural, Debug)]
pub enum Field {
    Name,
    Position,
    Requirement,
    Video,
    Verifier,
    Publisher,
    Cursor,
}

/// Why a field value was rejected.
#[derive(Clone, Copy, PartialEq, Eq, Structural, Debug)]
pub enum Reason {
    /// The value may not be empty.
    Empty,
    /// The value lies outside the range the collection accepts.
    OutOfRange,
    /// The value is structurally ill-formed.
    Malformed,
}

/// One rejected field together with the reason for the rejection.
#[derive(Clone, Copy, PartialEq, Eq, Structural, Debug)]
pub struct ValidationFailure {
    pub field: Field,
    pub reason: Reason,
}

/// The error kinds an operation can return.
///
/// `ValidationError` carries every rejected field of the request at once,
/// not only the first; nothing is persisted when it is returned.
#[derive(Debug)]
pub enum PointercrateError {
    /// The caller does not hold the permissions the operation requires.
    PermissionDenied,
    /// The presented version token does not match the resource's current one.
    PreconditionFailed,
    /// The operation demands a version token and none was presented.
    PreconditionRequired,
    /// One or more fields were rejected; all of them are reported together.
    ValidationError(Vec<ValidationFailure>),
    /// The identity does not resolve to an existing resource.
    NotFound,
    /// A malformed declaration was detected at startup, never at request time.
    ConfigurationError,
}

} // verus!
