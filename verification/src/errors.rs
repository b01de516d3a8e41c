//! The error taxonomy of the core.
//!
//! Every failing operation reports exactly one of these; transport code
//! maps them onto status codes (authorization failures to 401, validation
//! failures to 400, a missing patch target to 404). Capability-token
//! decode failures never appear here: they are authorization failures.

use vstd::prelude::*;

verus! {

/// Why an operation of the core failed.
#[derive(Clone, Copy, Debug, PartialEq, Eq, Structural)]
pub enum ApiError {
    /// The caller is neither the administrator nor the verified author of
    /// the target comment.
    Unauthorized,
    /// The update payload left no applicable field assignments.
    Validation,
    /// No record with the requested id exists.
    NotFound,
}

impl ApiError {
    /// The human-readable message that accompanies the error on the wire.
    pub fn message(&self) -> (r: String)
        ensures
            self is Unauthorized ==> r@ == "Unauthorized"@,
            self is Validation ==> r@ == "No updates provided"@,
            self is NotFound ==> r@ == "No such comment"@,
    {
        match self {
            ApiError::Unauthorized => "Unauthorized".to_owned(),
            ApiError::Validation => "No updates provided".to_owned(),
            ApiError::NotFound => "No such comment".to_owned(),
        }
    }
}

} // verus!
