//! The error kinds that every operation of the engine can surface.

use vstd::prelude::*;

verus! {

/// The kind of failure an operation reports. Operations are atomic: on any
/// error the store is left exactly as it was.
#[derive(Clone, Copy, Debug, PartialEq, Eq, Structural)]
pub enum AppError {
    /// An identity was required but absent or not acceptable.
    Auth,
    /// The input failed a field constraint, used an unsupported answer kind,
    /// or was a duplicate submission by an identified respondent.
    Validation,
    /// A referenced questionnaire, question, response or user is absent.
    NotFound,
    /// The actor is not the creator of the resource.
    Permission,
    /// An unexpected storage-level failure.
    Internal,
}

pub type AppResult<T> = Result<T, AppError>;

} // verus!
