//! The error taxonomy shared by every command of the library.

use vstd::prelude::*;
use vstd::string::StringExecFns;

verus! {

/// One error per way a command can fail.  Every variant carries the detail
/// text (usually the offending id); [`AppError::message`] renders the
/// human-readable form.
#[derive(Debug)]
pub enum AppError {
    EntityNotFound(String),
    TrackerNotFound(String),
    InvalidOperation(String),
    OutOfRange(String),
    Validation(String),
    LockError(String),
    PersistenceError(String),
    EmitError(String),
}

/// Result type alias for commands.
pub type AppResult<T> = Result<T, AppError>;

impl AppError {
    /// The rendered message: a fixed prefix naming the failure class,
    /// followed by the variant's detail text.
    pub open spec fn message_view(self) -> Seq<char> {
        match self {
            AppError::EntityNotFound(s) => "Entity not found: "@ + s@,
            AppError::TrackerNotFound(s) => "Tracker not found: "@ + s@,
            AppError::InvalidOperation(s) => "Invalid operation: "@ + s@,
            AppError::OutOfRange(s) => "Value out of range: "@ + s@,
            AppError::Validation(s) => "Validation error: "@ + s@,
            AppError::LockError(s) => "State lock error: "@ + s@,
            AppError::PersistenceError(s) => "Persistence error: "@ + s@,
            AppError::EmitError(s) => "Event emission error: "@ + s@,
        }
    }

    /// Renders the human-readable message for this error.
    pub fn message(&self) -> (r: String)
        ensures
            r@ == self.message_view(),
    {
        match self {
            AppError::EntityNotFound(s) => String::from_str("Entity not found: ").concat(s.as_str()),
            AppError::TrackerNotFound(s) => String::from_str("Tracker not found: ").concat(s.as_str()),
            AppError::InvalidOperation(s) => String::from_str("Invalid operation: ").concat(s.as_str()),
            AppError::OutOfRange(s) => String::from_str("Value out of range: ").concat(s.as_str()),
            AppError::Validation(s) => String::from_str("Validation error: ").concat(s.as_str()),
            AppError::LockError(s) => String::from_str("State lock error: ").concat(s.as_str()),
            AppError::PersistenceError(s) => String::from_str("Persistence error: ").concat(s.as_str()),
            AppError::EmitError(s) => String::from_str("Event emission error: ").concat(s.as_str()),
        }
    }
}

} // verus!
