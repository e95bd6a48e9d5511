//! Errors of the markets services and the status each is answered with.
use vstd::prelude::*;
use vstd::string::StringExecFns;

verus! {

/// Failures of the markets services. A database failure carries the
/// database's own description of it.
pub enum ProgramError {
    Database(String),
    NotFound(String),
    Validation(String),
}

/// Status codes a failed request is answered with.
#[derive(Debug, Clone, Copy, PartialEq, Eq, Structural)]
pub enum StatusCode {
    NotFound,
    InvalidArgument,
    Internal,
}

/// The status a failed request is answered with.
pub struct Status {
    pub code: StatusCode,
    pub message: String,
}

impl ProgramError {
    /// The answer to a request that failed with this error: a missing
    /// resource and a database failure get fixed messages (the details stay
    /// out of the answer), a validation failure its own message.
    pub fn to_status(self) -> (s: Status)
        ensures
            match self {
                ProgramError::NotFound(_) => s.code == StatusCode::NotFound && s.message@
                    == "Resource not found"@,
                ProgramError::Validation(msg) => s.code == StatusCode::InvalidArgument
                    && s.message@ == msg@,
                ProgramError::Database(_) => s.code == StatusCode::Internal && s.message@
                    == "Failed to process request"@,
            },
    {
        match self {
            ProgramError::NotFound(_) => Status {
                code: StatusCode::NotFound,
                message: String::from_str("Resource not found"),
            },
            ProgramError::Validation(msg) => Status { code: StatusCode::InvalidArgument, message: msg },
            ProgramError::Database(_) => Status {
                code: StatusCode::Internal,
                message: String::from_str("Failed to process request"),
            },
        }
    }
}

} // verus!
