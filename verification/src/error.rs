use vstd::prelude::*;

verus! {

/// Failure taxonomy of the engine and its host-facing helpers.
///
/// `NotFound` is fatal to a whole render call and is surfaced before any
/// drawing work; `Validation` rejects an unsafe input (a file path, for
/// instance); `Internal` wraps a failure of the surrounding output machinery.
#[derive(Debug)]
pub enum AppError {
    NotFound(String),
    Validation(String),
    Internal(String),
}

impl AppError {
    /// The human-readable message carried by the error.
    pub fn message(&self) -> (m: &String)
        ensures
            m@ == self.spec_message(),
    {
        match self {
            AppError::NotFound(m) => m,
            AppError::Validation(m) => m,
            AppError::Internal(m) => m,
        }
    }

    pub open spec fn spec_message(&self) -> Seq<char> {
        match self {
            AppError::NotFound(m) => m@,
            AppError::Validation(m) => m@,
            AppError::Internal(m) => m@,
        }
    }

    pub fn is_not_found(&self) -> (b: bool)
        ensures
            b == (self is NotFound),
    {
        match self {
            AppError::NotFound(_) => true,
            _ => false,
        }
    }

    pub fn is_validation(&self) -> (b: bool)
        ensures
            b == (self is Validation),
    {
        match self {
            AppError::Validation(_) => true,
            _ => false,
        }
    }
}

pub type AppResult<T> = Result<T, AppError>;

} // verus!
