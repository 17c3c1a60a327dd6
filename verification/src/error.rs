//! Error taxonomy for the boundary: every fallible call returns an explicit
//! error value carrying a category code, a specific message, and an optional
//! detail string.  Nothing panics across the boundary.

use vstd::prelude::*;

verus! {

/// Category of a failure reported across the host boundary.
#[derive(Clone, Copy, PartialEq, Eq, Structural, Debug)]
pub enum ErrorCode {
    /// A handle that does not (or no longer does) resolve to a resource.
    InvalidHandle,
    /// Batches or fields whose schemas disagree.
    SchemaMismatch,
    /// An index or range outside the addressed resource.
    OutOfBounds,
    /// A cell or column of a type the operation does not accept.
    TypeMismatch,
    /// A byte buffer whose container format could not be classified.
    FormatDetection,
    /// A failure of the underlying codec while reading or writing bytes.
    Io,
    /// An input rejected before any work was attempted.
    Validation,
    /// A resource-management failure, e.g. an exhausted handle space.
    Memory,
    /// An operation the build does not provide.
    NotImplemented,
}

/// Error value crossing the boundary: `{code, message, details}`, all plain
/// data, so a host shim can serialize it without touching native memory.
#[derive(Clone, Debug)]
pub struct CoreError {
    pub code: ErrorCode,
    pub message: String,
    pub details: Option<String>,
}

impl CoreError {
    pub fn new(code: ErrorCode, message: String) -> (r: CoreError)
        ensures
            r.code == code,
            r.message == message,
            r.details is None,
    {
        CoreError { code, message, details: None }
    }

    pub fn with_details(code: ErrorCode, message: String, details: String) -> (r: CoreError)
        ensures
            r.code == code,
            r.message == message,
            r.details == Some(details),
    {
        CoreError { code, message, details: Some(details) }
    }

    /// An input rejected up front.
    pub fn validation(message: String) -> (r: CoreError)
        ensures
            r.code == ErrorCode::Validation,
            r.message == message,
            r.details is None,
    {
        CoreError::new(ErrorCode::Validation, message)
    }

    /// A codec failure while reading or writing bytes.
    pub fn io(message: String) -> (r: CoreError)
        ensures
            r.code == ErrorCode::Io,
            r.message == message,
            r.details is None,
    {
        CoreError::new(ErrorCode::Io, message)
    }

    /// A buffer whose format could not be classified.
    pub fn format_detection(message: String) -> (r: CoreError)
        ensures
            r.code == ErrorCode::FormatDetection,
            r.message == message,
            r.details is None,
    {
        CoreError::new(ErrorCode::FormatDetection, message)
    }

    /// An index or range outside the addressed resource.
    pub fn out_of_bounds(message: String) -> (r: CoreError)
        ensures
            r.code == ErrorCode::OutOfBounds,
            r.message == message,
            r.details is None,
    {
        CoreError::new(ErrorCode::OutOfBounds, message)
    }

    /// A resource-management failure.
    pub fn memory(message: String) -> (r: CoreError)
        ensures
            r.code == ErrorCode::Memory,
            r.message == message,
            r.details is None,
    {
        CoreError::new(ErrorCode::Memory, message)
    }

    /// A handle that does not resolve.
    pub fn invalid_handle(message: String) -> (r: CoreError)
        ensures
            r.code == ErrorCode::InvalidHandle,
            r.message == message,
            r.details is None,
    {
        CoreError::new(ErrorCode::InvalidHandle, message)
    }

    /// An operation this build does not provide.
    pub fn not_implemented(message: String) -> (r: CoreError)
        ensures
            r.code == ErrorCode::NotImplemented,
            r.message == message,
            r.details is None,
    {
        CoreError::new(ErrorCode::NotImplemented, message)
    }

    /// The message, for hosts that only display text.
    pub fn to_message(&self) -> (r: String)
        ensures
            r@ == self.message@,
    {
        self.message.clone()
    }
}

/// Result alias used by every fallible operation of the core.
pub type CoreResult<T> = Result<T, CoreError>;

} // verus!
