//! The native error taxonomy.

use vstd::prelude::*;

verus! {

/// An error that converts to one of the native error objects of the language.
#[derive(Debug)]
pub enum CoreError {
    /// Converts to an `EvalError` object.
    EvalError(String),
    /// Converts to a `RangeError` object.
    RangeError(String),
    /// Converts to a `ReferenceError` object.
    ReferenceError(String),
    /// Converts to a `SyntaxError` object.
    SyntaxError(String),
    /// Converts to a `TypeError` object.
    TypeError(String),
    /// Converts to a `URIError` object.
    URIError(String),
}

/// The outcome of a fallible native operation.
pub type CoreResult<T> = Result<T, CoreError>;

} // verus!
