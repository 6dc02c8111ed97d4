//! Completion records: the outcome of evaluating a language construct.
//!
//! A native operation returns a [`CoreResult`]; `From` turns it into a
//! completion, `Ok` into `Normal` and `Err` into `Throw`.

use vstd::prelude::*;

use crate::errors::{CoreError, CoreResult};

verus! {

/// A completion record.
pub enum Completion<T> {
    /// A normal completion.
    Normal(T),
    /// A throw completion, from the `throw` keyword or a failed native operation.
    Throw(CoreError),
    /// A return completion, from the `return` keyword.
    Return(T),
    /// A break completion, from the `break` keyword, with its optional label.
    Break(Option<String>),
    /// A continue completion, from the `continue` keyword, with its optional label.
    Continue(Option<String>),
}

/// The completion that a native outcome stands for.
pub open spec fn completion_of<T>(result: CoreResult<T>) -> Completion<T> {
    match result {
        Ok(value) => Completion::Normal(value),
        Err(err) => Completion::Throw(err),
    }
}

impl<T> From<CoreResult<T>> for Completion<T> {
    fn from(result: CoreResult<T>) -> (r: Self)
        ensures
            r == completion_of(result),
    {
        match result {
            Ok(value) => Completion::Normal(value),
            Err(err) => Completion::Throw(err),
        }
    }
}

impl<T> vstd::std_specs::convert::FromSpecImpl<CoreResult<T>> for Completion<T> {
    open spec fn obeys_from_spec() -> bool {
        true
    }

    open spec fn from_spec(result: CoreResult<T>) -> Self {
        completion_of(result)
    }
}

} // verus!
