//! Errors of converting between values and other types.

use crate::data::value::Value;
use vstd::prelude::*;

verus! {

/// An error of turning a type into a value.
#[derive(Debug)]
pub enum SerializeError {
    InvalidType { expected: String, candidate: Value },
    Error { inner: String },
}

/// An error of reading a type from a value.
#[derive(Debug)]
pub enum DeserializeError {
    InvalidType { expected: String, candidate: Value },
    Error { inner: String },
}

impl SerializeError {
    pub fn error(msg: &str) -> (r: SerializeError)
        ensures
            r matches SerializeError::Error { inner } && inner@ == msg@,
    {
        SerializeError::Error { inner: msg.to_owned() }
    }

    /// The value `v` is not of the type `expected`.
    pub fn invalid_type(expected: &str, v: Value) -> (r: SerializeError)
        ensures
            r matches SerializeError::InvalidType { expected: e, candidate: c } && e@ == expected@
                && c@ == v@,
    {
        SerializeError::InvalidType { expected: expected.to_owned(), candidate: v }
    }
}

impl DeserializeError {
    pub fn error(msg: &str) -> (r: DeserializeError)
        ensures
            r matches DeserializeError::Error { inner } && inner@ == msg@,
    {
        DeserializeError::Error { inner: msg.to_owned() }
    }

    /// The value `v` cannot be read as the type `expected`; the error keeps a copy of it.
    pub fn invalid_type(expected: &str, v: &Value) -> (r: DeserializeError)
        ensures
            r matches DeserializeError::InvalidType { expected: e, candidate: c } && e@ == expected@
                && c@ == v@,
    {
        DeserializeError::InvalidType { expected: expected.to_owned(), candidate: v.deep_copy() }
    }
}

} // verus!
