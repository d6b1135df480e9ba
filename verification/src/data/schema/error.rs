//! The error of scanning a type into a schema.

use vstd::prelude::*;

verus! {

/// Error scanning a type to create its JSON Schema.
#[derive(Debug)]
pub enum SchemaScanError {
    Error { inner: String },
}

impl SchemaScanError {
    pub fn error(msg: &str) -> (r: SchemaScanError)
        ensures
            r matches SchemaScanError::Error { inner } && inner@ == msg@,
    {
        SchemaScanError::Error { inner: msg.to_owned() }
    }
}

} // verus!
