//! JSON Schema documents that describe the configuration of services.

pub mod builders;
pub mod error;
pub mod json_schema;
pub mod visitors;

pub use error::SchemaScanError;
pub use json_schema::{JsonSchema, RangeValue, SchemaTypes};
