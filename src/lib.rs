//! A schema-validation engine: a schema describes the shape of a dynamic
//! value, and validation reports every violation with its location.
pub mod number;
pub mod value;
pub mod schema;
pub mod error;
pub mod message;
pub mod validate;
pub mod laws;
