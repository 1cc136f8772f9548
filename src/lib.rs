//! A schema-and-validation engine that turns untyped string properties into
//! typed configuration values.

pub mod codec;
pub mod error;
pub mod props;
pub mod resolve;
pub mod schema;
pub mod text;
pub mod validators;
