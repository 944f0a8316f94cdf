//! The trust-policy model: configuration documents, the assertion schema,
//! AllOf / AnyOf groups, the versioned wrapper around them, and the evaluator
//! that walks a configuration and combines oracle verdicts.
pub mod assertion;
pub mod config;
pub mod error;
pub mod evaluate;
pub mod laws;
pub mod parse;
pub mod serialize;
pub mod subject;
pub mod value;
