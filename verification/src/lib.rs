//! Policy SDK for Kubewarden-style admission policies.
//!
//! The heart of the crate is the trust-policy model: a declarative schema
//! describing which signature assertions an artifact must satisfy
//! ([`policy`]), and the evaluator that walks such a schema, delegating each
//! leaf assertion to an external verification oracle and combining the
//! verdicts under AllOf / AnyOf semantics ([`policy::evaluate`]).
pub mod cluster_context;
pub mod crd;
pub mod host_capabilities;
pub mod metadata;
pub mod oci_callbacks;
pub mod policy;
pub mod request;
pub mod settings;

pub use settings::{SettingsValidationResponse, Validatable, settings_validation_response};
