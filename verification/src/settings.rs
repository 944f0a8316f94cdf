//! Validation of the settings object a policy is configured with.
use vstd::prelude::*;

verus! {

/// Trait that every settings object implements: says whether the values the
/// user gave are valid.
pub trait Validatable {
    /// Ensures the values given by the user are valid.
    fn validate(&self) -> Result<(), String>;
}

/// Outcome of validating a settings object: `valid` tells whether the
/// settings were accepted, `message` explains a rejection to the user.
#[derive(Debug, Clone, PartialEq)]
pub struct SettingsValidationResponse {
    /// True if the settings are valid.
    pub valid: bool,
    /// Message shown to the user when the settings are not valid.
    pub message: Option<String>,
}

/// Builds the response reported to the host from the outcome of
/// [`Validatable::validate`]: an `Ok` outcome is valid and carries no
/// message, an `Err` outcome is invalid and carries the error text.
pub fn settings_validation_response(outcome: Result<(), String>) -> (r: SettingsValidationResponse)
    ensures
        r.valid == outcome is Ok,
        outcome matches Err(m) ==> r.message == Some(m),
        outcome is Ok ==> r.message is None,
{
    match outcome {
        Ok(()) => SettingsValidationResponse { valid: true, message: None },
        Err(m) => SettingsValidationResponse { valid: false, message: Some(m) },
    }
}

} // verus!
