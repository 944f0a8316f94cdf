use kubewarden_policy_sdk::host_capabilities::verification::VerificationResponse;
use kubewarden_policy_sdk::policy::assertion::Assertion;
use kubewarden_policy_sdk::policy::config::{
    AnyOfGroup, VerificationConfig, VersionedVerificationConfig,
};
use kubewarden_policy_sdk::policy::error::{EvalError, OracleError};
use kubewarden_policy_sdk::policy::evaluate::{evaluate, ScriptedOracle};
use kubewarden_policy_sdk::policy::subject::Subject;

fn pub_key(key: &str) -> Assertion {
    Assertion::PubKey {
        owner: None,
        key: key.to_string(),
        annotations: None,
    }
}

fn issuer(subject: &str) -> Assertion {
    Assertion::GenericIssuer {
        issuer: "https://issuer.example.com".to_string(),
        subject: Subject::Equal(subject.to_string()),
        annotations: None,
    }
}

fn trusted(digest: &str) -> Result<VerificationResponse, OracleError> {
    Ok(VerificationResponse {
        is_trusted: true,
        digest: digest.to_string(),
    })
}

fn not_trusted() -> Result<VerificationResponse, OracleError> {
    Ok(VerificationResponse {
        is_trusted: false,
        digest: String::new(),
    })
}

fn broken() -> Result<VerificationResponse, OracleError> {
    Err(OracleError::HostFailure("transport failed".to_string()))
}

fn all_of(assertions: Vec<Assertion>) -> VersionedVerificationConfig {
    VersionedVerificationConfig::V1(VerificationConfig {
        all_of: Some(assertions),
        any_of: None,
    })
}

fn any_of(minimum_matches: u64, signatures: Vec<Assertion>) -> VersionedVerificationConfig {
    VersionedVerificationConfig::V1(VerificationConfig {
        all_of: None,
        any_of: Some(AnyOfGroup {
            minimum_matches,
            signatures,
        }),
    })
}

#[test]
fn all_of_short_circuits_on_the_first_distrust() {
    let config = all_of(vec![pub_key("A"), pub_key("B"), pub_key("C")]);
    let mut oracle = ScriptedOracle::new(vec![not_trusted(), trusted("d"), trusted("d")]);
    let result = evaluate(&config, "registry.example.com/app:1.0", &mut oracle).unwrap();
    assert!(!result.satisfied);
    assert_eq!(oracle.asked.len(), 1);
    assert_eq!(oracle.asked[0], pub_key("A"));
}

#[test]
fn all_of_satisfied_calls_every_assertion_once() {
    let config = all_of(vec![pub_key("A"), pub_key("B")]);
    let mut oracle = ScriptedOracle::new(vec![trusted("d1"), trusted("d2")]);
    let result = evaluate(&config, "registry.example.com/app:1.0", &mut oracle).unwrap();
    assert!(result.satisfied);
    assert_eq!(oracle.asked.len(), 2);
    assert_eq!(result.digest.unwrap(), "d2");
}

#[test]
fn any_of_stops_as_soon_as_the_threshold_is_reached() {
    let config = any_of(2, vec![issuer("A"), issuer("B"), issuer("C")]);
    let mut oracle = ScriptedOracle::new(vec![trusted("d1"), not_trusted(), trusted("d3")]);
    let result = evaluate(&config, "registry.example.com/app:1.0", &mut oracle).unwrap();
    assert!(result.satisfied);
    assert_eq!(oracle.asked.len(), 3);
    assert_eq!(result.digest.unwrap(), "d3");
}

#[test]
fn any_of_stops_as_soon_as_the_threshold_is_unreachable() {
    // With two assertions and a threshold of two, the first distrust already
    // makes the threshold unreachable: only one call is made.
    let config = any_of(2, vec![issuer("A"), issuer("B")]);
    let mut oracle = ScriptedOracle::new(vec![not_trusted(), not_trusted()]);
    let result = evaluate(&config, "registry.example.com/app:1.0", &mut oracle).unwrap();
    assert!(!result.satisfied);
    assert_eq!(oracle.asked.len(), 1);
}

#[test]
fn any_of_with_threshold_zero_is_satisfied_without_calls() {
    let config = any_of(0, vec![issuer("A")]);
    let mut oracle = ScriptedOracle::new(vec![]);
    let result = evaluate(&config, "registry.example.com/app:1.0", &mut oracle).unwrap();
    assert!(result.satisfied);
    assert_eq!(oracle.asked.len(), 0);
}

#[test]
fn end_to_end_both_groups() {
    let config = VersionedVerificationConfig::V1(VerificationConfig {
        all_of: Some(vec![pub_key("K")]),
        any_of: Some(AnyOfGroup {
            minimum_matches: 2,
            signatures: vec![
                issuer("I1"),
                issuer("I2"),
                Assertion::GithubAction {
                    owner: "octocat".to_string(),
                    repo: None,
                    annotations: None,
                },
            ],
        }),
    });
    let mut oracle = ScriptedOracle::new(vec![
        trusted("sha256:aaa"),
        trusted("sha256:bbb"),
        not_trusted(),
        trusted("sha256:ccc"),
    ]);
    let result = evaluate(&config, "registry.example.com/app:1.0", &mut oracle).unwrap();
    assert!(result.satisfied);
    assert_eq!(oracle.asked.len(), 4);
    assert_eq!(result.digest.unwrap(), "sha256:ccc");
}

#[test]
fn an_oracle_error_aborts_even_after_a_trusted_verdict() {
    let config = all_of(vec![pub_key("A"), pub_key("B"), pub_key("C")]);
    let mut oracle = ScriptedOracle::new(vec![trusted("d"), broken(), trusted("d")]);
    let err = evaluate(&config, "registry.example.com/app:1.0", &mut oracle).unwrap_err();
    assert_eq!(
        err,
        EvalError::Oracle(OracleError::HostFailure("transport failed".to_string()))
    );
    assert_eq!(oracle.asked.len(), 2);
}

#[test]
fn unsupported_version_refuses_to_run() {
    let config = VersionedVerificationConfig::Unsupported("v999".to_string());
    let mut oracle = ScriptedOracle::new(vec![trusted("d")]);
    let err = evaluate(&config, "registry.example.com/app:1.0", &mut oracle).unwrap_err();
    assert_eq!(err, EvalError::UnsupportedVersion("v999".to_string()));
    assert_eq!(oracle.asked.len(), 0);
}

#[test]
fn empty_config_is_vacuously_satisfied() {
    let config = VersionedVerificationConfig::V1(VerificationConfig {
        all_of: None,
        any_of: None,
    });
    let mut oracle = ScriptedOracle::new(vec![]);
    let result = evaluate(&config, "registry.example.com/app:1.0", &mut oracle).unwrap();
    assert!(result.satisfied);
    assert!(result.digest.is_none());
    assert_eq!(oracle.asked.len(), 0);
}

#[test]
fn all_of_failure_skips_the_any_of_group() {
    let config = VersionedVerificationConfig::V1(VerificationConfig {
        all_of: Some(vec![pub_key("K")]),
        any_of: Some(AnyOfGroup {
            minimum_matches: 1,
            signatures: vec![issuer("I1")],
        }),
    });
    let mut oracle = ScriptedOracle::new(vec![not_trusted(), trusted("d")]);
    let result = evaluate(&config, "registry.example.com/app:1.0", &mut oracle).unwrap();
    assert!(!result.satisfied);
    assert_eq!(oracle.asked.len(), 1);
}
