use kubewarden_policy_sdk::policy::assertion::Assertion;
use kubewarden_policy_sdk::policy::config::{
    AnyOfGroup, VerificationConfig, VersionedVerificationConfig,
};
use kubewarden_policy_sdk::policy::error::SchemaError;
use kubewarden_policy_sdk::policy::parse::parse_versioned_config;
use kubewarden_policy_sdk::policy::serialize::serialize_versioned_config;
use kubewarden_policy_sdk::policy::subject::Subject;
use kubewarden_policy_sdk::policy::value::ConfigValue;

fn s(text: &str) -> ConfigValue {
    ConfigValue::Str(text.to_string())
}

fn field(name: &str, value: ConfigValue) -> (String, ConfigValue) {
    (name.to_string(), value)
}

fn pub_key_assertion(key: &str) -> ConfigValue {
    ConfigValue::Obj(vec![field("kind", s("pubKey")), field("key", s(key))])
}

fn issuer_assertion(issuer: &str, subject_field: &str, subject_value: &str) -> ConfigValue {
    ConfigValue::Obj(vec![
        field("kind", s("genericIssuer")),
        field("issuer", s(issuer)),
        field(
            "subject",
            ConfigValue::Obj(vec![field(subject_field, s(subject_value))]),
        ),
    ])
}

#[test]
fn current_version_with_all_of_parses() {
    let doc = ConfigValue::Obj(vec![
        field("apiVersion", s("v1")),
        field("allOf", ConfigValue::Arr(vec![pub_key_assertion("KEY")])),
    ]);
    let parsed = parse_versioned_config(&doc).unwrap();
    match parsed {
        VersionedVerificationConfig::V1(cfg) => {
            let all_of = cfg.all_of.unwrap();
            assert_eq!(all_of.len(), 1);
            assert!(matches!(&all_of[0], Assertion::PubKey { key, owner: None, annotations: None } if key == "KEY"));
            assert!(cfg.any_of.is_none());
        }
        other => panic!("expected a current-schema config, got {other:?}"),
    }
}

#[test]
fn any_of_without_minimum_matches_defaults_to_one() {
    let doc = ConfigValue::Obj(vec![
        field("apiVersion", s("v1")),
        field(
            "anyOf",
            ConfigValue::Obj(vec![field(
                "signatures",
                ConfigValue::Arr(vec![pub_key_assertion("K1"), pub_key_assertion("K2")]),
            )]),
        ),
    ]);
    let parsed = parse_versioned_config(&doc).unwrap();
    match parsed {
        VersionedVerificationConfig::V1(cfg) => {
            let any_of = cfg.any_of.unwrap();
            assert_eq!(any_of.minimum_matches, 1);
            assert_eq!(any_of.signatures.len(), 2);
        }
        other => panic!("expected a current-schema config, got {other:?}"),
    }
}

#[test]
fn unknown_field_is_rejected_and_named() {
    let doc = ConfigValue::Obj(vec![
        field("apiVersion", s("v1")),
        field("allOf", ConfigValue::Arr(vec![pub_key_assertion("KEY")])),
        field("bogusField", ConfigValue::Int(1)),
    ]);
    let err = parse_versioned_config(&doc).unwrap_err();
    assert_eq!(err, SchemaError::UnknownField("bogusField".to_string()));
    assert!(err.message().contains("bogusField"));
}

#[test]
fn duplicate_field_is_rejected_and_named() {
    let doc = ConfigValue::Obj(vec![
        field("apiVersion", s("v1")),
        field("allOf", ConfigValue::Arr(vec![])),
        field("allOf", ConfigValue::Arr(vec![])),
    ]);
    let err = parse_versioned_config(&doc).unwrap_err();
    assert_eq!(err, SchemaError::DuplicateField("allOf".to_string()));
}

#[test]
fn missing_version_tag_is_rejected() {
    let doc = ConfigValue::Obj(vec![field("allOf", ConfigValue::Arr(vec![]))]);
    let err = parse_versioned_config(&doc).unwrap_err();
    assert_eq!(err, SchemaError::MissingField("apiVersion".to_string()));
}

#[test]
fn unknown_kind_is_rejected_and_named() {
    let doc = ConfigValue::Obj(vec![
        field("apiVersion", s("v1")),
        field(
            "allOf",
            ConfigValue::Arr(vec![ConfigValue::Obj(vec![field("kind", s("carrierPigeon"))])]),
        ),
    ]);
    let err = parse_versioned_config(&doc).unwrap_err();
    assert_eq!(err, SchemaError::UnknownKind("carrierPigeon".to_string()));
}

#[test]
fn unsupported_version_parses_with_opaque_body() {
    let doc = ConfigValue::Obj(vec![
        field("apiVersion", s("v999")),
        field("whatever", ConfigValue::Bool(true)),
    ]);
    let parsed = parse_versioned_config(&doc).unwrap();
    assert_eq!(
        parsed,
        VersionedVerificationConfig::Unsupported("v999".to_string())
    );
}

#[test]
fn url_prefix_subject_is_sanitized_at_parse_time() {
    let doc = ConfigValue::Obj(vec![
        field("apiVersion", s("v1")),
        field(
            "allOf",
            ConfigValue::Arr(vec![issuer_assertion(
                "https://token.actions.githubusercontent.com",
                "urlPrefix",
                "https://github.com/kubewarden",
            )]),
        ),
    ]);
    let parsed = parse_versioned_config(&doc).unwrap();
    match parsed {
        VersionedVerificationConfig::V1(cfg) => {
            let all_of = cfg.all_of.unwrap();
            match &all_of[0] {
                Assertion::GenericIssuer { subject, .. } => {
                    assert_eq!(
                        subject,
                        &Subject::UrlPrefix("https://github.com/kubewarden/".to_string())
                    );
                    assert!(!subject.matches("https://github.com/kubewarden-malicious/x"));
                    assert!(subject.matches("https://github.com/kubewarden/x"));
                }
                other => panic!("expected a genericIssuer assertion, got {other:?}"),
            }
        }
        other => panic!("expected a current-schema config, got {other:?}"),
    }
}

#[test]
fn invalid_url_prefix_is_rejected_at_parse_time() {
    let doc = ConfigValue::Obj(vec![
        field("apiVersion", s("v1")),
        field(
            "allOf",
            ConfigValue::Arr(vec![issuer_assertion("issuer", "urlPrefix", "not a url")]),
        ),
    ]);
    let err = parse_versioned_config(&doc).unwrap_err();
    assert_eq!(err, SchemaError::InvalidUrlPrefix("not a url".to_string()));
}

#[test]
fn subject_with_both_alternatives_is_rejected() {
    let doc = ConfigValue::Obj(vec![
        field("apiVersion", s("v1")),
        field(
            "allOf",
            ConfigValue::Arr(vec![ConfigValue::Obj(vec![
                field("kind", s("genericIssuer")),
                field("issuer", s("I")),
                field(
                    "subject",
                    ConfigValue::Obj(vec![
                        field("equal", s("mail@example.com")),
                        field("urlPrefix", s("https://github.com/a/")),
                    ]),
                ),
            ])]),
        ),
    ]);
    let err = parse_versioned_config(&doc).unwrap_err();
    assert_eq!(err, SchemaError::MalformedSubject);
}

#[test]
fn negative_minimum_matches_is_rejected() {
    let doc = ConfigValue::Obj(vec![
        field("apiVersion", s("v1")),
        field(
            "anyOf",
            ConfigValue::Obj(vec![
                field("minimumMatches", ConfigValue::Int(-1)),
                field("signatures", ConfigValue::Arr(vec![])),
            ]),
        ),
    ]);
    let err = parse_versioned_config(&doc).unwrap_err();
    assert_eq!(err, SchemaError::WrongType("minimumMatches".to_string()));
}

#[test]
fn round_trip_of_a_full_config() {
    let config = VersionedVerificationConfig::V1(VerificationConfig {
        all_of: Some(vec![
            Assertion::PubKey {
                owner: Some("alice".to_string()),
                key: "KEY".to_string(),
                annotations: Some(vec![("env".to_string(), "prod".to_string())]),
            },
            Assertion::Certificate {
                certificate: "CERT".to_string(),
                certificate_chain: Some(vec!["ROOT".to_string(), "INTERMEDIATE".to_string()]),
                require_rekor_bundle: true,
                annotations: None,
            },
        ]),
        any_of: Some(AnyOfGroup {
            minimum_matches: 2,
            signatures: vec![
                Assertion::GenericIssuer {
                    issuer: "https://issuer.example.com".to_string(),
                    subject: Subject::Equal("mail@example.com".to_string()),
                    annotations: None,
                },
                Assertion::GithubAction {
                    owner: "octocat".to_string(),
                    repo: Some("example-repo".to_string()),
                    annotations: None,
                },
            ],
        }),
    });
    let doc = serialize_versioned_config(&config);
    let reparsed = parse_versioned_config(&doc).unwrap();
    assert_eq!(reparsed, config);
}

#[test]
fn round_trip_of_an_unsupported_config() {
    let config = VersionedVerificationConfig::Unsupported("v999".to_string());
    let doc = serialize_versioned_config(&config);
    let reparsed = parse_versioned_config(&doc).unwrap();
    assert_eq!(reparsed, config);
}

#[test]
fn a_document_that_is_not_an_object_is_rejected() {
    let err = parse_versioned_config(&ConfigValue::Arr(vec![])).unwrap_err();
    assert_eq!(err, SchemaError::NotAnObject);
    let err = parse_versioned_config(&s("v1")).unwrap_err();
    assert_eq!(err, SchemaError::NotAnObject);
}

#[test]
fn wrong_field_shapes_are_rejected_and_named() {
    let doc = ConfigValue::Obj(vec![
        field("apiVersion", s("v1")),
        field("allOf", ConfigValue::Bool(true)),
    ]);
    let err = parse_versioned_config(&doc).unwrap_err();
    assert_eq!(err, SchemaError::WrongType("allOf".to_string()));

    let doc = ConfigValue::Obj(vec![field("apiVersion", ConfigValue::Int(1))]);
    let err = parse_versioned_config(&doc).unwrap_err();
    assert_eq!(err, SchemaError::WrongType("apiVersion".to_string()));
}
