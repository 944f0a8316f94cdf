use kubewarden_policy_sdk::metadata::ProtocolVersion;
use kubewarden_policy_sdk::settings_validation_response;

#[test]
fn protocol_version_try_display() {
    let version = ProtocolVersion::V1;
    assert_eq!("1", version.version_string());

    let version = ProtocolVersion::Unknown;
    assert_eq!("0", version.version_string());
}

#[test]
fn protocol_version_try_from_known_version() {
    let version = ProtocolVersion::from_json_bytes(b"\"v1\"");
    assert!(version.is_ok());
    assert_eq!(version.unwrap(), ProtocolVersion::V1);
}

#[test]
fn protocol_version_try_from_unknown_version() {
    let version = ProtocolVersion::from_json_bytes(b"\"v100\"");
    assert!(version.is_err());
}

#[test]
fn protocol_version_default_is_current() {
    assert_eq!(ProtocolVersion::default(), ProtocolVersion::V1);
}

#[test]
fn settings_validation_outcomes() {
    let ok = settings_validation_response(Ok(()));
    assert!(ok.valid);
    assert!(ok.message.is_none());

    let bad = settings_validation_response(Err("either setting A or setting B".to_string()));
    assert!(!bad.valid);
    assert_eq!(bad.message.unwrap(), "either setting A or setting B");
}
