use kubewarden_policy_sdk::host_capabilities::crypto::{
    cert_verification_input, Certificate, CertificateEncoding,
};
use kubewarden_policy_sdk::host_capabilities::json::to_json_bytes;
use kubewarden_policy_sdk::host_capabilities::crypto::BoolWithReason;
use kubewarden_policy_sdk::host_capabilities::CertificateVerificationRequest;

#[test]
fn certificate_verification_request_handle_serialization_with_empty_not_after() {
    let data = "hello world".as_bytes().to_owned();
    let request = CertificateVerificationRequest {
        cert: Certificate {
            encoding: CertificateEncoding::Pem,
            data,
        },
        cert_chain: None,
        not_after: Some("".to_owned()),
    };

    let input = cert_verification_input(&request);
    let request_json: serde_json::Value = serde_json::from_slice(&to_json_bytes(&input)).unwrap();
    let request_obj = request_json
        .as_object()
        .expect("cannot convert json data back to an object");
    assert_eq!(
        Some(&serde_json::Value::Null),
        request_obj.get(&"not_after".to_owned())
    );
}

#[test]
fn certificate_verification_request_wire_text() {
    let request = CertificateVerificationRequest {
        cert: Certificate {
            encoding: CertificateEncoding::Der,
            data: vec![1, 2],
        },
        cert_chain: Some(vec![Certificate {
            encoding: CertificateEncoding::Pem,
            data: vec![3],
        }]),
        not_after: Some("2030-01-01T00:00:00Z".to_owned()),
    };
    let input = cert_verification_input(&request);
    assert_eq!(
        String::from_utf8(to_json_bytes(&input)).unwrap(),
        r#"{"cert":{"encoding":"Der","data":[1,2]},"cert_chain":[{"encoding":"Pem","data":[3]}],"not_after":"2030-01-01T00:00:00Z"}"#
    );
}

#[test]
fn verdicts_convert_to_responses() {
    let ok = BoolWithReason::True.into_response();
    assert!(ok.trusted);
    assert_eq!(ok.reason, "");
    let bad = BoolWithReason::False("expired".to_string()).into_response();
    assert!(!bad.trusted);
    assert_eq!(bad.reason, "expired");
}
