//! Typed interfaces to the capabilities a Kubewarden host offers a policy:
//! signature verification, certificate checks, DNS lookups, OCI registry
//! queries and Kubernetes API access.  Each capability is one named waPC
//! operation; the request and response payloads are JSON.
pub mod crypto;
pub mod json;
pub mod kubernetes;
pub mod net;
pub mod response;
pub(crate) mod wapc;
pub mod oci;
pub mod verification;

use vstd::prelude::*;
use crate::policy::assertion::Annotations;
use crate::host_capabilities::verification::{KeylessInfo, KeylessPrefixInfo};

verus! {

/// The request payload of the first-generation signature-verification
/// operation.
#[derive(Debug, Clone, PartialEq)]
pub enum SigstoreVerificationInputV1 {
    /// Require the OCI object's manifest digest to be signed with one of the
    /// given PEM-encoded public keys.
    SigstorePubKeyVerify {
        image: String,
        pub_keys: Vec<String>,
        annotations: Option<Annotations>,
    },
    /// Require the OCI object's manifest digest to carry a keyless signature
    /// with one of the given issuer/subject pairs.
    SigstoreKeylessVerify {
        image: String,
        keyless: Vec<KeylessInfo>,
        annotations: Option<Annotations>,
    },
}

/// The request payload of the second-generation signature-verification
/// operation: one variant per assertion kind.
#[derive(Debug, Clone, PartialEq)]
pub enum SigstoreVerificationInputV2 {
    /// Require the OCI object's manifest digest to be signed with one of the
    /// given PEM-encoded public keys.
    SigstorePubKeyVerify {
        image: String,
        pub_keys: Vec<String>,
        annotations: Option<Annotations>,
    },
    /// Require the OCI object's manifest digest to carry a keyless signature
    /// with one of the given issuer/subject pairs.
    SigstoreKeylessVerify {
        image: String,
        keyless: Vec<KeylessInfo>,
        annotations: Option<Annotations>,
    },
    /// As `SigstoreKeylessVerify`, but each subject is a sanitized URL prefix
    /// of the signature's subject.
    SigstoreKeylessPrefixVerify {
        image: String,
        keyless_prefix: Vec<KeylessPrefixInfo>,
        annotations: Option<Annotations>,
    },
    /// Require a keyless signature produced by a GitHub Actions workflow of
    /// `owner` (and `repo`, if given).
    SigstoreGithubActionsVerify {
        image: String,
        owner: String,
        repo: Option<String>,
        annotations: Option<Annotations>,
    },
    /// Require the signature to validate against the given certificate (and
    /// chain), optionally demanding a transparency-log bundle.
    SigstoreCertificateVerify {
        image: String,
        certificate: Vec<u8>,
        certificate_chain: Option<Vec<Vec<u8>>>,
        require_rekor_bundle: bool,
        annotations: Option<Annotations>,
    },
}

/// A certificate to validate, with the chain to validate it against and the
/// time to check expiration at.
#[derive(Debug, Clone, PartialEq)]
pub struct CertificateVerificationRequest {
    /// The certificate to verify.
    pub cert: crate::host_capabilities::crypto::Certificate,
    /// PEM-encoded certificates, ordered by trust usage (intermediates first,
    /// root last).  When absent the certificate is assumed trusted.
    pub cert_chain: Option<Vec<crate::host_capabilities::crypto::Certificate>>,
    /// RFC 3339 time to check expiration against.  When absent the
    /// certificate is assumed never expired.  An empty string is treated as
    /// absent on both directions of the wire.
    pub not_after: Option<String>,
}

/// What the host answered a certificate verification with.
#[derive(Debug, Clone, PartialEq)]
pub struct CertificateVerificationResponse {
    /// Whether the certificate is trusted.
    pub trusted: bool,
    /// Why it is not; empty when `trusted` is true.
    pub reason: String,
}

} // verus!
