//! OCI registry queries through the host.
use vstd::prelude::*;

verus! {

/// The host's answer to a manifest-digest request.
#[derive(Debug, Clone, PartialEq)]
pub struct ManifestDigestResponse {
    /// The digest of the OCI object's manifest.
    pub digest: String,
}

} // verus!
