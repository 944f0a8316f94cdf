//! The low-level OCI manifest-digest callback.
use vstd::prelude::*;
use crate::host_capabilities::wapc::{wapc_host_call, string_from_utf8};

verus! {

/// Computes the digest of the OCI object referenced by `image`, asking the
/// host's `manifest_digest` operation.  The request is the image reference
/// itself; the answer is the digest text, whatever the host resolved.
pub fn oci_manifest_digest(image: &str) -> (r: Result<String, String>) {
    match wapc_host_call("kubewarden", "oci", "manifest_digest", image.as_bytes()) {
        Ok(bytes) => match string_from_utf8(bytes) {
            Some(digest) => Ok(digest),
            None => Err(String::from_str("cannot convert oci.manifest_digest result into String")),
        },
        Err(e) => Err(e),
    }
}

} // verus!
