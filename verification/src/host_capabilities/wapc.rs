//! The one boundary call: a synchronous waPC guest-to-host exchange.
use vstd::prelude::*;

verus! {

/// Relies on `wapc_guest::host_call`: performs one synchronous call of the
/// named host operation and hands back whatever bytes the host answered
/// with, or the host's error text.  Nothing can be promised of the answer:
/// it is produced by the host.
#[verifier::external_body]
pub(crate) fn wapc_host_call(binding: &str, ns: &str, op: &str, msg: &[u8]) -> (r: Result<
    Vec<u8>,
    String,
>) {
    match wapc_guest::host_call(binding, ns, op, msg) {
        Ok(bytes) => Ok(bytes),
        Err(e) => Err(format!("{}", e)),
    }
}

/// Relies on `String::from_utf8`: succeeds exactly on valid UTF-8, and the
/// returned string's bytes are the input bytes.
#[verifier::external_body]
pub(crate) fn string_from_utf8(bytes: Vec<u8>) -> (r: Option<String>)
    ensures
        r is Some <==> vstd::utf8::valid_utf8(bytes@),
        r matches Some(s) ==> vstd::utf8::encode_utf8(s@) == bytes@,
{
    String::from_utf8(bytes).ok()
}

} // verus!
