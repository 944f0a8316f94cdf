//! Network queries through the host.
use vstd::prelude::*;

verus! {

/// The host's answer to a DNS lookup.
#[derive(Debug, Clone, PartialEq)]
pub struct LookupResponse {
    /// The addresses the hostname resolved to.
    pub ips: Vec<String>,
}

} // verus!
