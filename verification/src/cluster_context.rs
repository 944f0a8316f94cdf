//! Cluster contextual information for context-aware policies.
//!
//! Details about resources already existing inside of the cluster are
//! obtained through a [`Client`]; the live one calls the host, a test double
//! can answer from fixtures.
use vstd::prelude::*;
use crate::host_capabilities::wapc::wapc_host_call;

verus! {

/// The transport that fetches raw resource lists.  Implemented by the live
/// waPC-backed client and by test doubles.
pub trait Client {
    /// Get the serialized list of namespaces.
    fn namespaces(&self) -> Result<Vec<u8>, String>;

    /// Get the serialized list of ingresses.
    fn ingresses(&self) -> Result<Vec<u8>, String>;

    /// Get the serialized list of services.
    fn services(&self) -> Result<Vec<u8>, String>;
}

/// The live client: every list is one host call.
pub struct WapcClient {}

impl Client for WapcClient {
    fn namespaces(&self) -> Result<Vec<u8>, String> {
        let msg: Vec<u8> = Vec::new();
        wapc_host_call("kubernetes", "namespaces", "list", msg.as_slice())
    }

    fn ingresses(&self) -> Result<Vec<u8>, String> {
        let msg: Vec<u8> = Vec::new();
        wapc_host_call("kubernetes", "ingresses", "list", msg.as_slice())
    }

    fn services(&self) -> Result<Vec<u8>, String> {
        let msg: Vec<u8> = Vec::new();
        wapc_host_call("kubernetes", "services", "list", msg.as_slice())
    }
}

/// Scopes a listing to one namespace, or to the whole cluster.
#[derive(Debug, Clone, PartialEq, Eq)]
pub enum NamespaceFilter {
    AllNamespaces,
    Namespace(String),
}

/// Whether a resource carrying `namespace` passes the filter: everything
/// passes the cluster-wide filter, and a namespaced filter requires exactly
/// that namespace.
pub open spec fn spec_namespace_filter_matches(
    filter: NamespaceFilter,
    namespace: Option<Seq<char>>,
) -> bool {
    match filter {
        NamespaceFilter::AllNamespaces => true,
        NamespaceFilter::Namespace(wanted) => match namespace {
            Some(ns) => ns == wanted@,
            None => false,
        },
    }
}

/// Decides [`spec_namespace_filter_matches`]: the rule by which resource
/// listings are narrowed to a namespace.
pub fn namespace_filter_matches(filter: &NamespaceFilter, namespace: &Option<String>) -> (r: bool)
    ensures
        r == spec_namespace_filter_matches(*filter, crate::policy::assertion::opt_str_view(
            *namespace,
        )),
{
    match filter {
        NamespaceFilter::AllNamespaces => true,
        NamespaceFilter::Namespace(wanted) => match namespace {
            Some(ns) => crate::policy::value::str_eq(ns.as_str(), wanted.as_str()),
            None => false,
        },
    }
}

/// Retrieves cluster contextual information from a Kubernetes cluster,
/// through whatever [`Client`] it was built with.
pub struct ClusterContext {
    client: Box<dyn Client>,
}

impl ClusterContext {
    /// Builds a context around the given client.  Meant for tests, where a
    /// double takes the place of the live host.
    pub fn new_with_client(client: Box<dyn Client>) -> ClusterContext {
        ClusterContext { client }
    }

    /// The raw serialized namespace list, as the client answered it.
    pub fn raw_namespaces(&self) -> Result<Vec<u8>, String> {
        self.client.namespaces()
    }

    /// The raw serialized ingress list, as the client answered it.
    pub fn raw_ingresses(&self) -> Result<Vec<u8>, String> {
        self.client.ingresses()
    }

    /// The raw serialized service list, as the client answered it.
    pub fn raw_services(&self) -> Result<Vec<u8>, String> {
        self.client.services()
    }
}

} // verus!
