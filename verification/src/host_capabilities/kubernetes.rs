//! Kubernetes API access through the host.
//!
//! These are the request payloads of the host's `kubernetes` capability; the
//! host performs the API calls and caches results briefly.
use vstd::prelude::*;

verus! {

/// Parameters of a namespaced resource listing.
#[derive(Debug, Clone, PartialEq)]
pub struct ListResourcesByNamespaceRequest {
    /// apiVersion of the resource (`v1` for the core group,
    /// `groupName/groupVersion` otherwise).
    pub api_version: String,
    /// Singular PascalCase name of the resource.
    pub kind: String,
    /// The namespace scoping the search.
    pub namespace: String,
    /// Restrict the list by labels; everything when absent.
    pub label_selector: Option<String>,
    /// Restrict the list by fields; everything when absent.
    pub field_selector: Option<String>,
}

/// Parameters of a cluster-wide resource listing.
#[derive(Debug, Clone, PartialEq)]
pub struct ListAllResourcesRequest {
    /// apiVersion of the resource (`v1` for the core group,
    /// `groupName/groupVersion` otherwise).
    pub api_version: String,
    /// Singular PascalCase name of the resource.
    pub kind: String,
    /// Restrict the list by labels; everything when absent.
    pub label_selector: Option<String>,
    /// Restrict the list by fields; everything when absent.
    pub field_selector: Option<String>,
}

/// Parameters of a single-resource fetch.
#[derive(Debug, Clone, PartialEq)]
pub struct GetResourceRequest {
    /// apiVersion of the resource (`v1` for the core group,
    /// `groupName/groupVersion` otherwise).
    pub api_version: String,
    /// Singular PascalCase name of the resource.
    pub kind: String,
    /// The name of the resource.
    pub name: String,
    /// The namespace to search in; cluster-level resources leave this absent.
    pub namespace: Option<String>,
    /// Disable the short-lived caching of API results.
    pub disable_cache: bool,
}

/// A permission probe: the attributes of the action being tested.
#[derive(Debug, Clone, PartialEq)]
pub struct ResourceAttributes {
    /// The API group of the resource; `*` means all.
    pub group: Option<String>,
    /// The name of the resource being requested; empty means all.
    pub name: Option<String>,
    /// The namespace of the action being requested.
    pub namespace: Option<String>,
    /// One of the existing resource types; `*` means all.
    pub resource: String,
    /// One of the existing subresource types; empty means none.
    pub subresource: Option<String>,
    /// A Kubernetes resource API verb; `*` means all.
    pub verb: String,
    /// The API version of the resource; `*` means all.
    pub version: Option<String>,
}

/// The subject and action of a permission probe.
#[derive(Debug, Clone, PartialEq)]
pub struct SubjectAccessReview {
    /// The groups being tested for.
    pub groups: Option<Vec<String>>,
    /// The action being tested.
    pub resource_attributes: ResourceAttributes,
    /// The user being tested for; a user without `groups` is read as a member
    /// of no group.
    pub user: String,
}

/// Parameters of a permission probe.
#[derive(Debug, Clone, PartialEq)]
pub struct CanIRequest {
    /// The review sent to the Kubernetes authorization API.
    pub subject_access_review: SubjectAccessReview,
    /// Disable the short-lived caching of API results.
    pub disable_cache: bool,
}

} // verus!
