//! Identities of the objects named in an admission request.
use vstd::prelude::*;

verus! {

/// Unambiguously identifies a kind.
#[derive(Debug, Clone, PartialEq, Eq)]
pub struct GroupVersionKind {
    pub group: String,
    pub version: String,
    pub kind: String,
}

impl Default for GroupVersionKind {
    fn default() -> (r: GroupVersionKind)
        ensures
            r.group@ == Seq::<char>::empty(),
            r.version@ == Seq::<char>::empty(),
            r.kind@ == Seq::<char>::empty(),
    {
        GroupVersionKind { group: String::new(), version: String::new(), kind: String::new() }
    }
}

/// Unambiguously identifies a resource.
#[derive(Debug, Clone, PartialEq, Eq)]
pub struct GroupVersionResource {
    pub group: String,
    pub version: String,
    pub kind: String,
}

impl Default for GroupVersionResource {
    fn default() -> (r: GroupVersionResource)
        ensures
            r.group@ == Seq::<char>::empty(),
            r.version@ == Seq::<char>::empty(),
            r.kind@ == Seq::<char>::empty(),
    {
        GroupVersionResource { group: String::new(), version: String::new(), kind: String::new() }
    }
}

} // verus!
