//! The configuration root: AllOf / AnyOf groups behind a version tag.
use vstd::prelude::*;
use crate::policy::assertion::{Assertion, AssertionView, assertion_wf, asserts_view};

verus! {

/// Mathematical model of an [`AnyOfGroup`].
#[verifier::ext_equal]
pub struct AnyOfGroupView {
    pub minimum_matches: int,
    pub signatures: Seq<AssertionView>,
}

/// A k-of-n threshold group: satisfied when at least `minimum_matches` of the
/// listed assertions are satisfied.  `minimum_matches` defaults to 1 when a
/// parsed document does not give it.
#[derive(Debug, Clone, PartialEq)]
pub struct AnyOfGroup {
    pub minimum_matches: u64,
    pub signatures: Vec<Assertion>,
}

impl View for AnyOfGroup {
    type V = AnyOfGroupView;

    open spec fn view(&self) -> AnyOfGroupView {
        AnyOfGroupView {
            minimum_matches: self.minimum_matches as int,
            signatures: asserts_view(self.signatures@),
        }
    }
}

/// Mathematical model of a [`VerificationConfig`].
#[verifier::ext_equal]
pub struct VerificationConfigView {
    pub all_of: Option<Seq<AssertionView>>,
    pub any_of: Option<AnyOfGroupView>,
}

/// The trust requirement a configuration states: a conjunction group, a
/// threshold group, neither, or both.  The requirement is satisfied when
/// every group that is present is satisfied.
#[derive(Debug, Clone, PartialEq)]
pub struct VerificationConfig {
    /// Satisfied when every listed assertion is satisfied.
    pub all_of: Option<Vec<Assertion>>,
    /// Satisfied when `minimum_matches` of the listed assertions are.
    pub any_of: Option<AnyOfGroup>,
}

impl View for VerificationConfig {
    type V = VerificationConfigView;

    open spec fn view(&self) -> VerificationConfigView {
        VerificationConfigView {
            all_of: match &self.all_of {
                Some(l) => Some(asserts_view(l@)),
                None => None,
            },
            any_of: match &self.any_of {
                Some(g) => Some(g@),
                None => None,
            },
        }
    }
}

/// Mathematical model of a [`VersionedVerificationConfig`].
pub enum VersionedVerificationConfigView {
    V1(VerificationConfigView),
    Unsupported(Seq<char>),
}

/// A configuration behind an explicit schema-version tag.  The one supported
/// tag is [`CURRENT_VERSION_TAG`]; any other tag parses into `Unsupported`,
/// which is recognized as a versioned configuration — just not one this
/// library understands — and refuses evaluation.
#[derive(Debug, Clone, PartialEq)]
pub enum VersionedVerificationConfig {
    /// A configuration in the current schema.
    V1(VerificationConfig),
    /// A well-formed versioned object whose version tag (kept here) is not
    /// supported.  Its body is opaque and was not validated.
    Unsupported(String),
}

impl View for VersionedVerificationConfig {
    type V = VersionedVerificationConfigView;

    open spec fn view(&self) -> VersionedVerificationConfigView {
        match self {
            VersionedVerificationConfig::V1(c) => VersionedVerificationConfigView::V1(c@),
            VersionedVerificationConfig::Unsupported(tag) => VersionedVerificationConfigView::Unsupported(
                tag@,
            ),
        }
    }
}

/// The version tag of the current schema.  All "current schema" references
/// route through this one alias, so introducing a later schema is a one-line
/// change plus a migration function.
pub const CURRENT_VERSION_TAG: &'static str = "v1";

/// Well-formedness of every assertion in a list.
pub open spec fn asserts_wf(items: Seq<AssertionView>) -> bool {
    forall|i: int| 0 <= i < items.len() ==> #[trigger] assertion_wf(items[i])
}

/// Well-formedness of a configuration: every assertion in either group is
/// well formed, and the threshold is not negative.
pub open spec fn config_wf(c: VerificationConfigView) -> bool {
    &&& match c.all_of {
        Some(l) => asserts_wf(l),
        None => true,
    }
    &&& match c.any_of {
        Some(g) => asserts_wf(g.signatures) && 0 <= g.minimum_matches,
        None => true,
    }
}

/// Well-formedness of a versioned configuration.  An `Unsupported` tag is
/// never the current tag: parsing maps the current tag to `V1`.
pub open spec fn versioned_config_wf(c: VersionedVerificationConfigView) -> bool {
    match c {
        VersionedVerificationConfigView::V1(cfg) => config_wf(cfg),
        VersionedVerificationConfigView::Unsupported(tag) => tag != CURRENT_VERSION_TAG@,
    }
}

} // verus!
