//! Leaf trust requirements.
//!
//! An [`Assertion`] states one requirement on the signatures an artifact must
//! carry: a public key, a keyless issuer/subject pair, a GitHub Actions
//! identity, or a user-supplied certificate.  When `annotations` is present,
//! every matching signature must also carry that string-to-string mapping.
use vstd::prelude::*;
use crate::policy::subject::{Subject, SubjectView, subject_wf};

verus! {

/// The view of a list of strings.
pub open spec fn strs_view(items: Seq<String>) -> Seq<Seq<char>>
    decreases items,
{
    if items.len() == 0 {
        Seq::empty()
    } else {
        seq![items[0]@] + strs_view(items.drop_first())
    }
}

/// [`strs_view`] maps the view over the items, one for one.
pub broadcast proof fn lemma_strs_view(items: Seq<String>)
    ensures
        #![trigger strs_view(items)]
        strs_view(items).len() == items.len(),
        forall|i: int| 0 <= i < items.len() ==> strs_view(items)[i] == items[i]@,
    decreases items.len(),
{
    if items.len() > 0 {
        lemma_strs_view(items.drop_first());
        assert(strs_view(items) == seq![items[0]@] + strs_view(items.drop_first()));
        assert forall|i: int| 0 <= i < items.len() implies strs_view(items)[i] == items[i]@ by {
            if i > 0 {
                assert(strs_view(items)[i] == strs_view(items.drop_first())[i - 1]);
                assert(items.drop_first()[i - 1] == items[i]);
            }
        }
    }
}

/// The view of a list of key/value pairs.
pub open spec fn pairs_view(pairs: Seq<(String, String)>) -> Seq<(Seq<char>, Seq<char>)>
    decreases pairs,
{
    if pairs.len() == 0 {
        Seq::empty()
    } else {
        seq![(pairs[0].0@, pairs[0].1@)] + pairs_view(pairs.drop_first())
    }
}

/// [`pairs_view`] maps the views over the pairs, one for one.
pub broadcast proof fn lemma_pairs_view(pairs: Seq<(String, String)>)
    ensures
        #![trigger pairs_view(pairs)]
        pairs_view(pairs).len() == pairs.len(),
        forall|i: int|
            0 <= i < pairs.len() ==> pairs_view(pairs)[i] == (pairs[i].0@, pairs[i].1@),
    decreases pairs.len(),
{
    if pairs.len() > 0 {
        lemma_pairs_view(pairs.drop_first());
        assert(pairs_view(pairs) == seq![(pairs[0].0@, pairs[0].1@)] + pairs_view(
            pairs.drop_first(),
        ));
        assert forall|i: int|
            0 <= i < pairs.len() implies pairs_view(pairs)[i] == (
        pairs[i].0@,
        pairs[i].1@,
        ) by {
            if i > 0 {
                assert(pairs_view(pairs)[i] == pairs_view(pairs.drop_first())[i - 1]);
                assert(pairs.drop_first()[i - 1] == pairs[i]);
            }
        }
    }
}

/// Annotations that every matching signature must carry: key/value pairs in
/// document order, keys unique.
pub type Annotations = Vec<(String, String)>;

/// The view of an optional annotations mapping.
pub open spec fn annotations_view(a: Option<Annotations>) -> Option<Seq<(Seq<char>, Seq<char>)>> {
    match a {
        Some(pairs) => Some(pairs_view(pairs@)),
        None => None,
    }
}

/// The view of an optional string.
pub open spec fn opt_str_view(s: Option<String>) -> Option<Seq<char>> {
    match s {
        Some(v) => Some(v@),
        None => None,
    }
}

/// Mathematical model of an [`Assertion`].
pub enum AssertionView {
    PubKey {
        owner: Option<Seq<char>>,
        key: Seq<char>,
        annotations: Option<Seq<(Seq<char>, Seq<char>)>>,
    },
    GenericIssuer {
        issuer: Seq<char>,
        subject: SubjectView,
        annotations: Option<Seq<(Seq<char>, Seq<char>)>>,
    },
    GithubAction {
        owner: Seq<char>,
        repo: Option<Seq<char>>,
        annotations: Option<Seq<(Seq<char>, Seq<char>)>>,
    },
    Certificate {
        certificate: Seq<char>,
        certificate_chain: Option<Seq<Seq<char>>>,
        require_rekor_bundle: bool,
        annotations: Option<Seq<(Seq<char>, Seq<char>)>>,
    },
}

/// One leaf trust requirement.  Exactly one kind per instance.
#[derive(Debug, Clone, PartialEq)]
pub enum Assertion {
    /// The artifact must carry a signature producible only with the private
    /// key matching this PEM-encoded public key.
    PubKey { owner: Option<String>, key: String, annotations: Option<Annotations> },
    /// The artifact must carry a keyless signature whose OIDC issuer equals
    /// `issuer` and whose subject matches `subject`.
    GenericIssuer { issuer: String, subject: Subject, annotations: Option<Annotations> },
    /// The artifact must carry a keyless signature produced by a GitHub
    /// Actions workflow belonging to `owner` (and `repo`, if given).
    GithubAction { owner: String, repo: Option<String>, annotations: Option<Annotations> },
    /// The artifact's signature must validate against this PEM-encoded
    /// certificate (and chain, if given); when `require_rekor_bundle` is set
    /// the signature must also be backed by a transparency-log bundle.
    Certificate {
        certificate: String,
        certificate_chain: Option<Vec<String>>,
        require_rekor_bundle: bool,
        annotations: Option<Annotations>,
    },
}

impl View for Assertion {
    type V = AssertionView;

    open spec fn view(&self) -> AssertionView {
        match self {
            Assertion::PubKey { owner, key, annotations } => AssertionView::PubKey {
                owner: opt_str_view(*owner),
                key: key@,
                annotations: annotations_view(*annotations),
            },
            Assertion::GenericIssuer { issuer, subject, annotations } => AssertionView::GenericIssuer {
                issuer: issuer@,
                subject: subject@,
                annotations: annotations_view(*annotations),
            },
            Assertion::GithubAction { owner, repo, annotations } => AssertionView::GithubAction {
                owner: owner@,
                repo: opt_str_view(*repo),
                annotations: annotations_view(*annotations),
            },
            Assertion::Certificate {
                certificate,
                certificate_chain,
                require_rekor_bundle,
                annotations,
            } => AssertionView::Certificate {
                certificate: certificate@,
                certificate_chain: match certificate_chain {
                    Some(c) => Some(strs_view(c@)),
                    None => None,
                },
                require_rekor_bundle: *require_rekor_bundle,
                annotations: annotations_view(*annotations),
            },
        }
    }
}

/// No two annotation keys are equal.
pub open spec fn annotation_keys_unique(pairs: Seq<(Seq<char>, Seq<char>)>) -> bool {
    forall|i: int, j: int| 0 <= i < j < pairs.len() ==> pairs[i].0 != pairs[j].0
}

/// What construction and parsing establish of every assertion: the subject of
/// a `GenericIssuer` is well formed, and annotation keys are unique.
pub open spec fn assertion_wf(a: AssertionView) -> bool {
    &&& match a {
        AssertionView::GenericIssuer { subject, .. } => subject_wf(subject),
        _ => true,
    }
    &&& match assertion_annotations(a) {
        Some(pairs) => annotation_keys_unique(pairs),
        None => true,
    }
}

/// The annotations of an assertion, whatever its kind.
pub open spec fn assertion_annotations(a: AssertionView) -> Option<Seq<(Seq<char>, Seq<char>)>> {
    match a {
        AssertionView::PubKey { annotations, .. } => annotations,
        AssertionView::GenericIssuer { annotations, .. } => annotations,
        AssertionView::GithubAction { annotations, .. } => annotations,
        AssertionView::Certificate { annotations, .. } => annotations,
    }
}

/// The view of a list of assertions.
pub open spec fn asserts_view(items: Seq<Assertion>) -> Seq<AssertionView>
    decreases items,
{
    if items.len() == 0 {
        Seq::empty()
    } else {
        seq![items[0]@] + asserts_view(items.drop_first())
    }
}

/// [`asserts_view`] maps the view over the items, one for one.
pub broadcast proof fn lemma_asserts_view(items: Seq<Assertion>)
    ensures
        #![trigger asserts_view(items)]
        asserts_view(items).len() == items.len(),
        forall|i: int| 0 <= i < items.len() ==> asserts_view(items)[i] == items[i]@,
    decreases items.len(),
{
    if items.len() > 0 {
        lemma_asserts_view(items.drop_first());
        assert(asserts_view(items) == seq![items[0]@] + asserts_view(items.drop_first()));
        assert forall|i: int| 0 <= i < items.len() implies asserts_view(items)[i] == items[i]@ by {
            if i > 0 {
                assert(asserts_view(items)[i] == asserts_view(items.drop_first())[i - 1]);
                assert(items.drop_first()[i - 1] == items[i]);
            }
        }
    }
}

} // verus!
