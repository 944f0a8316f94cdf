//! The laws that relate parsing and serialization.
//!
//! The main statement is [`lemma_round_trip`]: parsing the serialized form of
//! any well-formed configuration yields that configuration back, exactly.
use vstd::prelude::*;
use crate::policy::assertion::{AssertionView, annotation_keys_unique, assertion_wf};
use crate::policy::config::{AnyOfGroupView, VerificationConfigView, VersionedVerificationConfigView, CURRENT_VERSION_TAG, versioned_config_wf, asserts_wf};
use crate::policy::error::SchemaErrorView;
use crate::policy::subject::{SubjectView, subject_wf, with_trailing_slash};
use crate::policy::value::{ValueView, spec_lookup, keys_unique};
use crate::policy::parse::{dec_versioned, dec_assertion, dec_subject, dec_pairs_from, dec_strs_from, dec_assertions_from, dec_anyof, dec_config_groups, dec_annotations, check_fields, allowed_contains, dup_before, top_allowed, anyof_allowed, pubkey_allowed, issuer_allowed, github_allowed, cert_allowed, subject_allowed};
use crate::policy::serialize::{enc_pairs_from, enc_strs_from, enc_subject, enc_subject_fields, enc_assertion, enc_assertion_fields, enc_assertions_from, enc_anyof, enc_anyof_fields, enc_versioned, enc_versioned_fields};
use crate::policy::evaluate::{OracleEvent, OracleReplyView, GroupOutcome, EvalVerdict, allof_run, anyof_run, config_run};

verus! {

// ---------------------------------------------------------------------------
// Lookup and strictness helpers
// ---------------------------------------------------------------------------
/// A key that no field carries is not found.
pub proof fn lemma_lookup_none(fields: Seq<(Seq<char>, ValueView)>, key: Seq<char>)
    requires
        forall|j: int| 0 <= j < fields.len() ==> fields[j].0 != key,
    ensures
        spec_lookup(fields, key) is None,
    decreases fields.len(),
{
    if fields.len() > 0 {
        assert forall|j: int|
            0 <= j < fields.drop_first().len() implies fields.drop_first()[j].0 != key by {
            assert(fields.drop_first()[j] == fields[j + 1]);
        }
        lemma_lookup_none(fields.drop_first(), key);
    }
}

/// With unique keys, lookup finds the field that carries the key.
pub proof fn lemma_lookup_found(fields: Seq<(Seq<char>, ValueView)>, key: Seq<char>, w: int)
    requires
        keys_unique(fields),
        0 <= w < fields.len(),
        fields[w].0 == key,
    ensures
        spec_lookup(fields, key) == Some(fields[w].1),
    decreases fields.len(),
{
    if w == 0 {
    } else {
        assert(fields[0].0 != key);
        assert forall|i: int, j: int|
            0 <= i < j < fields.drop_first().len() implies fields.drop_first()[i].0
            != fields.drop_first()[j].0 by {
            assert(fields.drop_first()[i] == fields[i + 1]);
            assert(fields.drop_first()[j] == fields[j + 1]);
        }
        assert(fields.drop_first()[w - 1] == fields[w]);
        lemma_lookup_found(fields.drop_first(), key, w - 1);
    }
}

/// Strictness accepts an object whose keys are unique and all allowed.
pub proof fn lemma_check_fields_ok(
    fields: Seq<(Seq<char>, ValueView)>,
    allowed: Seq<Seq<char>>,
    i: int,
)
    requires
        keys_unique(fields),
        forall|j: int| 0 <= j < fields.len() ==> allowed_contains(allowed, fields[j].0),
    ensures
        check_fields(fields, allowed, i) is None,
    decreases fields.len() - i,
{
    if 0 <= i < fields.len() {
        assert(!dup_before(fields, i));
        lemma_check_fields_ok(fields, allowed, i + 1);
    }
}

/// The field names this schema uses are pairwise distinct.
pub proof fn lemma_names_distinct()
    ensures
        "apiVersion"@ != "allOf"@,
        "apiVersion"@ != "anyOf"@,
        "allOf"@ != "anyOf"@,
        "minimumMatches"@ != "signatures"@,
        "kind"@ != "owner"@,
        "kind"@ != "key"@,
        "kind"@ != "annotations"@,
        "owner"@ != "key"@,
        "owner"@ != "annotations"@,
        "key"@ != "annotations"@,
        "kind"@ != "issuer"@,
        "kind"@ != "subject"@,
        "issuer"@ != "subject"@,
        "issuer"@ != "annotations"@,
        "subject"@ != "annotations"@,
        "kind"@ != "repo"@,
        "owner"@ != "repo"@,
        "repo"@ != "annotations"@,
        "kind"@ != "certificate"@,
        "kind"@ != "certificateChain"@,
        "kind"@ != "requireRekorBundle"@,
        "certificate"@ != "certificateChain"@,
        "certificate"@ != "requireRekorBundle"@,
        "certificate"@ != "annotations"@,
        "certificateChain"@ != "requireRekorBundle"@,
        "certificateChain"@ != "annotations"@,
        "requireRekorBundle"@ != "annotations"@,
        "equal"@ != "urlPrefix"@,
        "pubKey"@ != "genericIssuer"@,
        "pubKey"@ != "githubAction"@,
        "pubKey"@ != "certificate"@,
        "genericIssuer"@ != "githubAction"@,
        "genericIssuer"@ != "certificate"@,
        "githubAction"@ != "certificate"@,
{
    reveal_strlit("apiVersion");
    reveal_strlit("allOf");
    reveal_strlit("anyOf");
    reveal_strlit("minimumMatches");
    reveal_strlit("signatures");
    reveal_strlit("kind");
    reveal_strlit("owner");
    reveal_strlit("key");
    reveal_strlit("annotations");
    reveal_strlit("issuer");
    reveal_strlit("subject");
    reveal_strlit("repo");
    reveal_strlit("certificate");
    reveal_strlit("certificateChain");
    reveal_strlit("requireRekorBundle");
    reveal_strlit("equal");
    reveal_strlit("urlPrefix");
    reveal_strlit("pubKey");
    reveal_strlit("genericIssuer");
    reveal_strlit("githubAction");
    assert("apiVersion"@.len() == 10);
    assert("allOf"@.len() == 5);
    assert("anyOf"@.len() == 5);
    assert("minimumMatches"@.len() == 14);
    assert("signatures"@.len() == 10);
    assert("kind"@.len() == 4);
    assert("owner"@.len() == 5);
    assert("key"@.len() == 3);
    assert("annotations"@.len() == 11);
    assert("issuer"@.len() == 6);
    assert("subject"@.len() == 7);
    assert("repo"@.len() == 4);
    assert("certificate"@.len() == 11);
    assert("certificateChain"@.len() == 16);
    assert("requireRekorBundle"@.len() == 18);
    assert("equal"@.len() == 5);
    assert("urlPrefix"@.len() == 9);
    assert("pubKey"@.len() == 6);
    assert("genericIssuer"@.len() == 13);
    assert("githubAction"@.len() == 12);
    assert("allOf"@[1] == 'l' && "anyOf"@[1] == 'n');
    assert("kind"@[0] == 'k' && "repo"@[0] == 'r');
    assert("certificate"@[0] == 'c' && "annotations"@[0] == 'a');
}

// ---------------------------------------------------------------------------
// Round trips of the pieces
// ---------------------------------------------------------------------------
/// The encoded annotation fields, element by element.
pub proof fn lemma_enc_pairs_pointwise(pairs: Seq<(Seq<char>, Seq<char>)>, i: int)
    requires
        0 <= i <= pairs.len(),
    ensures
        enc_pairs_from(pairs, i).len() == pairs.len() - i,
        forall|j: int|
            i <= j < pairs.len() ==> enc_pairs_from(pairs, i)[j - i] == (
                pairs[j].0,
                ValueView::Str(pairs[j].1),
            ),
    decreases pairs.len() - i,
{
    if i < pairs.len() {
        lemma_enc_pairs_pointwise(pairs, i + 1);
        assert forall|j: int|
            i <= j < pairs.len() implies enc_pairs_from(pairs, i)[j - i] == (
        pairs[j].0,
        ValueView::Str(pairs[j].1),
        ) by {
            if j > i {
                assert(enc_pairs_from(pairs, i)[j - i] == enc_pairs_from(pairs, i + 1)[j - i - 1]);
            }
        }
    }
}

/// Decoding the encoded annotations gives the annotations back.
pub proof fn lemma_dec_enc_pairs_from(pairs: Seq<(Seq<char>, Seq<char>)>, i: int)
    requires
        annotation_keys_unique(pairs),
        0 <= i <= pairs.len(),
    ensures
        dec_pairs_from(enc_pairs_from(pairs, 0), i) == Ok::<_, SchemaErrorView>(pairs.skip(i)),
    decreases pairs.len() - i,
{
    let ep = enc_pairs_from(pairs, 0);
    lemma_enc_pairs_pointwise(pairs, 0);
    if i < pairs.len() {
        assert(!dup_before(ep, i)) by {
            assert forall|j: int| 0 <= j < i implies ep[j].0 != ep[i].0 by {
                assert(ep[j].0 == pairs[j].0);
                assert(ep[i].0 == pairs[i].0);
            }
        }
        lemma_dec_enc_pairs_from(pairs, i + 1);
        assert(ep[i].1 == ValueView::Str(pairs[i].1));
        assert(seq![(pairs[i].0, pairs[i].1)] + pairs.skip(i + 1) =~= pairs.skip(i));
        assert((pairs[i].0, pairs[i].1) == pairs[i]);
    } else {
        assert(pairs.skip(i) =~= Seq::empty());
    }
}

/// The encoded chain, element by element.
pub proof fn lemma_enc_strs_pointwise(items: Seq<Seq<char>>, i: int)
    requires
        0 <= i <= items.len(),
    ensures
        enc_strs_from(items, i).len() == items.len() - i,
        forall|j: int|
            i <= j < items.len() ==> enc_strs_from(items, i)[j - i] == ValueView::Str(items[j]),
    decreases items.len() - i,
{
    if i < items.len() {
        lemma_enc_strs_pointwise(items, i + 1);
        assert forall|j: int|
            i <= j < items.len() implies enc_strs_from(items, i)[j - i] == ValueView::Str(
        items[j],
        ) by {
            if j > i {
                assert(enc_strs_from(items, i)[j - i] == enc_strs_from(items, i + 1)[j - i - 1]);
            }
        }
    }
}

/// Decoding the encoded chain gives the chain back.
pub proof fn lemma_dec_enc_strs_from(items: Seq<Seq<char>>, i: int)
    requires
        0 <= i <= items.len(),
    ensures
        dec_strs_from(enc_strs_from(items, 0), i) == Ok::<_, SchemaErrorView>(items.skip(i)),
    decreases items.len() - i,
{
    let ei = enc_strs_from(items, 0);
    lemma_enc_strs_pointwise(items, 0);
    if i < items.len() {
        lemma_dec_enc_strs_from(items, i + 1);
        assert(ei[i] == ValueView::Str(items[i]));
        assert(seq![items[i]] + items.skip(i + 1) =~= items.skip(i));
    } else {
        assert(items.skip(i) =~= Seq::empty());
    }
}

/// Decoding the encoded subject gives the subject back.
pub proof fn lemma_dec_enc_subject(s: SubjectView)
    requires
        subject_wf(s),
    ensures
        dec_subject(enc_subject_fields(s)) == Ok::<_, SchemaErrorView>(s),
{
    lemma_names_distinct();
    let fields = enc_subject_fields(s);
    assert(keys_unique(fields));
    assert(subject_allowed()[0] == "equal"@);
    assert(subject_allowed()[1] == "urlPrefix"@);
    match s {
        SubjectView::Equal(v) => {
            assert(allowed_contains(subject_allowed(), fields[0].0));
            lemma_check_fields_ok(fields, subject_allowed(), 0);
            lemma_lookup_found(fields, "equal"@, 0);
            lemma_lookup_none(fields, "urlPrefix"@);
        },
        SubjectView::UrlPrefix(p) => {
            assert(allowed_contains(subject_allowed(), fields[0].0));
            lemma_check_fields_ok(fields, subject_allowed(), 0);
            lemma_lookup_found(fields, "urlPrefix"@, 0);
            lemma_lookup_none(fields, "equal"@);
            assert(with_trailing_slash(p) == p);
        },
}
}


/// Decoding the encoded assertion gives the assertion back.
pub proof fn lemma_dec_enc_assertion(a: AssertionView)
    requires
        assertion_wf(a),
    ensures
        dec_assertion(enc_assertion(a)) == Ok::<_, SchemaErrorView>(a),
{
    lemma_names_distinct();
    let fields = enc_assertion_fields(a);
    match a {
        AssertionView::PubKey { owner, key, annotations } => {
            assert(pubkey_allowed()[0] == "kind"@ && pubkey_allowed()[1] == "owner"@
                && pubkey_allowed()[2] == "key"@ && pubkey_allowed()[3] == "annotations"@);
            match (owner, annotations) {
                (Some(o), Some(pairs)) => {
                    assert(fields =~= seq![
                        ("kind"@, ValueView::Str("pubKey"@)),
                        ("owner"@, ValueView::Str(o)),
                        ("key"@, ValueView::Str(key)),
                        ("annotations"@, ValueView::Obj(enc_pairs_from(pairs, 0))),
                    ]);
                    assert(keys_unique(fields));
                    assert forall|j: int|
                        0 <= j < fields.len() implies allowed_contains(
                        pubkey_allowed(),
                        fields[j].0,
                    ) by {}
                    lemma_check_fields_ok(fields, pubkey_allowed(), 0);
                    lemma_lookup_found(fields, "kind"@, 0);
                    lemma_lookup_found(fields, "owner"@, 1);
                    lemma_lookup_found(fields, "key"@, 2);
                    lemma_lookup_found(fields, "annotations"@, 3);
                    lemma_dec_enc_pairs_from(pairs, 0);
                    assert(pairs.skip(0) =~= pairs);
                },
                (Some(o), None) => {
                    assert(fields =~= seq![
                        ("kind"@, ValueView::Str("pubKey"@)),
                        ("owner"@, ValueView::Str(o)),
                        ("key"@, ValueView::Str(key)),
                    ]);
                    assert(keys_unique(fields));
                    assert forall|j: int|
                        0 <= j < fields.len() implies allowed_contains(
                        pubkey_allowed(),
                        fields[j].0,
                    ) by {}
                    lemma_check_fields_ok(fields, pubkey_allowed(), 0);
                    lemma_lookup_found(fields, "kind"@, 0);
                    lemma_lookup_found(fields, "owner"@, 1);
                    lemma_lookup_found(fields, "key"@, 2);
                    lemma_lookup_none(fields, "annotations"@);
                },
                (None, Some(pairs)) => {
                    assert(fields =~= seq![
                        ("kind"@, ValueView::Str("pubKey"@)),
                        ("key"@, ValueView::Str(key)),
                        ("annotations"@, ValueView::Obj(enc_pairs_from(pairs, 0))),
                    ]);
                    assert(keys_unique(fields));
                    assert forall|j: int|
                        0 <= j < fields.len() implies allowed_contains(
                        pubkey_allowed(),
                        fields[j].0,
                    ) by {}
                    lemma_check_fields_ok(fields, pubkey_allowed(), 0);
                    lemma_lookup_found(fields, "kind"@, 0);
                    lemma_lookup_none(fields, "owner"@);
                    lemma_lookup_found(fields, "key"@, 1);
                    lemma_lookup_found(fields, "annotations"@, 2);
                    lemma_dec_enc_pairs_from(pairs, 0);
                    assert(pairs.skip(0) =~= pairs);
                },
                (None, None) => {
                    assert(fields =~= seq![
                        ("kind"@, ValueView::Str("pubKey"@)),
                        ("key"@, ValueView::Str(key)),
                    ]);
                    assert(keys_unique(fields));
                    assert forall|j: int|
                        0 <= j < fields.len() implies allowed_contains(
                        pubkey_allowed(),
                        fields[j].0,
                    ) by {}
                    lemma_check_fields_ok(fields, pubkey_allowed(), 0);
                    lemma_lookup_found(fields, "kind"@, 0);
                    lemma_lookup_none(fields, "owner"@);
                    lemma_lookup_found(fields, "key"@, 1);
                    lemma_lookup_none(fields, "annotations"@);
                },
}
        },
        AssertionView::GenericIssuer { issuer, subject, annotations } => {
            assert(issuer_allowed()[0] == "kind"@ && issuer_allowed()[1] == "issuer"@
                && issuer_allowed()[2] == "subject"@ && issuer_allowed()[3] == "annotations"@);
            lemma_dec_enc_subject(subject);
            match annotations {
                Some(pairs) => {
                    assert(fields =~= seq![
                        ("kind"@, ValueView::Str("genericIssuer"@)),
                        ("issuer"@, ValueView::Str(issuer)),
                        ("subject"@, enc_subject(subject)),
                        ("annotations"@, ValueView::Obj(enc_pairs_from(pairs, 0))),
                    ]);
                    assert(keys_unique(fields));
                    assert forall|j: int|
                        0 <= j < fields.len() implies allowed_contains(
                        issuer_allowed(),
                        fields[j].0,
                    ) by {}
                    lemma_check_fields_ok(fields, issuer_allowed(), 0);
                    lemma_lookup_found(fields, "kind"@, 0);
                    lemma_lookup_found(fields, "issuer"@, 1);
                    lemma_lookup_found(fields, "subject"@, 2);
                    lemma_lookup_found(fields, "annotations"@, 3);
                    lemma_dec_enc_pairs_from(pairs, 0);
                    assert(pairs.skip(0) =~= pairs);
                },
                None => {
                    assert(fields =~= seq![
                        ("kind"@, ValueView::Str("genericIssuer"@)),
                        ("issuer"@, ValueView::Str(issuer)),
                        ("subject"@, enc_subject(subject)),
                    ]);
                    assert(keys_unique(fields));
                    assert forall|j: int|
                        0 <= j < fields.len() implies allowed_contains(
                        issuer_allowed(),
                        fields[j].0,
                    ) by {}
                    lemma_check_fields_ok(fields, issuer_allowed(), 0);
                    lemma_lookup_found(fields, "kind"@, 0);
                    lemma_lookup_found(fields, "issuer"@, 1);
                    lemma_lookup_found(fields, "subject"@, 2);
                    lemma_lookup_none(fields, "annotations"@);
                },
}
        },
        AssertionView::GithubAction { owner, repo, annotations } => {
            assert(github_allowed()[0] == "kind"@ && github_allowed()[1] == "owner"@
                && github_allowed()[2] == "repo"@ && github_allowed()[3] == "annotations"@);
            match (repo, annotations) {
                (Some(rp), Some(pairs)) => {
                    assert(fields =~= seq![
                        ("kind"@, ValueView::Str("githubAction"@)),
                        ("owner"@, ValueView::Str(owner)),
                        ("repo"@, ValueView::Str(rp)),
                        ("annotations"@, ValueView::Obj(enc_pairs_from(pairs, 0))),
                    ]);
                    assert(keys_unique(fields));
                    assert forall|j: int|
                        0 <= j < fields.len() implies allowed_contains(
                        github_allowed(),
                        fields[j].0,
                    ) by {}
                    lemma_check_fields_ok(fields, github_allowed(), 0);
                    lemma_lookup_found(fields, "kind"@, 0);
                    lemma_lookup_found(fields, "owner"@, 1);
                    lemma_lookup_found(fields, "repo"@, 2);
                    lemma_lookup_found(fields, "annotations"@, 3);
                    lemma_dec_enc_pairs_from(pairs, 0);
                    assert(pairs.skip(0) =~= pairs);
                },
                (Some(rp), None) => {
                    assert(fields =~= seq![
                        ("kind"@, ValueView::Str("githubAction"@)),
                        ("owner"@, ValueView::Str(owner)),
                        ("repo"@, ValueView::Str(rp)),
                    ]);
                    assert(keys_unique(fields));
                    assert forall|j: int|
                        0 <= j < fields.len() implies allowed_contains(
                        github_allowed(),
                        fields[j].0,
                    ) by {}
                    lemma_check_fields_ok(fields, github_allowed(), 0);
                    lemma_lookup_found(fields, "kind"@, 0);
                    lemma_lookup_found(fields, "owner"@, 1);
                    lemma_lookup_found(fields, "repo"@, 2);
                    lemma_lookup_none(fields, "annotations"@);
                },
                (None, Some(pairs)) => {
                    assert(fields =~= seq![
                        ("kind"@, ValueView::Str("githubAction"@)),
                        ("owner"@, ValueView::Str(owner)),
                        ("annotations"@, ValueView::Obj(enc_pairs_from(pairs, 0))),
                    ]);
                    assert(keys_unique(fields));
                    assert forall|j: int|
                        0 <= j < fields.len() implies allowed_contains(
                        github_allowed(),
                        fields[j].0,
                    ) by {}
                    lemma_check_fields_ok(fields, github_allowed(), 0);
                    lemma_lookup_found(fields, "kind"@, 0);
                    lemma_lookup_found(fields, "owner"@, 1);
                    lemma_lookup_none(fields, "repo"@);
                    lemma_lookup_found(fields, "annotations"@, 2);
                    lemma_dec_enc_pairs_from(pairs, 0);
                    assert(pairs.skip(0) =~= pairs);
                },
                (None, None) => {
                    assert(fields =~= seq![
                        ("kind"@, ValueView::Str("githubAction"@)),
                        ("owner"@, ValueView::Str(owner)),
                    ]);
                    assert(keys_unique(fields));
                    assert forall|j: int|
                        0 <= j < fields.len() implies allowed_contains(
                        github_allowed(),
                        fields[j].0,
                    ) by {}
                    lemma_check_fields_ok(fields, github_allowed(), 0);
                    lemma_lookup_found(fields, "kind"@, 0);
                    lemma_lookup_found(fields, "owner"@, 1);
                    lemma_lookup_none(fields, "repo"@);
                    lemma_lookup_none(fields, "annotations"@);
                },
}
        },
        AssertionView::Certificate {
            certificate,
            certificate_chain,
            require_rekor_bundle,
            annotations,
} => {
            assert(cert_allowed()[0] == "kind"@ && cert_allowed()[1] == "certificate"@
                && cert_allowed()[2] == "certificateChain"@ && cert_allowed()[3]
                == "requireRekorBundle"@ && cert_allowed()[4] == "annotations"@);
            match (certificate_chain, annotations) {
                (Some(chain), Some(pairs)) => {
                    assert(fields =~= seq![
                        ("kind"@, ValueView::Str("certificate"@)),
                        ("certificate"@, ValueView::Str(certificate)),
                        ("certificateChain"@, ValueView::Arr(enc_strs_from(chain, 0))),
                        ("requireRekorBundle"@, ValueView::Bool(require_rekor_bundle)),
                        ("annotations"@, ValueView::Obj(enc_pairs_from(pairs, 0))),
                    ]);
                    assert(keys_unique(fields));
                    assert forall|j: int|
                        0 <= j < fields.len() implies allowed_contains(
                        cert_allowed(),
                        fields[j].0,
                    ) by {}
                    lemma_check_fields_ok(fields, cert_allowed(), 0);
                    lemma_lookup_found(fields, "kind"@, 0);
                    lemma_lookup_found(fields, "certificate"@, 1);
                    lemma_lookup_found(fields, "certificateChain"@, 2);
                    lemma_lookup_found(fields, "requireRekorBundle"@, 3);
                    lemma_lookup_found(fields, "annotations"@, 4);
                    lemma_dec_enc_strs_from(chain, 0);
                    assert(chain.skip(0) =~= chain);
                    lemma_dec_enc_pairs_from(pairs, 0);
                    assert(pairs.skip(0) =~= pairs);
                },
                (Some(chain), None) => {
                    assert(fields =~= seq![
                        ("kind"@, ValueView::Str("certificate"@)),
                        ("certificate"@, ValueView::Str(certificate)),
                        ("certificateChain"@, ValueView::Arr(enc_strs_from(chain, 0))),
                        ("requireRekorBundle"@, ValueView::Bool(require_rekor_bundle)),
                    ]);
                    assert(keys_unique(fields));
                    assert forall|j: int|
                        0 <= j < fields.len() implies allowed_contains(
                        cert_allowed(),
                        fields[j].0,
                    ) by {}
                    lemma_check_fields_ok(fields, cert_allowed(), 0);
                    lemma_lookup_found(fields, "kind"@, 0);
                    lemma_lookup_found(fields, "certificate"@, 1);
                    lemma_lookup_found(fields, "certificateChain"@, 2);
                    lemma_lookup_found(fields, "requireRekorBundle"@, 3);
                    lemma_lookup_none(fields, "annotations"@);
                    lemma_dec_enc_strs_from(chain, 0);
                    assert(chain.skip(0) =~= chain);
                },
                (None, Some(pairs)) => {
                    assert(fields =~= seq![
                        ("kind"@, ValueView::Str("certificate"@)),
                        ("certificate"@, ValueView::Str(certificate)),
                        ("requireRekorBundle"@, ValueView::Bool(require_rekor_bundle)),
                        ("annotations"@, ValueView::Obj(enc_pairs_from(pairs, 0))),
                    ]);
                    assert(keys_unique(fields));
                    assert forall|j: int|
                        0 <= j < fields.len() implies allowed_contains(
                        cert_allowed(),
                        fields[j].0,
                    ) by {}
                    lemma_check_fields_ok(fields, cert_allowed(), 0);
                    lemma_lookup_found(fields, "kind"@, 0);
                    lemma_lookup_found(fields, "certificate"@, 1);
                    lemma_lookup_none(fields, "certificateChain"@);
                    lemma_lookup_found(fields, "requireRekorBundle"@, 2);
                    lemma_lookup_found(fields, "annotations"@, 3);
                    lemma_dec_enc_pairs_from(pairs, 0);
                    assert(pairs.skip(0) =~= pairs);
                },
                (None, None) => {
                    assert(fields =~= seq![
                        ("kind"@, ValueView::Str("certificate"@)),
                        ("certificate"@, ValueView::Str(certificate)),
                        ("requireRekorBundle"@, ValueView::Bool(require_rekor_bundle)),
                    ]);
                    assert(keys_unique(fields));
                    assert forall|j: int|
                        0 <= j < fields.len() implies allowed_contains(
                        cert_allowed(),
                        fields[j].0,
                    ) by {}
                    lemma_check_fields_ok(fields, cert_allowed(), 0);
                    lemma_lookup_found(fields, "kind"@, 0);
                    lemma_lookup_found(fields, "certificate"@, 1);
                    lemma_lookup_none(fields, "certificateChain"@);
                    lemma_lookup_found(fields, "requireRekorBundle"@, 2);
                    lemma_lookup_none(fields, "annotations"@);
                },
}
        },
}
}

/// The encoded signature list, element by element.
pub proof fn lemma_enc_assertions_pointwise(items: Seq<AssertionView>, i: int)
    requires
        0 <= i <= items.len(),
    ensures
        enc_assertions_from(items, i).len() == items.len() - i,
        forall|j: int|
            i <= j < items.len() ==> enc_assertions_from(items, i)[j - i] == enc_assertion(
                items[j],
            ),
    decreases items.len() - i,
{
    if i < items.len() {
        lemma_enc_assertions_pointwise(items, i + 1);
        assert forall|j: int|
            i <= j < items.len() implies enc_assertions_from(items, i)[j - i] == enc_assertion(
        items[j],
        ) by {
            if j > i {
                assert(enc_assertions_from(items, i)[j - i] == enc_assertions_from(items, i + 1)[j
                    - i - 1]);
            }
        }
    }
}

/// Decoding the encoded signature list gives the list back.
pub proof fn lemma_dec_enc_assertions_from(items: Seq<AssertionView>, i: int)
    requires
        asserts_wf(items),
        0 <= i <= items.len(),
    ensures
        dec_assertions_from(enc_assertions_from(items, 0), i) == Ok::<_, SchemaErrorView>(
            items.skip(i),
        ),
    decreases items.len() - i,
{
    let ei = enc_assertions_from(items, 0);
    lemma_enc_assertions_pointwise(items, 0);
    if i < items.len() {
        lemma_dec_enc_assertion(items[i]);
        lemma_dec_enc_assertions_from(items, i + 1);
        assert(ei[i] == enc_assertion(items[i]));
        assert(seq![items[i]] + items.skip(i + 1) =~= items.skip(i));
    } else {
        assert(items.skip(i) =~= Seq::<AssertionView>::empty());
    }
}

/// Decoding the encoded AnyOf group gives the group back.
pub proof fn lemma_dec_enc_anyof(g: AnyOfGroupView)
    requires
        asserts_wf(g.signatures),
        0 <= g.minimum_matches,
    ensures
        dec_anyof(enc_anyof_fields(g)) == Ok::<_, SchemaErrorView>(g),
{
    lemma_names_distinct();
    let fields = enc_anyof_fields(g);
    assert(anyof_allowed()[0] == "minimumMatches"@ && anyof_allowed()[1] == "signatures"@);
    assert(keys_unique(fields));
    assert forall|j: int|
        0 <= j < fields.len() implies allowed_contains(anyof_allowed(), fields[j].0) by {}
    lemma_check_fields_ok(fields, anyof_allowed(), 0);
    lemma_lookup_found(fields, "minimumMatches"@, 0);
    lemma_lookup_found(fields, "signatures"@, 1);
    lemma_dec_enc_assertions_from(g.signatures, 0);
    assert(g.signatures.skip(0) =~= g.signatures);
    assert(dec_anyof(fields) == Ok::<_, SchemaErrorView>(
        AnyOfGroupView { minimum_matches: g.minimum_matches, signatures: g.signatures.skip(0) },
    ));
    assert(AnyOfGroupView { minimum_matches: g.minimum_matches, signatures: g.signatures.skip(0) }
        =~= g);
}

/// Round-trip: parsing the serialized form of any well-formed versioned
/// configuration yields exactly that configuration.
pub proof fn lemma_round_trip(c: VersionedVerificationConfigView)
    requires
        versioned_config_wf(c),
    ensures
        dec_versioned(enc_versioned(c)) == Ok::<_, SchemaErrorView>(c),
{
    lemma_names_distinct();
    let fields = enc_versioned_fields(c);
    match c {
        VersionedVerificationConfigView::Unsupported(tag) => {
            assert(keys_unique(fields));
            lemma_lookup_found(fields, "apiVersion"@, 0);
        },
        VersionedVerificationConfigView::V1(cfg) => {
            assert(top_allowed()[0] == "apiVersion"@ && top_allowed()[1] == "allOf"@
                && top_allowed()[2] == "anyOf"@);
            if let Some(g) = cfg.any_of {
                lemma_dec_enc_anyof(g);
            }
            if let Some(l) = cfg.all_of {
                lemma_dec_enc_assertions_from(l, 0);
                assert(l.skip(0) =~= l);
            }
            match (cfg.all_of, cfg.any_of) {
                (Some(l), Some(g)) => {
                    assert(fields =~= seq![
                        ("apiVersion"@, ValueView::Str(CURRENT_VERSION_TAG@)),
                        ("allOf"@, ValueView::Arr(enc_assertions_from(l, 0))),
                        ("anyOf"@, enc_anyof(g)),
                    ]);
                    assert(keys_unique(fields));
                    assert forall|j: int|
                        0 <= j < fields.len() implies allowed_contains(
                        top_allowed(),
                        fields[j].0,
                    ) by {}
                    lemma_check_fields_ok(fields, top_allowed(), 0);
                    lemma_lookup_found(fields, "apiVersion"@, 0);
                    lemma_lookup_found(fields, "allOf"@, 1);
                    lemma_lookup_found(fields, "anyOf"@, 2);
                    assert(dec_config_groups(fields) == Ok::<_, SchemaErrorView>(
                        VerificationConfigView { all_of: Some(l.skip(0)), any_of: Some(g) },
                    ));
                    assert(VerificationConfigView { all_of: Some(l.skip(0)), any_of: Some(g) }
                        =~= cfg);
                },
                (Some(l), None) => {
                    assert(fields =~= seq![
                        ("apiVersion"@, ValueView::Str(CURRENT_VERSION_TAG@)),
                        ("allOf"@, ValueView::Arr(enc_assertions_from(l, 0))),
                    ]);
                    assert(keys_unique(fields));
                    assert forall|j: int|
                        0 <= j < fields.len() implies allowed_contains(
                        top_allowed(),
                        fields[j].0,
                    ) by {}
                    lemma_check_fields_ok(fields, top_allowed(), 0);
                    lemma_lookup_found(fields, "apiVersion"@, 0);
                    lemma_lookup_found(fields, "allOf"@, 1);
                    lemma_lookup_none(fields, "anyOf"@);
                    assert(VerificationConfigView { all_of: Some(l.skip(0)), any_of: None } =~= cfg);
                },
                (None, Some(g)) => {
                    assert(fields =~= seq![
                        ("apiVersion"@, ValueView::Str(CURRENT_VERSION_TAG@)),
                        ("anyOf"@, enc_anyof(g)),
                    ]);
                    assert(keys_unique(fields));
                    assert forall|j: int|
                        0 <= j < fields.len() implies allowed_contains(
                        top_allowed(),
                        fields[j].0,
                    ) by {}
                    lemma_check_fields_ok(fields, top_allowed(), 0);
                    lemma_lookup_found(fields, "apiVersion"@, 0);
                    lemma_lookup_none(fields, "allOf"@);
                    lemma_lookup_found(fields, "anyOf"@, 1);
                    assert(VerificationConfigView { all_of: None, any_of: Some(g) } =~= cfg);
                },
                (None, None) => {
                    assert(fields =~= seq![
                        ("apiVersion"@, ValueView::Str(CURRENT_VERSION_TAG@)),
                    ]);
                    assert(keys_unique(fields));
                    assert forall|j: int|
                        0 <= j < fields.len() implies allowed_contains(
                        top_allowed(),
                        fields[j].0,
                    ) by {}
                    lemma_check_fields_ok(fields, top_allowed(), 0);
                    lemma_lookup_found(fields, "apiVersion"@, 0);
                    lemma_lookup_none(fields, "allOf"@);
                    lemma_lookup_none(fields, "anyOf"@);
                    assert(VerificationConfigView { all_of: None, any_of: None } =~= cfg);
                },
}
        },
}
}


// ---------------------------------------------------------------------------
// Laws of the evaluator
// ---------------------------------------------------------------------------
/// AllOf short-circuit: when the very first oracle reply of a non-empty
/// `AllOf` group is a non-trusted verdict, the whole evaluation consists of
/// exactly that one call and is not satisfied — later assertions are never
/// asked about.
pub proof fn lemma_allof_short_circuit(
    c: VerificationConfigView,
    image: Seq<char>,
    events: Seq<OracleEvent>,
)
    requires
        ({
            &&& c.all_of matches Some(l) && l.len() > 0 && events.len() == 1
                && events[0].assertion == l[0]
            &&& events[0].image == image
            &&& events[0].reply matches OracleReplyView::Verdict { trusted: false, .. }
        }),
    ensures
        config_run(c, image, events) == Some((1int, EvalVerdict::Verdict(false))),
{
}

/// A conjunction run consumes no more events than there are.
pub proof fn lemma_allof_run_len(
    asserts: Seq<AssertionView>,
    image: Seq<char>,
    events: Seq<OracleEvent>,
)
    ensures
        allof_run(asserts, image, events) matches Some((n, _)) ==> 0 <= n <= events.len(),
    decreases asserts.len(),
{
    if asserts.len() > 0 && events.len() > 0 && events[0].assertion == asserts[0]
        && events[0].image == image {
        lemma_allof_run_len(asserts.drop_first(), image, events.drop_first());
    }
}

/// A threshold run consumes no more events than there are.
pub proof fn lemma_anyof_run_len(
    asserts: Seq<AssertionView>,
    image: Seq<char>,
    needed: int,
    events: Seq<OracleEvent>,
)
    ensures
        anyof_run(asserts, image, needed, events) matches Some((n, _)) ==> 0 <= n <= events.len(),
    decreases asserts.len(),
{
    if needed > 0 && asserts.len() >= needed && events.len() > 0 && events[0].assertion
        == asserts[0] && events[0].image == image {
        match events[0].reply {
            OracleReplyView::Failure(_) => {},
            OracleReplyView::Verdict { trusted, .. } => {
                let needed2 = if trusted {
                    needed - 1
                } else {
                    needed
                };
                lemma_anyof_run_len(asserts.drop_first(), image, needed2, events.drop_first());
            },
}
    }
}

/// The number of trusted verdicts among the events.
pub open spec fn count_trusted(events: Seq<OracleEvent>) -> int
    decreases events.len(),
{
    if events.len() == 0 {
        0
    } else {
        (if events[0].reply matches OracleReplyView::Verdict { trusted: true, .. } {
            1int
        } else {
            0int
        }) + count_trusted(events.drop_first())
    }
}

/// AnyOf threshold math: a threshold run that ends satisfied consumed
/// exactly as many trusted verdicts as it still needed; one that ends
/// unsatisfied stopped because even trusting every remaining assertion could
/// not reach the threshold.
pub proof fn lemma_anyof_threshold(
    asserts: Seq<AssertionView>,
    image: Seq<char>,
    needed: int,
    events: Seq<OracleEvent>,
    n: int,
    res: GroupOutcome,
)
    requires
        anyof_run(asserts, image, needed, events) == Some((n, res)),
    ensures
        0 <= n <= events.len(),
        res == GroupOutcome::Sat ==> count_trusted(events.take(n)) == (if needed > 0 {
            needed
        } else {
            0
        }),
        res == GroupOutcome::NotSat ==> count_trusted(events.take(n)) + (asserts.len() - n)
            < needed,
    decreases asserts.len(),
{
    lemma_anyof_run_len(asserts, image, needed, events);
    if needed <= 0 {
        assert(events.take(0) =~= Seq::<OracleEvent>::empty());
    } else if asserts.len() < needed {
        assert(events.take(0) =~= Seq::<OracleEvent>::empty());
    } else if events.len() == 0 {
    } else if events[0].assertion != asserts[0] || events[0].image != image {
    } else {
        match events[0].reply {
            OracleReplyView::Failure(_) => {},
            OracleReplyView::Verdict { trusted, .. } => {
                let needed2 = if trusted {
                    needed - 1
                } else {
                    needed
                };
                let inner = anyof_run(asserts.drop_first(), image, needed2, events.drop_first());
                if let Some((k, res2)) = inner {
                    lemma_anyof_threshold(
                        asserts.drop_first(),
                        image,
                        needed2,
                        events.drop_first(),
                        k,
                        res2,
                    );
                    assert(n == k + 1 && res2 == res);
                    assert(events.take(n).drop_first() =~= events.drop_first().take(k));
                    assert(events.take(n)[0] == events[0]);
                    assert(count_trusted(events.take(n)) == (if trusted {
                        1int
                    } else {
                        0int
                    }) + count_trusted(events.drop_first().take(k)));
                }
            },
}
    }
}

/// A conjunction run fails exactly when one of its consumed events is a
/// failed call.
proof fn lemma_allof_failure(
    asserts: Seq<AssertionView>,
    image: Seq<char>,
    events: Seq<OracleEvent>,
    n: int,
    res: GroupOutcome,
)
    requires
        allof_run(asserts, image, events) == Some((n, res)),
    ensures
        (res == GroupOutcome::Failed) <==> exists|k: int|
            0 <= k < n && (#[trigger] events[k].reply) matches OracleReplyView::Failure(_),
    decreases asserts.len(),
{
    lemma_allof_run_len(asserts, image, events);
    if asserts.len() == 0 {
    } else if events.len() == 0 {
    } else if events[0].assertion != asserts[0] || events[0].image != image {
    } else {
        match events[0].reply {
            OracleReplyView::Failure(_) => {
                assert(events[0].reply matches OracleReplyView::Failure(_));
            },
            OracleReplyView::Verdict { trusted, .. } => {
                if !trusted {
                    assert forall|k: int|
                        0 <= k < n implies !((#[trigger] events[k].reply)
                        matches OracleReplyView::Failure(_)) by {}
                } else {
                    let inner = allof_run(asserts.drop_first(), image, events.drop_first());
                    if let Some((m, res2)) = inner {
                        lemma_allof_failure(
                            asserts.drop_first(),
                            image,
                            events.drop_first(),
                            m,
                            res2,
                        );
                        assert(n == m + 1 && res2 == res);
                        if res == GroupOutcome::Failed {
                            let k = choose|k: int|
                                0 <= k < m && (#[trigger] events.drop_first()[k].reply)
                                    matches OracleReplyView::Failure(_);
                            assert(events[k + 1] == events.drop_first()[k]);
                        } else {
                            assert forall|k: int|
                                0 <= k < n implies !((#[trigger] events[k].reply)
                                matches OracleReplyView::Failure(_)) by {
                                if k > 0 {
                                    assert(events[k] == events.drop_first()[k - 1]);
                                }
                            }
                        }
                    }
                }
            },
}
    }
}

/// A threshold run fails exactly when one of its consumed events is a failed
/// call.
proof fn lemma_anyof_failure(
    asserts: Seq<AssertionView>,
    image: Seq<char>,
    needed: int,
    events: Seq<OracleEvent>,
    n: int,
    res: GroupOutcome,
)
    requires
        anyof_run(asserts, image, needed, events) == Some((n, res)),
    ensures
        (res == GroupOutcome::Failed) <==> exists|k: int|
            0 <= k < n && (#[trigger] events[k].reply) matches OracleReplyView::Failure(_),
    decreases asserts.len(),
{
    lemma_anyof_run_len(asserts, image, needed, events);
    if needed <= 0 {
    } else if asserts.len() < needed {
    } else if events.len() == 0 {
    } else if events[0].assertion != asserts[0] || events[0].image != image {
    } else {
        match events[0].reply {
            OracleReplyView::Failure(_) => {
                assert(events[0].reply matches OracleReplyView::Failure(_));
            },
            OracleReplyView::Verdict { trusted, .. } => {
                let needed2 = if trusted {
                    needed - 1
                } else {
                    needed
                };
                let inner = anyof_run(asserts.drop_first(), image, needed2, events.drop_first());
                if let Some((m, res2)) = inner {
                    lemma_anyof_failure(
                        asserts.drop_first(),
                        image,
                        needed2,
                        events.drop_first(),
                        m,
                        res2,
                    );
                    assert(n == m + 1 && res2 == res);
                    if res == GroupOutcome::Failed {
                        let k = choose|k: int|
                            0 <= k < m && (#[trigger] events.drop_first()[k].reply)
                                matches OracleReplyView::Failure(_);
                        assert(events[k + 1] == events.drop_first()[k]);
                    } else {
                        assert forall|k: int|
                            0 <= k < n implies !((#[trigger] events[k].reply)
                            matches OracleReplyView::Failure(_)) by {
                            if k > 0 {
                                assert(events[k] == events.drop_first()[k - 1]);
                            }
                        }
                    }
                }
            },
}
    }
}

/// OracleError precedence: an evaluation ends in an oracle error exactly when
/// one of the calls it made failed — a failed call is never downgraded to
/// "not trusted", and partial progress is never reported as a verdict.
pub proof fn lemma_oracle_error_precedence(
    c: VerificationConfigView,
    image: Seq<char>,
    events: Seq<OracleEvent>,
    n: int,
    v: EvalVerdict,
)
    requires
        config_run(c, image, events) == Some((n, v)),
    ensures
        (v == EvalVerdict::OracleFailed) <==> exists|k: int|
            0 <= k < n && (#[trigger] events[k].reply) matches OracleReplyView::Failure(_),
{
    let first = match c.all_of {
        Some(l) => allof_run(l, image, events),
        None => Some((0int, GroupOutcome::Sat)),
};
    if let Some((n1, r1)) = first {
        if c.all_of is Some {
            lemma_allof_run_len(c.all_of.unwrap(), image, events);
            lemma_allof_failure(c.all_of.unwrap(), image, events, n1, r1);
        }
        match r1 {
            GroupOutcome::Failed => {},
            GroupOutcome::NotSat => {},
            GroupOutcome::Sat => {
                let second = match c.any_of {
                    Some(g) => anyof_run(g.signatures, image, g.minimum_matches, events.skip(n1)),
                    None => Some((0int, GroupOutcome::Sat)),
};
                if let Some((n2, r2)) = second {
                    if c.any_of is Some {
                        let g = c.any_of.unwrap();
                        lemma_anyof_run_len(g.signatures, image, g.minimum_matches, events.skip(n1));
                        lemma_anyof_failure(
                            g.signatures,
                            image,
                            g.minimum_matches,
                            events.skip(n1),
                            n2,
                            r2,
                        );
                    }
                    // a satisfied or exhausted first group consumed no failures
                    if r2 == GroupOutcome::Failed {
                        let k = choose|k: int|
                            0 <= k < n2 && (#[trigger] events.skip(n1)[k].reply)
                                matches OracleReplyView::Failure(_);
                        assert(events[n1 + k] == events.skip(n1)[k]);
                    } else {
                        assert forall|k: int|
                            0 <= k < n implies !((#[trigger] events[k].reply)
                            matches OracleReplyView::Failure(_)) by {
                            if k >= n1 {
                                assert(events[k] == events.skip(n1)[k - n1]);
                            }
                        }
                    }
                }
            },
}
    }
}


// ---------------------------------------------------------------------------
// The validity invariant of parsing
// ---------------------------------------------------------------------------
/// Decoded annotations carry the field names, in order, and no step of a
/// successful decode saw a duplicate.
proof fn lemma_dec_pairs_wf(afields: Seq<(Seq<char>, ValueView)>, i: int)
    requires
        0 <= i <= afields.len(),
    ensures
        dec_pairs_from(afields, i) matches Ok(pairs) ==> {
            &&& pairs.len() == afields.len() - i
            &&& (forall|m: int| 0 <= m < pairs.len() ==> #[trigger] pairs[m].0 == afields[i + m].0)
            &&& (forall|j: int| i <= j < afields.len() ==> !dup_before(afields, j))
        },
    decreases afields.len() - i,
{
    if i < afields.len() {
        if !dup_before(afields, i) {
            match afields[i].1 {
                ValueView::Str(s) => {
                    lemma_dec_pairs_wf(afields, i + 1);
                    if let Ok(rest) = dec_pairs_from(afields, i + 1) {
                        assert forall|m: int|
                            0 <= m < rest.len() + 1 implies #[trigger] (seq![(afields[i].0, s)]
                            + rest)[m].0 == afields[i + m].0 by {
                            if m > 0 {
                                assert((seq![(afields[i].0, s)] + rest)[m] == rest[m - 1]);
                            }
                        }
                    }
                },
                _ => {},
}
        }
    }
}

/// Decoded annotations have unique keys.
proof fn lemma_dec_annotations_wf(fields: Seq<(Seq<char>, ValueView)>)
    ensures
        dec_annotations(fields) matches Ok(Some(pairs)) ==> annotation_keys_unique(pairs),
{
    if let Some(ValueView::Obj(afields)) = spec_lookup(fields, "annotations"@) {
        lemma_dec_pairs_wf(afields, 0);
        if let Ok(pairs) = dec_pairs_from(afields, 0) {
            assert forall|m: int, n: int|
                0 <= m < n < pairs.len() implies pairs[m].0 != pairs[n].0 by {
                assert(pairs[m].0 == afields[m].0);
                assert(pairs[n].0 == afields[n].0);
                assert(!dup_before(afields, n));
            }
        }
    }
}

/// A decoded subject is well formed: construction-time sanitization holds.
proof fn lemma_dec_subject_wf(sfields: Seq<(Seq<char>, ValueView)>)
    ensures
        dec_subject(sfields) matches Ok(s) ==> subject_wf(s),
{
    if check_fields(sfields, subject_allowed(), 0) is None {
        match (spec_lookup(sfields, "equal"@), spec_lookup(sfields, "urlPrefix"@)) {
            (None, Some(ValueView::Str(u))) => {
                if crate::policy::subject::valid_url_prefix(u) {
                    crate::policy::subject::lemma_sanitize_keeps_validity(u);
                }
            },
            _ => {},
}
    }
}

/// A decoded assertion is well formed.
proof fn lemma_dec_assertion_wf(v: ValueView)
    ensures
        dec_assertion(v) matches Ok(a) ==> assertion_wf(a),
{
    if let ValueView::Obj(fields) = v {
        lemma_dec_annotations_wf(fields);
        if let Some(ValueView::Str(k)) = spec_lookup(fields, "kind"@) {
            if k == "genericIssuer"@ {
                if let Some(ValueView::Obj(sfields)) = spec_lookup(fields, "subject"@) {
                    lemma_dec_subject_wf(sfields);
                }
            }
        }
    }
}

/// A decoded signature list is well formed.
proof fn lemma_dec_assertions_wf(items: Seq<ValueView>, i: int)
    ensures
        dec_assertions_from(items, i) matches Ok(l) ==> asserts_wf(l),
    decreases items.len() - i,
{
    if 0 <= i < items.len() {
        lemma_dec_assertion_wf(items[i]);
        lemma_dec_assertions_wf(items, i + 1);
        if let Ok(a) = dec_assertion(items[i]) {
            if let Ok(rest) = dec_assertions_from(items, i + 1) {
                assert forall|m: int|
                    0 <= m < rest.len() + 1 implies assertion_wf(
                    #[trigger] (seq![a] + rest)[m],
                ) by {
                    if m > 0 {
                        assert((seq![a] + rest)[m] == rest[m - 1]);
                    }
                }
            }
        }
    }
}

/// Validity invariant: every configuration that parses is well formed — in
/// particular, every URL-prefix subject it holds was sanitized and found
/// valid during parsing, every annotation mapping has unique keys, and no
/// unsupported marker carries the current version tag.  Invalid subjects can
/// therefore never reach evaluation.
pub proof fn lemma_parsed_config_wf(v: ValueView)
    ensures
        dec_versioned(v) matches Ok(c) ==> versioned_config_wf(c),
{
    if let ValueView::Obj(fields) = v {
        if let Some(ValueView::Str(tag)) = spec_lookup(fields, "apiVersion"@) {
            if tag == CURRENT_VERSION_TAG@ && check_fields(fields, top_allowed(), 0) is None {
                if let Some(ValueView::Arr(items)) = spec_lookup(fields, "allOf"@) {
                    lemma_dec_assertions_wf(items, 0);
                }
                if let Some(ValueView::Obj(gfields)) = spec_lookup(fields, "anyOf"@) {
                    if let Some(ValueView::Arr(items)) = spec_lookup(gfields, "signatures"@) {
                        lemma_dec_assertions_wf(items, 0);
                    }
                }
            }
        }
    }
}


/// Default threshold: an AnyOf group that does not give `minimumMatches`
/// decodes with a threshold of one.
pub proof fn lemma_minimum_matches_default(gfields: Seq<(Seq<char>, ValueView)>)
    requires
        spec_lookup(gfields, "minimumMatches"@) is None,
    ensures
        dec_anyof(gfields) matches Ok(g) ==> g.minimum_matches == 1,
{
}

} // verus!
