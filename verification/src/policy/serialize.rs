//! The configuration serializer: the inverse of parsing.
//!
//! `enc_*` spec functions define the canonical document for each
//! configuration; the executable serializers produce exactly that document,
//! and [`lemma_round_trip`] proves that parsing a serialized well-formed
//! configuration gives the configuration back.
use vstd::prelude::*;
use crate::policy::assertion::{Assertion, AssertionView, Annotations, asserts_view, pairs_view, strs_view};
use crate::policy::config::{AnyOfGroup, AnyOfGroupView, VersionedVerificationConfig, VersionedVerificationConfigView, CURRENT_VERSION_TAG};
use crate::policy::error::SchemaErrorView;
use crate::policy::subject::{Subject, SubjectView};
use crate::policy::value::{ConfigValue, ValueView, fields_view, views_of};

verus! {

broadcast use {
    crate::policy::value::lemma_fields_view,
    crate::policy::value::lemma_views_of,
    crate::policy::assertion::lemma_strs_view,
    crate::policy::assertion::lemma_pairs_view,
    crate::policy::assertion::lemma_asserts_view,
};

// ---------------------------------------------------------------------------
// The encoder, in spec land
// ---------------------------------------------------------------------------
/// The encoded annotation fields at and after pair `i`.
pub open spec fn enc_pairs_from(pairs: Seq<(Seq<char>, Seq<char>)>, i: int) -> Seq<
    (Seq<char>, ValueView),
>
    decreases pairs.len() - i,
{
    if i < 0 || i >= pairs.len() {
        Seq::empty()
    } else {
        seq![(pairs[i].0, ValueView::Str(pairs[i].1))] + enc_pairs_from(pairs, i + 1)
    }
}

/// The encoded chain entries at and after item `i`.
pub open spec fn enc_strs_from(items: Seq<Seq<char>>, i: int) -> Seq<ValueView>
    decreases items.len() - i,
{
    if i < 0 || i >= items.len() {
        Seq::empty()
    } else {
        seq![ValueView::Str(items[i])] + enc_strs_from(items, i + 1)
    }
}

/// The fields of the encoded subject object.
pub open spec fn enc_subject_fields(s: SubjectView) -> Seq<(Seq<char>, ValueView)> {
    match s {
        SubjectView::Equal(v) => seq![("equal"@, ValueView::Str(v))],
        SubjectView::UrlPrefix(p) => seq![("urlPrefix"@, ValueView::Str(p))],
}
}

/// The encoded subject object.
pub open spec fn enc_subject(s: SubjectView) -> ValueView {
    ValueView::Obj(enc_subject_fields(s))
}

/// The encoded `annotations` field, where present.
pub open spec fn enc_annotations_fields(a: Option<Seq<(Seq<char>, Seq<char>)>>) -> Seq<
    (Seq<char>, ValueView),
> {
    match a {
        Some(pairs) => seq![("annotations"@, ValueView::Obj(enc_pairs_from(pairs, 0)))],
        None => Seq::empty(),
}
}

/// The encoded optional string field `name`.
pub open spec fn enc_opt_str_field(name: Seq<char>, v: Option<Seq<char>>) -> Seq<
    (Seq<char>, ValueView),
> {
    match v {
        Some(s) => seq![(name, ValueView::Str(s))],
        None => Seq::empty(),
}
}

/// The fields of the encoded assertion object.
pub open spec fn enc_assertion_fields(a: AssertionView) -> Seq<(Seq<char>, ValueView)> {
    match a {
        AssertionView::PubKey { owner, key, annotations } => seq![
            ("kind"@, ValueView::Str("pubKey"@)),
        ] + enc_opt_str_field("owner"@, owner) + seq![("key"@, ValueView::Str(key))]
            + enc_annotations_fields(annotations),
        AssertionView::GenericIssuer { issuer, subject, annotations } => seq![
            ("kind"@, ValueView::Str("genericIssuer"@)),
            ("issuer"@, ValueView::Str(issuer)),
            ("subject"@, enc_subject(subject)),
        ] + enc_annotations_fields(annotations),
        AssertionView::GithubAction { owner, repo, annotations } => seq![
            ("kind"@, ValueView::Str("githubAction"@)),
            ("owner"@, ValueView::Str(owner)),
        ] + enc_opt_str_field("repo"@, repo) + enc_annotations_fields(annotations),
        AssertionView::Certificate {
            certificate,
            certificate_chain,
            require_rekor_bundle,
            annotations,
} => seq![
            ("kind"@, ValueView::Str("certificate"@)),
            ("certificate"@, ValueView::Str(certificate)),
        ] + (match certificate_chain {
            Some(chain) => seq![("certificateChain"@, ValueView::Arr(enc_strs_from(chain, 0)))],
            None => Seq::empty(),
}) + seq![("requireRekorBundle"@, ValueView::Bool(require_rekor_bundle))]
            + enc_annotations_fields(annotations),
}
}

/// The encoded assertion object.
pub open spec fn enc_assertion(a: AssertionView) -> ValueView {
    ValueView::Obj(enc_assertion_fields(a))
}

/// The encoded signature list at and after item `i`.
pub open spec fn enc_assertions_from(items: Seq<AssertionView>, i: int) -> Seq<ValueView>
    decreases items.len() - i,
{
    if i < 0 || i >= items.len() {
        Seq::empty()
    } else {
        seq![enc_assertion(items[i])] + enc_assertions_from(items, i + 1)
    }
}

/// The fields of the encoded AnyOf group object.  The threshold is always
/// written out, so a document that relied on the default re-serializes
/// explicitly.
pub open spec fn enc_anyof_fields(g: AnyOfGroupView) -> Seq<(Seq<char>, ValueView)> {
    seq![
        ("minimumMatches"@, ValueView::Int(g.minimum_matches)),
        ("signatures"@, ValueView::Arr(enc_assertions_from(g.signatures, 0))),
    ]
}

/// The encoded AnyOf group object.
pub open spec fn enc_anyof(g: AnyOfGroupView) -> ValueView {
    ValueView::Obj(enc_anyof_fields(g))
}

/// The fields of the encoded versioned document.
pub open spec fn enc_versioned_fields(c: VersionedVerificationConfigView) -> Seq<
    (Seq<char>, ValueView),
> {
    match c {
        VersionedVerificationConfigView::V1(cfg) => seq![
            ("apiVersion"@, ValueView::Str(CURRENT_VERSION_TAG@)),
        ] + (match cfg.all_of {
            Some(l) => seq![("allOf"@, ValueView::Arr(enc_assertions_from(l, 0)))],
            None => Seq::empty(),
}) + (match cfg.any_of {
            Some(g) => seq![("anyOf"@, enc_anyof(g))],
            None => Seq::empty(),
}),
        VersionedVerificationConfigView::Unsupported(tag) => seq![
            ("apiVersion"@, ValueView::Str(tag)),
        ],
}
}

/// The encoded versioned document.
pub open spec fn enc_versioned(c: VersionedVerificationConfigView) -> ValueView {
    ValueView::Obj(enc_versioned_fields(c))
}


// ---------------------------------------------------------------------------
// The serializer, in executable code
// ---------------------------------------------------------------------------
/// Serializes an annotations mapping into object fields.
pub(crate) fn serialize_pairs(a: &Annotations) -> (r: Vec<(String, ConfigValue)>)
    ensures
        fields_view(r@) == enc_pairs_from(pairs_view(a@), 0),
{
    let ghost gp = pairs_view(a@);
    let mut acc: Vec<(String, ConfigValue)> = Vec::new();
    assert(fields_view(acc@) =~= Seq::empty());
    for i in 0..a.len()
        invariant
            gp == pairs_view(a@),
            fields_view(acc@).len() == i,
            enc_pairs_from(gp, 0) =~= fields_view(acc@) + enc_pairs_from(gp, i as int),
    {
        let ghost old_acc = acc@;
        acc.push((a[i].0.clone(), ConfigValue::Str(a[i].1.clone())));
        proof {
            assert(fields_view(acc@) =~= fields_view(old_acc) + seq![
                (gp[i as int].0, ValueView::Str(gp[i as int].1)),
            ]);
            assert(enc_pairs_from(gp, i as int) == seq![
                (gp[i as int].0, ValueView::Str(gp[i as int].1)),
            ] + enc_pairs_from(gp, i + 1));
            assert(enc_pairs_from(gp, 0) =~= fields_view(acc@) + enc_pairs_from(gp, i + 1));
        }
    }
    proof {
        assert(enc_pairs_from(gp, a@.len() as int) == Seq::<(Seq<char>, ValueView)>::empty());
        assert(enc_pairs_from(gp, 0) =~= fields_view(acc@));
    }
    acc
}

/// Serializes a certificate chain into an item list.
pub(crate) fn serialize_strs(chain: &Vec<String>) -> (r: Vec<ConfigValue>)
    ensures
        views_of(r@) == enc_strs_from(strs_view(chain@), 0),
{
    let ghost gc = strs_view(chain@);
    let mut acc: Vec<ConfigValue> = Vec::new();
    assert(views_of(acc@) =~= Seq::empty());
    for i in 0..chain.len()
        invariant
            gc == strs_view(chain@),
            views_of(acc@).len() == i,
            enc_strs_from(gc, 0) =~= views_of(acc@) + enc_strs_from(gc, i as int),
    {
        let ghost old_acc = acc@;
        acc.push(ConfigValue::Str(chain[i].clone()));
        proof {
            assert(views_of(acc@) =~= views_of(old_acc) + seq![ValueView::Str(gc[i as int])]);
            assert(enc_strs_from(gc, i as int) == seq![ValueView::Str(gc[i as int])]
                + enc_strs_from(gc, i + 1));
            assert(enc_strs_from(gc, 0) =~= views_of(acc@) + enc_strs_from(gc, i + 1));
        }
    }
    proof {
        assert(enc_strs_from(gc, chain@.len() as int) == Seq::<ValueView>::empty());
        assert(enc_strs_from(gc, 0) =~= views_of(acc@));
    }
    acc
}

/// Serializes a subject.
pub fn serialize_subject(s: &Subject) -> (r: ConfigValue)
    ensures
        r@ == enc_subject(s@),
{
    let r = match s {
        Subject::Equal(v) => ConfigValue::Obj(
            vec![(String::from_str("equal"), ConfigValue::Str(v.clone()))],
        ),
        Subject::UrlPrefix(p) => ConfigValue::Obj(
            vec![(String::from_str("urlPrefix"), ConfigValue::Str(p.clone()))],
        ),
};
    proof {
        if let ConfigValue::Obj(fields) = &r {
            assert(fields_view(fields@) =~= enc_subject_fields(s@));
        }
    }
    r
}

/// Serializes one assertion.
pub fn serialize_assertion(a: &Assertion) -> (r: ConfigValue)
    ensures
        r@ == enc_assertion(a@),
{
    let mut fields: Vec<(String, ConfigValue)> = Vec::new();
    match a {
        Assertion::PubKey { owner, key, annotations } => {
            fields.push(
                (String::from_str("kind"), ConfigValue::Str(String::from_str("pubKey"))),
            );
            if let Some(o) = owner {
                fields.push((String::from_str("owner"), ConfigValue::Str(o.clone())));
            }
            fields.push((String::from_str("key"), ConfigValue::Str(key.clone())));
            if let Some(pairs) = annotations {
                fields.push(
                    (String::from_str("annotations"), ConfigValue::Obj(serialize_pairs(pairs))),
                );
            }
            proof {
                assert(fields_view(fields@) =~= enc_assertion_fields(a@));
            }
        },
        Assertion::GenericIssuer { issuer, subject, annotations } => {
            fields.push(
                (String::from_str("kind"), ConfigValue::Str(String::from_str("genericIssuer"))),
            );
            fields.push((String::from_str("issuer"), ConfigValue::Str(issuer.clone())));
            fields.push((String::from_str("subject"), serialize_subject(subject)));
            if let Some(pairs) = annotations {
                fields.push(
                    (String::from_str("annotations"), ConfigValue::Obj(serialize_pairs(pairs))),
                );
            }
            proof {
                assert(fields_view(fields@) =~= enc_assertion_fields(a@));
            }
        },
        Assertion::GithubAction { owner, repo, annotations } => {
            fields.push(
                (String::from_str("kind"), ConfigValue::Str(String::from_str("githubAction"))),
            );
            fields.push((String::from_str("owner"), ConfigValue::Str(owner.clone())));
            if let Some(rp) = repo {
                fields.push((String::from_str("repo"), ConfigValue::Str(rp.clone())));
            }
            if let Some(pairs) = annotations {
                fields.push(
                    (String::from_str("annotations"), ConfigValue::Obj(serialize_pairs(pairs))),
                );
            }
            proof {
                assert(fields_view(fields@) =~= enc_assertion_fields(a@));
            }
        },
        Assertion::Certificate {
            certificate,
            certificate_chain,
            require_rekor_bundle,
            annotations,
} => {
            fields.push(
                (String::from_str("kind"), ConfigValue::Str(String::from_str("certificate"))),
            );
            fields.push((String::from_str("certificate"), ConfigValue::Str(certificate.clone())));
            if let Some(chain) = certificate_chain {
                fields.push(
                    (String::from_str("certificateChain"), ConfigValue::Arr(serialize_strs(chain))),
                );
            }
            fields.push(
                (String::from_str("requireRekorBundle"), ConfigValue::Bool(*require_rekor_bundle)),
            );
            if let Some(pairs) = annotations {
                fields.push(
                    (String::from_str("annotations"), ConfigValue::Obj(serialize_pairs(pairs))),
                );
            }
            proof {
                assert(fields_view(fields@) =~= enc_assertion_fields(a@));
            }
        },
}
    ConfigValue::Obj(fields)
}

/// Serializes a signature list.
fn serialize_assertions(items: &Vec<Assertion>) -> (r: Vec<ConfigValue>)
    ensures
        views_of(r@) == enc_assertions_from(asserts_view(items@), 0),
{
    let ghost gl = asserts_view(items@);
    let mut acc: Vec<ConfigValue> = Vec::new();
    assert(views_of(acc@) =~= Seq::empty());
    for i in 0..items.len()
        invariant
            gl == asserts_view(items@),
            views_of(acc@).len() == i,
            enc_assertions_from(gl, 0) =~= views_of(acc@) + enc_assertions_from(gl, i as int),
    {
        let ghost old_acc = acc@;
        acc.push(serialize_assertion(&items[i]));
        proof {
            assert(views_of(acc@) =~= views_of(old_acc) + seq![enc_assertion(gl[i as int])]);
            assert(enc_assertions_from(gl, i as int) == seq![enc_assertion(gl[i as int])]
                + enc_assertions_from(gl, i + 1));
            assert(enc_assertions_from(gl, 0) =~= views_of(acc@) + enc_assertions_from(gl, i + 1));
        }
    }
    proof {
        assert(enc_assertions_from(gl, items@.len() as int) == Seq::<ValueView>::empty());
        assert(enc_assertions_from(gl, 0) =~= views_of(acc@));
    }
    acc
}

/// Whether a configuration's threshold fits the integer width a document
/// carries — the one machine limit serialization has.
pub open spec fn config_serializable(c: VersionedVerificationConfigView) -> bool {
    match c {
        VersionedVerificationConfigView::V1(cfg) => match cfg.any_of {
            Some(g) => g.minimum_matches <= i64::MAX,
            None => true,
},
        VersionedVerificationConfigView::Unsupported(_) => true,
}
}

/// Serializes an AnyOf group.
fn serialize_anyof(g: &AnyOfGroup) -> (r: ConfigValue)
    requires
        g.minimum_matches <= i64::MAX,
    ensures
        r@ == enc_anyof(g@),
{
    let mut fields: Vec<(String, ConfigValue)> = Vec::new();
    fields.push(
        (String::from_str("minimumMatches"), ConfigValue::Int(g.minimum_matches as i64)),
    );
    fields.push(
        (String::from_str("signatures"), ConfigValue::Arr(serialize_assertions(&g.signatures))),
    );
    proof {
        assert(fields_view(fields@) =~= enc_anyof_fields(g@));
    }
    ConfigValue::Obj(fields)
}

/// Serializes a versioned configuration into the canonical document that
/// [`crate::policy::parse::parse_versioned_config`] reads back.
pub fn serialize_versioned_config(c: &VersionedVerificationConfig) -> (r: ConfigValue)
    requires
        config_serializable(c@),
    ensures
        r@ == enc_versioned(c@),
{
    let mut fields: Vec<(String, ConfigValue)> = Vec::new();
    match c {
        VersionedVerificationConfig::V1(cfg) => {
            fields.push(
                (
                    String::from_str("apiVersion"),
                    ConfigValue::Str(String::from_str(CURRENT_VERSION_TAG)),
                ),
            );
            if let Some(l) = &cfg.all_of {
                fields.push((String::from_str("allOf"), ConfigValue::Arr(serialize_assertions(l))));
            }
            if let Some(g) = &cfg.any_of {
                fields.push((String::from_str("anyOf"), serialize_anyof(g)));
            }
            proof {
                assert(fields_view(fields@) =~= enc_versioned_fields(c@));
            }
        },
        VersionedVerificationConfig::Unsupported(tag) => {
            fields.push((String::from_str("apiVersion"), ConfigValue::Str(tag.clone())));
            proof {
                assert(fields_view(fields@) =~= enc_versioned_fields(c@));
            }
        },
}
    ConfigValue::Obj(fields)
}

} // verus!
