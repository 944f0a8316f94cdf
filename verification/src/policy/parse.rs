//! The versioned-configuration parser.
//!
//! Decoding is strict: an unknown or duplicated field anywhere in a current
//! schema document is a hard failure naming the offending field.  The version
//! tag is read first; the current tag decodes the body as a
//! [`VerificationConfig`], any other tag decodes into `Unsupported` without
//! validating the (opaque) body.
//!
//! The spec functions `dec_*` are the definition of the format; each
//! executable parser returns exactly what its spec function says, for every
//! input.
use vstd::prelude::*;
use crate::policy::assertion::{Assertion, AssertionView, asserts_view, pairs_view, strs_view};
use crate::policy::config::{AnyOfGroup, AnyOfGroupView, VerificationConfig, VerificationConfigView, VersionedVerificationConfig, VersionedVerificationConfigView, CURRENT_VERSION_TAG};
use crate::policy::error::{SchemaError, SchemaErrorView};
use crate::policy::subject::{Subject, SubjectView, valid_url_prefix, with_trailing_slash, check_url_prefix, sanitize_url_prefix};
use crate::policy::value::{ConfigValue, ValueView, fields_view, spec_lookup, str_eq, lookup};

verus! {

// ---------------------------------------------------------------------------
// Field-strictness checking
// ---------------------------------------------------------------------------
/// `key` is one of the allowed field names.
pub open spec fn allowed_contains(allowed: Seq<Seq<char>>, key: Seq<char>) -> bool {
    exists|j: int| 0 <= j < allowed.len() && allowed[j] == key
}

/// Field `i` repeats the name of an earlier field.
pub open spec fn dup_before(fields: Seq<(Seq<char>, ValueView)>, i: int) -> bool {
    exists|j: int| 0 <= j < i && fields[j].0 == fields[i].0
}

/// The first complaint about the fields at or after `i`: a duplicated name,
/// or a name outside `allowed`.
pub open spec fn check_fields(
    fields: Seq<(Seq<char>, ValueView)>,
    allowed: Seq<Seq<char>>,
    i: int,
) -> Option<SchemaErrorView>
    decreases fields.len() - i,
{
    if i < 0 || i >= fields.len() {
        None
    } else if dup_before(fields, i) {
        Some(SchemaErrorView::DuplicateField(fields[i].0))
    } else if !allowed_contains(allowed, fields[i].0) {
        Some(SchemaErrorView::UnknownField(fields[i].0))
    } else {
        check_fields(fields, allowed, i + 1)
    }
}

/// The field names the top-level document may carry.
pub open spec fn top_allowed() -> Seq<Seq<char>> {
    seq!["apiVersion"@, "allOf"@, "anyOf"@]
}

/// The field names an AnyOf group may carry.
pub open spec fn anyof_allowed() -> Seq<Seq<char>> {
    seq!["minimumMatches"@, "signatures"@]
}

/// The field names a `pubKey` assertion may carry.
pub open spec fn pubkey_allowed() -> Seq<Seq<char>> {
    seq!["kind"@, "owner"@, "key"@, "annotations"@]
}

/// The field names a `genericIssuer` assertion may carry.
pub open spec fn issuer_allowed() -> Seq<Seq<char>> {
    seq!["kind"@, "issuer"@, "subject"@, "annotations"@]
}

/// The field names a `githubAction` assertion may carry.
pub open spec fn github_allowed() -> Seq<Seq<char>> {
    seq!["kind"@, "owner"@, "repo"@, "annotations"@]
}

/// The field names a `certificate` assertion may carry.
pub open spec fn cert_allowed() -> Seq<Seq<char>> {
    seq!["kind"@, "certificate"@, "certificateChain"@, "requireRekorBundle"@, "annotations"@]
}

/// The field names a subject may carry.
pub open spec fn subject_allowed() -> Seq<Seq<char>> {
    seq!["equal"@, "urlPrefix"@]
}

// ---------------------------------------------------------------------------
// The decoder, in spec land
// ---------------------------------------------------------------------------
/// A string field that may be absent.
pub open spec fn dec_opt_str(fields: Seq<(Seq<char>, ValueView)>, name: Seq<char>) -> Result<
    Option<Seq<char>>,
    SchemaErrorView,
> {
    match spec_lookup(fields, name) {
        None => Ok(None),
        Some(ValueView::Str(s)) => Ok(Some(s)),
        Some(_) => Err(SchemaErrorView::WrongType(name)),
}
}

/// A string field that must be present.
pub open spec fn dec_req_str(fields: Seq<(Seq<char>, ValueView)>, name: Seq<char>) -> Result<
    Seq<char>,
    SchemaErrorView,
> {
    match spec_lookup(fields, name) {
        None => Err(SchemaErrorView::MissingField(name)),
        Some(ValueView::Str(s)) => Ok(s),
        Some(_) => Err(SchemaErrorView::WrongType(name)),
}
}

/// A boolean field that must be present.
pub open spec fn dec_req_bool(fields: Seq<(Seq<char>, ValueView)>, name: Seq<char>) -> Result<
    bool,
    SchemaErrorView,
> {
    match spec_lookup(fields, name) {
        None => Err(SchemaErrorView::MissingField(name)),
        Some(ValueView::Bool(b)) => Ok(b),
        Some(_) => Err(SchemaErrorView::WrongType(name)),
}
}

/// The annotation pairs at and after field `i`: every value a string, every
/// key unique.
pub open spec fn dec_pairs_from(afields: Seq<(Seq<char>, ValueView)>, i: int) -> Result<
    Seq<(Seq<char>, Seq<char>)>,
    SchemaErrorView,
>
    decreases afields.len() - i,
{
    if i < 0 || i >= afields.len() {
        Ok(Seq::empty())
    } else if dup_before(afields, i) {
        Err(SchemaErrorView::DuplicateField(afields[i].0))
    } else {
        match afields[i].1 {
            ValueView::Str(s) => match dec_pairs_from(afields, i + 1) {
                Ok(rest) => Ok(seq![(afields[i].0, s)] + rest),
                Err(e) => Err(e),
},
            _ => Err(SchemaErrorView::WrongType(afields[i].0)),
}
    }
}

/// The optional `annotations` field.
pub open spec fn dec_annotations(fields: Seq<(Seq<char>, ValueView)>) -> Result<
    Option<Seq<(Seq<char>, Seq<char>)>>,
    SchemaErrorView,
> {
    match spec_lookup(fields, "annotations"@) {
        None => Ok(None),
        Some(ValueView::Obj(afields)) => match dec_pairs_from(afields, 0) {
            Ok(pairs) => Ok(Some(pairs)),
            Err(e) => Err(e),
},
        Some(_) => Err(SchemaErrorView::WrongType("annotations"@)),
}
}

/// The certificate-chain entries at and after item `i`: every item a string.
pub open spec fn dec_strs_from(items: Seq<ValueView>, i: int) -> Result<
    Seq<Seq<char>>,
    SchemaErrorView,
>
    decreases items.len() - i,
{
    if i < 0 || i >= items.len() {
        Ok(Seq::empty())
    } else {
        match items[i] {
            ValueView::Str(s) => match dec_strs_from(items, i + 1) {
                Ok(rest) => Ok(seq![s] + rest),
                Err(e) => Err(e),
},
            _ => Err(SchemaErrorView::WrongType("certificateChain"@)),
}
    }
}

/// A subject object: exactly one of `equal` and `urlPrefix`, the latter a
/// valid URL, sanitized here so that no consumer ever sees the raw form.
pub open spec fn dec_subject(sfields: Seq<(Seq<char>, ValueView)>) -> Result<
    SubjectView,
    SchemaErrorView,
> {
    match check_fields(sfields, subject_allowed(), 0) {
        Some(e) => Err(e),
        None => match (spec_lookup(sfields, "equal"@), spec_lookup(sfields, "urlPrefix"@)) {
            (Some(ValueView::Str(v)), None) => Ok(SubjectView::Equal(v)),
            (None, Some(ValueView::Str(u))) => if valid_url_prefix(u) {
                Ok(SubjectView::UrlPrefix(with_trailing_slash(u)))
            } else {
                Err(SchemaErrorView::InvalidUrlPrefix(u))
            },
            (Some(_), None) => Err(SchemaErrorView::WrongType("equal"@)),
            (None, Some(_)) => Err(SchemaErrorView::WrongType("urlPrefix"@)),
            _ => Err(SchemaErrorView::MalformedSubject),
},
}
}

/// A `pubKey` assertion body.
pub open spec fn dec_pubkey(fields: Seq<(Seq<char>, ValueView)>) -> Result<
    AssertionView,
    SchemaErrorView,
> {
    match check_fields(fields, pubkey_allowed(), 0) {
        Some(e) => Err(e),
        None => match dec_opt_str(fields, "owner"@) {
            Err(e) => Err(e),
            Ok(owner) => match dec_req_str(fields, "key"@) {
                Err(e) => Err(e),
                Ok(key) => match dec_annotations(fields) {
                    Err(e) => Err(e),
                    Ok(annotations) => Ok(AssertionView::PubKey { owner, key, annotations }),
},
},
},
}
}

/// A `genericIssuer` assertion body.
pub open spec fn dec_issuer(fields: Seq<(Seq<char>, ValueView)>) -> Result<
    AssertionView,
    SchemaErrorView,
> {
    match check_fields(fields, issuer_allowed(), 0) {
        Some(e) => Err(e),
        None => match dec_req_str(fields, "issuer"@) {
            Err(e) => Err(e),
            Ok(issuer) => match spec_lookup(fields, "subject"@) {
                None => Err(SchemaErrorView::MissingField("subject"@)),
                Some(ValueView::Obj(sfields)) => match dec_subject(sfields) {
                    Err(e) => Err(e),
                    Ok(subject) => match dec_annotations(fields) {
                        Err(e) => Err(e),
                        Ok(annotations) => Ok(
                            AssertionView::GenericIssuer { issuer, subject, annotations },
                        ),
},
},
                Some(_) => Err(SchemaErrorView::WrongType("subject"@)),
},
},
}
}

/// A `githubAction` assertion body.
pub open spec fn dec_github(fields: Seq<(Seq<char>, ValueView)>) -> Result<
    AssertionView,
    SchemaErrorView,
> {
    match check_fields(fields, github_allowed(), 0) {
        Some(e) => Err(e),
        None => match dec_req_str(fields, "owner"@) {
            Err(e) => Err(e),
            Ok(owner) => match dec_opt_str(fields, "repo"@) {
                Err(e) => Err(e),
                Ok(repo) => match dec_annotations(fields) {
                    Err(e) => Err(e),
                    Ok(annotations) => Ok(AssertionView::GithubAction { owner, repo, annotations }),
},
},
},
}
}

/// A `certificate` assertion body.
pub open spec fn dec_certificate(fields: Seq<(Seq<char>, ValueView)>) -> Result<
    AssertionView,
    SchemaErrorView,
> {
    match check_fields(fields, cert_allowed(), 0) {
        Some(e) => Err(e),
        None => match dec_req_str(fields, "certificate"@) {
            Err(e) => Err(e),
            Ok(certificate) => match spec_lookup(fields, "certificateChain"@) {
                Some(ValueView::Arr(items)) => match dec_strs_from(items, 0) {
                    Err(e) => Err(e),
                    Ok(chain) => dec_certificate_rest(fields, certificate, Some(chain)),
},
                None => dec_certificate_rest(fields, certificate, None),
                Some(_) => Err(SchemaErrorView::WrongType("certificateChain"@)),
},
},
}
}

/// The tail of a `certificate` assertion: the rekor flag and annotations.
pub open spec fn dec_certificate_rest(
    fields: Seq<(Seq<char>, ValueView)>,
    certificate: Seq<char>,
    certificate_chain: Option<Seq<Seq<char>>>,
) -> Result<AssertionView, SchemaErrorView> {
    match dec_req_bool(fields, "requireRekorBundle"@) {
        Err(e) => Err(e),
        Ok(require_rekor_bundle) => match dec_annotations(fields) {
            Err(e) => Err(e),
            Ok(annotations) => Ok(
                AssertionView::Certificate {
                    certificate,
                    certificate_chain,
                    require_rekor_bundle,
                    annotations,
},
            ),
},
}
}

/// One leaf assertion: an object dispatched on its `kind` tag.
pub open spec fn dec_assertion(v: ValueView) -> Result<AssertionView, SchemaErrorView> {
    match v {
        ValueView::Obj(fields) => match spec_lookup(fields, "kind"@) {
            None => Err(SchemaErrorView::MissingField("kind"@)),
            Some(ValueView::Str(k)) => if k == "pubKey"@ {
                dec_pubkey(fields)
            } else if k == "genericIssuer"@ {
                dec_issuer(fields)
            } else if k == "githubAction"@ {
                dec_github(fields)
            } else if k == "certificate"@ {
                dec_certificate(fields)
            } else {
                Err(SchemaErrorView::UnknownKind(k))
            },
            Some(_) => Err(SchemaErrorView::WrongType("kind"@)),
},
        _ => Err(SchemaErrorView::NotAnObject),
}
}

/// The assertions at and after item `i` of a signature list.
pub open spec fn dec_assertions_from(items: Seq<ValueView>, i: int) -> Result<
    Seq<AssertionView>,
    SchemaErrorView,
>
    decreases items.len() - i,
{
    if i < 0 || i >= items.len() {
        Ok(Seq::empty())
    } else {
        match dec_assertion(items[i]) {
            Err(e) => Err(e),
            Ok(a) => match dec_assertions_from(items, i + 1) {
                Ok(rest) => Ok(seq![a] + rest),
                Err(e) => Err(e),
},
}
    }
}

/// An AnyOf group: its threshold (default 1) and its signature list.
pub open spec fn dec_anyof(gfields: Seq<(Seq<char>, ValueView)>) -> Result<
    AnyOfGroupView,
    SchemaErrorView,
> {
    match check_fields(gfields, anyof_allowed(), 0) {
        Some(e) => Err(e),
        None => {
            let mm: Result<int, SchemaErrorView> = match spec_lookup(gfields, "minimumMatches"@) {
                None => Ok(1),
                Some(ValueView::Int(n)) => if 0 <= n {
                    Ok(n)
                } else {
                    Err(SchemaErrorView::WrongType("minimumMatches"@))
                },
                Some(_) => Err(SchemaErrorView::WrongType("minimumMatches"@)),
};
            match mm {
                Err(e) => Err(e),
                Ok(minimum_matches) => match spec_lookup(gfields, "signatures"@) {
                    None => Err(SchemaErrorView::MissingField("signatures"@)),
                    Some(ValueView::Arr(items)) => match dec_assertions_from(items, 0) {
                        Err(e) => Err(e),
                        Ok(signatures) => Ok(AnyOfGroupView { minimum_matches, signatures }),
},
                    Some(_) => Err(SchemaErrorView::WrongType("signatures"@)),
},
}
        },
}
}

/// The two optional groups of a current-schema body.
pub open spec fn dec_config_groups(fields: Seq<(Seq<char>, ValueView)>) -> Result<
    VerificationConfigView,
    SchemaErrorView,
> {
    let all_of: Result<Option<Seq<AssertionView>>, SchemaErrorView> = match spec_lookup(
        fields,
        "allOf"@,
    ) {
        None => Ok(None),
        Some(ValueView::Arr(items)) => match dec_assertions_from(items, 0) {
            Ok(l) => Ok(Some(l)),
            Err(e) => Err(e),
},
        Some(_) => Err(SchemaErrorView::WrongType("allOf"@)),
};
    match all_of {
        Err(e) => Err(e),
        Ok(all_of) => match spec_lookup(fields, "anyOf"@) {
            None => Ok(VerificationConfigView { all_of, any_of: None }),
            Some(ValueView::Obj(gfields)) => match dec_anyof(gfields) {
                Ok(g) => Ok(VerificationConfigView { all_of, any_of: Some(g) }),
                Err(e) => Err(e),
},
            Some(_) => Err(SchemaErrorView::WrongType("anyOf"@)),
},
}
}

/// A whole versioned document: the version tag decides whether the body is
/// decoded strictly (current tag) or kept opaque (any other tag).
pub open spec fn dec_versioned(v: ValueView) -> Result<
    VersionedVerificationConfigView,
    SchemaErrorView,
> {
    match v {
        ValueView::Obj(fields) => match spec_lookup(fields, "apiVersion"@) {
            None => Err(SchemaErrorView::MissingField("apiVersion"@)),
            Some(ValueView::Str(tag)) => if tag != CURRENT_VERSION_TAG@ {
                Ok(VersionedVerificationConfigView::Unsupported(tag))
            } else {
                match check_fields(fields, top_allowed(), 0) {
                    Some(e) => Err(e),
                    None => match dec_config_groups(fields) {
                        Ok(c) => Ok(VersionedVerificationConfigView::V1(c)),
                        Err(e) => Err(e),
},
}
            },
            Some(_) => Err(SchemaErrorView::WrongType("apiVersion"@)),
},
        _ => Err(SchemaErrorView::NotAnObject),
}
}


// ---------------------------------------------------------------------------
// The parser, in executable code
// ---------------------------------------------------------------------------
broadcast use {
    crate::policy::value::lemma_fields_view,
    crate::policy::value::lemma_views_of,
    crate::policy::assertion::lemma_strs_view,
    crate::policy::assertion::lemma_pairs_view,
    crate::policy::assertion::lemma_asserts_view,
};

/// The view of an optional error.
pub open spec fn opt_err_view(r: Option<SchemaError>) -> Option<SchemaErrorView> {
    match r {
        Some(e) => Some(e@),
        None => None,
}
}

/// Whether field `i` repeats the name of an earlier field.
fn find_dup(fields: &Vec<(String, ConfigValue)>, i: usize) -> (r: bool)
    requires
        i < fields.len(),
    ensures
        r == dup_before(fields_view(fields@), i as int),
{
    let ghost gf = fields_view(fields@);
    for j in 0..i
        invariant
            i < fields.len(),
            gf == fields_view(fields@),
            forall|k: int| 0 <= k < j ==> gf[k].0 != gf[i as int].0,
    {
        if str_eq(fields[j].0.as_str(), fields[i].0.as_str()) {
            proof {
                assert(gf[j as int].0 == gf[i as int].0);
            }
            return true;
        }
    }
    false
}

/// Whether `key` is one of the allowed names.
fn in_allowed(key: &str, allowed: &Vec<String>) -> (r: bool)
    ensures
        r == allowed_contains(strs_view(allowed@), key@),
{
    let ghost ga = strs_view(allowed@);
    for j in 0..allowed.len()
        invariant
            ga == strs_view(allowed@),
            forall|k: int| 0 <= k < j ==> ga[k] != key@,
    {
        if str_eq(allowed[j].as_str(), key) {
            proof {
                assert(ga[j as int] == key@);
            }
            return true;
        }
    }
    false
}

/// Rejects the first duplicated or unknown field, if there is one.
fn check_fields_exec(fields: &Vec<(String, ConfigValue)>, allowed: &Vec<String>) -> (r: Option<
    SchemaError,
>)
    ensures
        opt_err_view(r) == check_fields(fields_view(fields@), strs_view(allowed@), 0),
{
    let ghost gf = fields_view(fields@);
    let ghost ga = strs_view(allowed@);
    for i in 0..fields.len()
        invariant
            gf == fields_view(fields@),
            ga == strs_view(allowed@),
            check_fields(gf, ga, 0) == check_fields(gf, ga, i as int),
    {
        if find_dup(fields, i) {
            return Some(SchemaError::DuplicateField(fields[i].0.clone()));
        }
        if !in_allowed(fields[i].0.as_str(), allowed) {
            return Some(SchemaError::UnknownField(fields[i].0.clone()));
        }
        proof {
            assert(check_fields(gf, ga, i as int) == check_fields(gf, ga, i + 1));
        }
    }
    None
}

/// Parses a string field that may be absent.
fn parse_opt_str(fields: &Vec<(String, ConfigValue)>, name: &str) -> (r: Result<
    Option<String>,
    SchemaError,
>)
    ensures
        match r {
            Ok(o) => dec_opt_str(fields_view(fields@), name@) == Ok::<_, SchemaErrorView>(
                crate::policy::assertion::opt_str_view(o),
            ),
            Err(e) => dec_opt_str(fields_view(fields@), name@) == Err::<Option<Seq<char>>, _>(e@),
},
{
    match lookup(fields, name) {
        None => Ok(None),
        Some(cv) => match cv {
            ConfigValue::Str(s) => Ok(Some(s.clone())),
            _ => Err(SchemaError::WrongType(String::from_str(name))),
},
}
}

/// Parses a string field that must be present.
fn parse_req_str(fields: &Vec<(String, ConfigValue)>, name: &str) -> (r: Result<
    String,
    SchemaError,
>)
    ensures
        match r {
            Ok(s) => dec_req_str(fields_view(fields@), name@) == Ok::<_, SchemaErrorView>(s@),
            Err(e) => dec_req_str(fields_view(fields@), name@) == Err::<Seq<char>, _>(e@),
},
{
    match lookup(fields, name) {
        None => Err(SchemaError::MissingField(String::from_str(name))),
        Some(cv) => match cv {
            ConfigValue::Str(s) => Ok(s.clone()),
            _ => Err(SchemaError::WrongType(String::from_str(name))),
},
}
}

/// Parses a boolean field that must be present.
fn parse_req_bool(fields: &Vec<(String, ConfigValue)>, name: &str) -> (r: Result<
    bool,
    SchemaError,
>)
    ensures
        match r {
            Ok(b) => dec_req_bool(fields_view(fields@), name@) == Ok::<_, SchemaErrorView>(b),
            Err(e) => dec_req_bool(fields_view(fields@), name@) == Err::<bool, _>(e@),
},
{
    match lookup(fields, name) {
        None => Err(SchemaError::MissingField(String::from_str(name))),
        Some(cv) => match cv {
            ConfigValue::Bool(b) => Ok(*b),
            _ => Err(SchemaError::WrongType(String::from_str(name))),
},
}
}

/// Parses the optional `annotations` mapping.
fn parse_annotations(fields: &Vec<(String, ConfigValue)>) -> (r: Result<
    Option<crate::policy::assertion::Annotations>,
    SchemaError,
>)
    ensures
        match r {
            Ok(o) => dec_annotations(fields_view(fields@)) == Ok::<_, SchemaErrorView>(
                crate::policy::assertion::annotations_view(o),
            ),
            Err(e) => dec_annotations(fields_view(fields@)) == Err::<
                Option<Seq<(Seq<char>, Seq<char>)>>,
                _,
            >(e@),
},
{
    match lookup(fields, "annotations") {
        None => Ok(None),
        Some(cv) => match cv {
            ConfigValue::Obj(afields) => {
                let ghost gaf = fields_view(afields@);
                let mut acc: Vec<(String, String)> = Vec::new();
                assert(pairs_view(acc@) =~= Seq::empty());
                for i in 0..afields.len()
                    invariant
                        gaf == fields_view(afields@),
                        spec_lookup(fields_view(fields@), "annotations"@) == Some(
                            ValueView::Obj(gaf),
                        ),
                        pairs_view(acc@).len() == i,
                        dec_pairs_from(gaf, 0) == (match dec_pairs_from(gaf, i as int) {
                            Ok(rest) => Ok::<_, SchemaErrorView>(pairs_view(acc@) + rest),
                            Err(e) => Err(e),
}),
                {
                    if find_dup(afields, i) {
                        proof {
                            assert(dec_pairs_from(gaf, i as int) == Err::<
                                Seq<(Seq<char>, Seq<char>)>,
                                _,
                            >(SchemaErrorView::DuplicateField(gaf[i as int].0)));
                        }
                        return Err(SchemaError::DuplicateField(afields[i].0.clone()));
                    }
                    match &afields[i].1 {
                        ConfigValue::Str(s) => {
                            let ghost old_acc = acc@;
                            acc.push((afields[i].0.clone(), s.clone()));
                            proof {
                                assert(pairs_view(acc@) =~= pairs_view(old_acc) + seq![
                                    (gaf[i as int].0, s@),
                                ]);
                                if let Ok(rest) = dec_pairs_from(gaf, i + 1) {
                                    assert(pairs_view(old_acc) + (seq![(gaf[i as int].0, s@)]
                                        + rest) =~= pairs_view(acc@) + rest);
                                }
                            }
                        },
                        _ => {
                            proof {
                                assert(dec_pairs_from(gaf, i as int) == Err::<
                                    Seq<(Seq<char>, Seq<char>)>,
                                    _,
                                >(SchemaErrorView::WrongType(gaf[i as int].0)));
                            }
                            return Err(SchemaError::WrongType(afields[i].0.clone()));
                        },
}
                }
                proof {
                    assert(dec_pairs_from(gaf, afields@.len() as int) == Ok::<
                        _,
                        SchemaErrorView,
                    >(Seq::<(Seq<char>, Seq<char>)>::empty()));
                    assert(pairs_view(acc@) + Seq::<(Seq<char>, Seq<char>)>::empty() =~= pairs_view(
                        acc@,
                    ));
                }
                Ok(Some(acc))
            },
            _ => Err(SchemaError::WrongType(String::from_str("annotations"))),
},
}
}

/// Parses a certificate chain: a list of strings.
fn parse_chain(items: &Vec<ConfigValue>) -> (r: Result<Vec<String>, SchemaError>)
    ensures
        match r {
            Ok(c) => dec_strs_from(crate::policy::value::views_of(items@), 0) == Ok::<
                _,
                SchemaErrorView,
            >(strs_view(c@)),
            Err(e) => dec_strs_from(crate::policy::value::views_of(items@), 0) == Err::<
                Seq<Seq<char>>,
                _,
            >(e@),
},
{
    let ghost gv = crate::policy::value::views_of(items@);
    let mut acc: Vec<String> = Vec::new();
    assert(strs_view(acc@) =~= Seq::empty());
    for i in 0..items.len()
        invariant
            gv == crate::policy::value::views_of(items@),
            strs_view(acc@).len() == i,
            dec_strs_from(gv, 0) == (match dec_strs_from(gv, i as int) {
                Ok(rest) => Ok::<_, SchemaErrorView>(strs_view(acc@) + rest),
                Err(e) => Err(e),
}),
    {
        match &items[i] {
            ConfigValue::Str(s) => {
                let ghost old_acc = acc@;
                acc.push(s.clone());
                proof {
                    assert(strs_view(acc@) =~= strs_view(old_acc) + seq![s@]);
                    if let Ok(rest) = dec_strs_from(gv, i + 1) {
                        assert(strs_view(old_acc) + (seq![s@] + rest) =~= strs_view(acc@) + rest);
                    }
                }
            },
            _ => {
                return Err(SchemaError::WrongType(String::from_str("certificateChain")));
            },
}
    }
    proof {
        assert(dec_strs_from(gv, items@.len() as int) == Ok::<_, SchemaErrorView>(
            Seq::<Seq<char>>::empty(),
        ));
        assert(strs_view(acc@) + Seq::<Seq<char>>::empty() =~= strs_view(acc@));
    }
    Ok(acc)
}

/// Parses a subject object.
fn parse_subject(sfields: &Vec<(String, ConfigValue)>) -> (r: Result<Subject, SchemaError>)
    ensures
        match r {
            Ok(s) => dec_subject(fields_view(sfields@)) == Ok::<_, SchemaErrorView>(s@),
            Err(e) => dec_subject(fields_view(sfields@)) == Err::<SubjectView, _>(e@),
},
{
    let allowed = vec![String::from_str("equal"), String::from_str("urlPrefix")];
    proof {
        assert(strs_view(allowed@) =~= subject_allowed());
    }
    if let Some(e) = check_fields_exec(sfields, &allowed) {
        return Err(e);
    }
    let equal = lookup(sfields, "equal");
    let url = lookup(sfields, "urlPrefix");
    match (equal, url) {
        (Some(cv), None) => match cv {
            ConfigValue::Str(v) => Ok(Subject::Equal(v.clone())),
            _ => Err(SchemaError::WrongType(String::from_str("equal"))),
},
        (None, Some(cv)) => match cv {
            ConfigValue::Str(u) => {
                if check_url_prefix(u.as_str()) {
                    Ok(Subject::UrlPrefix(sanitize_url_prefix(u.as_str())))
                } else {
                    Err(SchemaError::InvalidUrlPrefix(u.clone()))
                }
            },
            _ => Err(SchemaError::WrongType(String::from_str("urlPrefix"))),
},
        _ => Err(SchemaError::MalformedSubject),
}
}


/// Parses a `pubKey` assertion body.
fn parse_pubkey(fields: &Vec<(String, ConfigValue)>) -> (r: Result<Assertion, SchemaError>)
    ensures
        match r {
            Ok(a) => dec_pubkey(fields_view(fields@)) == Ok::<_, SchemaErrorView>(a@),
            Err(e) => dec_pubkey(fields_view(fields@)) == Err::<AssertionView, _>(e@),
},
{
    let allowed = vec![
        String::from_str("kind"),
        String::from_str("owner"),
        String::from_str("key"),
        String::from_str("annotations"),
    ];
    proof {
        assert(strs_view(allowed@) =~= pubkey_allowed());
    }
    if let Some(e) = check_fields_exec(fields, &allowed) {
        return Err(e);
    }
    let owner = match parse_opt_str(fields, "owner") {
        Ok(o) => o,
        Err(e) => return Err(e),
};
    let key = match parse_req_str(fields, "key") {
        Ok(k) => k,
        Err(e) => return Err(e),
};
    let annotations = match parse_annotations(fields) {
        Ok(a) => a,
        Err(e) => return Err(e),
};
    Ok(Assertion::PubKey { owner, key, annotations })
}

/// Parses a `genericIssuer` assertion body.
fn parse_issuer(fields: &Vec<(String, ConfigValue)>) -> (r: Result<Assertion, SchemaError>)
    ensures
        match r {
            Ok(a) => dec_issuer(fields_view(fields@)) == Ok::<_, SchemaErrorView>(a@),
            Err(e) => dec_issuer(fields_view(fields@)) == Err::<AssertionView, _>(e@),
},
{
    let allowed = vec![
        String::from_str("kind"),
        String::from_str("issuer"),
        String::from_str("subject"),
        String::from_str("annotations"),
    ];
    proof {
        assert(strs_view(allowed@) =~= issuer_allowed());
    }
    if let Some(e) = check_fields_exec(fields, &allowed) {
        return Err(e);
    }
    let issuer = match parse_req_str(fields, "issuer") {
        Ok(s) => s,
        Err(e) => return Err(e),
};
    let subject = match lookup(fields, "subject") {
        None => return Err(SchemaError::MissingField(String::from_str("subject"))),
        Some(cv) => match cv {
            ConfigValue::Obj(sfields) => match parse_subject(sfields) {
                Ok(s) => s,
                Err(e) => return Err(e),
},
            _ => return Err(SchemaError::WrongType(String::from_str("subject"))),
},
};
    let annotations = match parse_annotations(fields) {
        Ok(a) => a,
        Err(e) => return Err(e),
};
    Ok(Assertion::GenericIssuer { issuer, subject, annotations })
}

/// Parses a `githubAction` assertion body.
fn parse_github(fields: &Vec<(String, ConfigValue)>) -> (r: Result<Assertion, SchemaError>)
    ensures
        match r {
            Ok(a) => dec_github(fields_view(fields@)) == Ok::<_, SchemaErrorView>(a@),
            Err(e) => dec_github(fields_view(fields@)) == Err::<AssertionView, _>(e@),
},
{
    let allowed = vec![
        String::from_str("kind"),
        String::from_str("owner"),
        String::from_str("repo"),
        String::from_str("annotations"),
    ];
    proof {
        assert(strs_view(allowed@) =~= github_allowed());
    }
    if let Some(e) = check_fields_exec(fields, &allowed) {
        return Err(e);
    }
    let owner = match parse_req_str(fields, "owner") {
        Ok(s) => s,
        Err(e) => return Err(e),
};
    let repo = match parse_opt_str(fields, "repo") {
        Ok(o) => o,
        Err(e) => return Err(e),
};
    let annotations = match parse_annotations(fields) {
        Ok(a) => a,
        Err(e) => return Err(e),
};
    Ok(Assertion::GithubAction { owner, repo, annotations })
}

/// Parses a `certificate` assertion body.
fn parse_certificate(fields: &Vec<(String, ConfigValue)>) -> (r: Result<Assertion, SchemaError>)
    ensures
        match r {
            Ok(a) => dec_certificate(fields_view(fields@)) == Ok::<_, SchemaErrorView>(a@),
            Err(e) => dec_certificate(fields_view(fields@)) == Err::<AssertionView, _>(e@),
},
{
    let allowed = vec![
        String::from_str("kind"),
        String::from_str("certificate"),
        String::from_str("certificateChain"),
        String::from_str("requireRekorBundle"),
        String::from_str("annotations"),
    ];
    proof {
        assert(strs_view(allowed@) =~= cert_allowed());
    }
    if let Some(e) = check_fields_exec(fields, &allowed) {
        return Err(e);
    }
    let certificate = match parse_req_str(fields, "certificate") {
        Ok(s) => s,
        Err(e) => return Err(e),
};
    let certificate_chain = match lookup(fields, "certificateChain") {
        None => None,
        Some(cv) => match cv {
            ConfigValue::Arr(items) => match parse_chain(items) {
                Ok(c) => Some(c),
                Err(e) => return Err(e),
},
            _ => return Err(SchemaError::WrongType(String::from_str("certificateChain"))),
},
};
    let require_rekor_bundle = match parse_req_bool(fields, "requireRekorBundle") {
        Ok(b) => b,
        Err(e) => return Err(e),
};
    let annotations = match parse_annotations(fields) {
        Ok(a) => a,
        Err(e) => return Err(e),
};
    Ok(Assertion::Certificate { certificate, certificate_chain, require_rekor_bundle, annotations })
}

/// Parses one leaf assertion, dispatching on its `kind` tag.
pub fn parse_assertion(v: &ConfigValue) -> (r: Result<Assertion, SchemaError>)
    ensures
        match r {
            Ok(a) => dec_assertion(v@) == Ok::<_, SchemaErrorView>(a@),
            Err(e) => dec_assertion(v@) == Err::<AssertionView, _>(e@),
},
{
    match v {
        ConfigValue::Obj(fields) => match lookup(fields, "kind") {
            None => Err(SchemaError::MissingField(String::from_str("kind"))),
            Some(cv) => match cv {
                ConfigValue::Str(k) => {
                    if str_eq(k.as_str(), "pubKey") {
                        parse_pubkey(fields)
                    } else if str_eq(k.as_str(), "genericIssuer") {
                        parse_issuer(fields)
                    } else if str_eq(k.as_str(), "githubAction") {
                        parse_github(fields)
                    } else if str_eq(k.as_str(), "certificate") {
                        parse_certificate(fields)
                    } else {
                        Err(SchemaError::UnknownKind(k.clone()))
                    }
                },
                _ => Err(SchemaError::WrongType(String::from_str("kind"))),
},
},
        _ => Err(SchemaError::NotAnObject),
}
}

/// Parses a signature list.
fn parse_assertions(items: &Vec<ConfigValue>) -> (r: Result<Vec<Assertion>, SchemaError>)
    ensures
        match r {
            Ok(l) => dec_assertions_from(crate::policy::value::views_of(items@), 0) == Ok::<
                _,
                SchemaErrorView,
            >(asserts_view(l@)),
            Err(e) => dec_assertions_from(crate::policy::value::views_of(items@), 0) == Err::<
                Seq<AssertionView>,
                _,
            >(e@),
},
{
    let ghost gv = crate::policy::value::views_of(items@);
    let mut acc: Vec<Assertion> = Vec::new();
    assert(asserts_view(acc@) =~= Seq::empty());
    for i in 0..items.len()
        invariant
            gv == crate::policy::value::views_of(items@),
            asserts_view(acc@).len() == i,
            dec_assertions_from(gv, 0) == (match dec_assertions_from(gv, i as int) {
                Ok(rest) => Ok::<_, SchemaErrorView>(asserts_view(acc@) + rest),
                Err(e) => Err(e),
}),
    {
        match parse_assertion(&items[i]) {
            Ok(a) => {
                let ghost old_acc = acc@;
                let ghost ga = a@;
                acc.push(a);
                proof {
                    assert(asserts_view(acc@) =~= asserts_view(old_acc) + seq![ga]);
                    if let Ok(rest) = dec_assertions_from(gv, i + 1) {
                        assert(asserts_view(old_acc) + (seq![ga] + rest) =~= asserts_view(acc@)
                            + rest);
                    }
                }
            },
            Err(e) => {
                return Err(e);
            },
}
    }
    proof {
        assert(dec_assertions_from(gv, items@.len() as int) == Ok::<_, SchemaErrorView>(
            Seq::<AssertionView>::empty(),
        ));
        assert(asserts_view(acc@) + Seq::<AssertionView>::empty() =~= asserts_view(acc@));
    }
    Ok(acc)
}

/// Parses an AnyOf group.
fn parse_anyof(gfields: &Vec<(String, ConfigValue)>) -> (r: Result<AnyOfGroup, SchemaError>)
    ensures
        match r {
            Ok(g) => dec_anyof(fields_view(gfields@)) == Ok::<_, SchemaErrorView>(g@),
            Err(e) => dec_anyof(fields_view(gfields@)) == Err::<AnyOfGroupView, _>(e@),
},
{
    let allowed = vec![String::from_str("minimumMatches"), String::from_str("signatures")];
    proof {
        assert(strs_view(allowed@) =~= anyof_allowed());
    }
    if let Some(e) = check_fields_exec(gfields, &allowed) {
        return Err(e);
    }
    let minimum_matches: u64 = match lookup(gfields, "minimumMatches") {
        None => 1,
        Some(cv) => match cv {
            ConfigValue::Int(n) => {
                if *n >= 0 {
                    *n as u64
                } else {
                    return Err(SchemaError::WrongType(String::from_str("minimumMatches")));
                }
            },
            _ => return Err(SchemaError::WrongType(String::from_str("minimumMatches"))),
},
};
    let signatures = match lookup(gfields, "signatures") {
        None => return Err(SchemaError::MissingField(String::from_str("signatures"))),
        Some(cv) => match cv {
            ConfigValue::Arr(items) => match parse_assertions(items) {
                Ok(l) => l,
                Err(e) => return Err(e),
},
            _ => return Err(SchemaError::WrongType(String::from_str("signatures"))),
},
};
    Ok(AnyOfGroup { minimum_matches, signatures })
}

/// Parses the two optional groups of a current-schema body.
fn parse_config_groups(fields: &Vec<(String, ConfigValue)>) -> (r: Result<
    VerificationConfig,
    SchemaError,
>)
    ensures
        match r {
            Ok(c) => dec_config_groups(fields_view(fields@)) == Ok::<_, SchemaErrorView>(c@),
            Err(e) => dec_config_groups(fields_view(fields@)) == Err::<VerificationConfigView, _>(
                e@,
            ),
},
{
    let all_of = match lookup(fields, "allOf") {
        None => None,
        Some(cv) => match cv {
            ConfigValue::Arr(items) => match parse_assertions(items) {
                Ok(l) => Some(l),
                Err(e) => return Err(e),
},
            _ => return Err(SchemaError::WrongType(String::from_str("allOf"))),
},
};
    let any_of = match lookup(fields, "anyOf") {
        None => None,
        Some(cv) => match cv {
            ConfigValue::Obj(gf) => match parse_anyof(gf) {
                Ok(g) => Some(g),
                Err(e) => return Err(e),
},
            _ => return Err(SchemaError::WrongType(String::from_str("anyOf"))),
},
};
    Ok(VerificationConfig { all_of, any_of })
}

/// Parses a whole versioned configuration document.
///
/// Returns exactly what [`dec_versioned`] says for the document: the current
/// schema strictly decoded, an `Unsupported` marker for any other version
/// tag, or the schema error, named field and all.
pub fn parse_versioned_config(v: &ConfigValue) -> (r: Result<
    VersionedVerificationConfig,
    SchemaError,
>)
    ensures
        match r {
            Ok(c) => dec_versioned(v@) == Ok::<_, SchemaErrorView>(c@),
            Err(e) => dec_versioned(v@) == Err::<VersionedVerificationConfigView, _>(e@),
},
        r matches Ok(c) ==> crate::policy::config::versioned_config_wf(c@),
{
    proof {
        crate::policy::laws::lemma_parsed_config_wf(v@);
    }
    match v {
        ConfigValue::Obj(fields) => match lookup(fields, "apiVersion") {
            None => Err(SchemaError::MissingField(String::from_str("apiVersion"))),
            Some(cv) => match cv {
                ConfigValue::Str(tag) => {
                    if !str_eq(tag.as_str(), CURRENT_VERSION_TAG) {
                        Ok(VersionedVerificationConfig::Unsupported(tag.clone()))
                    } else {
                        let allowed = vec![
                            String::from_str("apiVersion"),
                            String::from_str("allOf"),
                            String::from_str("anyOf"),
                        ];
                        proof {
                            assert(strs_view(allowed@) =~= top_allowed());
                        }
                        if let Some(e) = check_fields_exec(fields, &allowed) {
                            return Err(e);
                        }
                        match parse_config_groups(fields) {
                            Ok(c) => Ok(VersionedVerificationConfig::V1(c)),
                            Err(e) => Err(e),
}
                    }
                },
                _ => Err(SchemaError::WrongType(String::from_str("apiVersion"))),
},
},
        _ => Err(SchemaError::NotAnObject),
}
}

} // verus!
