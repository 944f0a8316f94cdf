//! Sigstore signature verification through the host.
//!
//! Each function asks the host for a verdict on one flavour of signature
//! requirement; the host performs the cryptography and answers with a trust
//! verdict and the resolved digest of the verified artifact.  The request
//! payload each function sends is pinned exactly by its `*_input` builder;
//! what comes back is the host's to decide.
use vstd::prelude::*;
use crate::policy::assertion::{Annotations, Assertion, annotations_view, strs_view};
use crate::policy::error::OracleError;
use crate::policy::evaluate::{Oracle, OracleEvent, reply_view};
use crate::policy::serialize::{enc_pairs_from, enc_strs_from};
use crate::policy::subject::{Subject};
use crate::policy::value::{ConfigValue, ValueView, views_of, fields_view};
use crate::host_capabilities::json::{to_json_bytes, json_bytes};
use crate::host_capabilities::response::{parse_bool_str_object, canonical_object};
use crate::host_capabilities::wapc::wapc_host_call;

verus! {

broadcast use {
    crate::policy::value::lemma_fields_view,
    crate::policy::value::lemma_views_of,
    crate::policy::assertion::lemma_strs_view,
    crate::policy::assertion::lemma_pairs_view,
};

/// The host's answer to a signature verification: whether the image is
/// trusted, and the digest of the image version the verdict applies to.
#[derive(Debug, Clone, PartialEq)]
pub struct VerificationResponse {
    /// True if the image is trusted: the verification succeeded.
    pub is_trusted: bool,
    /// Digest of the image that was verified.
    pub digest: String,
}

/// Mathematical model of a [`KeylessInfo`].
pub struct KeylessInfoView {
    pub issuer: Seq<char>,
    pub subject: Seq<char>,
}

/// One keyless issuer/subject pair that must have signed.
#[derive(Debug, Clone, PartialEq)]
pub struct KeylessInfo {
    /// The issuer identifier.
    pub issuer: String,
    /// The subject used to authenticate against the OIDC provider.
    pub subject: String,
}

impl View for KeylessInfo {
    type V = KeylessInfoView;

    open spec fn view(&self) -> KeylessInfoView {
        KeylessInfoView { issuer: self.issuer@, subject: self.subject@ }
    }
}

/// Mathematical model of a [`KeylessPrefixInfo`].
pub struct KeylessPrefixInfoView {
    pub issuer: Seq<char>,
    pub url_prefix: Seq<char>,
}

/// One keyless issuer with a URL prefix of the subject.  The prefix forms a
/// valid URL on its own; the host sanitizes it by appending `/` before
/// matching, to protect against typosquatting.
#[derive(Debug, Clone, PartialEq)]
pub struct KeylessPrefixInfo {
    /// The issuer identifier.
    pub issuer: String,
    /// A URL prefix of the subject in the signature; the host appends `/`
    /// where it is missing before matching.
    pub url_prefix: String,
}

impl View for KeylessPrefixInfo {
    type V = KeylessPrefixInfoView;

    open spec fn view(&self) -> KeylessPrefixInfoView {
        KeylessPrefixInfoView { issuer: self.issuer@, url_prefix: self.url_prefix@ }
    }
}

// ---------------------------------------------------------------------------
// The request documents
// ---------------------------------------------------------------------------
/// The document node of an optional string: the string, or null.
pub open spec fn opt_str_value(v: Option<Seq<char>>) -> ValueView {
    match v {
        Some(s) => ValueView::Str(s),
        None => ValueView::Null,
}
}

/// The document node of an optional certificate chain: the byte arrays, or
/// null.
pub open spec fn chain_value(c: Option<Seq<Seq<u8>>>) -> ValueView {
    match c {
        Some(chain) => ValueView::Arr(byte_arrays_from(chain, 0)),
        None => ValueView::Null,
}
}

/// The UTF-8 encodings of a list of strings.
pub open spec fn encoded_strs(items: Seq<Seq<char>>) -> Seq<Seq<u8>> {
    items.map_values(|s: Seq<char>| vstd::utf8::encode_utf8(s))
}

/// The views of an optional list of byte vectors.
pub open spec fn byte_vecs_view(c: Option<Vec<Vec<u8>>>) -> Option<Seq<Seq<u8>>> {
    match c {
        Some(chain) => Some(chain@.map_values(|e: Vec<u8>| e@)),
        None => None,
}
}

/// The document node of an optional annotations mapping: the mapping as an
/// object, or null.
pub open spec fn annotations_value(a: Option<Seq<(Seq<char>, Seq<char>)>>) -> ValueView {
    match a {
        Some(pairs) => ValueView::Obj(enc_pairs_from(pairs, 0)),
        None => ValueView::Null,
}
}

/// The document node of one keyless issuer/subject pair.
pub open spec fn keyless_tree(k: KeylessInfoView) -> ValueView {
    ValueView::Obj(
        seq![("issuer"@, ValueView::Str(k.issuer)), ("subject"@, ValueView::Str(k.subject))],
    )
}

/// The document nodes of the keyless pairs at and after `i`.
pub open spec fn keyless_trees_from(items: Seq<KeylessInfoView>, i: int) -> Seq<ValueView>
    decreases items.len() - i,
{
    if i < 0 || i >= items.len() {
        Seq::empty()
    } else {
        seq![keyless_tree(items[i])] + keyless_trees_from(items, i + 1)
    }
}

/// The document node of one keyless issuer/prefix pair.
pub open spec fn keyless_prefix_tree(k: KeylessPrefixInfoView) -> ValueView {
    ValueView::Obj(
        seq![
            ("issuer"@, ValueView::Str(k.issuer)),
            ("url_prefix"@, ValueView::Str(k.url_prefix)),
        ],
    )
}

/// The document nodes of the keyless prefix pairs at and after `i`.
pub open spec fn keyless_prefix_trees_from(items: Seq<KeylessPrefixInfoView>, i: int) -> Seq<
    ValueView,
>
    decreases items.len() - i,
{
    if i < 0 || i >= items.len() {
        Seq::empty()
    } else {
        seq![keyless_prefix_tree(items[i])] + keyless_prefix_trees_from(items, i + 1)
    }
}

/// The document nodes of the bytes at and after `i`.
pub open spec fn byte_values_from(bytes: Seq<u8>, i: int) -> Seq<ValueView>
    decreases bytes.len() - i,
{
    if i < 0 || i >= bytes.len() {
        Seq::empty()
    } else {
        seq![ValueView::Int(bytes[i] as int)] + byte_values_from(bytes, i + 1)
    }
}

/// The request document of a public-key verification.
pub open spec fn pub_keys_verify_tree(
    image: Seq<char>,
    pub_keys: Seq<Seq<char>>,
    annotations: Option<Seq<(Seq<char>, Seq<char>)>>,
) -> ValueView {
    ValueView::Obj(
        seq![
            ("type"@, ValueView::Str("SigstorePubKeyVerify"@)),
            ("image"@, ValueView::Str(image)),
            ("pub_keys"@, ValueView::Arr(enc_strs_from(pub_keys, 0))),
            ("annotations"@, annotations_value(annotations)),
        ],
    )
}

/// The request document of an exact keyless verification.
pub open spec fn keyless_verify_tree(
    image: Seq<char>,
    keyless: Seq<KeylessInfoView>,
    annotations: Option<Seq<(Seq<char>, Seq<char>)>>,
) -> ValueView {
    ValueView::Obj(
        seq![
            ("type"@, ValueView::Str("SigstoreKeylessVerify"@)),
            ("image"@, ValueView::Str(image)),
            ("keyless"@, ValueView::Arr(keyless_trees_from(keyless, 0))),
            ("annotations"@, annotations_value(annotations)),
        ],
    )
}

/// The request document of a keyless prefix verification.
pub open spec fn keyless_prefix_verify_tree(
    image: Seq<char>,
    keyless_prefix: Seq<KeylessPrefixInfoView>,
    annotations: Option<Seq<(Seq<char>, Seq<char>)>>,
) -> ValueView {
    ValueView::Obj(
        seq![
            ("type"@, ValueView::Str("SigstoreKeylessPrefixVerify"@)),
            ("image"@, ValueView::Str(image)),
            ("keyless_prefix"@, ValueView::Arr(keyless_prefix_trees_from(keyless_prefix, 0))),
            ("annotations"@, annotations_value(annotations)),
        ],
    )
}

/// The request document of a GitHub Actions verification.
pub open spec fn github_actions_verify_tree(
    image: Seq<char>,
    owner: Seq<char>,
    repo: Option<Seq<char>>,
    annotations: Option<Seq<(Seq<char>, Seq<char>)>>,
) -> ValueView {
    ValueView::Obj(
        seq![
            ("type"@, ValueView::Str("SigstoreGithubActionsVerify"@)),
            ("image"@, ValueView::Str(image)),
            ("owner"@, ValueView::Str(owner)),
            ("repo"@, opt_str_value(repo)),
            ("annotations"@, annotations_value(annotations)),
        ],
    )
}

/// The request document of a certificate verification.  The certificate and
/// each chain entry travel as their PEM bytes.
pub open spec fn certificate_verify_tree(
    image: Seq<char>,
    certificate: Seq<u8>,
    certificate_chain: Option<Seq<Seq<u8>>>,
    require_rekor_bundle: bool,
    annotations: Option<Seq<(Seq<char>, Seq<char>)>>,
) -> ValueView {
    ValueView::Obj(
        seq![
            ("type"@, ValueView::Str("SigstoreCertificateVerify"@)),
            ("image"@, ValueView::Str(image)),
            ("certificate"@, ValueView::Arr(byte_values_from(certificate, 0))),
            ("certificate_chain"@, chain_value(certificate_chain)),
            ("require_rekor_bundle"@, ValueView::Bool(require_rekor_bundle)),
            ("annotations"@, annotations_value(annotations)),
        ],
    )
}

/// The document nodes of the byte arrays at and after `i`.
pub open spec fn byte_arrays_from(arrays: Seq<Seq<u8>>, i: int) -> Seq<ValueView>
    decreases arrays.len() - i,
{
    if i < 0 || i >= arrays.len() {
        Seq::empty()
    } else {
        seq![ValueView::Arr(byte_values_from(arrays[i], 0))] + byte_arrays_from(arrays, i + 1)
    }
}

// ---------------------------------------------------------------------------
// The executable builders
// ---------------------------------------------------------------------------
/// Builds the annotations node.
fn annotations_node(a: &Option<Annotations>) -> (r: ConfigValue)
    ensures
        r@ == annotations_value(annotations_view(*a)),
{
    match a {
        Some(pairs) => {
            let fields = crate::policy::serialize::serialize_pairs(pairs);
            ConfigValue::Obj(fields)
        },
        None => ConfigValue::Null,
}
}

/// Builds the string-list node.
fn strings_node(items: &Vec<String>) -> (r: ConfigValue)
    ensures
        r@ == ValueView::Arr(enc_strs_from(strs_view(items@), 0)),
{
    ConfigValue::Arr(crate::policy::serialize::serialize_strs(items))
}

/// Builds the byte-list node.
pub(crate) fn byte_values_node(bytes: &Vec<u8>) -> (r: ConfigValue)
    ensures
        r@ == ValueView::Arr(byte_values_from(bytes@, 0)),
{
    let ghost gb = bytes@;
    let mut acc: Vec<ConfigValue> = Vec::new();
    assert(views_of(acc@) =~= Seq::empty());
    for i in 0..bytes.len()
        invariant
            gb == bytes@,
            views_of(acc@).len() == i,
            byte_values_from(gb, 0) =~= views_of(acc@) + byte_values_from(gb, i as int),
    {
        let ghost old_acc = acc@;
        acc.push(ConfigValue::Int(bytes[i] as i64));
        proof {
            assert(views_of(acc@) =~= views_of(old_acc) + seq![ValueView::Int(gb[i as int] as int)]);
            assert(byte_values_from(gb, i as int) == seq![ValueView::Int(gb[i as int] as int)]
                + byte_values_from(gb, i + 1));
            assert(byte_values_from(gb, 0) =~= views_of(acc@) + byte_values_from(gb, i + 1));
        }
    }
    proof {
        assert(byte_values_from(gb, gb.len() as int) == Seq::<ValueView>::empty());
        assert(byte_values_from(gb, 0) =~= views_of(acc@));
    }
    ConfigValue::Arr(acc)
}

/// Builds the request document of a public-key verification.
pub fn pub_keys_verify_input(
    image: &str,
    pub_keys: &Vec<String>,
    annotations: &Option<Annotations>,
) -> (r: ConfigValue)
    ensures
        r@ == pub_keys_verify_tree(image@, strs_view(pub_keys@), annotations_view(*annotations)),
{
    let mut fields: Vec<(String, ConfigValue)> = Vec::new();
    fields.push(
        (String::from_str("type"), ConfigValue::Str(String::from_str("SigstorePubKeyVerify"))),
    );
    fields.push((String::from_str("image"), ConfigValue::Str(String::from_str(image))));
    fields.push((String::from_str("pub_keys"), strings_node(pub_keys)));
    fields.push((String::from_str("annotations"), annotations_node(annotations)));
    proof {
        assert(fields_view(fields@) =~= seq![
            ("type"@, ValueView::Str("SigstorePubKeyVerify"@)),
            ("image"@, ValueView::Str(image@)),
            ("pub_keys"@, ValueView::Arr(enc_strs_from(strs_view(pub_keys@), 0))),
            ("annotations"@, annotations_value(annotations_view(*annotations))),
        ]);
    }
    ConfigValue::Obj(fields)
}

/// Builds the request document of an exact keyless verification.
pub fn keyless_verify_input(
    image: &str,
    keyless: &Vec<KeylessInfo>,
    annotations: &Option<Annotations>,
) -> (r: ConfigValue)
    ensures
        r@ == keyless_verify_tree(
            image@,
            keyless@.map_values(|k: KeylessInfo| k@),
            annotations_view(*annotations),
        ),
{
    let ghost gk = keyless@.map_values(|k: KeylessInfo| k@);
    let mut items: Vec<ConfigValue> = Vec::new();
    assert(views_of(items@) =~= Seq::empty());
    for i in 0..keyless.len()
        invariant
            gk == keyless@.map_values(|k: KeylessInfo| k@),
            gk.len() == keyless@.len(),
            views_of(items@).len() == i,
            keyless_trees_from(gk, 0) =~= views_of(items@) + keyless_trees_from(gk, i as int),
    {
        let ghost old_items = items@;
        let mut kf: Vec<(String, ConfigValue)> = Vec::new();
        kf.push((String::from_str("issuer"), ConfigValue::Str(keyless[i].issuer.clone())));
        kf.push((String::from_str("subject"), ConfigValue::Str(keyless[i].subject.clone())));
        proof {
            assert(fields_view(kf@) =~= seq![
                ("issuer"@, ValueView::Str(gk[i as int].issuer)),
                ("subject"@, ValueView::Str(gk[i as int].subject)),
            ]);
        }
        items.push(ConfigValue::Obj(kf));
        proof {
            assert(views_of(items@) =~= views_of(old_items) + seq![keyless_tree(gk[i as int])]);
            assert(keyless_trees_from(gk, i as int) == seq![keyless_tree(gk[i as int])]
                + keyless_trees_from(gk, i + 1));
            assert(keyless_trees_from(gk, 0) =~= views_of(items@) + keyless_trees_from(gk, i + 1));
        }
    }
    proof {
        assert(keyless_trees_from(gk, gk.len() as int) == Seq::<ValueView>::empty());
        assert(keyless_trees_from(gk, 0) =~= views_of(items@));
    }
    let mut fields: Vec<(String, ConfigValue)> = Vec::new();
    fields.push(
        (String::from_str("type"), ConfigValue::Str(String::from_str("SigstoreKeylessVerify"))),
    );
    fields.push((String::from_str("image"), ConfigValue::Str(String::from_str(image))));
    fields.push((String::from_str("keyless"), ConfigValue::Arr(items)));
    fields.push((String::from_str("annotations"), annotations_node(annotations)));
    proof {
        assert(fields_view(fields@) =~= seq![
            ("type"@, ValueView::Str("SigstoreKeylessVerify"@)),
            ("image"@, ValueView::Str(image@)),
            ("keyless"@, ValueView::Arr(keyless_trees_from(gk, 0))),
            ("annotations"@, annotations_value(annotations_view(*annotations))),
        ]);
    }
    ConfigValue::Obj(fields)
}

/// Builds the request document of a keyless prefix verification.
pub fn keyless_prefix_verify_input(
    image: &str,
    keyless_prefix: &Vec<KeylessPrefixInfo>,
    annotations: &Option<Annotations>,
) -> (r: ConfigValue)
    ensures
        r@ == keyless_prefix_verify_tree(
            image@,
            keyless_prefix@.map_values(|k: KeylessPrefixInfo| k@),
            annotations_view(*annotations),
        ),
{
    let ghost gk = keyless_prefix@.map_values(|k: KeylessPrefixInfo| k@);
    let mut items: Vec<ConfigValue> = Vec::new();
    assert(views_of(items@) =~= Seq::empty());
    for i in 0..keyless_prefix.len()
        invariant
            gk == keyless_prefix@.map_values(|k: KeylessPrefixInfo| k@),
            gk.len() == keyless_prefix@.len(),
            views_of(items@).len() == i,
            keyless_prefix_trees_from(gk, 0) =~= views_of(items@) + keyless_prefix_trees_from(
                gk,
                i as int,
            ),
    {
        let ghost old_items = items@;
        let mut kf: Vec<(String, ConfigValue)> = Vec::new();
        kf.push((String::from_str("issuer"), ConfigValue::Str(keyless_prefix[i].issuer.clone())));
        kf.push(
            (String::from_str("url_prefix"), ConfigValue::Str(keyless_prefix[i].url_prefix.clone())),
        );
        proof {
            assert(fields_view(kf@) =~= seq![
                ("issuer"@, ValueView::Str(gk[i as int].issuer)),
                ("url_prefix"@, ValueView::Str(gk[i as int].url_prefix)),
            ]);
        }
        items.push(ConfigValue::Obj(kf));
        proof {
            assert(views_of(items@) =~= views_of(old_items) + seq![
                keyless_prefix_tree(gk[i as int]),
            ]);
            assert(keyless_prefix_trees_from(gk, i as int) == seq![
                keyless_prefix_tree(gk[i as int]),
            ] + keyless_prefix_trees_from(gk, i + 1));
            assert(keyless_prefix_trees_from(gk, 0) =~= views_of(items@)
                + keyless_prefix_trees_from(gk, i + 1));
        }
    }
    proof {
        assert(keyless_prefix_trees_from(gk, gk.len() as int) == Seq::<ValueView>::empty());
        assert(keyless_prefix_trees_from(gk, 0) =~= views_of(items@));
    }
    let mut fields: Vec<(String, ConfigValue)> = Vec::new();
    fields.push(
        (
            String::from_str("type"),
            ConfigValue::Str(String::from_str("SigstoreKeylessPrefixVerify")),
        ),
    );
    fields.push((String::from_str("image"), ConfigValue::Str(String::from_str(image))));
    fields.push((String::from_str("keyless_prefix"), ConfigValue::Arr(items)));
    fields.push((String::from_str("annotations"), annotations_node(annotations)));
    proof {
        assert(fields_view(fields@) =~= seq![
            ("type"@, ValueView::Str("SigstoreKeylessPrefixVerify"@)),
            ("image"@, ValueView::Str(image@)),
            ("keyless_prefix"@, ValueView::Arr(keyless_prefix_trees_from(gk, 0))),
            ("annotations"@, annotations_value(annotations_view(*annotations))),
        ]);
    }
    ConfigValue::Obj(fields)
}

/// Builds the request document of a GitHub Actions verification.
pub fn github_actions_verify_input(
    image: &str,
    owner: &String,
    repo: &Option<String>,
    annotations: &Option<Annotations>,
) -> (r: ConfigValue)
    ensures
        r@ == github_actions_verify_tree(
            image@,
            owner@,
            crate::policy::assertion::opt_str_view(*repo),
            annotations_view(*annotations),
        ),
{
    let mut fields: Vec<(String, ConfigValue)> = Vec::new();
    fields.push(
        (
            String::from_str("type"),
            ConfigValue::Str(String::from_str("SigstoreGithubActionsVerify")),
        ),
    );
    fields.push((String::from_str("image"), ConfigValue::Str(String::from_str(image))));
    fields.push((String::from_str("owner"), ConfigValue::Str(owner.clone())));
    let repo_node: ConfigValue = match repo {
        Some(rp) => ConfigValue::Str(rp.clone()),
        None => ConfigValue::Null,
};
    proof {
        assert(repo_node@ == opt_str_value(crate::policy::assertion::opt_str_view(*repo)));
    }
    fields.push((String::from_str("repo"), repo_node));
    fields.push((String::from_str("annotations"), annotations_node(annotations)));
    proof {
        assert(fields_view(fields@) =~= seq![
            ("type"@, ValueView::Str("SigstoreGithubActionsVerify"@)),
            ("image"@, ValueView::Str(image@)),
            ("owner"@, ValueView::Str(owner@)),
            ("repo"@, opt_str_value(crate::policy::assertion::opt_str_view(*repo))),
            ("annotations"@, annotations_value(annotations_view(*annotations))),
        ]);
    }
    ConfigValue::Obj(fields)
}

/// Builds the request document of a certificate verification.
pub fn certificate_verify_input(
    image: &str,
    certificate: &Vec<u8>,
    certificate_chain: &Option<Vec<Vec<u8>>>,
    require_rekor_bundle: bool,
    annotations: &Option<Annotations>,
) -> (r: ConfigValue)
    ensures
        r@ == certificate_verify_tree(
            image@,
            certificate@,
            byte_vecs_view(*certificate_chain),
            require_rekor_bundle,
            annotations_view(*annotations),
        ),
{
    let mut fields: Vec<(String, ConfigValue)> = Vec::new();
    fields.push(
        (
            String::from_str("type"),
            ConfigValue::Str(String::from_str("SigstoreCertificateVerify")),
        ),
    );
    fields.push((String::from_str("image"), ConfigValue::Str(String::from_str(image))));
    fields.push((String::from_str("certificate"), byte_values_node(certificate)));
    let chain_node: ConfigValue = match certificate_chain {
        Some(chain) => {
            let ghost gc = chain@.map_values(|e: Vec<u8>| e@);
            let mut items: Vec<ConfigValue> = Vec::new();
            assert(views_of(items@) =~= Seq::empty());
            for i in 0..chain.len()
                invariant
                    gc == chain@.map_values(|e: Vec<u8>| e@),
                    gc.len() == chain@.len(),
                    views_of(items@).len() == i,
                    byte_arrays_from(gc, 0) =~= views_of(items@) + byte_arrays_from(gc, i as int),
            {
                let ghost old_items = items@;
                items.push(byte_values_node(&chain[i]));
                proof {
                    assert(views_of(items@) =~= views_of(old_items) + seq![
                        ValueView::Arr(byte_values_from(gc[i as int], 0)),
                    ]);
                    assert(byte_arrays_from(gc, i as int) == seq![
                        ValueView::Arr(byte_values_from(gc[i as int], 0)),
                    ] + byte_arrays_from(gc, i + 1));
                    assert(byte_arrays_from(gc, 0) =~= views_of(items@) + byte_arrays_from(
                        gc,
                        i + 1,
                    ));
                }
            }
            proof {
                assert(byte_arrays_from(gc, gc.len() as int) == Seq::<ValueView>::empty());
                assert(byte_arrays_from(gc, 0) =~= views_of(items@));
            }
            ConfigValue::Arr(items)
        },
        None => ConfigValue::Null,
};
    proof {
        assert(chain_node@ == chain_value(byte_vecs_view(*certificate_chain)));
    }
    fields.push((String::from_str("certificate_chain"), chain_node));
    fields.push((String::from_str("require_rekor_bundle"), ConfigValue::Bool(require_rekor_bundle)));
    fields.push((String::from_str("annotations"), annotations_node(annotations)));
    proof {
        assert(fields_view(fields@) =~= seq![
            ("type"@, ValueView::Str("SigstoreCertificateVerify"@)),
            ("image"@, ValueView::Str(image@)),
            ("certificate"@, ValueView::Arr(byte_values_from(certificate@, 0))),
            ("certificate_chain"@, chain_value(byte_vecs_view(*certificate_chain))),
            ("require_rekor_bundle"@, ValueView::Bool(require_rekor_bundle)),
            ("annotations"@, annotations_value(annotations_view(*annotations))),
        ]);
    }
    ConfigValue::Obj(fields)
}

// ---------------------------------------------------------------------------
// The boundary calls
// ---------------------------------------------------------------------------
/// The request document of a whole second-generation verification input.
pub open spec fn verification_input_tree_spec(
    input: crate::host_capabilities::SigstoreVerificationInputV2,
) -> ValueView {
    match input {
        crate::host_capabilities::SigstoreVerificationInputV2::SigstorePubKeyVerify {
            image,
            pub_keys,
            annotations,
        } => pub_keys_verify_tree(image@, strs_view(pub_keys@), annotations_view(annotations)),
        crate::host_capabilities::SigstoreVerificationInputV2::SigstoreKeylessVerify {
            image,
            keyless,
            annotations,
        } => keyless_verify_tree(
            image@,
            keyless@.map_values(|k: KeylessInfo| k@),
            annotations_view(annotations),
        ),
        crate::host_capabilities::SigstoreVerificationInputV2::SigstoreKeylessPrefixVerify {
            image,
            keyless_prefix,
            annotations,
        } => keyless_prefix_verify_tree(
            image@,
            keyless_prefix@.map_values(|k: KeylessPrefixInfo| k@),
            annotations_view(annotations),
        ),
        crate::host_capabilities::SigstoreVerificationInputV2::SigstoreGithubActionsVerify {
            image,
            owner,
            repo,
            annotations,
        } => github_actions_verify_tree(
            image@,
            owner@,
            crate::policy::assertion::opt_str_view(repo),
            annotations_view(annotations),
        ),
        crate::host_capabilities::SigstoreVerificationInputV2::SigstoreCertificateVerify {
            image,
            certificate,
            certificate_chain,
            require_rekor_bundle,
            annotations,
        } => certificate_verify_tree(
            image@,
            certificate@,
            byte_vecs_view(certificate_chain),
            require_rekor_bundle,
            annotations_view(annotations),
        ),
    }
}

/// Builds the request document of a verification input: one named variant
/// per assertion kind, as the host's `v2/verify` operation reads it.
pub fn verification_input_tree(input: &crate::host_capabilities::SigstoreVerificationInputV2) -> (r:
    ConfigValue)
    ensures
        r@ == verification_input_tree_spec(*input),
{
    match input {
        crate::host_capabilities::SigstoreVerificationInputV2::SigstorePubKeyVerify {
            image,
            pub_keys,
            annotations,
        } => pub_keys_verify_input(image.as_str(), pub_keys, annotations),
        crate::host_capabilities::SigstoreVerificationInputV2::SigstoreKeylessVerify {
            image,
            keyless,
            annotations,
        } => keyless_verify_input(image.as_str(), keyless, annotations),
        crate::host_capabilities::SigstoreVerificationInputV2::SigstoreKeylessPrefixVerify {
            image,
            keyless_prefix,
            annotations,
        } => keyless_prefix_verify_input(image.as_str(), keyless_prefix, annotations),
        crate::host_capabilities::SigstoreVerificationInputV2::SigstoreGithubActionsVerify {
            image,
            owner,
            repo,
            annotations,
        } => github_actions_verify_input(image.as_str(), owner, repo, annotations),
        crate::host_capabilities::SigstoreVerificationInputV2::SigstoreCertificateVerify {
            image,
            certificate,
            certificate_chain,
            require_rekor_bundle,
            annotations,
        } => certificate_verify_input(
            image.as_str(),
            certificate,
            certificate_chain,
            *require_rekor_bundle,
            annotations,
        ),
    }
}

/// One observed exchange with the host: the bytes sent to the operation,
/// and the bytes it answered — or the transport error's text.
pub struct HostExchange {
    pub request: Seq<u8>,
    pub reply: Result<Seq<u8>, Seq<char>>,
}

/// The view of a boundary call's outcome.
pub open spec fn reply_bytes_view(reply: Result<Vec<u8>, String>) -> Result<Seq<u8>, Seq<char>> {
    match reply {
        Ok(bytes) => Ok(bytes@),
        Err(m) => Err(m@),
    }
}

/// The canonical JSON text of a verification response: the text the host
/// writes for its verdict.
pub open spec fn verification_response_json(resp: VerificationResponse) -> Seq<u8> {
    canonical_object("is_trusted"@, "digest"@, resp.is_trusted, resp.digest@)
}

/// How a `v2/verify` boundary outcome maps to a result: a transport failure
/// becomes `HostFailure` with the host's text; answered bytes decode to the
/// verdict whose canonical text they are, and to `MalformedResponse` exactly
/// when they are no verdict's text.
pub open spec fn decodes_verify_reply(
    reply: Result<Seq<u8>, Seq<char>>,
    r: Result<VerificationResponse, OracleError>,
) -> bool {
    match reply {
        Err(m) => match r {
            Err(OracleError::HostFailure(m2)) => m2@ == m,
            _ => false,
        },
        Ok(bytes) => match r {
            Ok(resp) => bytes == verification_response_json(resp),
            Err(OracleError::MalformedResponse(_)) => forall|resp: VerificationResponse|
                bytes != verification_response_json(resp),
            _ => false,
        },
    }
}

/// Maps one `v2/verify` boundary outcome to the verdict or the error:
/// exactly [`decodes_verify_reply`].  A failed boundary call propagates as
/// `HostFailure`, never as an untrusted verdict; a well-formed verdict text
/// is never reported as an error.
pub fn decode_verify_reply(reply: Result<Vec<u8>, String>) -> (r: Result<
    VerificationResponse,
    OracleError,
>)
    ensures
        decodes_verify_reply(reply_bytes_view(reply), r),
{
    match reply {
        Err(m) => Err(OracleError::HostFailure(m)),
        Ok(raw) => match parse_bool_str_object(&raw, "is_trusted", "digest") {
            Ok((is_trusted, digest)) => Ok(VerificationResponse { is_trusted, digest }),
            Err(()) => {
                proof {
                    assert forall|resp: VerificationResponse|
                        raw@ != verification_response_json(resp) by {}
                }
                Err(
                    OracleError::MalformedResponse(
                        String::from_str("cannot decode the verification response"),
                    ),
                )
            },
        },
    }
}

/// Sends one verification input to the host's `v2/verify` operation and
/// decodes the verdict.  The ghost exchange pins the interaction: the bytes
/// sent are exactly the input's JSON text, and the result is exactly the
/// decode of whatever came back.
fn verify(input: &crate::host_capabilities::SigstoreVerificationInputV2) -> (res: (
    Result<VerificationResponse, OracleError>,
    Ghost<HostExchange>,
))
    ensures
        res.1@.request == json_bytes(verification_input_tree_spec(*input)),
        decodes_verify_reply(res.1@.reply, res.0),
{
    let tree = verification_input_tree(input);
    verify_request(&tree)
}

/// Sends one verification request document to the host's `v2/verify`
/// operation and decodes the verdict.  The ghost exchange pins the
/// interaction: the bytes sent are exactly the document's JSON text, and the
/// result is exactly the decode of whatever came back.
fn verify_request(input: &ConfigValue) -> (res: (
    Result<VerificationResponse, OracleError>,
    Ghost<HostExchange>,
))
    ensures
        res.1@.request == json_bytes(input@),
        decodes_verify_reply(res.1@.reply, res.0),
{
    let msg = to_json_bytes(input);
    let reply = wapc_host_call("kubewarden", "oci", "v2/verify", msg.as_slice());
    let ghost exchange = HostExchange { request: msg@, reply: reply_bytes_view(reply) };
    let r = decode_verify_reply(reply);
    (r, Ghost(exchange))
}

/// Verifies sigstore signatures of an image using public keys.
///
/// * `image` - image to be verified
/// * `pub_keys` - PEM encoded keys that must have been used to sign the image
/// * `annotations` - annotations that all signers must have provided
pub fn verify_pub_keys_image(
    image: &str,
    pub_keys: Vec<String>,
    annotations: Option<Annotations>,
) -> (res: (Result<VerificationResponse, OracleError>, Ghost<HostExchange>))
    ensures
        res.1@.request == json_bytes(
            pub_keys_verify_tree(image@, strs_view(pub_keys@), annotations_view(annotations)),
        ),
        decodes_verify_reply(res.1@.reply, res.0),
{
    let input = crate::host_capabilities::SigstoreVerificationInputV2::SigstorePubKeyVerify {
        image: String::from_str(image),
        pub_keys,
        annotations,
    };
    verify(&input)
}

/// Verifies sigstore signatures of an image using exact keyless matching.
///
/// * `image` - image to be verified
/// * `keyless` - issuer/subject pairs to look for
/// * `annotations` - annotations that all signers must have provided
pub fn verify_keyless_exact_match(
    image: &str,
    keyless: Vec<KeylessInfo>,
    annotations: Option<Annotations>,
) -> (res: (Result<VerificationResponse, OracleError>, Ghost<HostExchange>))
    ensures
        res.1@.request == json_bytes(
            keyless_verify_tree(
                image@,
                keyless@.map_values(|k: KeylessInfo| k@),
                annotations_view(annotations),
            ),
        ),
        decodes_verify_reply(res.1@.reply, res.0),
{
    let input = crate::host_capabilities::SigstoreVerificationInputV2::SigstoreKeylessVerify {
        image: String::from_str(image),
        keyless,
        annotations,
    };
    verify(&input)
}

/// Verifies sigstore signatures of an image using keyless matching where each
/// subject is a URL prefix, sanitized by appending `/` to prevent
/// typosquatting, that the signature's subject must start with.
///
/// * `image` - image to be verified
/// * `keyless_prefix` - issuer/prefix pairs to look for
/// * `annotations` - annotations that all signers must have provided
pub fn verify_keyless_prefix_match(
    image: &str,
    keyless_prefix: Vec<KeylessPrefixInfo>,
    annotations: Option<Annotations>,
) -> (res: (Result<VerificationResponse, OracleError>, Ghost<HostExchange>))
    ensures
        res.1@.request == json_bytes(
            keyless_prefix_verify_tree(
                image@,
                keyless_prefix@.map_values(|k: KeylessPrefixInfo| k@),
                annotations_view(annotations),
            ),
        ),
        decodes_verify_reply(res.1@.reply, res.0),
{
    let input =
        crate::host_capabilities::SigstoreVerificationInputV2::SigstoreKeylessPrefixVerify {
        image: String::from_str(image),
        keyless_prefix,
        annotations,
    };
    verify(&input)
}

/// Verifies sigstore signatures of an image produced by GitHub Actions.
///
/// * `image` - image to be verified
/// * `owner` - owner of the repository
/// * `repo` - repository of the workflow that signed, when given
/// * `annotations` - annotations that all signers must have provided
pub fn verify_keyless_github_actions(
    image: &str,
    owner: String,
    repo: Option<String>,
    annotations: Option<Annotations>,
) -> (res: (Result<VerificationResponse, OracleError>, Ghost<HostExchange>))
    ensures
        res.1@.request == json_bytes(
            github_actions_verify_tree(
                image@,
                owner@,
                crate::policy::assertion::opt_str_view(repo),
                annotations_view(annotations),
            ),
        ),
        decodes_verify_reply(res.1@.reply, res.0),
{
    let input =
        crate::host_capabilities::SigstoreVerificationInputV2::SigstoreGithubActionsVerify {
        image: String::from_str(image),
        owner,
        repo,
        annotations,
    };
    verify(&input)
}

/// Verifies sigstore signatures of an image using a user-provided
/// certificate.
///
/// * `image` - image to be verified
/// * `certificate` - PEM encoded certificate used to verify the signature
/// * `certificate_chain` - PEM encoded certificates used to verify
///   `certificate`; when absent the certificate is assumed trusted
/// * `require_rekor_bundle` - require a transparency-log bundle on the
///   signature layer, enabling time-bound validity checks
/// * `annotations` - annotations that all signers must have provided
pub fn verify_certificate(
    image: &str,
    certificate: String,
    certificate_chain: Option<Vec<String>>,
    require_rekor_bundle: bool,
    annotations: Option<Annotations>,
) -> (res: (Result<VerificationResponse, OracleError>, Ghost<HostExchange>))
    ensures
        res.1@.request == json_bytes(
            certificate_verify_tree(
                image@,
                vstd::utf8::encode_utf8(certificate@),
                match certificate_chain {
                    Some(chain) => Some(encoded_strs(strs_view(chain@))),
                    None => None,
                },
                require_rekor_bundle,
                annotations_view(annotations),
            ),
        ),
        decodes_verify_reply(res.1@.reply, res.0),
{
    broadcast use crate::policy::assertion::lemma_strs_view;

    let cert_bytes = certificate.as_str().as_bytes_vec();
    let chain_bytes: Option<Vec<Vec<u8>>> = match &certificate_chain {
        Some(chain) => {
            let mut out: Vec<Vec<u8>> = Vec::new();
            for i in 0..chain.len()
                invariant
                    out@.len() == i,
                    forall|m: int|
                        0 <= m < i ==> #[trigger] out@[m]@ == vstd::utf8::encode_utf8(chain@[m]@),
            {
                out.push(chain[i].as_str().as_bytes_vec());
            }
            proof {
                assert(byte_vecs_view(Some(out)) matches Some(views) && views =~= encoded_strs(
                    strs_view(chain@),
                ));
            }
            Some(out)
        },
        None => None,
    };
    let input = crate::host_capabilities::SigstoreVerificationInputV2::SigstoreCertificateVerify {
        image: String::from_str(image),
        certificate: cert_bytes,
        certificate_chain: chain_bytes,
        require_rekor_bundle,
        annotations,
    };
    verify(&input)
}

// ---------------------------------------------------------------------------
// The host-backed oracle
// ---------------------------------------------------------------------------
/// The oracle that asks the live host: one `v2/verify` call per assertion,
/// with a ghost log of what was asked and answered.
pub struct HostOracle {
    /// The history of calls, for specification purposes.
    pub history: Ghost<Seq<OracleEvent>>,
}

impl HostOracle {
    /// A fresh oracle with an empty history.
    pub fn new() -> (r: HostOracle)
        ensures
            r.log() == Seq::<OracleEvent>::empty(),
    {
        HostOracle { history: Ghost(Seq::empty()) }
    }
}

/// Builds the request document that one leaf assertion sends to the host:
/// each assertion kind maps to its named operation variant, with
/// single-element lists where the operation takes a list.
pub fn assertion_verify_input(assertion: &Assertion, image: &str) -> (r: ConfigValue) {
    match assertion {
        Assertion::PubKey { key, annotations, .. } => {
            let keys = vec![key.clone()];
            pub_keys_verify_input(image, &keys, annotations)
        },
        Assertion::GenericIssuer { issuer, subject, annotations } => match subject {
            Subject::Equal(v) => {
                let keyless = vec![KeylessInfo { issuer: issuer.clone(), subject: v.clone() }];
                keyless_verify_input(image, &keyless, annotations)
            },
            Subject::UrlPrefix(p) => {
                let keyless_prefix = vec![
                    KeylessPrefixInfo { issuer: issuer.clone(), url_prefix: p.clone() },
                ];
                keyless_prefix_verify_input(image, &keyless_prefix, annotations)
            },
},
        Assertion::GithubAction { owner, repo, annotations } => github_actions_verify_input(
            image,
            owner,
            repo,
            annotations,
        ),
        Assertion::Certificate {
            certificate,
            certificate_chain,
            require_rekor_bundle,
            annotations,
} => {
            let cert_bytes = certificate.as_str().as_bytes_vec();
            let chain_bytes: Option<Vec<Vec<u8>>> = match certificate_chain {
                Some(chain) => {
                    let mut out: Vec<Vec<u8>> = Vec::new();
                    for i in 0..chain.len() {
                        out.push(chain[i].as_str().as_bytes_vec());
                    }
                    Some(out)
                },
                None => None,
};
            certificate_verify_input(
                image,
                &cert_bytes,
                &chain_bytes,
                *require_rekor_bundle,
                annotations,
            )
        },
}
}

impl Oracle for HostOracle {
    open spec fn log(&self) -> Seq<OracleEvent> {
        self.history@
    }

    fn verify(&mut self, assertion: &Assertion, image: &str) -> (r: Result<
        VerificationResponse,
        OracleError,
    >)
        ensures
            final(self).log() == old(self).log().push(
                OracleEvent { assertion: assertion@, image: image@, reply: reply_view(r) },
            ),
    {
        let input = assertion_verify_input(assertion, image);
        let (r, _exchange) = verify_request(&input);
        let ghost ev = OracleEvent { assertion: assertion@, image: image@, reply: reply_view(r) };
        proof {
            self.history@ = self.history@.push(ev);
        }
        r
    }
}

/// Evaluates a parsed configuration against `image` with the live host as the
/// oracle: one call per leaf assertion, in order, with both short-circuit
/// directions, refusing unsupported versions before any call.
pub fn verify_image(image: &str, config: &crate::policy::config::VersionedVerificationConfig) -> (r:
    Result<bool, crate::policy::error::EvalError>)
    ensures
        match config@ {
            crate::policy::config::VersionedVerificationConfigView::Unsupported(tag) => (r matches
                Err(e) && e@ == crate::policy::error::EvalErrorView::UnsupportedVersion(tag)),
            crate::policy::config::VersionedVerificationConfigView::V1(cfg) => {
                match r {
                    Ok(b) => exists|events: Seq<OracleEvent>|
                        crate::policy::evaluate::config_run(cfg, image@, events) == Some(
                            (
                                events.len() as int,
                                crate::policy::evaluate::EvalVerdict::Verdict(b),
                            ),
                        ),
                    Err(e) => e@ matches crate::policy::error::EvalErrorView::Oracle(_)
                        && exists|events: Seq<OracleEvent>|
                        crate::policy::evaluate::config_run(cfg, image@, events) == Some(
                            (events.len() as int, crate::policy::evaluate::EvalVerdict::OracleFailed),
                        ),
}
            },
},
{
    let mut oracle = HostOracle::new();
    let r = crate::policy::evaluate::evaluate(config, image, &mut oracle);
    proof {
        let events = oracle.log().skip(0);
        assert(events =~= oracle.log());
    }
    match r {
        Ok(res) => Ok(res.satisfied),
        Err(e) => Err(e),
}
}

} // verus!
