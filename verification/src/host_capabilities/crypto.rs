//! Certificate validation through the host.
use vstd::prelude::*;
use crate::host_capabilities::json::{to_json_bytes, json_bytes};
use crate::host_capabilities::response::{parse_bool_str_object, canonical_object};
use crate::host_capabilities::verification::{HostExchange, reply_bytes_view};
use crate::host_capabilities::wapc::wapc_host_call;
use crate::policy::value::{ConfigValue, ValueView, views_of, fields_view};
use crate::host_capabilities::verification::byte_values_from;

verus! {

broadcast use {
    crate::policy::value::lemma_fields_view,
    crate::policy::value::lemma_views_of,
};

/// An x509 certificate, with the encoding its bytes use.
#[derive(Debug, Clone, PartialEq)]
pub struct Certificate {
    /// Which encoding the certificate bytes use.
    pub encoding: CertificateEncoding,
    /// The certificate itself.
    pub data: Vec<u8>,
}

/// The encoding of a certificate.
#[derive(Debug, Clone, PartialEq)]
pub enum CertificateEncoding {
    Der,
    Pem,
}

/// A verdict with the reason for a rejection.
#[derive(Debug, Clone, PartialEq)]
pub enum BoolWithReason {
    True,
    False(String),
}

impl BoolWithReason {
    /// Turns the verdict into a response: a rejection keeps its reason, a
    /// trusted verdict has an empty one.
    pub fn into_response(self) -> (r: crate::host_capabilities::CertificateVerificationResponse)
        ensures
            r.trusted == (self is True),
            self matches BoolWithReason::False(m) ==> r.reason == m,
            self is True ==> r.reason@ == Seq::<char>::empty(),
    {
        match self {
            BoolWithReason::True => crate::host_capabilities::CertificateVerificationResponse {
                trusted: true,
                reason: String::new(),
            },
            BoolWithReason::False(reason) => crate::host_capabilities::CertificateVerificationResponse {
                trusted: false,
                reason,
            },
        }
    }
}

/// Mathematical model of a [`Certificate`].
pub struct CertificateView {
    pub encoding: CertificateEncoding,
    pub data: Seq<u8>,
}

impl View for Certificate {
    type V = CertificateView;

    open spec fn view(&self) -> CertificateView {
        CertificateView { encoding: self.encoding, data: self.data@ }
    }
}

/// The name of a certificate encoding on the wire.
pub open spec fn encoding_name(e: CertificateEncoding) -> Seq<char> {
    match e {
        CertificateEncoding::Der => "Der"@,
        CertificateEncoding::Pem => "Pem"@,
    }
}

/// The document node of one certificate.
pub open spec fn certificate_tree(c: CertificateView) -> ValueView {
    ValueView::Obj(
        seq![
            ("encoding"@, ValueView::Str(encoding_name(c.encoding))),
            ("data"@, ValueView::Arr(byte_values_from(c.data, 0))),
        ],
    )
}

/// The document nodes of the certificates at and after `i`.
pub open spec fn certificate_trees_from(items: Seq<CertificateView>, i: int) -> Seq<ValueView>
    decreases items.len() - i,
{
    if i < 0 || i >= items.len() {
        Seq::empty()
    } else {
        seq![certificate_tree(items[i])] + certificate_trees_from(items, i + 1)
    }
}

/// The document node of the optional chain.
pub open spec fn cert_chain_value(c: Option<Seq<CertificateView>>) -> ValueView {
    match c {
        Some(chain) => ValueView::Arr(certificate_trees_from(chain, 0)),
        None => ValueView::Null,
    }
}

/// The document node of the expiration check time.  An empty string means
/// "no expiration check" and travels as null, just like an absent value.
pub open spec fn not_after_value(n: Option<Seq<char>>) -> ValueView {
    match n {
        Some(s) => if s.len() == 0 {
            ValueView::Null
        } else {
            ValueView::Str(s)
        },
        None => ValueView::Null,
    }
}

/// The views of an optional certificate list.
pub open spec fn certs_view(c: Option<Vec<Certificate>>) -> Option<Seq<CertificateView>> {
    match c {
        Some(chain) => Some(chain@.map_values(|e: Certificate| e@)),
        None => None,
    }
}

/// The request document of a certificate-trust check.
pub open spec fn cert_verification_tree(
    cert: CertificateView,
    cert_chain: Option<Seq<CertificateView>>,
    not_after: Option<Seq<char>>,
) -> ValueView {
    ValueView::Obj(
        seq![
            ("cert"@, certificate_tree(cert)),
            ("cert_chain"@, cert_chain_value(cert_chain)),
            ("not_after"@, not_after_value(not_after)),
        ],
    )
}

/// Builds the document node of one certificate.
pub fn certificate_node(cert: &Certificate) -> (r: ConfigValue)
    ensures
        r@ == certificate_tree(cert@),
{
    let mut fields: Vec<(String, ConfigValue)> = Vec::new();
    let name = match cert.encoding {
        CertificateEncoding::Der => String::from_str("Der"),
        CertificateEncoding::Pem => String::from_str("Pem"),
    };
    fields.push((String::from_str("encoding"), ConfigValue::Str(name)));
    fields.push(
        (
            String::from_str("data"),
            crate::host_capabilities::verification::byte_values_node(&cert.data),
        ),
    );
    proof {
        assert(fields_view(fields@) =~= seq![
            ("encoding"@, ValueView::Str(encoding_name(cert.encoding))),
            ("data"@, ValueView::Arr(byte_values_from(cert.data@, 0))),
        ]);
    }
    ConfigValue::Obj(fields)
}

/// Builds the request document of a certificate-trust check.
pub fn cert_verification_input(request: &crate::host_capabilities::CertificateVerificationRequest)
    -> (r: ConfigValue)
    ensures
        r@ == cert_verification_tree(
            request.cert@,
            certs_view(request.cert_chain),
            crate::policy::assertion::opt_str_view(request.not_after),
        ),
{
    let cert = &request.cert;
    let cert_chain = &request.cert_chain;
    let not_after = &request.not_after;
    let mut fields: Vec<(String, ConfigValue)> = Vec::new();
    fields.push((String::from_str("cert"), certificate_node(cert)));
    let chain_node: ConfigValue = match cert_chain {
        Some(chain) => {
            let ghost gc = chain@.map_values(|e: Certificate| e@);
            let mut items: Vec<ConfigValue> = Vec::new();
            assert(views_of(items@) =~= Seq::empty());
            for i in 0..chain.len()
                invariant
                    gc == chain@.map_values(|e: Certificate| e@),
                    gc.len() == chain@.len(),
                    views_of(items@).len() == i,
                    certificate_trees_from(gc, 0) =~= views_of(items@) + certificate_trees_from(
                        gc,
                        i as int,
                    ),
            {
                let ghost old_items = items@;
                items.push(certificate_node(&chain[i]));
                proof {
                    assert(views_of(items@) =~= views_of(old_items) + seq![
                        certificate_tree(gc[i as int]),
                    ]);
                    assert(certificate_trees_from(gc, i as int) == seq![
                        certificate_tree(gc[i as int]),
                    ] + certificate_trees_from(gc, i + 1));
                    assert(certificate_trees_from(gc, 0) =~= views_of(items@)
                        + certificate_trees_from(gc, i + 1));
                }
            }
            proof {
                assert(certificate_trees_from(gc, gc.len() as int) == Seq::<ValueView>::empty());
                assert(certificate_trees_from(gc, 0) =~= views_of(items@));
            }
            ConfigValue::Arr(items)
        },
        None => ConfigValue::Null,
    };
    proof {
        assert(chain_node@ == cert_chain_value(certs_view(request.cert_chain)));
    }
    fields.push((String::from_str("cert_chain"), chain_node));
    let not_after_node: ConfigValue = match not_after {
        Some(s) => {
            if s.as_str().unicode_len() == 0 {
                ConfigValue::Null
            } else {
                ConfigValue::Str(s.clone())
            }
        },
        None => ConfigValue::Null,
    };
    proof {
        assert(not_after_node@ == not_after_value(
            crate::policy::assertion::opt_str_view(request.not_after),
        ));
    }
    fields.push((String::from_str("not_after"), not_after_node));
    proof {
        assert(fields_view(fields@) =~= seq![
            ("cert"@, certificate_tree(request.cert@)),
            ("cert_chain"@, cert_chain_value(certs_view(request.cert_chain))),
            (
                "not_after"@,
                not_after_value(crate::policy::assertion::opt_str_view(request.not_after)),
            ),
        ]);
    }
    ConfigValue::Obj(fields)
}

/// How a certificate-trust boundary outcome maps to a result: a transport
/// failure propagates with the host's text; an answered verdict maps to
/// `True`, or to `False` carrying the prefixed reason; bytes that are no
/// verdict's canonical text are a decode error.
pub open spec fn decodes_cert_reply(
    reply: Result<Seq<u8>, Seq<char>>,
    r: Result<BoolWithReason, String>,
) -> bool {
    match reply {
        Err(m) => match r {
            Err(m2) => m2@ == m,
            Ok(_) => false,
        },
        Ok(bytes) => match r {
            Ok(BoolWithReason::True) => exists|s: Seq<char>|
                bytes == canonical_object("trusted"@, "reason"@, true, s),
            Ok(BoolWithReason::False(msg)) => exists|s: Seq<char>|
                bytes == canonical_object("trusted"@, "reason"@, false, s) && msg@
                    == "Certificate not trusted: "@ + s,
            Err(m2) => m2@ == "cannot decode the certificate verification response"@ && forall|
                b: bool,
                s: Seq<char>,
            |
                bytes != canonical_object("trusted"@, "reason"@, b, s),
        },
    }
}

/// Verifies a certificate's trust against the passed chain, and its
/// expiration at `not_after`.
///
/// * `cert` - certificate to verify
/// * `cert_chain` - PEM-encoded certificates, ordered by trust usage
///   (intermediates first, root last); when absent, a well-known CA set is
///   used by the host
/// * `not_after` - RFC 3339 time to check expiration against; when absent (or
///   empty) the certificate is assumed never expired
///
/// The ghost exchange pins the interaction: the bytes sent to the host's
/// `v1/is_certificate_trusted` operation are exactly the JSON text of
/// [`cert_verification_tree`], and the result is exactly the decode of
/// whatever came back ([`decodes_cert_reply`]): a trusted verdict maps to
/// `True`, a rejection to `False` with the reason behind a fixed prefix, a
/// failed call or undecodable reply to `Err` — never to a verdict.
pub fn verify_cert(
    cert: Certificate,
    cert_chain: Option<Vec<Certificate>>,
    not_after: Option<String>,
) -> (res: (Result<BoolWithReason, String>, Ghost<HostExchange>))
    ensures
        res.1@.request == json_bytes(
            cert_verification_tree(
                cert@,
                certs_view(cert_chain),
                crate::policy::assertion::opt_str_view(not_after),
            ),
        ),
        decodes_cert_reply(res.1@.reply, res.0),
{
    let request = crate::host_capabilities::CertificateVerificationRequest {
        cert,
        cert_chain,
        not_after,
    };
    let input = cert_verification_input(&request);
    let msg = to_json_bytes(&input);
    let reply = wapc_host_call("kubewarden", "crypto", "v1/is_certificate_trusted", msg.as_slice());
    let ghost exchange = HostExchange { request: msg@, reply: reply_bytes_view(reply) };
    let r: Result<BoolWithReason, String> = match reply {
        Err(e) => Err(e),
        Ok(raw) => match parse_bool_str_object(&raw, "trusted", "reason") {
            Ok((true, _reason)) => {
                proof {
                    assert(exists|s: Seq<char>|
                        raw@ == canonical_object("trusted"@, "reason"@, true, s));
                }
                Ok(BoolWithReason::True)
            },
            Ok((false, reason)) => {
                let ghost greason = reason@;
                let message = String::from_str("Certificate not trusted: ").concat(
                    reason.as_str(),
                );
                proof {
                    assert(raw@ == canonical_object("trusted"@, "reason"@, false, greason)
                        && message@ == "Certificate not trusted: "@ + greason);
                }
                Ok(BoolWithReason::False(message))
            },
            Err(()) => {
                proof {
                    assert forall|b: bool, s: Seq<char>|
                        raw@ != canonical_object("trusted"@, "reason"@, b, s) by {}
                }
                Err(String::from_str("cannot decode the certificate verification response"))
            },
        },
    };
    (r, Ghost(exchange))
}

} // verus!
