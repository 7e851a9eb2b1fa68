//! The per-request client model: the parsed URL, the peer certificate if
//! one was presented, the route capture bindings, the peer address, and a
//! duplicate of the shared application state.
//!
//! The peer certificate is carried as its PEM bytes — the plain values
//! the identity logic reads — and handed to the OpenSSL calls at use.
//! Identity checks are boolean-safe by design: every failure while
//! reading or verifying the certificate counts as "not verified", and
//! expiry checks fail closed, so absence of a certificate reads as
//! expired.

use vstd::prelude::*;
use crate::text::{percent_decode, percent_decode_bytes, bytes_to_string};
use crate::urls::url_query_string;
use vstd::utf8::{valid_utf8, encode_utf8};
use vstd::string::StringExecFns;

verus! {

/// Whether the certificate in the first PEM byte string is signed by
/// the public key of the certificate in the second: the outcome of the
/// OpenSSL verification, a function of the two byte strings alone; no
/// answer when either fails to parse, the key cannot be extracted, or
/// verification errors.
pub uninterp spec fn signed_by_of(cert_pem: Seq<u8>, signer_pem: Seq<u8>) -> Option<bool>;

/// The first subject-name entry of the certificate in the PEM byte
/// string, as text: a function of the bytes alone; no answer when the
/// PEM does not parse, the subject has no entry, or the entry is not
/// UTF-8.
pub uninterp spec fn subject_name_of(pem: Seq<u8>) -> Option<Seq<char>>;

/// Relies on `X509::from_pem` (on both arguments), `X509Ref::public_key`
/// and `X509Ref::verify`: whether the first certificate's signature
/// checks out against the second one's public key. Every step is
/// deterministic in the two byte strings; every failure gives no answer.
#[verifier::external_body]
fn x509_signed_by(cert_pem: &[u8], signer_pem: &[u8]) -> (r: Option<bool>)
    ensures
        match r {
            Some(b) => signed_by_of(cert_pem@, signer_pem@) == Some(b),
            None => signed_by_of(cert_pem@, signer_pem@) is None,
        },
{
    let cert = match openssl::x509::X509::from_pem(cert_pem) {
        Ok(c) => c,
        Err(_) => { return None; }
    };
    let signer = match openssl::x509::X509::from_pem(signer_pem) {
        Ok(c) => c,
        Err(_) => { return None; }
    };
    match signer.public_key() {
        Ok(key) => cert.verify(&key).ok(),
        Err(_) => None,
    }
}

/// Relies on `X509::from_pem`, `X509Ref::subject_name`,
/// `X509NameRef::entries`, `X509NameEntryRef::data` and
/// `Asn1StringRef::as_utf8`: the first subject-name entry decoded as
/// UTF-8, deterministic in the PEM bytes; every failure gives no answer.
#[verifier::external_body]
#[allow(deprecated)]
fn x509_subject_first_utf8(pem: &[u8]) -> (r: Option<String>)
    ensures
        match r {
            Some(s) => subject_name_of(pem@) == Some(s@),
            None => subject_name_of(pem@) is None,
        },
{
    let cert = match openssl::x509::X509::from_pem(pem) {
        Ok(c) => c,
        Err(_) => { return None; }
    };
    let name = cert.subject_name();
    let entry = match name.entries().next() {
        Some(e) => e,
        None => { return None; }
    };
    match entry.data().as_utf8() {
        Ok(s) => Some(s.to_string()),
        Err(_) => None,
    }
}

/// Relies on `X509::from_pem`, `Asn1Time::days_from_now`,
/// `X509Ref::not_after` and `Asn1TimeRef::compare`: how the
/// certificate's expiry time compares with the current day. The answer
/// depends on the clock, so it carries no contract; any failure gives no
/// answer.
#[verifier::external_body]
fn x509_not_after_cmp_today(pem: &[u8]) -> (r: Option<core::cmp::Ordering>)
{
    let cert = match openssl::x509::X509::from_pem(pem) {
        Ok(c) => c,
        Err(_) => { return None; }
    };
    let today = match openssl::asn1::Asn1Time::days_from_now(0) {
        Ok(t) => t,
        Err(_) => { return None; }
    };
    cert.not_after().compare(&today).ok()
}

/// The expiry decision on a date comparison's outcome: only a definite
/// "the expiry time lies after today" counts as not expired; at or
/// before today, and every failure to get an answer, count as expired —
/// fail-closed.
pub fn expired_given(cmp: Option<core::cmp::Ordering>) -> (r: bool)
    ensures
        r == !(cmp == Some(core::cmp::Ordering::Greater)),
{
    match cmp {
        Some(core::cmp::Ordering::Less) => true,
        Some(core::cmp::Ordering::Equal) => true,
        Some(core::cmp::Ordering::Greater) => false,
        None => true,
    }
}

/// One accepted request, immutable once built.
pub struct Client<S> {
    /// A duplicate of the shared application state.
    pub state: S,
    /// The parsed request URL.
    pub url: url::Url,
    cert: Option<Vec<u8>>,
    query: Option<String>,
    params: Vec<(String, String)>,
    ip: String,
}

/// What a percent-encoded query decodes to: the decoded text when the
/// decoded bytes are valid UTF-8, and nothing otherwise.
pub open spec fn spec_decoded_query(q: Seq<char>) -> Option<Seq<char>> {
    let d = percent_decode_bytes(encode_utf8(q));
    if valid_utf8(d) {
        Some(crate::text::text_of(d))
    } else {
        None
    }
}

/// Percent-decode a query string, per [`spec_decoded_query`].
pub fn decode_query(q: &str) -> (r: Option<String>)
    ensures
        match r {
            Some(s) => spec_decoded_query(q@) == Some(s@),
            None => spec_decoded_query(q@) is None,
        },
{
    let d = percent_decode(q.as_bytes());
    let ghost db = d@;
    match bytes_to_string(d) {
        Some(s) => {
            proof {
                crate::text::lemma_text_of_encoding(s@);
            }
            Some(s)
        }
        None => None,
    }
}

impl<S> Client<S> {
    /// The shared-state duplicate this request carries.
    pub closed spec fn spec_state(&self) -> S {
        self.state
    }

    /// The parsed request URL.
    pub closed spec fn spec_url(&self) -> url::Url {
        self.url
    }

    /// The peer certificate's PEM bytes, when one was presented.
    pub closed spec fn spec_cert_pem(&self) -> Option<Seq<u8>> {
        match self.cert {
            Some(pem) => Some(pem@),
            None => None,
        }
    }

    /// Whether the peer presented a certificate.
    pub closed spec fn spec_has_cert(&self) -> bool {
        self.cert is Some
    }

    /// The raw query string read from the URL at construction, if any.
    pub closed spec fn spec_query(&self) -> Option<Seq<char>> {
        match self.query {
            Some(q) => Some(q@),
            None => None,
        }
    }

    /// The route capture bindings, name to matched text, outermost first.
    pub closed spec fn spec_params(&self) -> Seq<(Seq<char>, Seq<char>)> {
        self.params.deep_view()
    }

    /// The peer address text.
    pub closed spec fn spec_ip(&self) -> Seq<char> {
        self.ip@
    }

    /// Bundle one request's data. The raw query string, if the URL has
    /// one, is read out of the URL here, so the rest of the client's
    /// life works on plain values.
    pub fn new(
        state: S,
        url: url::Url,
        cert: Option<Vec<u8>>,
        params: Vec<(String, String)>,
        ip: String,
    ) -> (r: Client<S>)
        ensures
            r.spec_state() == state,
            r.spec_url() == url,
            r.spec_cert_pem() == (match cert {
                Some(pem) => Some(pem@),
                None => None::<Seq<u8>>,
            }),
            r.spec_has_cert() == (cert is Some),
            r.spec_params() == params.deep_view(),
            r.spec_ip() == ip@,
    {
        let query = url_query_string(&url);
        Client { state, url, cert, query, params, ip }
    }

    /// The value of a route capture.
    ///
    /// Asking for a name the matched template does not bind is a
    /// programming error — a route/handler mismatch — and is never
    /// answered with a default: the precondition excludes it, so no
    /// verified caller can make the call, and a caller outside
    /// verification that does aborts at the unreachable arm below.
    pub fn parameter(&self, key: &str) -> (r: String)
        requires
            exists|i: int|
                0 <= i < self.spec_params().len() && #[trigger] self.spec_params()[i].0 == key@,
        ensures
            exists|i: int|
                {
                    &&& 0 <= i < self.spec_params().len()
                    &&& #[trigger] self.spec_params()[i].0 == key@
                    &&& r@ == self.spec_params()[i].1
                    &&& forall|t: int| 0 <= t < i ==> self.spec_params()[t].0 != key@
                },
    {
        let keys = String::from_str(key);
        let mut i: usize = 0;
        while i < self.params.len()
            invariant
                keys@ == key@,
                i <= self.params.len(),
                exists|t: int|
                    i <= t < self.spec_params().len() && #[trigger] self.spec_params()[t].0
                        == key@,
                forall|t: int| 0 <= t < i ==> self.spec_params()[t].0 != key@,
            decreases self.params.len() - i,
        {
            if self.params[i].0 == keys {
                proof {
                    assert(self.spec_params()[i as int] == (
                        self.params@[i as int].0@,
                        self.params@[i as int].1@,
                    ));
                    assert(self.spec_params()[i as int].0 == key@);
                }
                return self.params[i].1.clone();
            }
            proof {
                assert(self.spec_params()[i as int] == (
                    self.params@[i as int].0@,
                    self.params@[i as int].1@,
                ));
            }
            i = i + 1;
        }
        proof {
            assert(false);
        }
        vstd::pervasive::unreached()
    }

    /// The percent-decoded query string: the exact decoding of the query
    /// the URL carried, per [`spec_decoded_query`]; nothing without a
    /// query or when the decoded bytes are not UTF-8.
    pub fn input(&self) -> (r: Option<String>)
        ensures
            match self.spec_query() {
                None => r is None,
                Some(q) => (match r {
                    Some(s) => spec_decoded_query(q) == Some(s@),
                    None => spec_decoded_query(q) is None,
                }),
            },
    {
        match &self.query {
            Some(q) => decode_query(q.as_str()),
            None => None,
        }
    }

    /// The peer's certificate as PEM text: exactly the carried PEM bytes
    /// as a string, when a certificate was presented and its bytes are
    /// valid UTF-8.
    pub fn ident_get(&self) -> (r: Option<String>)
        ensures
            match self.spec_cert_pem() {
                None => r is None,
                Some(pem) => (match r {
                    Some(s) => valid_utf8(pem) && encode_utf8(s@) == pem,
                    None => !valid_utf8(pem),
                }),
            },
    {
        match &self.cert {
            Some(pem) => bytes_to_string(vstd::slice::slice_to_vec(pem.as_slice())),
            None => None,
        }
    }

    /// Whether the connection's certificate is signed by the public key
    /// of the certificate in `other_cert`: exactly when the OpenSSL
    /// verification over the two PEM byte strings answers yes. Every
    /// failure — no certificate, unparseable input, key extraction or
    /// verification error — answers `false`, indistinguishably.
    pub fn ident_verify(&self, other_cert: &str) -> (r: bool)
        ensures
            !self.spec_has_cert() ==> r == false,
            self.spec_has_cert() ==> r == (signed_by_of(
                self.spec_cert_pem()->Some_0,
                encode_utf8(other_cert@),
            ) == Some(true)),
    {
        match &self.cert {
            Some(pem) => match x509_signed_by(pem.as_slice(), other_cert.as_bytes()) {
                Some(verified) => verified,
                None => false,
            },
            None => false,
        }
    }

    /// The first subject-name entry of the peer's certificate: exactly
    /// what the OpenSSL subject lookup reads out of the carried PEM
    /// bytes, when a certificate was presented.
    pub fn ident_name(&self) -> (r: Option<String>)
        ensures
            match self.spec_cert_pem() {
                None => r is None,
                Some(pem) => (match r {
                    Some(s) => subject_name_of(pem) == Some(s@),
                    None => subject_name_of(pem) is None,
                }),
            },
    {
        match &self.cert {
            Some(pem) => x509_subject_first_utf8(pem.as_slice()),
            None => None,
        }
    }

    /// Whether the peer's certificate is expired: its expiry time is at
    /// or before the current day. The date comparison depends on the
    /// clock; the decision on its outcome is [`expired_given`], so no
    /// certificate, and any error while parsing, reading the clock or
    /// comparing dates, all count as expired — fail-closed.
    pub fn ident_expired(&self) -> (r: bool)
        ensures
            !self.spec_has_cert() ==> r == true,
    {
        match &self.cert {
            Some(pem) => expired_given(x509_not_after_cmp_today(pem.as_slice())),
            None => true,
        }
    }

    /// The peer's address text.
    pub fn ip(&self) -> (r: &String)
        ensures
            r@ == self.spec_ip(),
    {
        &self.ip
    }
}

} // verus!
