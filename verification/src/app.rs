//! The application: configuration, route registration, and the
//! per-connection request pipeline from raw request bytes to wire
//! response bytes.
//!
//! The listener itself — binding, TLS negotiation, reading and writing
//! sockets, and spawning one task per connection — is input/output and
//! lives with the caller; this module fixes what is computed in between:
//! request-line validation, percent-decoding, routing, handler dispatch
//! and the not-found reply.

use vstd::prelude::*;
use crate::client::Client;
use crate::err::{AppErr, StreamErr};
use crate::gem_call::GemCall;
use crate::router::{Router, SegView, spec_handler_at, spec_can_insert, spec_compatible, spec_resolve, pattern_of, parse_template, split_bytes, spec_split, SLASH};
use crate::text::{bytes_to_string, percent_decode, percent_decode_bytes, split_text, trim_text, spec_split_chars, spec_trim};
use crate::urls::{parse_with_path, url_parse_error_text, url_parses, url_path_of};
use crate::wire::{CR, LF, header_bytes, encode_header};
use vstd::utf8::{valid_utf8, encode_utf8, decode_utf8};
use vstd::pervasive::cloned;
use vstd::string::StringExecFns;

verus! {

/// The most bytes a request may hold: a 1024-byte line plus CRLF.
pub const MAX_REQUEST: usize = 1026;

/// An application: its bind address, certificate material, not-found
/// message, shared state and routes. Built by chaining, then consumed by
/// the caller's accept loop.
pub struct App<S, H> {
    /// The shared application state, duplicated into each request.
    pub state: S,
    /// The address to bind.
    pub address: String,
    /// The message served when no route matches.
    pub not_found: String,
    /// The registered routes.
    pub routes: Router<H>,
    /// Path to the private-key file.
    pub key: String,
    /// Path to the certificate file.
    pub cert: String,
}

impl<H> Default for App<(), H> {
    /// A stateless application with nothing registered, serving on the
    /// default loopback address with the default keypair paths.
    fn default() -> (r: Self)
        ensures
            r.address@ == "127.0.0.1:1965"@,
            r.not_found@ == "Page not found."@,
            r.key@ == "key.pem"@,
            r.cert@ == "cert.pem"@,
            forall|q: Seq<SegView>| #[trigger] spec_handler_at(r.routes.root, q) is None,
            forall|q: Seq<SegView>| #[trigger] spec_can_insert(r.routes.root, q),
    {
        App {
            state: (),
            address: String::from_str("127.0.0.1:1965"),
            not_found: String::from_str("Page not found."),
            routes: Router::new(),
            key: String::from_str("key.pem"),
            cert: String::from_str("cert.pem"),
        }
    }
}

impl<S, H> App<S, H> {
    /// Register a handler under a path template. The template must not
    /// conflict with one already registered: a duplicate registration is
    /// a configuration bug and is ruled out at this boundary.
    pub fn route(self, path: &str, handler: H) -> (r: Self)
        requires
            spec_can_insert(self.routes.root, pattern_of(encode_utf8(path@))),
        ensures
            r.state == self.state,
            r.address == self.address,
            r.not_found == self.not_found,
            r.key == self.key,
            r.cert == self.cert,
            forall|q: Seq<SegView>| #[trigger] spec_handler_at(r.routes.root, q) == (if q
                == pattern_of(encode_utf8(path@)) {
                Some(handler)
            } else {
                spec_handler_at(self.routes.root, q)
            }),
            forall|q: Seq<SegView>| #[trigger] spec_can_insert(r.routes.root, q) == (
            spec_can_insert(self.routes.root, q) && spec_compatible(
                pattern_of(encode_utf8(path@)),
                q,
            )),
    {
        let segments = parse_template(path.as_bytes());
        let mut routes = self.routes;
        match routes.insert(&segments, handler) {
            Ok(()) => App {
                state: self.state,
                address: self.address,
                not_found: self.not_found,
                routes,
                key: self.key,
                cert: self.cert,
            },
            Err(_) => {
                proof {
                    assert(false);
                }
                vstd::pervasive::unreached()
            }
        }
    }

    /// Replace the application state, starting over with no routes.
    pub fn state<T>(self, state: T) -> (r: App<T, H>)
        ensures
            r.state == state,
            r.address == self.address,
            r.not_found == self.not_found,
            r.key == self.key,
            r.cert == self.cert,
            forall|q: Seq<SegView>| #[trigger] spec_handler_at(r.routes.root, q) is None,
            forall|q: Seq<SegView>| #[trigger] spec_can_insert(r.routes.root, q),
    {
        App {
            state,
            address: self.address,
            not_found: self.not_found,
            routes: Router::new(),
            key: self.key,
            cert: self.cert,
        }
    }
}

/// What certificate provisioning must do before the server starts, given
/// which keypair files exist: with both present there is nothing to do,
/// with both absent a new pair is generated, and a half-present pair is
/// always fatal — never silently regenerated.
pub fn keypair_action(cert_exists: bool, key_exists: bool) -> (r: Result<bool, AppErr>)
    ensures
        cert_exists && key_exists ==> r == Ok::<bool, AppErr>(false),
        !cert_exists && !key_exists ==> r == Ok::<bool, AppErr>(true),
        cert_exists != key_exists ==> r == Err::<bool, AppErr>(AppErr::RcGenStop),
{
    if cert_exists && key_exists {
        Ok(false)
    } else if !cert_exists && !key_exists {
        Ok(true)
    } else {
        Err(AppErr::RcGenStop)
    }
}

/// Each piece trimmed of surrounding ASCII whitespace, piece by piece.
pub open spec fn trimmed_all(pieces: Seq<Seq<char>>) -> Seq<Seq<char>> {
    Seq::new(pieces.len(), |k: int| spec_trim(pieces[k]))
}

/// The entries of a comma-separated domain list: the text split on
/// commas, each entry trimmed of surrounding ASCII whitespace.
pub open spec fn spec_domain_entries(s: Seq<char>) -> Seq<Seq<char>> {
    trimmed_all(spec_split_chars(s, ','))
}

/// Read the domain list certificate generation was given: with every
/// entry empty the list is fatally rejected; otherwise the first entry
/// is the subject name — even when it is empty — and the remaining
/// entries, in reverse order of entry, are the alternative names.
pub fn parse_domains(input: &str) -> (r: Result<(String, Vec<String>), AppErr>)
    ensures
        ({
            let ds = spec_domain_entries(input@);
            if forall|k: int| 0 <= k < ds.len() ==> (#[trigger] ds[k]).len() == 0 {
                r == Err::<(String, Vec<String>), AppErr>(AppErr::RcGenNoDomains)
            } else {
                r matches Ok(p) && p.0@ == ds[0] && p.1.deep_view() == ds.drop_first().reverse()
            }
        }),
{
    let ghost ds = spec_domain_entries(input@);
    let pieces = split_text(input, ',');
    let mut entries: Vec<String> = Vec::new();
    let mut i: usize = 0;
    while i < pieces.len()
        invariant
            i <= pieces.len(),
            pieces.deep_view() == spec_split_chars(input@, ','),
            entries.deep_view() =~~= trimmed_all(pieces.deep_view().take(i as int)),
        decreases pieces.len() - i,
    {
        proof {
            assert(entries.deep_view().len() == trimmed_all(
                pieces.deep_view().take(i as int),
            ).len());
            assert(pieces.deep_view().take(i as int).len() == i);
            assert(entries@.len() == i);
        }
        entries.push(trim_text(pieces[i].as_str()));
        proof {
            assert(pieces.deep_view()[i as int] =~= pieces@[i as int]@);
            assert(entries.deep_view()[i as int] == spec_trim(pieces.deep_view()[i as int]));
            assert(forall|k: int|
                0 <= k < i ==> entries.deep_view()[k] == trimmed_all(
                    pieces.deep_view().take(i as int),
                )[k]);
        }
        assert(entries.deep_view() =~~= trimmed_all(pieces.deep_view().take(i + 1)));
        i = i + 1;
    }
    proof {
        assert(pieces.deep_view().take(pieces.len() as int) =~~= pieces.deep_view());
        assert(entries.deep_view() =~~= ds);
        crate::text::lemma_split_chars_len(input@, ',');
    }
    let mut all_empty = true;
    let mut j: usize = 0;
    while j < entries.len()
        invariant
            j <= entries.len(),
            entries.deep_view() == ds,
            all_empty == (forall|k: int| 0 <= k < j ==> (#[trigger] ds[k]).len() == 0),
        decreases entries.len() - j,
    {
        if !entries[j].as_str().is_empty() {
            all_empty = false;
            proof {
                assert(ds[j as int] == entries@[j as int]@);
                assert(ds[j as int].len() > 0);
            }
        } else {
            proof {
                assert(ds[j as int] == entries@[j as int]@);
            }
        }
        j = j + 1;
    }
    if all_empty {
        return Err(AppErr::RcGenNoDomains);
    }
    let subject = entries[0].clone();
    let mut alts: Vec<String> = Vec::new();
    let mut t: usize = entries.len();
    while t > 1
        invariant
            1 <= t <= entries.len(),
            entries.deep_view() == ds,
            ds.len() == entries@.len(),
            alts.deep_view() =~~= Seq::new(
                (entries@.len() - t) as nat,
                |k: int| ds[entries@.len() - 1 - k],
            ),
        decreases t,
    {
        proof {
            assert(alts.deep_view().len() == Seq::new(
                (entries@.len() - t) as nat,
                |k: int| ds[entries@.len() - 1 - k],
            ).len());
            assert(alts@.len() == entries@.len() - t);
        }
        let ghost old_dv = alts.deep_view();
        alts.push(entries[t - 1].clone());
        proof {
            assert(entries@[t - 1]@ == ds[t - 1]);
            assert(alts.deep_view()[entries@.len() - t] == alts@[entries@.len() - t]@);
            assert(alts.deep_view()[entries@.len() - t] == ds[t - 1]);
            assert(forall|k: int|
                0 <= k < old_dv.len() ==> alts.deep_view()[k] == old_dv[k]);
            assert forall|k: int|
                0 <= k < entries@.len() - t implies alts.deep_view()[k] == ds[entries@.len() - 1
                - k] by {
                assert(alts.deep_view()[k] == old_dv[k]);
                assert(old_dv[k] == Seq::new(
                    (entries@.len() - t) as nat,
                    |k2: int| ds[entries@.len() - 1 - k2],
                )[k]);
                assert(Seq::new(
                    (entries@.len() - t) as nat,
                    |k2: int| ds[entries@.len() - 1 - k2],
                )[k] == ds[entries@.len() - 1 - k]);
            }
            assert(alts.deep_view() =~~= Seq::new(
                (entries@.len() - (t - 1)) as nat,
                |k: int| ds[entries@.len() - 1 - k],
            ));
        }
        t = t - 1;
    }
    proof {
        assert(subject@ == ds[0]);
        assert(alts.deep_view() =~~= ds.drop_first().reverse());
    }
    Ok((subject, alts))
}

/// The request line of a raw read, when it is well-formed: at most
/// [`MAX_REQUEST`] bytes ending in CRLF, giving the bytes before the
/// terminator.
pub open spec fn spec_request_line(raw: Seq<u8>) -> Option<Seq<u8>> {
    if 2 <= raw.len() <= 1026 && raw[raw.len() - 2] == CR && raw[raw.len() - 1] == LF {
        Some(raw.take(raw.len() - 2))
    } else {
        None
    }
}

/// Validate a raw request read and strip its CRLF terminator, per
/// [`spec_request_line`]. A request over the maximum length is a
/// protocol violation and never reaches routing.
pub fn request_line(raw: &[u8]) -> (r: Result<Vec<u8>, StreamErr>)
    ensures
        match r {
            Ok(line) => spec_request_line(raw@) == Some(line@),
            Err(e) => spec_request_line(raw@) is None && e == StreamErr::Malformed,
        },
{
    let n = raw.len();
    if n < 2 || n > MAX_REQUEST {
        return Err(StreamErr::Malformed);
    }
    if raw[n - 2] != CR || raw[n - 1] != LF {
        return Err(StreamErr::Malformed);
    }
    Ok(vstd::slice::slice_to_vec(vstd::slice::slice_subrange(raw, 0, n - 2)))
}

/// What the route captures decode to: each name and each matched segment
/// as text, when all of them are valid UTF-8, and nothing otherwise.
pub open spec fn decoded_captures(caps: Seq<(Seq<u8>, Seq<u8>)>) -> Option<
    Seq<(Seq<char>, Seq<char>)>,
>
    decreases caps.len(),
{
    if caps.len() == 0 {
        Some(Seq::empty())
    } else if valid_utf8(caps[0].0) && valid_utf8(caps[0].1) {
        match decoded_captures(caps.drop_first()) {
            Some(rest) => Some(
                seq![(decode_utf8(caps[0].0), decode_utf8(caps[0].1))] + rest,
            ),
            None => None,
        }
    } else {
        None
    }
}

/// Decode route captures to text, per [`decoded_captures`].
fn decode_captures_from(caps: &Vec<(Vec<u8>, Vec<u8>)>, i: usize) -> (r: Option<
    Vec<(String, String)>,
>)
    requires
        i <= caps.len(),
    ensures
        match r {
            Some(out) => decoded_captures(caps.deep_view().skip(i as int)) == Some(out.deep_view()),
            None => decoded_captures(caps.deep_view().skip(i as int)) is None,
        },
    decreases caps.len() - i,
{
    let ghost cv = caps.deep_view().skip(i as int);
    if i == caps.len() {
        proof {
            assert(cv.len() == 0);
        }
        let out: Vec<(String, String)> = Vec::new();
        proof {
            assert(out.deep_view() =~~= Seq::<(Seq<char>, Seq<char>)>::empty());
        }
        Some(out)
    } else {
        proof {
            assert(cv.len() == caps.len() - i);
            assert(cv[0] == caps.deep_view()[i as int]);
            assert(caps.deep_view()[i as int] == (caps@[i as int].0@, caps@[i as int].1@));
            assert(cv.drop_first() =~~= caps.deep_view().skip(i + 1));
        }
        let name = bytes_to_string(vstd::slice::slice_to_vec(caps[i].0.as_slice()));
        let text = bytes_to_string(vstd::slice::slice_to_vec(caps[i].1.as_slice()));
        match (name, text) {
            (Some(name), Some(text)) => {
                proof {
                    crate::text::lemma_text_of_encoding(name@);
                    crate::text::lemma_text_of_encoding(text@);
                }
                match decode_captures_from(caps, i + 1) {
                    Some(mut rest) => {
                        rest.insert(0, (name, text));
                        proof {
                            assert(rest.deep_view() =~~= seq![
                                (decode_utf8(cv[0].0), decode_utf8(cv[0].1)),
                            ] + decoded_captures(cv.drop_first())->Some_0);
                        }
                        Some(rest)
                    }
                    None => None,
                }
            }
            _ => None,
        }
    }
}

/// What answering a raw URL path must produce: the path is
/// percent-decoded; bytes that are not valid UTF-8 are a decode error;
/// otherwise the decoded path, split on `/`, goes through the routes,
/// and an unmatched path earns exactly the not-found line, a matched one
/// the matched handler's response on a [`Client`] carrying the URL, the
/// certificate, the decoded captures, the peer address and a duplicate
/// of the state. The URL value is pinned when the caller has it in hand;
/// a caller that only knows the request text leaves it open.
#[verifier::inline]
pub open spec fn spec_path_response<S: Clone, H: GemCall<S>>(
    app: App<S, H>,
    raw_path: Seq<u8>,
    url: Option<url::Url>,
    cert: Option<Vec<u8>>,
    ip: Seq<char>,
    r: Result<Vec<u8>, StreamErr>,
) -> bool {
    let decoded = percent_decode_bytes(raw_path);
    if !valid_utf8(decoded) {
        r == Err::<Vec<u8>, StreamErr>(StreamErr::UrlDecode)
    } else {
        let segs = spec_split(decoded, SLASH);
        match spec_resolve(app.routes.root, segs) {
            None => r is Ok && r->Ok_0@ == header_bytes(51, encode_utf8(app.not_found@)),
            Some(p) => match decoded_captures(p.1) {
                None => r == Err::<Vec<u8>, StreamErr>(StreamErr::UrlDecode),
                Some(cs) => r is Ok && exists|client: Client<S>|
                    {
                        &&& #[trigger] client.spec_params() == cs
                        &&& cloned::<S>(app.state, client.spec_state())
                        &&& (match url {
                            Some(u) => client.spec_url() == u,
                            None => true,
                        })
                        &&& client.spec_cert_pem() == (match cert {
                            Some(pem) => Some(pem@),
                            None => None::<Seq<u8>>,
                        })
                        &&& client.spec_has_cert() == (cert is Some)
                        &&& client.spec_ip() == ip
                        &&& r->Ok_0@ == p.0.response_view(client)
                    },
            },
        }
    }
}

impl<S: Clone, H: GemCall<S>> App<S, H> {
    /// The not-found reply: exactly status 51 with the configured message.
    pub fn respond_not_found(&self) -> (r: Vec<u8>)
        ensures
            r@ == header_bytes(51, encode_utf8(self.not_found@)),
    {
        encode_header(51, self.not_found.as_str())
    }

    /// Resolve a request's raw URL path and produce the response bytes,
    /// per [`spec_path_response`].
    pub fn respond_to_path(
        &self,
        raw_path: &[u8],
        url: url::Url,
        cert: Option<Vec<u8>>,
        ip: String,
    ) -> (r: Result<Vec<u8>, StreamErr>)
        ensures
            spec_path_response(*self, raw_path@, Some(url), cert, ip@, r),
    {
        let decoded = percent_decode(raw_path);
        let ghost decoded_view = decoded@;
        match bytes_to_string(decoded) {
            None => {
                let r = Err(StreamErr::UrlDecode);
                proof {
                    assert(spec_path_response(*self, raw_path@, Some(url), cert, ip@, r));
                }
                r
            }
            Some(path_text) => {
                let segs = split_bytes(path_text.as_str().as_bytes(), SLASH);
                proof {
                    assert(encode_utf8(path_text@) == decoded_view);
                }
                match self.routes.resolve(&segs) {
                    None => {
                        let r = Ok(self.respond_not_found());
                        proof {
                            assert(spec_path_response(*self, raw_path@, Some(url), cert, ip@, r));
                        }
                        r
                    }
                    Some((handler, captures)) => {
                        match decode_captures_from(&captures, 0) {
                            None => {
                                let r = Err(StreamErr::UrlDecode);
                                proof {
                                    assert(captures.deep_view().skip(0) =~~= captures.deep_view());
                                    assert(spec_path_response(*self, raw_path@, Some(url), cert, ip@, r));
                                }
                                r
                            }
                            Some(params) => {
                                proof {
                                    assert(captures.deep_view().skip(0) =~~= captures.deep_view());
                                }
                                let state = self.state.clone();
                                let client = Client::new(state, url, cert, params, ip);
                                let ghost gclient = client;
                                let out = handler.gem_call(client);
                                let r = Ok(out);
                                proof {
                                    assert(cloned::<S>(self.state, gclient.spec_state()));
                                    assert(gclient.spec_params() == decoded_captures(
                                        captures.deep_view(),
                                    )->Some_0);
                                    assert(out@ == handler.response_view(gclient));
                                    assert(spec_path_response(*self, raw_path@, Some(url), cert, ip@, r));
                                }
                                r
                            }
                        }
                    }
                }
            }
        }
    }

    /// Handle one connection's request: validate the raw read, interpret
    /// it as UTF-8, parse it as an absolute URL, and answer its path per
    /// [`spec_path_response`]. Per-connection failures come back as
    /// stream errors; they never touch other connections.
    pub fn handle_request(
        &self,
        raw: &[u8],
        cert: Option<Vec<u8>>,
        ip: String,
    ) -> (r: Result<Vec<u8>, StreamErr>)
        ensures
            spec_request_line(raw@) is None ==> r == Err::<Vec<u8>, StreamErr>(
                StreamErr::Malformed,
            ),
            (spec_request_line(raw@) matches Some(line) && !valid_utf8(line)) ==> r == Err::<
                Vec<u8>,
                StreamErr,
            >(StreamErr::Utf8),
            ({
                let lo = spec_request_line(raw@);
                (lo is Some && valid_utf8(lo->Some_0) && !url_parses(
                    crate::text::text_of(lo->Some_0),
                )) ==> (r matches Err(e) && e matches StreamErr::UrlParse(_))
            }),
            ({
                let lo = spec_request_line(raw@);
                (lo is Some && valid_utf8(lo->Some_0) && url_parses(
                    crate::text::text_of(lo->Some_0),
                )) ==> spec_path_response(
                    *self,
                    url_path_of(crate::text::text_of(lo->Some_0)),
                    None::<url::Url>,
                    cert,
                    ip@,
                    r,
                )
            }),
    {
        let line = match request_line(raw) {
            Ok(line) => line,
            Err(e) => {
                return Err(e);
            }
        };
        let ghost line_view = line@;
        let text = match bytes_to_string(line) {
            Some(text) => text,
            None => {
                return Err(StreamErr::Utf8);
            }
        };
        proof {
            crate::text::lemma_text_of_encoding(text@);
            assert(crate::text::text_of(line_view) == text@);
        }
        let pair = match parse_with_path(text.as_str()) {
            Ok(pair) => pair,
            Err(e) => {
                return Err(StreamErr::UrlParse(url_parse_error_text(&e)));
            }
        };
        let url = pair.0;
        let path = pair.1;
        self.respond_to_path(path.as_slice(), url, cert, ip)
    }
}

} // verus!
