//! The wire encoding of proxied upstream replies and of ad-hoc error
//! messages. Fetching the upstream reply is input/output and lives with
//! the caller; this module fixes the exact bytes produced from what came
//! back: its status, its content type, and its body or the failure text.

use vstd::prelude::*;
use crate::wire::{header_bytes, wire_bytes, encode_header, encode_header_of_bytes};
use vstd::utf8::encode_utf8;
use vstd::string::StrSliceExecFns;

verus! {

/// The reply for an upstream transport failure:
/// `43 http error :: {msg}`.
pub fn encode_proxy_transport_error(msg: &str) -> (r: Vec<u8>)
    ensures
        r@ == header_bytes(43, encode_utf8("http error :: "@) + encode_utf8(msg@)),
{
    let mut meta = "http error :: ".as_bytes_vec();
    meta.extend_from_slice(msg.as_bytes());
    encode_header_of_bytes(43, meta.as_slice())
}

/// The reply for an ad-hoc error message: `40 {msg}`. Meant for
/// prototyping: the message goes to the client verbatim.
pub fn encode_error_message(msg: &str) -> (r: Vec<u8>)
    ensures
        r@ == header_bytes(40, encode_utf8(msg@)),
{
    encode_header(40, msg)
}

/// The status line an upstream reply's head earns: a non-successful
/// upstream status is reported as `43 http: {status}`; a missing
/// content-type header as `43 http: invalid content type.`; one that is
/// not readable text as `43 http: content type corrupted.`; otherwise the
/// proxied reply opens with `20 {content_type}`. The error arm carries a
/// complete reply, the success arm a head still awaiting its body.
pub fn proxy_head(status_ok: bool, status_text: &str, content_type: Option<Option<String>>) -> (r:
    Result<Vec<u8>, Vec<u8>>)
    ensures
        !status_ok ==> (r matches Err(v) && v@ == header_bytes(
            43,
            encode_utf8("http: "@) + encode_utf8(status_text@),
        )),
        status_ok ==> (match content_type {
            None => r matches Err(v) && v@ == header_bytes(
                43,
                encode_utf8("http: invalid content type."@),
            ),
            Some(None) => r matches Err(v) && v@ == header_bytes(
                43,
                encode_utf8("http: content type corrupted."@),
            ),
            Some(Some(ct)) => r matches Ok(v) && v@ == header_bytes(20, encode_utf8(ct@)),
        }),
{
    if !status_ok {
        let mut meta = "http: ".as_bytes_vec();
        meta.extend_from_slice(status_text.as_bytes());
        return Err(encode_header_of_bytes(43, meta.as_slice()));
    }
    match content_type {
        None => Err(encode_header(43, "http: invalid content type.")),
        Some(None) => Err(encode_header(43, "http: content type corrupted.")),
        Some(Some(ct)) => Ok(encode_header(20, ct.as_str())),
    }
}

/// Close a proxied reply: append the fetched body to the head, or report
/// the fetch failure as `43 http: {msg}`.
pub fn proxy_finish(head: Vec<u8>, body: Result<Vec<u8>, String>) -> (r: Vec<u8>)
    ensures
        body matches Ok(b) ==> (r@ == head@ + b@),
        body matches Err(msg) ==> (r@ == header_bytes(
            43,
            encode_utf8("http: "@) + encode_utf8(msg@),
        )),
{
    match body {
        Ok(b) => {
            let mut out = head;
            out.extend_from_slice(b.as_slice());
            out
        }
        Err(msg) => {
            let mut meta = "http: ".as_bytes_vec();
            meta.extend_from_slice(msg.as_str().as_bytes());
            encode_header_of_bytes(43, meta.as_slice())
        }
    }
}

/// A whole proxied reply already in hand — a status, its meta text and
/// its raw content, as another server sent them — re-encoded verbatim.
pub fn encode_proxied_response(status: u8, meta: &str, content: Vec<u8>) -> (r: Vec<u8>)
    ensures
        r@ == wire_bytes(status, encode_utf8(meta@), content@),
{
    let mut out = encode_header(status, meta);
    out.extend_from_slice(content.as_slice());
    out
}

} // verus!
