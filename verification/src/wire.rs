//! The wire format of a response: a status line `"{status} {meta}\r\n"`
//! followed by the raw body bytes.

use vstd::prelude::*;

verus! {

/// Carriage return.
pub const CR: u8 = 13;

/// Line feed.
pub const LF: u8 = 10;

/// Space.
pub const SP: u8 = 32;

/// The decimal digits of a status code, most significant first, with no
/// zero padding and no sign: exactly what decimal formatting of the
/// integer prints.
pub open spec fn status_digits(status: u8) -> Seq<u8> {
    if status < 10 {
        seq![(48 + status) as u8]
    } else if status < 100 {
        seq![(48 + status / 10) as u8, (48 + status % 10) as u8]
    } else {
        seq![(48 + status / 100) as u8, (48 + (status / 10) % 10) as u8, (48 + status % 10) as u8]
    }
}

/// The status line of a response: digits, one space, the meta bytes, CRLF.
pub open spec fn header_bytes(status: u8, meta: Seq<u8>) -> Seq<u8> {
    status_digits(status) + seq![SP] + meta + seq![CR, LF]
}

/// A whole response: the status line followed by the body verbatim.
pub open spec fn wire_bytes(status: u8, meta: Seq<u8>, body: Seq<u8>) -> Seq<u8> {
    header_bytes(status, meta) + body
}

/// Append the decimal digits of `status` to `out`.
pub fn push_status_digits(out: &mut Vec<u8>, status: u8)
    ensures
        final(out)@ == old(out)@ + status_digits(status),
{
    if status < 10 {
        out.push(48 + status);
    } else if status < 100 {
        out.push(48 + status / 10);
        out.push(48 + status % 10);
    } else {
        out.push(48 + status / 100);
        out.push(48 + (status / 10) % 10);
        out.push(48 + status % 10);
    }
    assert(out@ =~= old(out)@ + status_digits(status));
}

/// Every encoded response opens with its status line and carries the
/// body only after it: the bytes before the body are exactly the header,
/// which ends in CRLF.
pub proof fn lemma_wire_bytes_shape(status: u8, meta: Seq<u8>, body: Seq<u8>)
    ensures
        wire_bytes(status, meta, body).take(header_bytes(status, meta).len() as int)
            == header_bytes(status, meta),
        wire_bytes(status, meta, body).skip(header_bytes(status, meta).len() as int) == body,
        header_bytes(status, meta).last() == LF,
        header_bytes(status, meta)[header_bytes(status, meta).len() - 2] == CR,
{
    let h = header_bytes(status, meta);
    let w = wire_bytes(status, meta, body);
    assert(w.take(h.len() as int) =~= h);
    assert(w.skip(h.len() as int) =~= body);
}

/// Compare two byte slices for equality of contents.
pub fn bytes_eq(a: &[u8], b: &[u8]) -> (r: bool)
    ensures
        r == (a@ == b@),
{
    if a.len() != b.len() {
        return false;
    }
    let mut i: usize = 0;
    while i < a.len()
        invariant
            i <= a.len(),
            a@.len() == b@.len(),
            forall|k: int| 0 <= k < i ==> a@[k] == b@[k],
        decreases a.len() - i,
    {
        if a[i] != b[i] {
            return false;
        }
        i = i + 1;
    }
    proof {
        assert(a@ =~= b@);
    }
    true
}

/// Build the status line `"{status} {meta}\r\n"` for a meta given as bytes.
pub fn encode_header_of_bytes(status: u8, meta: &[u8]) -> (r: Vec<u8>)
    ensures
        r@ == header_bytes(status, meta@),
{
    let mut out: Vec<u8> = Vec::new();
    push_status_digits(&mut out, status);
    out.push(SP);
    out.extend_from_slice(meta);
    out.push(CR);
    out.push(LF);
    assert(out@ =~= header_bytes(status, meta@));
    out
}

/// Build the status line `"{status} {meta}\r\n"`; the meta string
/// contributes its UTF-8 bytes.
pub fn encode_header(status: u8, meta: &str) -> (r: Vec<u8>)
    ensures
        r@ == header_bytes(status, vstd::utf8::encode_utf8(meta@)),
{
    encode_header_of_bytes(status, meta.as_bytes())
}

/// Build a whole response from a status, a meta string and body bytes.
pub fn encode_response(status: u8, meta: &str, body: &[u8]) -> (r: Vec<u8>)
    ensures
        r@ == wire_bytes(status, vstd::utf8::encode_utf8(meta@), body@),
{
    let mut out = encode_header(status, meta);
    out.extend_from_slice(body);
    out
}

} // verus!

