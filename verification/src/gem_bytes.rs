//! The response encoder: a single capability, "convert a value into wire
//! bytes", implemented for primitive and composite value shapes so handler
//! return values become valid responses without hand-written serialization.

use vstd::prelude::*;
use crate::wire::{header_bytes, wire_bytes, encode_header, encode_response};
use vstd::utf8::encode_utf8;

verus! {

/// A value that can be rendered as a wire response.
///
/// `gem_view` is the mathematical byte sequence the value stands for;
/// `gem_bytes` produces exactly those bytes.
pub trait GemBytes: Sized {
    /// The wire bytes this value encodes to.
    spec fn gem_view(self) -> Seq<u8>;

    /// Render this value as a wire response.
    fn gem_bytes(self) -> (r: Vec<u8>)
        ensures
            r@ == self.gem_view(),
    ;
}

/// The decimal digits of a natural number, most significant first.
pub open spec fn decimal_digits(n: nat) -> Seq<u8>
    decreases n,
{
    if n < 10 {
        seq![(48 + n) as u8]
    } else {
        decimal_digits(n / 10) + seq![(48 + n % 10) as u8]
    }
}

/// Append the decimal digits of `n` to `out`.
pub fn push_decimal_u32(out: &mut Vec<u8>, n: u32)
    ensures
        final(out)@ == old(out)@ + decimal_digits(n as nat),
    decreases n,
{
    if n < 10 {
        out.push(48 + n as u8);
        assert(out@ =~= old(out)@ + decimal_digits(n as nat));
    } else {
        push_decimal_u32(out, n / 10);
        out.push(48 + (n % 10) as u8);
        assert(out@ =~= old(out)@ + decimal_digits(n as nat));
    }
}

/// Text renders as a successful `text/gemini` document whose body is the
/// text itself.
impl GemBytes for String {
    open spec fn gem_view(self) -> Seq<u8> {
        wire_bytes(20, encode_utf8("text/gemini"@), encode_utf8(self@))
    }

    fn gem_bytes(self) -> (r: Vec<u8>) {
        encode_response(20, "text/gemini", self.as_str().as_bytes())
    }
}

/// Borrowed text renders exactly as owned text does.
impl GemBytes for &str {
    open spec fn gem_view(self) -> Seq<u8> {
        wire_bytes(20, encode_utf8("text/gemini"@), encode_utf8(self@))
    }

    fn gem_bytes(self) -> (r: Vec<u8>) {
        encode_response(20, "text/gemini", self.as_bytes())
    }
}

/// A byte sequence is taken to already be in wire form and is passed
/// through unchanged.
impl GemBytes for Vec<u8> {
    open spec fn gem_view(self) -> Seq<u8> {
        self@
    }

    fn gem_bytes(self) -> (r: Vec<u8>) {
        self
    }
}

/// A number renders as a `text/gemini` document holding its decimal digits.
impl GemBytes for u32 {
    open spec fn gem_view(self) -> Seq<u8> {
        wire_bytes(20, encode_utf8("text/gemini"@), decimal_digits(self as nat))
    }

    fn gem_bytes(self) -> (r: Vec<u8>) {
        let mut digits: Vec<u8> = Vec::new();
        push_decimal_u32(&mut digits, self);
        encode_response(20, "text/gemini", digits.as_slice())
    }
}

/// The unit value marks a route that returns nothing yet: a temporary
/// failure with a fixed meta.
impl GemBytes for () {
    open spec fn gem_view(self) -> Seq<u8> {
        header_bytes(40, encode_utf8("This route returns nothing yet."@))
    }

    fn gem_bytes(self) -> (r: Vec<u8>) {
        encode_header(40, "This route returns nothing yet.")
    }
}

/// `true` renders as a successful text document reading "True."; `false`
/// as a temporary failure with meta "False.".
impl GemBytes for bool {
    open spec fn gem_view(self) -> Seq<u8> {
        if self {
            wire_bytes(20, encode_utf8("text/gemini"@), encode_utf8("True."@))
        } else {
            header_bytes(40, encode_utf8("False."@))
        }
    }

    fn gem_bytes(self) -> (r: Vec<u8>) {
        if self {
            encode_response(20, "text/gemini", "True.".as_bytes())
        } else {
            encode_header(40, "False.")
        }
    }
}

/// A present value encodes as the value itself; an absent one as status 40
/// with meta "None.".
impl<T: GemBytes> GemBytes for Option<T> {
    open spec fn gem_view(self) -> Seq<u8> {
        match self {
            Some(t) => t.gem_view(),
            None => header_bytes(40, encode_utf8("None."@)),
        }
    }

    fn gem_bytes(self) -> (r: Vec<u8>) {
        match self {
            Some(t) => t.gem_bytes(),
            None => encode_header(40, "None."),
        }
    }
}

/// Either arm of a result encodes as that arm's own encoding, so
/// application error shapes take part in the same response pipeline as
/// success values.
impl<T: GemBytes, E: GemBytes> GemBytes for Result<T, E> {
    open spec fn gem_view(self) -> Seq<u8> {
        match self {
            Ok(t) => t.gem_view(),
            Err(e) => e.gem_view(),
        }
    }

    fn gem_bytes(self) -> (r: Vec<u8>) {
        match self {
            Ok(t) => t.gem_bytes(),
            Err(e) => e.gem_bytes(),
        }
    }
}

/// A `(status, meta)` pair renders as a bare status line with no body.
impl GemBytes for (u8, String) {
    open spec fn gem_view(self) -> Seq<u8> {
        header_bytes(self.0, encode_utf8(self.1@))
    }

    fn gem_bytes(self) -> (r: Vec<u8>) {
        encode_header(self.0, self.1.as_str())
    }
}

/// A `(status, meta)` pair of borrowed text renders as a bare status line.
impl GemBytes for (u8, &str) {
    open spec fn gem_view(self) -> Seq<u8> {
        header_bytes(self.0, encode_utf8(self.1@))
    }

    fn gem_bytes(self) -> (r: Vec<u8>) {
        encode_header(self.0, self.1)
    }
}

/// A `(status, meta, body)` triple renders as the status line followed by
/// the body text.
impl GemBytes for (u8, String, String) {
    open spec fn gem_view(self) -> Seq<u8> {
        wire_bytes(self.0, encode_utf8(self.1@), encode_utf8(self.2@))
    }

    fn gem_bytes(self) -> (r: Vec<u8>) {
        encode_response(self.0, self.1.as_str(), self.2.as_str().as_bytes())
    }
}

/// A `(status, meta, body)` triple of borrowed text renders as the status
/// line followed by the body text.
impl GemBytes for (u8, &str, &str) {
    open spec fn gem_view(self) -> Seq<u8> {
        wire_bytes(self.0, encode_utf8(self.1@), encode_utf8(self.2@))
    }

    fn gem_bytes(self) -> (r: Vec<u8>) {
        encode_response(self.0, self.1, self.2.as_bytes())
    }
}

/// An absent optional value always encodes to status 40 with meta "None.",
/// whatever the wrapped type.
pub proof fn lemma_absent_option_encoding<T: GemBytes>(x: Option<T>)
    requires
        x is None,
    ensures
        x.gem_view() == header_bytes(40, encode_utf8("None."@)),
{
}

/// Encoding a byte sequence that is already in wire form returns the
/// identical bytes, whatever they hold.
pub proof fn lemma_wire_form_idempotent(x: Vec<u8>)
    ensures
        x.gem_view() == x@,
{
}

} // verus!
