//! Percent-decoding of request paths and queries, and the bridge from
//! decoded bytes back to text.

use vstd::prelude::*;
use vstd::utf8::{valid_utf8, encode_utf8, decode_utf8};

verus! {

/// The escape byte, `%`.
pub const PERCENT: u8 = 37;

/// Whether a byte is an ASCII hexadecimal digit.
pub open spec fn is_hex_digit(b: u8) -> bool {
    (48 <= b && b <= 57) || (65 <= b && b <= 70) || (97 <= b && b <= 102)
}

/// The value of an ASCII hexadecimal digit.
pub open spec fn hex_val(b: u8) -> u8 {
    if 48 <= b && b <= 57 {
        (b - 48) as u8
    } else if 65 <= b && b <= 70 {
        (b - 55) as u8
    } else {
        (b - 87) as u8
    }
}

/// Percent-decoding: `%` followed by two hexadecimal digits becomes the
/// byte they spell; a `%` whose first following byte is a digit but whose
/// second is not keeps the `%` and the digit, and scanning resumes at the
/// second; a `%` followed by a non-digit keeps only the `%`; a `%` with
/// fewer than two bytes after it is kept verbatim with the rest. Every
/// other byte is copied unchanged.
pub open spec fn percent_decode_bytes(s: Seq<u8>) -> Seq<u8>
    decreases s.len(),
{
    if s.len() == 0 {
        Seq::empty()
    } else if s[0] == PERCENT {
        if s.len() >= 3 && is_hex_digit(s[1]) && is_hex_digit(s[2]) {
            seq![(hex_val(s[1]) * 16 + hex_val(s[2])) as u8] + percent_decode_bytes(s.skip(3))
        } else if s.len() >= 3 && is_hex_digit(s[1]) {
            seq![PERCENT, s[1]] + percent_decode_bytes(s.skip(2))
        } else if s.len() >= 3 {
            seq![PERCENT] + percent_decode_bytes(s.skip(1))
        } else {
            s
        }
    } else {
        seq![s[0]] + percent_decode_bytes(s.skip(1))
    }
}

/// The value of a byte as a hexadecimal digit, if it is one.
fn hex_digit_val(b: u8) -> (r: Option<u8>)
    ensures
        match r {
            Some(v) => is_hex_digit(b) && v == hex_val(b),
            None => !is_hex_digit(b),
        },
{
    if 48 <= b && b <= 57 {
        Some(b - 48)
    } else if 65 <= b && b <= 70 {
        Some(b - 55)
    } else if 97 <= b && b <= 102 {
        Some(b - 87)
    } else {
        None
    }
}

/// Percent-decode a byte sequence, per [`percent_decode_bytes`].
pub fn percent_decode(s: &[u8]) -> (r: Vec<u8>)
    ensures
        r@ == percent_decode_bytes(s@),
{
    let mut out: Vec<u8> = Vec::new();
    let mut i: usize = 0;
    proof {
        assert(s@.skip(0) =~= s@);
    }
    while i < s.len()
        invariant
            i <= s.len(),
            percent_decode_bytes(s@) == out@ + percent_decode_bytes(s@.skip(i as int)),
        decreases s.len() - i,
    {
        let ghost pre = out@;
        let ghost suf = s@.skip(i as int);
        proof {
            assert(suf[0] == s@[i as int]);
        }
        if s[i] == PERCENT {
            if s.len() - i > 2 {
                proof {
                    assert(suf.len() >= 3);
                    assert(suf[1] == s@[i + 1]);
                    assert(suf[2] == s@[i + 2]);
                }
                match hex_digit_val(s[i + 1]) {
                    Some(hi) => {
                        match hex_digit_val(s[i + 2]) {
                            Some(lo) => {
                                out.push(hi * 16 + lo);
                                proof {
                                    assert(suf.skip(3) =~= s@.skip(i + 3));
                                    assert(out@ + percent_decode_bytes(s@.skip(i + 3)) =~= pre
                                        + percent_decode_bytes(suf));
                                }
                                i = i + 3;
                            }
                            None => {
                                out.push(PERCENT);
                                out.push(s[i + 1]);
                                proof {
                                    assert(suf.skip(2) =~= s@.skip(i + 2));
                                    assert(out@ + percent_decode_bytes(s@.skip(i + 2)) =~= pre
                                        + percent_decode_bytes(suf));
                                }
                                i = i + 2;
                            }
                        }
                    }
                    None => {
                        out.push(PERCENT);
                        proof {
                            assert(suf.skip(1) =~= s@.skip(i + 1));
                            assert(out@ + percent_decode_bytes(s@.skip(i + 1)) =~= pre
                                + percent_decode_bytes(suf));
                        }
                        i = i + 1;
                    }
                }
            } else {
                // fewer than two bytes follow the escape: keep the rest verbatim
                out.push(PERCENT);
                let mut j: usize = i + 1;
                while j < s.len()
                    invariant
                        i + 1 <= j <= s.len(),
                        out@ == pre + s@.skip(i as int).take(j - i),
                    decreases s.len() - j,
                {
                    out.push(s[j]);
                    proof {
                        assert(s@.skip(i as int).take(j + 1 - i) =~= s@.skip(i as int).take(
                            j - i,
                        ).push(s@[j as int]));
                    }
                    j = j + 1;
                }
                proof {
                    assert(s@.skip(i as int).take(s.len() - i) =~= suf);
                    assert(percent_decode_bytes(suf) == suf);
                    assert(s@.skip(s@.len() as int).len() == 0);
                    assert(out@ + percent_decode_bytes(s@.skip(s@.len() as int)) =~= pre
                        + percent_decode_bytes(suf));
                }
                i = s.len();
            }
        } else {
            out.push(s[i]);
            proof {
                assert(suf.skip(1) =~= s@.skip(i + 1));
                assert(out@ + percent_decode_bytes(s@.skip(i + 1)) =~= pre + percent_decode_bytes(
                    suf,
                ));
            }
            i = i + 1;
        }
    }
    proof {
        assert(s@.skip(s@.len() as int).len() == 0);
        assert(out@ =~= percent_decode_bytes(s@));
    }
    out
}

/// An ASCII whitespace character, as trimmed from list entries.
pub open spec fn is_ascii_space(c: char) -> bool {
    c == ' ' || c == '\t' || c == '\r' || c == '\n'
}

/// The text with its leading ASCII whitespace dropped.
pub open spec fn spec_trim_front(s: Seq<char>) -> Seq<char>
    decreases s.len(),
{
    if s.len() > 0 && is_ascii_space(s[0]) {
        spec_trim_front(s.drop_first())
    } else {
        s
    }
}

/// The text with its trailing ASCII whitespace dropped.
pub open spec fn spec_trim_back(s: Seq<char>) -> Seq<char>
    decreases s.len(),
{
    if s.len() > 0 && is_ascii_space(s.last()) {
        spec_trim_back(s.drop_last())
    } else {
        s
    }
}

/// The text with surrounding ASCII whitespace dropped.
pub open spec fn spec_trim(s: Seq<char>) -> Seq<char> {
    spec_trim_back(spec_trim_front(s))
}

/// Splitting text on a separator character: the pieces between the
/// separators, in order; the empty text is one empty piece.
pub open spec fn spec_split_chars(s: Seq<char>, sep: char) -> Seq<Seq<char>>
    decreases s.len(),
{
    if s.len() == 0 {
        seq![Seq::<char>::empty()]
    } else if s[0] == sep {
        seq![Seq::<char>::empty()] + spec_split_chars(s.drop_first(), sep)
    } else {
        let rest = spec_split_chars(s.drop_first(), sep);
        seq![seq![s[0]] + rest[0]] + rest.drop_first()
    }
}

/// A split always has at least one piece.
pub proof fn lemma_split_chars_len(s: Seq<char>, sep: char)
    ensures
        spec_split_chars(s, sep).len() >= 1,
    decreases s.len(),
{
    if s.len() == 0 {
    } else {
        lemma_split_chars_len(s.drop_first(), sep);
    }
}

/// Whether a character is ASCII whitespace, per [`is_ascii_space`].
fn is_space_char(c: char) -> (r: bool)
    ensures
        r == is_ascii_space(c),
{
    c == ' ' || c == '\t' || c == '\r' || c == '\n'
}

/// Trim surrounding ASCII whitespace from text, per [`spec_trim`].
pub fn trim_text(s: &str) -> (r: String)
    ensures
        r@ == spec_trim(s@),
{
    let n = s.unicode_len();
    let mut start: usize = 0;
    proof {
        assert(s@.skip(0) =~= s@);
    }
    while start < n && is_space_char(s.get_char(start))
        invariant
            start <= n,
            n == s@.len(),
            spec_trim_front(s@) == spec_trim_front(s@.skip(start as int)),
            forall|t: int| 0 <= t < start ==> is_ascii_space(s@[t]),
        decreases n - start,
    {
        proof {
            assert(s@.skip(start as int).drop_first() =~= s@.skip(start + 1));
        }
        start = start + 1;
    }
    proof {
        assert(spec_trim_front(s@) =~= s@.skip(start as int));
    }
    let mut end: usize = n;
    while end > start && is_space_char(s.get_char(end - 1))
        invariant
            start <= end <= n,
            n == s@.len(),
            spec_trim_front(s@) == s@.skip(start as int),
            spec_trim_back(s@.subrange(start as int, n as int)) == spec_trim_back(
                s@.subrange(start as int, end as int),
            ),
            start < end ==> !is_ascii_space(s@[start as int]),
        decreases end,
    {
        proof {
            let cur = s@.subrange(start as int, end as int);
            assert(cur.last() == s@[end - 1]);
            assert(cur.drop_last() =~= s@.subrange(start as int, end - 1));
        }
        end = end - 1;
    }
    proof {
        let cur = s@.subrange(start as int, end as int);
        if end > start {
            assert(cur.last() == s@[end - 1]);
        }
        assert(spec_trim_back(cur) =~= cur);
        assert(s@.skip(start as int) =~= s@.subrange(start as int, n as int));
    }
    String::from_str(s.substring_char(start, end))
}

/// Split text on a separator character, per [`spec_split_chars`].
pub fn split_text(s: &str, sep: char) -> (r: Vec<String>)
    ensures
        r.deep_view() == spec_split_chars(s@, sep),
    decreases s@.len(),
{
    let n = s.unicode_len();
    if n == 0 {
        let mut r: Vec<String> = Vec::new();
        r.push(String::new());
        proof {
            assert(r.deep_view() =~~= spec_split_chars(s@, sep));
        }
        return r;
    }
    let first = s.get_char(0);
    let rest = s.substring_char(1, n);
    proof {
        assert(rest@ =~= s@.drop_first());
    }
    if first == sep {
        let mut r = split_text(rest, sep);
        r.insert(0, String::new());
        proof {
            assert(r.deep_view() =~~= spec_split_chars(s@, sep));
        }
        r
    } else {
        let mut r = split_text(rest, sep);
        proof {
            lemma_split_chars_len(rest@, sep);
        }
        let head = r.remove(0);
        let joined = String::from_str(s.substring_char(0, 1)).concat(head.as_str());
        r.insert(0, joined);
        proof {
            assert(s@.subrange(0, 1) =~= seq![s@[0]]);
            assert(r.deep_view() =~~= spec_split_chars(s@, sep));
        }
        r
    }
}

/// Relies on `String::from_utf8`: it returns the string holding exactly
/// the given bytes when they are valid UTF-8, and fails otherwise.
#[verifier::external_body]
pub(crate) fn bytes_to_string(v: Vec<u8>) -> (r: Option<String>)
    ensures
        r is Some <==> valid_utf8(v@),
        r is Some ==> encode_utf8(r->Some_0@) == v@,
{
    String::from_utf8(v).ok()
}

/// The text of a byte sequence: the characters it decodes to when it is
/// valid UTF-8.
pub open spec fn text_of(v: Seq<u8>) -> Seq<char> {
    decode_utf8(v)
}

/// Decoding valid bytes gives the text whose encoding they are.
pub proof fn lemma_text_of_encoding(s: Seq<char>)
    ensures
        text_of(encode_utf8(s)) == s,
{
    vstd::utf8::encode_utf8_decode_utf8(s);
}

} // verus!
