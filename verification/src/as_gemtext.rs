//! Embedding one handler's encoded response inside another's document:
//! extract the gemtext body of a successful text response, or render the
//! status line as a fenced code block.

use vstd::prelude::*;
use crate::wire::{CR, LF, bytes_eq};
use crate::text::{bytes_to_string, text_of};
use crate::urls::url_text;
use vstd::utf8::{valid_utf8, encode_utf8};
use vstd::string::StringExecFns;

verus! {

/// Render a value as gemtext.
pub trait AsGemtext {
    /// The gemtext rendering of this value.
    fn as_gemtext(&self) -> String;
}

/// The position of the first CRLF pair at or after `from`.
pub open spec fn spec_find_crlf(v: Seq<u8>, from: int) -> Option<int>
    decreases v.len() - from,
{
    if from + 2 > v.len() {
        None
    } else if v[from] == CR && v[from + 1] == LF {
        Some(from)
    } else {
        spec_find_crlf(v, from + 1)
    }
}

/// Find the first CRLF pair in a byte slice.
fn find_crlf(v: &[u8]) -> (r: Option<usize>)
    ensures
        match r {
            Some(i) => i + 2 <= v@.len() && v@[i as int] == CR && v@[i as int + 1] == LF
                && spec_find_crlf(v@, 0) == Some(i as int),
            None => spec_find_crlf(v@, 0) is None,
        },
{
    if v.len() < 2 {
        return None;
    }
    let mut i: usize = 0;
    while v.len() - i >= 2
        invariant
            i <= v@.len(),
            spec_find_crlf(v@, 0) == spec_find_crlf(v@, i as int),
        decreases v.len() - i,
    {
        if v[i] == CR && v[i + 1] == LF {
            return Some(i);
        }
        i = i + 1;
    }
    None
}

/// What parsing an encoded response for gemtext gives: for bytes that are
/// not valid UTF-8 or hold no status line, a fixed code block saying so;
/// for a status line that opens with the successful `text/gemini` form,
/// the body text; for any other status line, the line itself inside a
/// fenced code block.
pub open spec fn gemtext_of(v: Seq<u8>) -> Seq<char> {
    if !valid_utf8(v) {
        "```\ninvalid utf8\n```"@
    } else {
        match spec_find_crlf(v, 0) {
            None => "```\ninvalid gemini response\n```"@,
            Some(i) => {
                let header = v.subrange(0, i);
                let content = v.subrange(i + 2, v.len() as int);
                if header.len() >= 14 && header.subrange(0, 14) == encode_utf8("20 text/gemini"@) {
                    text_of(content)
                } else {
                    "```\n"@ + text_of(header) + "\n```"@
                }
            },
        }
    }
}

/// Parse an encoded response for gemtext, per [`gemtext_of`].
pub fn gemtext_of_bytes(v: &[u8]) -> (r: String)
    ensures
        r@ == gemtext_of(v@),
{
    let probe = vstd::slice::slice_to_vec(v);
    if bytes_to_string(probe).is_none() {
        return String::from_str("```\ninvalid utf8\n```");
    }
    match find_crlf(v) {
        None => String::from_str("```\ninvalid gemini response\n```"),
        Some(i) => {
            proof {
                vstd::utf8::is_char_boundary_iff_not_is_continuation_byte(v@, i as int);
                vstd::utf8::valid_utf8_split(v@, i as int);
                let rest = v@.subrange(i as int, v@.len() as int);
                assert(rest[0] == CR);
                assert(vstd::utf8::length_of_first_scalar(rest) == 1);
                let rest1 = vstd::utf8::pop_first_scalar(rest);
                assert(valid_utf8(rest1));
                assert(rest1 =~= v@.subrange(i + 1, v@.len() as int));
                assert(rest1[0] == LF);
                assert(vstd::utf8::length_of_first_scalar(rest1) == 1);
                let rest2 = vstd::utf8::pop_first_scalar(rest1);
                assert(valid_utf8(rest2));
                assert(rest2 =~= v@.subrange(i + 2, v@.len() as int));
            }
            let n = v.len();
            proof {
                assert(i + 2 <= n);
            }
            let header = vstd::slice::slice_to_vec(vstd::slice::slice_subrange(v, 0, i));
            let content = vstd::slice::slice_to_vec(vstd::slice::slice_subrange(v, i + 2, n));
            let is_success_text = header.len() >= 14 && bytes_eq(
                vstd::slice::slice_subrange(header.as_slice(), 0, 14),
                "20 text/gemini".as_bytes(),
            );
            if is_success_text {
                match bytes_to_string(content) {
                    Some(body) => {
                        proof {
                            crate::text::lemma_text_of_encoding(body@);
                        }
                        body
                    }
                    None => {
                        proof {
                            assert(false);
                        }
                        vstd::pervasive::unreached()
                    }
                }
            } else {
                match bytes_to_string(header) {
                    Some(line) => {
                        proof {
                            crate::text::lemma_text_of_encoding(line@);
                        }
                        String::from_str("```\n").concat(line.as_str()).concat("\n```")
                    }
                    None => {
                        proof {
                            assert(false);
                        }
                        vstd::pervasive::unreached()
                    }
                }
            }
        }
    }
}

/// A byte sequence is read as an already-encoded response.
impl AsGemtext for Vec<u8> {
    fn as_gemtext(&self) -> (r: String)
        ensures
            r@ == gemtext_of(self@),
    {
        gemtext_of_bytes(self.as_slice())
    }
}

/// A gemtext link line whose target and label are both the given text:
/// `=> {text} {text}`.
pub fn gemtext_link_line(text: &str) -> (r: String)
    ensures
        r@ == "=> "@ + text@ + " "@ + text@,
{
    String::from_str("=> ").concat(text).concat(" ").concat(text)
}

/// A URL renders as a gemtext link line pointing at itself: its
/// serialization as both target and label, per [`gemtext_link_line`].
impl AsGemtext for url::Url {
    fn as_gemtext(&self) -> String {
        gemtext_link_line(url_text(self).as_str())
    }
}

} // verus!
