//! Ready-made response shapes, and the encoding of static-file lookups.
//!
//! File lookups themselves — opening and reading under the fixed
//! `static/` root — are input/output and live with the caller; this
//! module fixes the path sanitization, the MIME-type guess, and the exact
//! wire encoding of every outcome.

use vstd::prelude::*;
use crate::wire::{header_bytes, wire_bytes, encode_header, encode_header_of_bytes};
use crate::gem_bytes::GemBytes;
use vstd::utf8::encode_utf8;
use vstd::string::{StringExecFns, StrSliceExecFns};

verus! {

/// The flagship set of response shapes.
pub enum Fluff {
    /// (10): Prompt the user for input.
    Input(String),
    /// (51): Not found.
    NotFound(String),
    /// (30): Temporary redirect to a path.
    RedirectTemporary(String),
    /// (31): Permanent redirect to a path.
    RedirectPermanent(String),
    /// (40): Temporary failure.
    FailureTemporary(String),
    /// (50): Permanent failure.
    FailurePermanent(String),
    /// (30): Redirect one path segment up.
    GoUp,
    /// (20): A gemtext document with a language parameter.
    Lang { lang: String, body: String },
    /// (20): A document of an explicit mimetype.
    Document { mime: String, body: String },
    /// (20): Plain gemtext.
    Text(String),
}

impl GemBytes for Fluff {
    open spec fn gem_view(self) -> Seq<u8> {
        match self {
            Fluff::Input(s) => header_bytes(10, encode_utf8(s@)),
            Fluff::NotFound(s) => header_bytes(51, encode_utf8(s@)),
            Fluff::RedirectTemporary(p) => header_bytes(30, encode_utf8(p@)),
            Fluff::RedirectPermanent(p) => header_bytes(31, encode_utf8(p@)),
            Fluff::FailureTemporary(s) => header_bytes(40, encode_utf8(s@)),
            Fluff::FailurePermanent(s) => header_bytes(50, encode_utf8(s@)),
            Fluff::GoUp => header_bytes(30, encode_utf8(".."@)),
            Fluff::Lang { lang, body } => wire_bytes(
                20,
                encode_utf8("text/gemini; lang="@) + encode_utf8(lang@),
                encode_utf8(body@),
            ),
            Fluff::Document { mime, body } => wire_bytes(20, encode_utf8(mime@), encode_utf8(body@)),
            Fluff::Text(s) => wire_bytes(20, encode_utf8("text/gemini"@), encode_utf8(s@)),
        }
    }

    fn gem_bytes(self) -> (r: Vec<u8>) {
        match self {
            Fluff::Input(s) => encode_header(10, s.as_str()),
            Fluff::NotFound(s) => encode_header(51, s.as_str()),
            Fluff::RedirectTemporary(p) => encode_header(30, p.as_str()),
            Fluff::RedirectPermanent(p) => encode_header(31, p.as_str()),
            Fluff::FailureTemporary(s) => encode_header(40, s.as_str()),
            Fluff::FailurePermanent(s) => encode_header(50, s.as_str()),
            Fluff::GoUp => encode_header(30, ".."),
            Fluff::Lang { lang, body } => {
                let mut meta = "text/gemini; lang=".as_bytes_vec();
                meta.extend_from_slice(lang.as_str().as_bytes());
                let mut out = encode_header_of_bytes(20, meta.as_slice());
                out.extend_from_slice(body.as_str().as_bytes());
                out
            }
            Fluff::Document { mime, body } => {
                let mut out = encode_header(20, mime.as_str());
                out.extend_from_slice(body.as_str().as_bytes());
                out
            }
            Fluff::Text(s) => {
                let mut out = encode_header(20, "text/gemini");
                out.extend_from_slice(s.as_str().as_bytes());
                out
            }
        }
    }
}

/// What a static-file lookup came to.
pub enum FileOutcome {
    /// The file could not be opened.
    Missing,
    /// No MIME type could be guessed from its name.
    UnknownMime,
    /// The file opened but reading it failed.
    ReadFailed,
    /// The guessed MIME type and the file's bytes.
    Loaded(String, Vec<u8>),
}

/// The wire form of each file-lookup outcome: a missing file, an
/// unguessable MIME type and a read error each give status 51 with a
/// fixed meta; a loaded file gives status 20, the guessed MIME type, and
/// the file bytes verbatim.
pub open spec fn file_outcome_view(o: FileOutcome) -> Seq<u8> {
    match o {
        FileOutcome::Missing => header_bytes(51, encode_utf8("File not found."@)),
        FileOutcome::UnknownMime => header_bytes(
            51,
            encode_utf8("File mimetype could not be guessed."@),
        ),
        FileOutcome::ReadFailed => header_bytes(51, encode_utf8("File read error."@)),
        FileOutcome::Loaded(mime, bytes) => wire_bytes(20, encode_utf8(mime@), bytes@),
    }
}

/// Encode a file-lookup outcome, per [`file_outcome_view`].
pub fn encode_file_outcome(o: FileOutcome) -> (r: Vec<u8>)
    ensures
        r@ == file_outcome_view(o),
{
    match o {
        FileOutcome::Missing => encode_header(51, "File not found."),
        FileOutcome::UnknownMime => encode_header(51, "File mimetype could not be guessed."),
        FileOutcome::ReadFailed => encode_header(51, "File read error."),
        FileOutcome::Loaded(mime, bytes) => {
            let mut out = encode_header(20, mime.as_str());
            out.extend_from_slice(bytes.as_slice());
            out
        }
    }
}

/// What `sanitize_filename::sanitize` makes of a file name: its result
/// depends on the name alone.
pub uninterp spec fn sanitized_of(name: Seq<char>) -> Seq<char>;

/// Relies on `sanitize_filename::sanitize` with its default options to
/// neutralize path traversal in a requested file name: its
/// illegal-character rewrite removes every `/` and `\\`, and its
/// reserved-name rewrite empties a name made only of dots, so the result
/// is a single path component and never a parent-directory reference.
#[verifier::external_body]
fn sanitize_name(name: &str) -> (r: String)
    ensures
        r@ == sanitized_of(name@),
        forall|i: int| 0 <= i < r@.len() ==> r@[i] != '/' && r@[i] != '\\',
        r@ != ".."@,
{
    sanitize_filename::sanitize(name)
}

/// What `mime_guess` guesses from a file path: its result depends on the
/// path alone.
pub uninterp spec fn mime_guess_of(path: Seq<char>) -> Option<Seq<char>>;

/// Relies on `mime_guess::from_path` and `MimeGuess::first`: the first
/// guess for the path's extension, as text, if there is one.
#[verifier::external_body]
fn guess_mime(path: &str) -> (r: Option<String>)
    ensures
        match r {
            Some(m) => mime_guess_of(path@) == Some(m@),
            None => mime_guess_of(path@) is None,
        },
{
    match mime_guess::from_path(path).first() {
        Some(m) => Some(m.to_string()),
        None => None,
    }
}

/// What the caller's filesystem work on a static file came to.
pub enum FileRead {
    /// The file could not be opened.
    Missing,
    /// The file's bytes.
    Contents(Vec<u8>),
    /// The file opened but reading it failed.
    Failed,
}

/// Classify a static-file lookup: a file that could not be opened is
/// missing; otherwise the MIME type is guessed from the path, and
/// without a guess the file is unusable; with a guess, the read outcome
/// decides between the file's bytes and a read error.
pub fn file_outcome(path: &str, read: FileRead) -> (o: FileOutcome)
    ensures
        ({
            match read {
                FileRead::Missing => o matches FileOutcome::Missing,
                FileRead::Contents(b) => (match mime_guess_of(path@) {
                    Some(m) => o matches FileOutcome::Loaded(m2, b2) && m2@ == m && b2 == b,
                    None => o matches FileOutcome::UnknownMime,
                }),
                FileRead::Failed => (match mime_guess_of(path@) {
                    Some(_) => o matches FileOutcome::ReadFailed,
                    None => o matches FileOutcome::UnknownMime,
                }),
            }
        }),
{
    match read {
        FileRead::Missing => FileOutcome::Missing,
        FileRead::Contents(bytes) => match guess_mime(path) {
            None => FileOutcome::UnknownMime,
            Some(mime) => FileOutcome::Loaded(mime, bytes),
        },
        FileRead::Failed => match guess_mime(path) {
            None => FileOutcome::UnknownMime,
            Some(_) => FileOutcome::ReadFailed,
        },
    }
}

/// The sandboxed path of a requested static file: the sanitized name
/// under the fixed `static/` root. The sanitized part holds no path
/// separator and is never a parent-directory reference, so the path
/// always stays inside the root.
pub fn static_file_path(name: &str) -> (r: String)
    ensures
        r@ == "static/"@ + sanitized_of(name@),
        forall|i: int| 0 <= i < sanitized_of(name@).len() ==> sanitized_of(name@)[i] != '/'
            && sanitized_of(name@)[i] != '\\',
        sanitized_of(name@) != ".."@,
{
    let safe = sanitize_name(name);
    let root = String::from_str("static/");
    root.concat(safe.as_str())
}

} // verus!
