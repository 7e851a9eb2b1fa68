//! The parsed request URL. Parsing and reading a URL is the `url`
//! crate's work; the values the framework's own logic reads from it are
//! handed over as plain strings and bytes.

use vstd::prelude::*;

verus! {

#[verifier::external_type_specification]
#[verifier::external_body]
pub struct ExUrl(url::Url);

#[verifier::external_type_specification]
#[verifier::external_body]
pub struct ExParseError(url::ParseError);

/// Whether `url::Url::parse` accepts the text as an absolute URL: the
/// outcome depends on the text alone.
pub uninterp spec fn url_parses(s: Seq<char>) -> bool;

/// The path of the URL that `url::Url::parse` reads out of the text,
/// as bytes: a function of the text alone.
pub uninterp spec fn url_path_of(s: Seq<char>) -> Seq<u8>;

/// Relies on `url::Url::parse` and `url::Url::path`: parsing succeeds or
/// fails by the text alone, and on success the parsed URL's path, handed
/// over as bytes, is likewise determined by the text alone.
#[verifier::external_body]
pub(crate) fn parse_with_path(s: &str) -> (r: Result<(url::Url, Vec<u8>), url::ParseError>)
    ensures
        r is Ok <==> url_parses(s@),
        r matches Ok(p) ==> p.1@ == url_path_of(s@),
{
    match url::Url::parse(s) {
        Ok(u) => {
            let path = u.path().as_bytes().to_vec();
            Ok((u, path))
        }
        Err(e) => Err(e),
    }
}

/// Relies on `url::Url::query` for the raw query string, if any.
#[verifier::external_body]
pub(crate) fn url_query_string(u: &url::Url) -> (r: Option<String>)
{
    match u.query() {
        Some(q) => Some(q.to_string()),
        None => None,
    }
}

/// Relies on `url::Url::as_str` for the serialization of the URL.
#[verifier::external_body]
pub(crate) fn url_text(u: &url::Url) -> (r: String)
{
    u.as_str().to_string()
}

/// Relies on `url::ParseError`'s message text, via its `Display` form.
#[verifier::external_body]
pub(crate) fn url_parse_error_text(e: &url::ParseError) -> (r: String)
{
    e.to_string()
}

} // verus!
