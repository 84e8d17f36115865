//! Trusted wrappers around the `url` crate. Every URL the pipeline touches is
//! carried as a plain string; each wrapper re-parses its input, applies one
//! accessor or mutation of `url::Url`, and hands the serialization back. What
//! the `url` crate computes is named by uninterpreted spec functions, so the
//! verified pipeline states its results exactly in terms of those names.

use vstd::prelude::*;

verus! {

/// Whether `url::Url::parse` accepts `s` as an absolute URL.
pub uninterp spec fn url_ok(s: Seq<char>) -> bool;

/// The text of the `url::ParseError` that `url::Url::parse` reports for `s`
/// (meaningful when `!url_ok(s)`).
pub uninterp spec fn url_err(s: Seq<char>) -> Seq<char>;

/// The scheme of the URL parsed from `s` (meaningful when `url_ok(s)`).
pub uninterp spec fn url_scheme(s: Seq<char>) -> Seq<char>;

/// The serialization of the URL parsed from `s` (meaningful when
/// `url_ok(s)`).
pub uninterp spec fn url_norm(s: Seq<char>) -> Seq<char>;

/// The path of the URL parsed from `s` (meaningful when `url_ok(s)`).
pub uninterp spec fn url_path(s: Seq<char>) -> Seq<char>;

/// The username of the URL parsed from `s` (meaningful when `url_ok(s)`).
pub uninterp spec fn url_username(s: Seq<char>) -> Seq<char>;

/// The serialization after parsing `s` and setting the URL's path to `p`
/// (meaningful when `url_ok(s)`; `set_path` itself cannot fail).
pub uninterp spec fn url_with_path(s: Seq<char>, p: Seq<char>) -> Seq<char>;

/// The serialization after parsing `s` and setting the URL's username to
/// `u`, or `None` when `set_username` refuses (meaningful when `url_ok(s)`).
pub uninterp spec fn url_with_user(s: Seq<char>, u: Seq<char>) -> Option<Seq<char>>;

/// The serialization after parsing `s` and setting the URL's query to `q`
/// (meaningful when `url_ok(s)`; `set_query` cannot fail).
pub uninterp spec fn url_with_query(s: Seq<char>, q: Seq<char>) -> Seq<char>;

/// Relies on `url::Url::parse` and `url::Url::scheme`: parsing either fails
/// with a `ParseError` or yields a URL whose scheme `scheme` returns.
#[verifier::external_body]
pub(crate) fn parse_scheme(s: &str) -> (r: Result<String, String>)
    ensures
        r is Ok <==> url_ok(s@),
        r matches Ok(v) ==> v@ == url_scheme(s@),
        r matches Err(e) ==> e@ == url_err(s@),
{
    match url::Url::parse(s) {
        Ok(u) => Ok(u.scheme().to_string()),
        Err(e) => Err(e.to_string()),
    }
}

/// Relies on `url::Url::parse` and `url::Url::as_str`: the serialization of
/// the parsed URL. A `Url`'s serialization parses back to that same URL (the
/// round trip the crate's own serde support relies on), so the result is
/// again a parseable URL string.
#[verifier::external_body]
pub(crate) fn parse_norm(s: &str) -> (r: Result<String, String>)
    ensures
        r is Ok <==> url_ok(s@),
        r matches Ok(v) ==> v@ == url_norm(s@) && url_ok(v@),
        r matches Err(e) ==> e@ == url_err(s@),
{
    match url::Url::parse(s) {
        Ok(u) => Ok(u.as_str().to_string()),
        Err(e) => Err(e.to_string()),
    }
}

/// Relies on `url::Url::parse` and `url::Url::path`: the path of the parsed
/// URL.
#[verifier::external_body]
pub(crate) fn parse_path(s: &str) -> (r: Result<String, String>)
    ensures
        r is Ok <==> url_ok(s@),
        r matches Ok(v) ==> v@ == url_path(s@),
        r matches Err(e) ==> e@ == url_err(s@),
{
    match url::Url::parse(s) {
        Ok(u) => Ok(u.path().to_string()),
        Err(e) => Err(e.to_string()),
    }
}

/// Relies on `url::Url::parse` and `url::Url::username`: the username of the
/// parsed URL, the empty string when it has none.
#[verifier::external_body]
pub(crate) fn parse_username(s: &str) -> (r: Result<String, String>)
    ensures
        r is Ok <==> url_ok(s@),
        r matches Ok(v) ==> v@ == url_username(s@),
        r matches Err(e) ==> e@ == url_err(s@),
{
    match url::Url::parse(s) {
        Ok(u) => Ok(u.username().to_string()),
        Err(e) => Err(e.to_string()),
    }
}

/// Relies on `url::Url::parse`, `url::Url::set_path` and `url::Url::as_str`:
/// `set_path` always succeeds (percent-encoding where needed), and the
/// mutated URL's serialization parses back to that URL.
#[verifier::external_body]
pub(crate) fn set_path_str(s: &str, p: &str) -> (r: Result<String, String>)
    ensures
        r is Ok <==> url_ok(s@),
        r matches Ok(v) ==> v@ == url_with_path(s@, p@) && url_ok(v@),
        r matches Err(e) ==> e@ == url_err(s@),
{
    match url::Url::parse(s) {
        Ok(mut u) => {
            u.set_path(p);
            Ok(u.as_str().to_string())
        },
        Err(e) => Err(e.to_string()),
    }
}

/// Relies on `url::Url::parse`, `url::Url::set_username` and
/// `url::Url::as_str`: `set_username` returns `Err(())` exactly when the URL
/// cannot carry a username (no host, an empty host, or the `file` scheme),
/// and otherwise mutates the URL, whose serialization parses back to it.
/// `Err(None)` is that refusal; `Err(Some(e))` is a parse failure on `s`.
#[verifier::external_body]
pub(crate) fn set_username_str(s: &str, user: &str) -> (r: Result<String, Option<String>>)
    ensures
        match r {
            Ok(v) => url_ok(s@) && url_with_user(s@, user@) == Some(v@) && url_ok(v@),
            Err(Some(t)) => !url_ok(s@) && t@ == url_err(s@),
            Err(None) => url_ok(s@) && url_with_user(s@, user@) is None,
        },
{
    match url::Url::parse(s) {
        Ok(mut u) => match u.set_username(user) {
            Ok(()) => Ok(u.as_str().to_string()),
            Err(()) => Err(None),
        },
        Err(e) => Err(Some(e.to_string())),
    }
}

/// Relies on `url::Url::parse`, `url::Url::set_query` and `url::Url::as_str`:
/// `set_query` always succeeds, and the mutated URL's serialization parses
/// back to that URL.
#[verifier::external_body]
pub(crate) fn set_query_str(s: &str, q: &str) -> (r: Result<String, String>)
    ensures
        r is Ok <==> url_ok(s@),
        r matches Ok(v) ==> v@ == url_with_query(s@, q@) && url_ok(v@),
        r matches Err(e) ==> e@ == url_err(s@),
{
    match url::Url::parse(s) {
        Ok(mut u) => {
            u.set_query(Some(q));
            Ok(u.as_str().to_string())
        },
        Err(e) => Err(e.to_string()),
    }
}

} // verus!
