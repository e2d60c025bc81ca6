//! What the engine reads off a URL: its normalized form, its scheme and
//! its path, each through the `url` crate and each a function of the URL
//! string alone.

use vstd::prelude::*;

verus! {

/// What `url::Url::parse` followed by serializing the URL returns: `None`
/// exactly when the string does not parse as an absolute URL.
pub uninterp spec fn url_norm_of(s: Seq<char>) -> Option<Seq<char>>;

/// What `url::Url::parse` followed by `Url::scheme` returns.
pub uninterp spec fn url_scheme_of(s: Seq<char>) -> Option<Seq<char>>;

/// What `url::Url::parse` followed by `Url::path` returns.
pub uninterp spec fn url_path_of(s: Seq<char>) -> Option<Seq<char>>;

/// Relies on `url::Url::parse` and `Url::as_str`: parsing is deterministic
/// in the input string, and serializing gives the normalized URL.
#[verifier::external_body]
pub(crate) fn url_normalize(s: &str) -> (r: Option<String>)
    ensures
        r is Some <==> url_norm_of(s@) is Some,
        r is Some ==> r.unwrap()@ == url_norm_of(s@).unwrap(),
{
    match url::Url::parse(s) {
        Ok(u) => Some(u.as_str().to_string()),
        Err(_) => None,
    }
}

/// Relies on `url::Url::parse` and `Url::scheme`: the scheme of a URL that
/// parses, `None` exactly when parsing fails.
#[verifier::external_body]
pub(crate) fn url_scheme(s: &str) -> (r: Option<String>)
    ensures
        r is Some <==> url_norm_of(s@) is Some,
        r is Some ==> url_scheme_of(s@) == Some(r.unwrap()@),
{
    match url::Url::parse(s) {
        Ok(u) => Some(u.scheme().to_string()),
        Err(_) => None,
    }
}

/// Relies on `url::Url::parse` and `Url::path`: the (normalized,
/// percent-encoded) path of a URL that parses, `None` exactly when parsing
/// fails.
#[verifier::external_body]
pub(crate) fn url_path(s: &str) -> (r: Option<String>)
    ensures
        r is Some <==> url_norm_of(s@) is Some,
        r is Some ==> url_path_of(s@) == Some(r.unwrap()@),
{
    match url::Url::parse(s) {
        Ok(u) => Some(u.path().to_string()),
        Err(_) => None,
    }
}

} // verus!
