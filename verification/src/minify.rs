//! Minification of the assembled page and of style chunks, through the
//! `html-minifier` crate.

use vstd::prelude::*;

use crate::errors::EngineError;

verus! {

#[verifier::external_type_specification]
#[verifier::external_body]
pub struct ExHtmlMinifierError(html_minifier::HTMLMinifierError);

/// What `html_minifier::minify` returns: deterministic in the input;
/// `None` stands for its error outcome.
pub uninterp spec fn minified_html_of(s: Seq<char>) -> Option<Seq<char>>;

/// What `html_minifier::css::minify` returns: deterministic in the input;
/// `None` stands for its error outcome.
pub uninterp spec fn minified_css_of(s: Seq<char>) -> Option<Seq<char>>;

/// Relies on `html_minifier::minify`: deterministic in the input text.
#[verifier::external_body]
fn minify_html_raw(s: &str) -> (r: Result<String, html_minifier::HTMLMinifierError>)
    ensures
        r is Ok <==> minified_html_of(s@) is Some,
        r is Ok ==> r.unwrap()@ == minified_html_of(s@).unwrap(),
{
    html_minifier::minify(s)
}

/// Relies on `html_minifier::css::minify`: deterministic in the input
/// text.
#[verifier::external_body]
fn minify_css_raw(s: &str) -> (r: Result<String, &'static str>)
    ensures
        r is Ok <==> minified_css_of(s@) is Some,
        r is Ok ==> r.unwrap()@ == minified_css_of(s@).unwrap(),
{
    html_minifier::css::minify(s)
}

/// Minifies a page's HTML; an error from the minifier is a hard error for
/// the page.
pub fn minify_html(s: &str) -> (r: Result<String, EngineError>)
    ensures
        r is Ok <==> minified_html_of(s@) is Some,
        r is Ok ==> r.unwrap()@ == minified_html_of(s@).unwrap(),
        r is Err ==> r.unwrap_err() == EngineError::MinifyHtml,
{
    match minify_html_raw(s) {
        Ok(m) => Ok(m),
        Err(_) => Err(EngineError::MinifyHtml),
    }
}

/// Minifies a style chunk's CSS; an error from the minifier is a hard
/// error for the chunk.
pub fn minify_css(s: &str) -> (r: Result<String, EngineError>)
    ensures
        r is Ok <==> minified_css_of(s@) is Some,
        r is Ok ==> r.unwrap()@ == minified_css_of(s@).unwrap(),
        r is Err ==> r.unwrap_err() == EngineError::MinifyCss,
{
    match minify_css_raw(s) {
        Ok(m) => Ok(m),
        Err(_) => Err(EngineError::MinifyCss),
    }
}

} // verus!
