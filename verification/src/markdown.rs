//! The markdown renderer: the event-stream parse and HTML serialization
//! are one outside call; everything the engine does to the result (image
//! and link rewriting, heading anchors, the table of contents, syntax
//! highlighting) is its own, verified text transforms over that HTML.

use vstd::prelude::*;

verus! {

/// What parsing markdown (all extensions on) and serializing the events to
/// HTML returns: a function of the source text alone.
pub uninterp spec fn html_of(md: Seq<char>) -> Seq<char>;

/// What `pulldown_cmark::escape::escape_href` writes: the href-unsafe
/// bytes of the input percent-encoded, a function of the input alone.
pub uninterp spec fn href_escaped_of(s: Seq<char>) -> Seq<char>;

/// Relies on `pulldown_cmark::Parser::new_ext` (with `Options::all`) and
/// `pulldown_cmark::html::push_html`: deterministic in the source text.
#[verifier::external_body]
pub(crate) fn md_to_html(md: &str) -> (r: String)
    ensures
        r@ == html_of(md@),
{
    let parser = pulldown_cmark::Parser::new_ext(md, pulldown_cmark::Options::all());
    let mut out = String::new();
    pulldown_cmark::html::push_html(&mut out, parser);
    out
}

/// Relies on `pulldown_cmark::escape::escape_href`; writing into a
/// `String` cannot fail (its `StrWrite` is infallible), so the result is
/// always the escaped text.
#[verifier::external_body]
pub(crate) fn escape_href_str(s: &str) -> (r: String)
    ensures
        r@ == href_escaped_of(s@),
{
    let mut out = String::new();
    let _ = pulldown_cmark::escape::escape_href(&mut out, s);
    out
}

} // verus!
