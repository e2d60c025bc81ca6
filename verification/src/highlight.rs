//! Syntax highlighting of fenced code blocks: a post-pass over the page's
//! serialized HTML. Locating the blocks, unescaping their entities and
//! splicing the highlighter's output back in is the engine's own, verified
//! work; only the highlighter itself (syntect) is called outside, and
//! nothing is assumed about the markup it produces.

use vstd::prelude::*;

use crate::text::copy_chars;
use crate::text::chars_to_string;
use crate::text::find_at;
use crate::text::find_from;
use crate::text::lemma_find_at_props;
use crate::text::match_at;
use crate::text::push_all;
use crate::text::replace_all;
use crate::text::replace_all_spec;
use crate::text::str_to_chars;
use crate::text::subvec;

verus! {

#[verifier::external_type_specification]
#[verifier::external_body]
pub struct ExSyntaxSet(syntect::parsing::SyntaxSet);

#[verifier::external_type_specification]
#[verifier::external_body]
pub struct ExTheme(syntect::highlighting::Theme);

/// Relies on `syntect::parsing::SyntaxSet::find_syntax_by_token` (with
/// `find_syntax_by_name` for the plain-text fallback, so a syntax set
/// without a plain-text syntax cannot panic the call) and
/// `syntect::html::highlighted_html_for_string`. Nothing is assumed about
/// the produced markup; an unknown language in a set without the
/// fallback, or a highlighter error, comes back as `None`.
#[verifier::external_body]
fn highlight_block(
    ss: &syntect::parsing::SyntaxSet,
    theme: &syntect::highlighting::Theme,
    lang: &str,
    code: &str,
) -> Option<String> {
    let syntax = ss.find_syntax_by_token(lang).or_else(|| ss.find_syntax_by_name("Plain Text"));
    match syntax {
        Some(found) => syntect::html::highlighted_html_for_string(code, ss, found, theme).ok(),
        None => None,
    }
}

/// The entity unescape applied to a block's content before highlighting:
/// `&lt;`, `&gt;` and `&quot;` back to their characters, in that order.
pub open spec fn unescape_spec(s: Seq<char>) -> Seq<char> {
    replace_all_spec(
        replace_all_spec(replace_all_spec(s, "&lt;"@, "<"@), "&gt;"@, ">"@),
        "&quot;"@,
        "\""@,
    )
}

/// Undoes the serializer's entity escaping inside a code block.
pub fn unescape_code(s: &Vec<char>) -> (r: Vec<char>)
    ensures
        r@ == unescape_spec(s@),
{
    proof {
        reveal_strlit("&lt;");
        reveal_strlit("&gt;");
        reveal_strlit("&quot;");
    }
    let a = replace_all(s, &str_to_chars("&lt;"), &str_to_chars("<"));
    let b = replace_all(&a, &str_to_chars("&gt;"), &str_to_chars(">"));
    replace_all(&b, &str_to_chars("&quot;"), &str_to_chars("\""))
}

/// The fix-up of the highlighter's output: its leading `<pre…>` line gains
/// the block's `<code class="language-…">` tag (the first `>` followed by
/// a newline marks the end of that opening tag), and every `</pre>`
/// becomes `</code></pre>`.
pub open spec fn fix_highlighted_spec(h: Seq<char>, lang: Seq<char>) -> Seq<char> {
    let pi = find_at(h, 0, "<pre"@);
    let fixed = if pi is Some && 0 <= pi.unwrap() && pi.unwrap() <= h.len() {
        let gi = find_at(h, pi.unwrap(), ">\n"@);
        if gi is Some && pi.unwrap() <= gi.unwrap() && gi.unwrap() + 2 <= h.len() {
            let g = gi.unwrap();
            h.subrange(0, g + 1) + "<code class=\"language-"@ + lang + "\">"@ + h.subrange(
                g + 2,
                h.len() as int,
            )
        } else {
            h
        }
    } else {
        h
    };
    replace_all_spec(fixed, "</pre>"@, "</code></pre>"@)
}

/// Applies the fix-up, as `fix_highlighted_spec` describes.
pub fn fix_highlighted(h: &Vec<char>, lang: &Vec<char>) -> (r: Vec<char>)
    ensures
        r@ == fix_highlighted_spec(h@, lang@),
{
    let pre_pat = str_to_chars("<pre");
    let gt_pat = str_to_chars(">\n");
    proof {
        reveal_strlit("<pre");
        reveal_strlit(">\n");
        reveal_strlit("</pre>");
        reveal_strlit("</code></pre>");
    }
    let hl = h.len();
    let fixed: Vec<char> = match find_from(h, 0, &pre_pat) {
        None => copy_chars(h),
        Some(p) => {
            proof {
                lemma_find_at_props(h@, 0, pre_pat@);
            }
            match find_from(h, p, &gt_pat) {
                None => copy_chars(h),
                Some(g) => {
                    proof {
                        lemma_find_at_props(h@, p as int, gt_pat@);
                        assert(match_at(h@, g as int, gt_pat@));
                    }
                    let mut out = subvec(h, 0, g + 1);
                    let t1 = str_to_chars("<code class=\"language-");
                    push_all(&mut out, &t1);
                    push_all(&mut out, lang);
                    let t2 = str_to_chars("\">");
                    push_all(&mut out, &t2);
                    let tail = subvec(h, g + 2, hl);
                    push_all(&mut out, &tail);
                    proof {
                        assert(out@ =~= h@.subrange(0, g + 1) + "<code class=\"language-"@
                            + lang@ + "\">"@ + h@.subrange(g + 2, h@.len() as int));
                    }
                    out
                },
            }
        },
    };
    replace_all(&fixed, &str_to_chars("</pre>"), &str_to_chars("</code></pre>"))
}

/// Where a fenced, language-tagged code block opens.
pub open spec fn code_open() -> Seq<char> {
    "<pre><code class=\"language-"@
}

/// A language token the pass accepts: nonempty, without a newline.
pub open spec fn lang_ok(lang: Seq<char>) -> bool {
    lang.len() > 0 && (forall|i: int| 0 <= i < lang.len() ==> lang[i] != '\n')
}

/// The shape of the highlighted page: the blocks the pass located, each
/// replaced by some spliced-in markup (`hs[k]` for the `k`th located
/// block), with everything between and around them unchanged. The markup
/// itself is whatever the highlighter produced; this relation pins down
/// everything else.
pub open spec fn code_splice_spec(s: Seq<char>, hs: Seq<Seq<char>>) -> Seq<char>
    decreases s.len(),
{
    let oi = find_at(s, 0, code_open());
    if oi is Some && 0 <= oi.unwrap() && oi.unwrap() + 27 <= s.len() {
        let o = oi.unwrap() + 27;
        let li = find_at(s, o, "\">"@);
        if li is Some && 0 < li.unwrap() && o <= li.unwrap() && li.unwrap() + 2 <= s.len() {
            let l = li.unwrap();
            let lang = s.subrange(o, l);
            let ci = find_at(s, l + 2, "</code></pre>"@);
            if lang_ok(lang) && ci is Some && 0 < ci.unwrap() && l + 2 <= ci.unwrap()
                && ci.unwrap() + 13 <= s.len() {
                let c = ci.unwrap();
                let piece = if hs.len() > 0 {
                    hs[0]
                } else {
                    s.subrange(oi.unwrap(), c + 13)
                };
                let hs2 = if hs.len() > 0 {
                    hs.drop_first()
                } else {
                    hs
                };
                s.subrange(0, oi.unwrap()) + piece + code_splice_spec(
                    s.subrange(c + 13, s.len() as int),
                    hs2,
                )
            } else if li.unwrap() + 2 > 0 {
                s.subrange(0, l + 2) + code_splice_spec(
                    s.subrange(l + 2, s.len() as int),
                    hs,
                )
            } else {
                s
            }
        } else {
            s
        }
    } else {
        s
    }
}

/// Whether the page holds any language-tagged code block the pass would
/// highlight.
pub open spec fn has_code_block(s: Seq<char>) -> bool
    decreases s.len(),
{
    let oi = find_at(s, 0, code_open());
    if oi is Some && 0 <= oi.unwrap() && oi.unwrap() + 27 <= s.len() {
        let o = oi.unwrap() + 27;
        let li = find_at(s, o, "\">"@);
        if li is Some && 0 < li.unwrap() && o <= li.unwrap() && li.unwrap() + 2 <= s.len() {
            let l = li.unwrap();
            let lang = s.subrange(o, l);
            let ci = find_at(s, l + 2, "</code></pre>"@);
            if lang_ok(lang) && ci is Some && 0 < ci.unwrap() && l + 2 <= ci.unwrap()
                && ci.unwrap() + 13 <= s.len() {
                true
            } else {
                has_code_block(s.subrange(l + 2, s.len() as int))
            }
        } else {
            false
        }
    } else {
        false
    }
}

/// Checks a language token.
fn lang_ok_x(lang: &Vec<char>) -> (r: bool)
    ensures
        r == lang_ok(lang@),
{
    if lang.len() == 0 {
        return false;
    }
    let mut i: usize = 0;
    while i < lang.len()
        invariant
            i <= lang@.len(),
            forall|k: int| 0 <= k < i ==> lang@[k] != '\n',
        decreases lang@.len() - i,
    {
        if lang[i] == '\n' {
            return false;
        }
        i = i + 1;
    }
    true
}

/// Highlights every language-tagged code block: each block's content is
/// unescaped, handed to the highlighter, fixed up and spliced back in
/// place of the block (a block the highlighter rejects stays). The result
/// has the `code_splice_spec` shape for some sequence of spliced pieces,
/// and `found` says whether any block was located (the page then needs
/// the code style category).
pub fn highlight_code_blocks(
    html: &Vec<char>,
    ss: &syntect::parsing::SyntaxSet,
    theme: &syntect::highlighting::Theme,
) -> (r: (Vec<char>, bool))
    ensures
        exists|hs: Seq<Seq<char>>| r.0@ == code_splice_spec(html@, hs),
        r.1 == has_code_block(html@),
{
    let open_pat = str_to_chars("<pre><code class=\"language-");
    let lang_pat = str_to_chars("\">");
    let close_pat = str_to_chars("</code></pre>");
    let mut out: Vec<char> = Vec::new();
    let mut rest = copy_chars(html);
    let ghost mut done: Seq<Seq<char>> = Seq::<Seq<char>>::empty();
    let mut found = false;
    proof {
        reveal_strlit("<pre><code class=\"language-");
        reveal_strlit("\">");
        reveal_strlit("</code></pre>");
        assert(open_pat@ =~= code_open());
    }
    loop
        invariant
            open_pat@ == code_open(),
            open_pat@.len() == 27,
            lang_pat@ == "\">"@,
            lang_pat@.len() == 2,
            close_pat@ == "</code></pre>"@,
            close_pat@.len() == 13,
            forall|hs: Seq<Seq<char>>|
                code_splice_spec(html@, #[trigger] (done + hs)) == out@ + code_splice_spec(
                    rest@,
                    hs,
                ),
            has_code_block(html@) == (found || has_code_block(rest@)),
        decreases rest@.len(),
    {
        let rl = rest.len();
        let o0 = match find_from(&rest, 0, &open_pat) {
            None => {
                push_all(&mut out, &rest);
                proof {
                    assert(code_splice_spec(rest@, Seq::<Seq<char>>::empty()) == rest@);
                    assert(code_splice_spec(html@, done + Seq::<Seq<char>>::empty()) =~= out@);
                    assert(exists|hs: Seq<Seq<char>>| out@ == code_splice_spec(html@, hs));
                }
                return (out, found);
            },
            Some(j) => j,
        };
        proof {
            lemma_find_at_props(rest@, 0, open_pat@);
            assert(match_at(rest@, o0 as int, open_pat@));
        }
        let o = o0 + 27;
        let l = match find_from(&rest, o, &lang_pat) {
            None => {
                push_all(&mut out, &rest);
                proof {
                    assert(code_splice_spec(rest@, Seq::<Seq<char>>::empty()) == rest@);
                    assert(code_splice_spec(html@, done + Seq::<Seq<char>>::empty()) =~= out@);
                    assert(exists|hs: Seq<Seq<char>>| out@ == code_splice_spec(html@, hs));
                }
                return (out, found);
            },
            Some(j) => j,
        };
        proof {
            lemma_find_at_props(rest@, o as int, lang_pat@);
            assert(match_at(rest@, l as int, lang_pat@));
        }
        let lang = subvec(&rest, o, l);
        let lang_is_ok = lang_ok_x(&lang);
        let close_found = find_from(&rest, l + 2, &close_pat);
        let ghost out0 = out@;
        let ghost rest0 = rest@;
        let has_close = close_found.is_some();
        if lang_is_ok && has_close {
            let c = match close_found {
                Some(c) => c,
                None => {
                    proof {
                        assert(false);
                    }
                    return (out, found);
                },
            };
            proof {
                lemma_find_at_props(rest@, l + 2, close_pat@);
                assert(match_at(rest@, c as int, close_pat@));
            }
            let content = subvec(&rest, l + 2, c);
            let next = subvec(&rest, c + 13, rl);
            let text = unescape_code(&content);
            let lang_s = chars_to_string(&lang);
            let text_s = chars_to_string(&text);
            let piece: Vec<char> = match highlight_block(ss, theme, lang_s.as_str(),
                text_s.as_str()) {
                Some(hstr) => {
                    let hv = str_to_chars(hstr.as_str());
                    fix_highlighted(&hv, &lang)
                },
                None => subvec(&rest, o0, c + 13),
            };
            let prefix = subvec(&rest, 0, o0);
            push_all(&mut out, &prefix);
            push_all(&mut out, &piece);
            found = true;
            rest = next;
            proof {
                let pv = piece@;
                assert forall|hs: Seq<Seq<char>>|
                    code_splice_spec(html@, #[trigger] (done.push(pv) + hs)) == out@
                        + code_splice_spec(rest@, hs) by {
                    assert(done.push(pv) + hs =~= done + (seq![pv] + hs));
                    assert((seq![pv] + hs).len() > 0);
                    assert((seq![pv] + hs)[0] == pv);
                    assert((seq![pv] + hs).drop_first() =~= hs);
                    assert(code_splice_spec(rest0, seq![pv] + hs) =~= rest0.subrange(
                        0,
                        o0 as int,
                    ) + pv + code_splice_spec(rest@, hs));
                    assert(code_splice_spec(html@, done + (seq![pv] + hs)) == out0
                        + code_splice_spec(rest0, seq![pv] + hs));
                    assert(out@ =~= out0 + (rest0.subrange(0, o0 as int) + pv));
                    assert(out0 + code_splice_spec(rest0, seq![pv] + hs) =~= out@
                        + code_splice_spec(rest@, hs));
                }
                done = done.push(pv);
                assert(has_code_block(rest0));
            }
        } else {
            let next = subvec(&rest, l + 2, rl);
            let prefix = subvec(&rest, 0, l + 2);
            push_all(&mut out, &prefix);
            rest = next;
            proof {
                assert forall|hs: Seq<Seq<char>>|
                    code_splice_spec(html@, #[trigger] (done + hs)) == out@ + code_splice_spec(
                        rest@,
                        hs,
                    ) by {
                    assert(code_splice_spec(rest0, hs) =~= rest0.subrange(0, l + 2)
                        + code_splice_spec(rest@, hs));
                    assert(code_splice_spec(html@, done + hs) == out0 + code_splice_spec(
                        rest0,
                        hs,
                    ));
                    assert(out@ =~= out0 + rest0.subrange(0, l + 2));
                    assert(out0 + code_splice_spec(rest0, hs) =~= out@ + code_splice_spec(
                        rest@,
                        hs,
                    ));
                }
                assert(has_code_block(rest0) == has_code_block(rest@));
            }
        }
    }
}

} // verus!
