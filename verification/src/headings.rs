//! Heading anchors and the table of contents. The pass scans serialized
//! HTML for `<hN>…</hN>` blocks, gives each heading a per-document
//! disambiguated anchor id, and records a TOC entry; the TOC renders as a
//! nested ordered list.

use vstd::prelude::*;

use crate::markdown::href_escaped_of;
use crate::markdown::escape_href_str;
use crate::slug::numbered_slug;
use crate::slug::occ_count;
use crate::slug::slug_of;
use crate::slug::slugify;
use crate::slug::SlugTable;
use crate::text::chars_to_string;
use crate::text::is_digit;
use crate::text::digit_val;
use crate::text::push_all;
use crate::text::str_to_chars;
use crate::text::subvec;
use crate::text::copy_chars;

verus! {

/// One (already escaped) character of heading text as it appears in the
/// page body, escaped again for the TOC: the four HTML-special characters
/// become entities.
pub open spec fn esc_html_char(c: char) -> Seq<char> {
    if c == '"' {
        "&quot;"@
    } else if c == '&' {
        "&amp;"@
    } else if c == '<' {
        "&lt;"@
    } else if c == '>' {
        "&gt;"@
    } else {
        seq![c]
    }
}

/// HTML-escapes a text, character by character.
pub open spec fn esc_html(s: Seq<char>) -> Seq<char>
    decreases s.len(),
{
    if s.len() == 0 {
        Seq::<char>::empty()
    } else {
        esc_html_char(s[0]) + esc_html(s.drop_first())
    }
}

/// `esc_html` distributes over concatenation.
pub proof fn lemma_esc_html_concat(a: Seq<char>, b: Seq<char>)
    ensures
        esc_html(a + b) == esc_html(a) + esc_html(b),
    decreases a.len(),
{
    if a.len() == 0 {
        assert(a + b =~= b);
        assert(esc_html(a) + esc_html(b) =~= esc_html(b));
    } else {
        assert((a + b).drop_first() =~= a.drop_first() + b);
        lemma_esc_html_concat(a.drop_first(), b);
        assert(esc_html(a + b) =~= esc_html(a) + esc_html(b));
    }
}

/// Replaces the HTML-special characters by entities.
pub fn escape_html(s: &Vec<char>) -> (r: Vec<char>)
    ensures
        r@ == esc_html(s@),
{
    let mut r: Vec<char> = Vec::new();
    let mut i: usize = 0;
    proof {
        assert(s@.subrange(0, 0) =~= Seq::<char>::empty());
    }
    while i < s.len()
        invariant
            i <= s@.len(),
            r@ == esc_html(s@.subrange(0, i as int)),
        decreases s@.len() - i,
    {
        let c = s[i];
        proof {
            reveal_strlit("&quot;");
            reveal_strlit("&amp;");
            reveal_strlit("&lt;");
            reveal_strlit("&gt;");
            assert(s@.subrange(0, i + 1) =~= s@.subrange(0, i as int) + seq![c]);
            lemma_esc_html_concat(s@.subrange(0, i as int), seq![c]);
            assert(seq![c].drop_first() =~= Seq::<char>::empty());
            assert(esc_html(Seq::<char>::empty()) == Seq::<char>::empty());
            assert(esc_html(seq![c]) =~= esc_html_char(c));
        }
        let ghost r0 = r@;
        if c == '"' {
            let e = str_to_chars("&quot;");
            push_all(&mut r, &e);
        } else if c == '&' {
            let e = str_to_chars("&amp;");
            push_all(&mut r, &e);
        } else if c == '<' {
            let e = str_to_chars("&lt;");
            push_all(&mut r, &e);
        } else if c == '>' {
            let e = str_to_chars("&gt;");
            push_all(&mut r, &e);
        } else {
            r.push(c);
        }
        proof {
            assert(r@ =~= r0 + esc_html_char(c));
            assert(r@ =~= esc_html(s@.subrange(0, i + 1)));
        }
        i = i + 1;
    }
    proof {
        assert(s@.subrange(0, s@.len() as int) =~= s@);
    }
    r
}

/// An `<hN>` opening tag sits at `i`.
pub open spec fn h_open_at(s: Seq<char>, i: int) -> bool {
    &&& 0 <= i
    &&& i + 4 <= s.len()
    &&& s[i] == '<'
    &&& s[i + 1] == 'h'
    &&& is_digit(s[i + 2])
    &&& s[i + 3] == '>'
}

/// An `</hN>` closing tag sits at `i`.
pub open spec fn h_close_at(s: Seq<char>, i: int) -> bool {
    &&& 0 <= i
    &&& i + 5 <= s.len()
    &&& s[i] == '<'
    &&& s[i + 1] == '/'
    &&& s[i + 2] == 'h'
    &&& is_digit(s[i + 3])
    &&& s[i + 4] == '>'
}

/// The first opening tag at or after `from`.
pub open spec fn find_h_open(s: Seq<char>, from: int) -> Option<int>
    decreases s.len() + 1 - from,
{
    if from < 0 || from + 4 > s.len() {
        None
    } else if h_open_at(s, from) {
        Some(from)
    } else {
        find_h_open(s, from + 1)
    }
}

/// The first closing tag at or after `from`.
pub open spec fn find_h_close(s: Seq<char>, from: int) -> Option<int>
    decreases s.len() + 1 - from,
{
    if from < 0 || from + 5 > s.len() {
        None
    } else if h_close_at(s, from) {
        Some(from)
    } else {
        find_h_close(s, from + 1)
    }
}

/// Finds the first `<hN>` at or after `from`.
fn find_h_open_x(s: &Vec<char>, from: usize) -> (r: Option<usize>)
    ensures
        match r {
            Some(j) => from <= j && Some(j as int) == find_h_open(s@, from as int)
                && h_open_at(s@, j as int),
            None => find_h_open(s@, from as int) is None,
        },
{
    let mut i: usize = from;
    loop
        invariant
            from <= i,
            find_h_open(s@, from as int) == find_h_open(s@, i as int),
        decreases s@.len() + 1 - i,
    {
        if i > s.len() || s.len() - i < 4 {
            return None;
        }
        let d = s[i + 2] as u32;
        if s[i] == '<' && s[i + 1] == 'h' && 48 <= d && d <= 57 && s[i + 3] == '>' {
            return Some(i);
        }
        i = i + 1;
    }
}

/// Finds the first `</hN>` at or after `from`.
fn find_h_close_x(s: &Vec<char>, from: usize) -> (r: Option<usize>)
    ensures
        match r {
            Some(j) => from <= j && Some(j as int) == find_h_close(s@, from as int)
                && h_close_at(s@, j as int),
            None => find_h_close(s@, from as int) is None,
        },
{
    let mut i: usize = from;
    loop
        invariant
            from <= i,
            find_h_close(s@, from as int) == find_h_close(s@, i as int),
        decreases s@.len() + 1 - i,
    {
        if i > s.len() || s.len() - i < 5 {
            return None;
        }
        let d = s[i + 3] as u32;
        if s[i] == '<' && s[i + 1] == '/' && s[i + 2] == 'h' && 48 <= d && d <= 57 && s[i + 4]
            == '>' {
            return Some(i);
        }
        i = i + 1;
    }
}

/// A table-of-contents entry: heading level, title text, anchor slug.
pub struct TocEntry {
    /// The heading's digit (1 for `<h1>`, and so on).
    pub level: u8,
    /// The heading's text, as it stands in the HTML.
    pub title: Vec<char>,
    /// The anchor id the heading was given.
    pub slug: Vec<char>,
}

/// The identity of a TOC entry.
pub ghost struct TocEntryId {
    pub level: nat,
    pub title: Seq<char>,
    pub slug: Seq<char>,
}

impl View for TocEntry {
    type V = TocEntryId;

    open spec fn view(&self) -> TocEntryId {
        TocEntryId { level: self.level as nat, title: self.title@, slug: self.slug@ }
    }
}

/// A rewritten heading: the opening digit is kept for both tags, as the
/// upstream renderer wrote matching pairs.
pub open spec fn heading_html(d: char, slug: Seq<char>, title: Seq<char>) -> Seq<char> {
    seq!['<', 'h', d, ' ', 'i', 'd', '=', '"'] + slug + seq!['"', '>'] + title + seq![
        '<',
        '/',
        'h',
        d,
        '>',
    ]
}

/// The heading pass over a document's HTML: every `<hN>title</hM>` block
/// gains an `id` anchor (the title's slug, disambiguated against the bases
/// handed out so far) and yields a TOC entry. Returns the rewritten HTML,
/// the TOC entries, and the bases list as it stands afterwards.
pub open spec fn headings_rec(s: Seq<char>, bases: Seq<Seq<char>>) -> (
    Seq<char>,
    Seq<TocEntryId>,
    Seq<Seq<char>>,
)
    decreases s.len(),
{
    let oi = find_h_open(s, 0);
    if oi is Some && 0 <= oi.unwrap() && oi.unwrap() + 4 <= s.len() {
        let o = oi.unwrap();
        let ci = find_h_close(s, o + 4);
        if ci is Some && o + 4 <= ci.unwrap() && ci.unwrap() + 5 <= s.len() {
            let c = ci.unwrap();
            let title = s.subrange(o + 4, c);
            let base = slug_of(title);
            let slg = numbered_slug(base, occ_count(bases, base));
            let entry = TocEntryId { level: digit_val(s[o + 2]), title: title, slug: slg };
            let rest = headings_rec(s.subrange(c + 5, s.len() as int), bases.push(base));
            (
                s.subrange(0, o) + heading_html(s[o + 2], slg, title) + rest.0,
                seq![entry] + rest.1,
                rest.2,
            )
        } else {
            (s, Seq::<TocEntryId>::empty(), bases)
        }
    } else {
        (s, Seq::<TocEntryId>::empty(), bases)
    }
}

/// Rewrites every heading with its anchor id, as `headings_rec` describes,
/// extending `table` and appending the entries to `toc`.
pub fn setup_header_links(html: &Vec<char>, table: &mut SlugTable, toc: &mut Vec<TocEntry>) -> (
    r: Vec<char>)
    ensures
        r@ == headings_rec(html@, old(table).bases()).0,
        final(toc)@.map_values(|e: TocEntry| e@) == old(toc)@.map_values(|e: TocEntry| e@)
            + headings_rec(html@, old(table).bases()).1,
        final(table).bases() == headings_rec(html@, old(table).bases()).2,
{
    let ghost full = headings_rec(html@, old(table).bases());
    let mut out: Vec<char> = Vec::new();
    let mut rest = copy_chars(html);
    let ghost toc0 = old(toc)@.map_values(|e: TocEntry| e@);
    proof {
        assert(out@ + headings_rec(rest@, table.bases()).0 =~= full.0);
        assert(toc@.map_values(|e: TocEntry| e@) + headings_rec(rest@, table.bases()).1
            =~= toc0 + full.1);
    }
    loop
        invariant
            out@ + headings_rec(rest@, table.bases()).0 == full.0,
            toc@.map_values(|e: TocEntry| e@) + headings_rec(rest@, table.bases()).1 == toc0
                + full.1,
            headings_rec(rest@, table.bases()).2 == full.2,
            full == headings_rec(html@, old(table).bases()),
            toc0 == old(toc)@.map_values(|e: TocEntry| e@),
        decreases rest@.len(),
    {
        let rl = rest.len();
        let o = match find_h_open_x(&rest, 0) {
            None => {
                push_all(&mut out, &rest);
                proof {
                    assert(toc@.map_values(|e: TocEntry| e@) =~= toc@.map_values(
                        |e: TocEntry| e@,
                    ) + Seq::<TocEntryId>::empty());
                }
                return out;
            },
            Some(o) => o,
        };
        let c = match find_h_close_x(&rest, o + 4) {
            None => {
                push_all(&mut out, &rest);
                proof {
                    assert(toc@.map_values(|e: TocEntry| e@) =~= toc@.map_values(
                        |e: TocEntry| e@,
                    ) + Seq::<TocEntryId>::empty());
                }
                return out;
            },
            Some(c) => c,
        };
        let ghost out0 = out@;
        let ghost rest0 = rest@;
        let ghost bases0 = table.bases();
        let ghost toc_map0 = toc@.map_values(|e: TocEntry| e@);
        let d = rest[o + 2];
        let title = subvec(&rest, o + 4, c);
        let title_s = chars_to_string(&title);
        let base = slugify(title_s.as_str());
        let ghost basev = base@;
        let slg = table.assign(base);
        let ghost slgv = slg@;
        let prefix = subvec(&rest, 0, o);
        let next = subvec(&rest, c + 5, rl);
        push_all(&mut out, &prefix);
        out.push('<');
        out.push('h');
        out.push(d);
        out.push(' ');
        out.push('i');
        out.push('d');
        out.push('=');
        out.push('"');
        push_all(&mut out, &slg);
        out.push('"');
        out.push('>');
        push_all(&mut out, &title);
        out.push('<');
        out.push('/');
        out.push('h');
        out.push(d);
        out.push('>');
        let lv = d as u32;
        let entry = TocEntry { level: (lv - 48) as u8, title: title, slug: slg };
        let ghost ev = entry@;
        proof {
            assert(ev.slug == slgv);
            assert(ev.title == title@);
        }
        toc.push(entry);
        rest = next;
        proof {
            let spec_step = headings_rec(rest0, bases0);
            assert(table.bases() == bases0.push(slug_of(title@)));
            assert(rest@ == rest0.subrange(c + 5, rest0.len() as int));
            assert(title@ == rest0.subrange(o + 4, c as int));
            assert(slgv == numbered_slug(slug_of(title@), occ_count(bases0, slug_of(title@))));
            assert(out@ =~= out0 + rest0.subrange(0, o as int) + heading_html(
                rest0[o + 2],
                slgv,
                title@,
            ));
            assert(out@ + headings_rec(rest@, table.bases()).0 =~= out0 + spec_step.0);
            assert(toc@.map_values(|e: TocEntry| e@) =~= toc_map0.push(ev));
            assert(seq![ev] + headings_rec(rest@, table.bases()).1 =~= spec_step.1);
            assert(toc@.map_values(|e: TocEntry| e@) + headings_rec(rest@, table.bases()).1
                =~= toc_map0 + spec_step.1);
        }
    }
}

/// The run of `</ol>` tags that closes the list at depth `n`.
pub open spec fn closes_spec(n: nat) -> Seq<char>
    decreases n,
{
    if n == 0 {
        Seq::<char>::empty()
    } else {
        "</ol>"@ + closes_spec((n - 1) as nat)
    }
}

/// The item run of the table of contents: each entry opens a nested list
/// when its level rises, closes one when it falls, and renders as a list
/// item whose link is the entry's anchor.
pub open spec fn toc_items_spec(es: Seq<TocEntryId>, last: nat) -> Seq<char>
    decreases es.len(),
{
    if es.len() == 0 {
        Seq::<char>::empty()
    } else {
        let e = es[0];
        (if e.level > last {
            "<ol>"@
        } else if e.level < last {
            "</ol>"@
        } else {
            Seq::<char>::empty()
        }) + "<li><a href=\"#"@ + href_escaped_of(e.slug) + "\">"@ + esc_html(e.title)
            + "</a></li>"@ + toc_items_spec(es.drop_first(), e.level)
    }
}

/// The level of the last entry.
pub open spec fn last_level(es: Seq<TocEntryId>) -> nat {
    if es.len() == 0 {
        0
    } else {
        es.last().level
    }
}

/// The rendered table of contents: nothing without headings, else the
/// section shell around the item run and its closing tags.
pub open spec fn toc_spec(es: Seq<TocEntryId>) -> Seq<char> {
    if es.len() == 0 {
        Seq::<char>::empty()
    } else {
        "\n<section class=\"toc\">\n    <h1>Table of contents</h1>\n"@ + toc_items_spec(es, 0)
            + closes_spec(last_level(es)) + "\n</section>\n"@
    }
}

/// One more closing tag extends the run at its end.
pub proof fn lemma_closes_snoc(n: nat)
    ensures
        closes_spec(n + 1) == closes_spec(n) + "</ol>"@,
    decreases n,
{
    if n == 0 {
        assert(closes_spec(1) =~= closes_spec(0) + "</ol>"@);
    } else {
        lemma_closes_snoc((n - 1) as nat);
        assert(closes_spec(n + 1) =~= closes_spec(n) + "</ol>"@);
    }
}

/// Renders the table of contents, as `toc_spec` describes.
#[verifier::rlimit(100)]
pub fn render_toc(toc: &Vec<TocEntry>) -> (r: Vec<char>)
    ensures
        r@ == toc_spec(toc@.map_values(|e: TocEntry| e@)),
{
    let ghost es = toc@.map_values(|e: TocEntry| e@);
    let mut r: Vec<char> = Vec::new();
    if toc.len() == 0 {
        return r;
    }
    let start = str_to_chars("\n<section class=\"toc\">\n    <h1>Table of contents</h1>\n");
    push_all(&mut r, &start);
    let mut last: u8 = 0;
    let mut i: usize = 0;
    proof {
        assert(es.subrange(0, es.len() as int) =~= es);
        assert(r@ + toc_items_spec(es, 0) =~= start@ + toc_items_spec(es, 0));
    }
    while i < toc.len()
        invariant
            i <= toc@.len(),
            es == toc@.map_values(|e: TocEntry| e@),
            es.len() == toc@.len(),
            i > 0 ==> last as nat == es[i - 1].level,
            i == 0 ==> last == 0,
            start@ == "\n<section class=\"toc\">\n    <h1>Table of contents</h1>\n"@,
            r@ + toc_items_spec(es.subrange(i as int, es.len() as int), last as nat) == start@
                + toc_items_spec(es, 0),
        decreases toc@.len() - i,
    {
        let ghost r0 = r@;
        let ghost last0 = last as nat;
        let ghost rem = es.subrange(i as int, es.len() as int);
        proof {
            assert(rem[0] == es[i as int]);
            assert(rem.drop_first() =~= es.subrange(i + 1, es.len() as int));
        }
        let e_level = toc[i].level;
        let ghost e = es[i as int];
        let ghost branch: Seq<char> = if e.level > last0 {
            "<ol>"@
        } else if e.level < last0 {
            "</ol>"@
        } else {
            Seq::<char>::empty()
        };
        if e_level > last {
            let t = str_to_chars("<ol>");
            push_all(&mut r, &t);
        } else if e_level < last {
            let t = str_to_chars("</ol>");
            push_all(&mut r, &t);
        }
        proof {
            assert(e.level == e_level as nat);
            assert(r@ =~= r0 + branch);
        }
        let ghost r1 = r@;
        let t1 = str_to_chars("<li><a href=\"#");
        push_all(&mut r, &t1);
        let slug_s = chars_to_string(&toc[i].slug);
        let escaped_slug = escape_href_str(slug_s.as_str());
        let esv = str_to_chars(escaped_slug.as_str());
        push_all(&mut r, &esv);
        let t2 = str_to_chars("\">");
        push_all(&mut r, &t2);
        let et = escape_html(&toc[i].title);
        push_all(&mut r, &et);
        let t3 = str_to_chars("</a></li>");
        push_all(&mut r, &t3);
        proof {
            assert(esv@ == href_escaped_of(e.slug));
            assert(et@ == esc_html(e.title));
            assert(r@ =~= r1 + "<li><a href=\"#"@ + href_escaped_of(e.slug) + "\">"@
                + esc_html(e.title) + "</a></li>"@);
            assert(toc_items_spec(rem, last0) == branch + "<li><a href=\"#"@
                + href_escaped_of(e.slug) + "\">"@ + esc_html(e.title) + "</a></li>"@
                + toc_items_spec(rem.drop_first(), e.level));
            assert(r@ + toc_items_spec(es.subrange(i + 1, es.len() as int), e.level) =~= r0
                + toc_items_spec(rem, last0));
        }
        last = e_level;
        i = i + 1;
    }
    proof {
        assert(es.subrange(es.len() as int, es.len() as int) =~= Seq::<TocEntryId>::empty());
        assert(toc_items_spec(Seq::<TocEntryId>::empty(), last as nat)
            == Seq::<char>::empty());
        assert(r@ =~= start@ + toc_items_spec(es, 0));
    }
    let mut k: u8 = 0;
    proof {
        assert(closes_spec(0) == Seq::<char>::empty());
        assert(r@ + closes_spec(0) =~= r@);
    }
    while k < last
        invariant
            k <= last,
            last as nat == last_level(es),
            r@ == start@ + toc_items_spec(es, 0) + closes_spec(k as nat),
            start@ == "\n<section class=\"toc\">\n    <h1>Table of contents</h1>\n"@,
        decreases last - k,
    {
        let ghost r0 = r@;
        let t = str_to_chars("</ol>");
        push_all(&mut r, &t);
        proof {
            lemma_closes_snoc(k as nat);
            assert(r@ =~= start@ + toc_items_spec(es, 0) + closes_spec((k + 1) as nat));
        }
        k = k + 1;
    }
    let endt = str_to_chars("\n</section>\n");
    push_all(&mut r, &endt);
    proof {
        assert(r@ =~= toc_spec(es));
    }
    r
}

} // verus!
