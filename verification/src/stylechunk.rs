//! Style chunks. A chunk may hold embedded directives — comments of the
//! form `/** … @font URL … */` — naming a remote stylesheet. The driver
//! fetches each named stylesheet; the fetched body's nested `url(…)` font
//! references are hashed to local `/fonts/{hash.ext}` names (each a `Font`
//! item, deduplicated by the scheduler), and the rewritten body replaces
//! the whole directive comment.

use vstd::prelude::*;

use crate::digest::sha256_hex;
use crate::digest::sha256_hex_of;
use crate::scheduler::enqueue_all;
use crate::scheduler::lemma_enqueue_all_concat;
use crate::scheduler::Scheduler;
use crate::sitepath::rfind;
use crate::sitepath::rfind_x;
use crate::text::chars_to_string;
use crate::text::copy_chars;
use crate::text::find_at;
use crate::text::find_from;
use crate::text::lemma_find_at_props;
use crate::text::match_at;
use crate::text::push_all;
use crate::text::str_to_chars;
use crate::text::subvec;
use crate::urlinfo::url_norm_of;
use crate::urlinfo::url_normalize;
use crate::urlinfo::url_path;
use crate::urlinfo::url_path_of;
use crate::workitem::WorkItem;
use crate::workitem::WorkItemId;

verus! {

/// A whitespace character, for delimiting a directive's URL.
pub open spec fn is_ws(c: char) -> bool {
    c == ' ' || c == '\t' || c == '\n' || c == '\r'
}

/// The first whitespace at or after `from`; the length when there is none.
pub open spec fn first_ws(s: Seq<char>, from: int) -> int
    decreases s.len() + 1 - from,
{
    if from < 0 || from >= s.len() {
        s.len() as int
    } else if is_ws(s[from]) {
        from
    } else {
        first_ws(s, from + 1)
    }
}

/// Finds the first whitespace at or after `from`.
fn first_ws_x(s: &Vec<char>, from: usize) -> (r: usize)
    requires
        from <= s@.len(),
    ensures
        r as int == first_ws(s@, from as int),
        from <= r <= s@.len(),
{
    let mut i: usize = from;
    while i < s.len()
        invariant
            from <= i <= s@.len(),
            first_ws(s@, from as int) == first_ws(s@, i as int),
        decreases s@.len() - i,
    {
        let c = s[i];
        if c == ' ' || c == '\t' || c == '\n' || c == '\r' {
            return i;
        }
        i = i + 1;
    }
    i
}

/// The URL a directive comment names: the run of non-whitespace after the
/// first `@font ` marker, if it is nonempty.
pub open spec fn dir_url(inner: Seq<char>) -> Option<Seq<char>> {
    let fi = find_at(inner, 0, "@font "@);
    if fi is Some && 0 <= fi.unwrap() && fi.unwrap() + "@font "@.len() <= inner.len() {
        let start = fi.unwrap() + "@font "@.len();
        let end = first_ws(inner, start);
        if start <= end <= inner.len() && start < end {
            Some(inner.subrange(start, end))
        } else {
            None
        }
    } else {
        None
    }
}

/// The remote stylesheet URLs named by the chunk's directives, in order.
pub open spec fn dirs_rec(s: Seq<char>) -> Seq<Seq<char>>
    decreases s.len(),
{
    let oi = find_at(s, 0, "/**"@);
    if oi is Some && 0 <= oi.unwrap() && oi.unwrap() + "/**"@.len() <= s.len() {
        let o = oi.unwrap() + "/**"@.len();
        let ci = find_at(s, o, "*/"@);
        if ci is Some && 0 < ci.unwrap() && o <= ci.unwrap() && ci.unwrap() + "*/"@.len()
            <= s.len() {
            let c = ci.unwrap();
            let inner = s.subrange(o, c);
            let rest = dirs_rec(s.subrange(c, s.len() as int));
            match dir_url(inner) {
                Some(u) => seq![u] + rest,
                None => rest,
            }
        } else {
            Seq::<Seq<char>>::empty()
        }
    } else {
        Seq::<Seq<char>>::empty()
    }
}

/// Collects the chunk's directive URLs, for the driver to fetch.
pub fn scan_font_directives(css: &Vec<char>) -> (r: Vec<String>)
    ensures
        r@.map_values(|s: String| s@) == dirs_rec(css@),
{
    let open_pat = str_to_chars("/**");
    let close_pat = str_to_chars("*/");
    let font_pat = str_to_chars("@font ");
    let mut out: Vec<String> = Vec::new();
    let mut rest = copy_chars(css);
    proof {
        reveal_strlit("/**");
        reveal_strlit("*/");
        reveal_strlit("@font ");
        assert(out@.map_values(|s: String| s@) + dirs_rec(rest@) =~= dirs_rec(css@));
    }
    loop
        invariant
            open_pat@ == "/**"@,
            close_pat@ == "*/"@,
            font_pat@ == "@font "@,
            open_pat@.len() == 3,
            close_pat@.len() == 2,
            font_pat@.len() == 6,
            out@.map_values(|s: String| s@) + dirs_rec(rest@) == dirs_rec(css@),
        decreases rest@.len(),
    {
        let rl = rest.len();
        let o0 = match find_from(&rest, 0, &open_pat) {
            None => {
                proof {
                    assert(out@.map_values(|s: String| s@) =~= out@.map_values(|s: String| s@)
                        + Seq::<Seq<char>>::empty());
                }
                return out;
            },
            Some(j) => j,
        };
        proof {
            lemma_find_at_props(rest@, 0, open_pat@);
            assert(match_at(rest@, o0 as int, open_pat@));
        }
        let o = o0 + 3;
        let c = match find_from(&rest, o, &close_pat) {
            None => {
                proof {
                    assert(out@.map_values(|s: String| s@) =~= out@.map_values(|s: String| s@)
                        + Seq::<Seq<char>>::empty());
                }
                return out;
            },
            Some(j) => j,
        };
        proof {
            lemma_find_at_props(rest@, o as int, close_pat@);
            assert(match_at(rest@, c as int, close_pat@));
        }
        let ghost outs0 = out@.map_values(|s: String| s@);
        let ghost rest0 = rest@;
        let inner = subvec(&rest, o, c);
        let next = subvec(&rest, c, rl);
        let found_url: Option<Vec<char>> = match find_from(&inner, 0, &font_pat) {
            None => None,
            Some(f) => {
                proof {
                    lemma_find_at_props(inner@, 0, font_pat@);
                    assert(match_at(inner@, f as int, font_pat@));
                }
                let start = f + 6;
                let end = first_ws_x(&inner, start);
                if start < end {
                    Some(subvec(&inner, start, end))
                } else {
                    None
                }
            },
        };
        match found_url {
            Some(u) => {
                let ghost uv = u@;
                out.push(chars_to_string(&u));
                rest = next;
                proof {
                    assert(dir_url(inner@) == Some(uv));
                    assert(out@.map_values(|s: String| s@) =~= outs0.push(uv));
                    assert(outs0.push(uv) + dirs_rec(rest@) =~= outs0 + dirs_rec(rest0));
                }
            },
            None => {
                rest = next;
                proof {
                    assert(dir_url(inner@) is None);
                    assert(dirs_rec(rest0) =~= dirs_rec(rest@));
                }
            },
        }
    }
}

/// The extension a font file keeps: what follows the last dot of the
/// URL path's last segment, or the whole segment when it has no dot.
pub open spec fn font_ext(path: Seq<char>) -> Seq<char> {
    let seg = match rfind(path, '/') {
        Some(i) => path.subrange(i + 1, path.len() as int),
        None => path,
    };
    match rfind(seg, '.') {
        Some(d) => seg.subrange(d + 1, seg.len() as int),
        None => seg,
    }
}

/// Computes a font URL's kept extension from its path.
fn font_ext_x(path: &Vec<char>) -> (r: Vec<char>)
    ensures
        r@ == font_ext(path@),
{
    let pl = path.len();
    let seg = match rfind_x(path, '/') {
        Some(i) => subvec(path, i + 1, pl),
        None => copy_chars(path),
    };
    let sl = seg.len();
    match rfind_x(&seg, '.') {
        Some(d) => subvec(&seg, d + 1, sl),
        None => copy_chars(&seg),
    }
}

/// There is whitespace in `s`.
pub open spec fn has_ws(s: Seq<char>) -> bool {
    first_ws(s, 0) < s.len()
}

/// The name a nested font reference is stored under: the hash of the raw
/// reference text, keeping the font file's extension.
pub open spec fn font_filename(raw: Seq<char>) -> Seq<char> {
    let p = match url_path_of(raw) {
        Some(p) => p,
        None => Seq::<char>::empty(),
    };
    sha256_hex_of(raw) + seq!['.'] + font_ext(p)
}

/// A rewritable font reference: nonempty, free of whitespace, and a URL
/// that parses.
pub open spec fn font_ref_ok(raw: Seq<char>) -> bool {
    raw.len() > 0 && !has_ws(raw) && url_norm_of(raw) is Some
}

/// The font pass over a fetched stylesheet body: each `url(ref)` whose
/// `ref` is rewritable becomes `url(/fonts/{hash.ext})` and yields a
/// `Font` item for the normalized URL; other references stay.
pub open spec fn font_rec(s: Seq<char>) -> (Seq<char>, Seq<WorkItemId>)
    decreases s.len(),
{
    let ui = find_at(s, 0, "url("@);
    if ui is Some && 0 <= ui.unwrap() && ui.unwrap() + "url("@.len() <= s.len() {
        let u = ui.unwrap() + "url("@.len();
        let vi = find_at(s, u, seq![')']);
        if vi is Some && 0 < vi.unwrap() && u <= vi.unwrap() && vi.unwrap() < s.len() {
            let v = vi.unwrap();
            let raw = s.subrange(u, v);
            let rest = font_rec(s.subrange(v, s.len() as int));
            if font_ref_ok(raw) {
                (
                    s.subrange(0, u) + "/fonts/"@ + font_filename(raw) + rest.0,
                    seq![
                        WorkItemId::Font {
                            input: url_norm_of(raw).unwrap(),
                            output: font_filename(raw),
                        },
                    ] + rest.1,
                )
            } else {
                (s.subrange(0, v) + rest.0, rest.1)
            }
        } else {
            (s, Seq::<WorkItemId>::empty())
        }
    } else {
        (s, Seq::<WorkItemId>::empty())
    }
}

/// Rewrites a fetched stylesheet body's font references, as `font_rec`
/// describes, and discovers the `Font` items; the same reference twice
/// enqueues once, by the scheduler's dedup.
pub fn rewrite_font_urls(body: &Vec<char>, sched: &mut Scheduler) -> (r: Vec<char>)
    requires
        old(sched).inv(),
    ensures
        final(sched).inv(),
        r@ == font_rec(body@).0,
        final(sched).model() == enqueue_all(old(sched).model(), font_rec(body@).1),
{
    let pat = str_to_chars("url(");
    let mut close: Vec<char> = Vec::new();
    close.push(')');
    let mut out: Vec<char> = Vec::new();
    let mut rest = copy_chars(body);
    proof {
        reveal_strlit("url(");
        assert(close@ =~= seq![')']);
        assert(out@ + font_rec(rest@).0 =~= font_rec(body@).0);
    }
    loop
        invariant
            sched.inv(),
            pat@ == "url("@,
            pat@.len() == 4,
            close@ == seq![')'],
            out@ + font_rec(rest@).0 == font_rec(body@).0,
            enqueue_all(old(sched).model(), font_rec(body@).1) == enqueue_all(
                sched.model(),
                font_rec(rest@).1,
            ),
        decreases rest@.len(),
    {
        let rl = rest.len();
        let u0 = match find_from(&rest, 0, &pat) {
            None => {
                push_all(&mut out, &rest);
                return out;
            },
            Some(j) => j,
        };
        proof {
            lemma_find_at_props(rest@, 0, pat@);
            assert(match_at(rest@, u0 as int, pat@));
        }
        let u = u0 + 4;
        let v = match find_from(&rest, u, &close) {
            None => {
                push_all(&mut out, &rest);
                return out;
            },
            Some(j) => j,
        };
        proof {
            lemma_find_at_props(rest@, u as int, close@);
            assert(match_at(rest@, v as int, close@));
        }
        let ghost out0 = out@;
        let ghost rest0 = rest@;
        let ghost m0 = sched.model();
        let raw = subvec(&rest, u, v);
        let next = subvec(&rest, v, rl);
        let ws = first_ws_x(&raw, 0);
        let mut handled = false;
        if raw.len() > 0 && ws >= raw.len() {
            let raw_s = chars_to_string(&raw);
            match url_normalize(raw_s.as_str()) {
                Some(norm) => {
                    let p = match url_path(raw_s.as_str()) {
                        Some(p) => p,
                        None => {
                            proof {
                                assert(false);
                            }
                            return out;
                        },
                    };
                    let hash = sha256_hex(raw_s.as_str());
                    let pv = str_to_chars(p.as_str());
                    let ext = font_ext_x(&pv);
                    let mut fname = str_to_chars(hash.as_str());
                    fname.push('.');
                    push_all(&mut fname, &ext);
                    proof {
                        assert(fname@ =~= font_filename(raw@));
                    }
                    let prefix = subvec(&rest, 0, u);
                    push_all(&mut out, &prefix);
                    let t1 = str_to_chars("/fonts/");
                    push_all(&mut out, &t1);
                    push_all(&mut out, &fname);
                    let item = WorkItem::Font { input: norm, output: chars_to_string(&fname) };
                    let _ = sched.enqueue_if_new(item);
                    handled = true;
                },
                None => {},
            }
        }
        if !handled {
            let prefix = subvec(&rest, 0, v);
            push_all(&mut out, &prefix);
        }
        rest = next;
        proof {
            let spec_step = font_rec(rest0);
            if handled {
                assert(font_ref_ok(rest0.subrange(u as int, v as int)));
                assert(out@ + font_rec(rest@).0 =~= out0 + spec_step.0);
                assert(spec_step.1.drop_first() =~= font_rec(rest@).1);
                assert(enqueue_all(m0, spec_step.1) == enqueue_all(
                    sched.model(),
                    font_rec(rest@).1,
                ));
            } else {
                assert(!font_ref_ok(rest0.subrange(u as int, v as int)));
                assert(out@ + font_rec(rest@).0 =~= out0 + spec_step.0);
                assert(spec_step.1 =~= font_rec(rest@).1);
            }
        }
    }
}

/// The payload that replaces each directive: its fetched body, rewritten.
pub open spec fn body_payloads(bodies: Seq<Seq<char>>) -> Seq<Seq<char>> {
    bodies.map_values(|b: Seq<char>| font_rec(b).0)
}

/// The font items all the fetched bodies discover, in order.
pub open spec fn body_items(bodies: Seq<Seq<char>>) -> Seq<WorkItemId>
    decreases bodies.len(),
{
    if bodies.len() == 0 {
        Seq::<WorkItemId>::empty()
    } else {
        font_rec(bodies[0]).1 + body_items(bodies.drop_first())
    }
}

/// The chunk with each directive comment replaced by its payload: the
/// `k`th directive (in order) takes the `k`th payload; a comment that
/// names no URL stays.
pub open spec fn style_rec(s: Seq<char>, payloads: Seq<Seq<char>>) -> Seq<char>
    decreases s.len(),
{
    let oi = find_at(s, 0, "/**"@);
    if oi is Some && 0 <= oi.unwrap() && oi.unwrap() + 3 <= s.len() {
        let o = oi.unwrap() + 3;
        let ci = find_at(s, o, "*/"@);
        if ci is Some && 0 < ci.unwrap() && o <= ci.unwrap() && ci.unwrap() + 2 <= s.len() {
            let c = ci.unwrap();
            let inner = s.subrange(o, c);
            match dir_url(inner) {
                Some(u) => {
                    let payload = if payloads.len() > 0 {
                        payloads[0]
                    } else {
                        s.subrange(o - 3, c + 2)
                    };
                    let rest2 = if payloads.len() > 0 {
                        payloads.drop_first()
                    } else {
                        payloads
                    };
                    s.subrange(0, o - 3) + payload + style_rec(
                        s.subrange(c + 2, s.len() as int),
                        rest2,
                    )
                },
                None => s.subrange(0, c + 2) + style_rec(
                    s.subrange(c + 2, s.len() as int),
                    payloads,
                ),
            }
        } else {
            s
        }
    } else {
        s
    }
}

/// Replaces the chunk's directives with the rewritten fetched bodies and
/// discovers every nested font item, as `style_rec` over `body_payloads`
/// describes. The driver fetches `bodies` in directive order; a failed
/// fetch is a hard error for the chunk and never reaches this point.
pub fn rewrite_style_chunk(css: &Vec<char>, bodies: &Vec<String>, sched: &mut Scheduler) -> (r:
    Vec<char>)
    requires
        old(sched).inv(),
    ensures
        final(sched).inv(),
        r@ == style_rec(css@, body_payloads(bodies@.map_values(|b: String| b@))),
        final(sched).model() == enqueue_all(
            old(sched).model(),
            body_items(bodies@.map_values(|b: String| b@)),
        ),
{
    let ghost bs = bodies@.map_values(|b: String| b@);
    let mut payloads: Vec<Vec<char>> = Vec::new();
    let mut k: usize = 0;
    proof {
        assert(body_items(bs.subrange(0, 0)) =~= Seq::<WorkItemId>::empty());
        assert(enqueue_all(old(sched).model(), body_items(bs.subrange(0, 0))) == old(
            sched,
        ).model());
        assert(payloads@.map_values(|v: Vec<char>| v@) =~= body_payloads(bs.subrange(0, 0)));
    }
    while k < bodies.len()
        invariant
            sched.inv(),
            k <= bs.len(),
            bs.len() == bodies@.len(),
            bs == bodies@.map_values(|b: String| b@),
            payloads@.map_values(|v: Vec<char>| v@) == body_payloads(bs.subrange(0, k as int)),
            sched.model() == enqueue_all(
                old(sched).model(),
                body_items(bs.subrange(0, k as int)),
            ),
        decreases bs.len() - k,
    {
        let bv = str_to_chars(bodies[k].as_str());
        let ghost m0 = sched.model();
        let ghost pls0 = payloads@.map_values(|v: Vec<char>| v@);
        let pay = rewrite_font_urls(&bv, sched);
        let ghost payv = pay@;
        payloads.push(pay);
        proof {
            lemma_body_items_snoc(bs, k as int);
            lemma_enqueue_all_concat(
                old(sched).model(),
                body_items(bs.subrange(0, k as int)),
                font_rec(bs[k as int]).1,
            );
            assert(payloads@.map_values(|v: Vec<char>| v@) =~= pls0.push(payv));
            assert(pls0.push(payv) =~= body_payloads(bs.subrange(0, k + 1)));
        }
        k = k + 1;
    }
    proof {
        assert(bs.subrange(0, bs.len() as int) =~= bs);
    }
    splice_directives(css, &payloads)
}

/// Splitting one more body off the prefix.
proof fn lemma_body_items_snoc(bs: Seq<Seq<char>>, k: int)
    requires
        0 <= k < bs.len(),
    ensures
        body_items(bs.subrange(0, k + 1)) == body_items(bs.subrange(0, k)) + font_rec(
            bs[k],
        ).1,
    decreases k,
{
    if k == 0 {
        assert(bs.subrange(0, 1)[0] == bs[0]);
        assert(bs.subrange(0, 1).drop_first() =~= Seq::<Seq<char>>::empty());
        assert(body_items(Seq::<Seq<char>>::empty()) == Seq::<WorkItemId>::empty());
        assert(body_items(bs.subrange(0, 0)) == Seq::<WorkItemId>::empty());
        assert(body_items(bs.subrange(0, 1)) =~= body_items(bs.subrange(0, 0)) + font_rec(
            bs[0],
        ).1);
    } else {
        lemma_body_items_snoc(bs.drop_first(), k - 1);
        assert(bs.subrange(0, k + 1)[0] == bs[0]);
        assert(bs.subrange(0, k + 1).drop_first() =~= bs.drop_first().subrange(0, k));
        assert(bs.subrange(0, k).drop_first() =~= bs.drop_first().subrange(0, k - 1));
        assert(bs.drop_first()[k - 1] == bs[k]);
        assert(body_items(bs.subrange(0, k + 1)) =~= body_items(bs.subrange(0, k)) + font_rec(
            bs[k],
        ).1);
    }
}

/// Splices the payloads into the chunk, as `style_rec` describes.
fn splice_directives(css: &Vec<char>, payloads: &Vec<Vec<char>>) -> (r: Vec<char>)
    ensures
        r@ == style_rec(css@, payloads@.map_values(|v: Vec<char>| v@)),
{
    let ghost pls = payloads@.map_values(|v: Vec<char>| v@);
    let open_pat = str_to_chars("/**");
    let close_pat = str_to_chars("*/");
    let font_pat = str_to_chars("@font ");
    let mut out: Vec<char> = Vec::new();
    let mut rest = copy_chars(css);
    let mut k: usize = 0;
    proof {
        reveal_strlit("/**");
        reveal_strlit("*/");
        reveal_strlit("@font ");
        assert(pls.subrange(0, pls.len() as int) =~= pls);
        assert(out@ + style_rec(rest@, pls) =~= style_rec(css@, pls));
    }
    loop
        invariant
            open_pat@ == "/**"@,
            close_pat@ == "*/"@,
            font_pat@ == "@font "@,
            open_pat@.len() == 3,
            close_pat@.len() == 2,
            font_pat@.len() == 6,
            k <= pls.len(),
            pls == payloads@.map_values(|v: Vec<char>| v@),
            out@ + style_rec(rest@, pls.subrange(k as int, pls.len() as int)) == style_rec(
                css@,
                pls,
            ),
        decreases rest@.len(),
    {
        let ghost rem = pls.subrange(k as int, pls.len() as int);
        let rl = rest.len();
        let o0 = match find_from(&rest, 0, &open_pat) {
            None => {
                push_all(&mut out, &rest);
                return out;
            },
            Some(j) => j,
        };
        proof {
            lemma_find_at_props(rest@, 0, open_pat@);
            assert(match_at(rest@, o0 as int, open_pat@));
        }
        let o = o0 + 3;
        let c = match find_from(&rest, o, &close_pat) {
            None => {
                push_all(&mut out, &rest);
                return out;
            },
            Some(j) => j,
        };
        proof {
            lemma_find_at_props(rest@, o as int, close_pat@);
            assert(match_at(rest@, c as int, close_pat@));
        }
        let ghost out0 = out@;
        let ghost rest0 = rest@;
        let inner = subvec(&rest, o, c);
        let next = subvec(&rest, c + 2, rl);
        let has_url: bool = match find_from(&inner, 0, &font_pat) {
            None => false,
            Some(f) => {
                proof {
                    lemma_find_at_props(inner@, 0, font_pat@);
                    assert(match_at(inner@, f as int, font_pat@));
                }
                let start = f + 6;
                let end = first_ws_x(&inner, start);
                start < end
            },
        };
        if has_url {
            proof {
                assert(dir_url(inner@) is Some);
            }
            let prefix = subvec(&rest, 0, o0);
            push_all(&mut out, &prefix);
            if k < payloads.len() {
                push_all(&mut out, &payloads[k]);
                k = k + 1;
            } else {
                let comment = subvec(&rest, o0, c + 2);
                push_all(&mut out, &comment);
            }
            rest = next;
            proof {
                let ghost rem2 = pls.subrange(k as int, pls.len() as int);
                if rem.len() > 0 {
                    assert(rem[0] == pls[(k - 1) as int]);
                    assert(rem.drop_first() =~= rem2);
                } else {
                    assert(rem =~= rem2);
                }
                assert(out@ + style_rec(rest@, rem2) =~= out0 + style_rec(rest0, rem));
            }
        } else {
            proof {
                assert(dir_url(inner@) is None);
            }
            let prefix = subvec(&rest, 0, c + 2);
            push_all(&mut out, &prefix);
            rest = next;
            proof {
                assert(out@ + style_rec(rest@, rem) =~= out0 + style_rec(rest0, rem));
            }
        }
    }
}

} // verus!
