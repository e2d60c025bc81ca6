//! Image and link rewriting over a page's serialized HTML.
//!
//! An image reference whose URL parses is rewritten to the local
//! `/images/{sha256(url)}.webp` path and discovered as an `Image` item. A
//! link using the reserved `hyperref:` scheme addresses another markdown
//! source; its candidate file is resolved by the driver (the file system
//! answers), and a resolved link is rewritten to the sibling's
//! root-relative `.html` output path and discovered as a `Page` item; an
//! unresolvable link is left unrewritten.

use vstd::prelude::*;

use crate::digest::sha256_hex;
use crate::digest::sha256_hex_of;
use crate::scheduler::enqueue_all;
use crate::scheduler::Scheduler;
use crate::sitepath::is_absolute;
use crate::sitepath::path_join;
use crate::sitepath::path_join_x;
use crate::sitepath::strip_leading_slash;
use crate::sitepath::strip_leading_slash_x;
use crate::sitepath::strip_prefix_dir;
use crate::sitepath::strip_prefix_dir_x;
use crate::sitepath::with_extension;
use crate::sitepath::with_extension_x;
use crate::sitepath::is_absolute_x;
use crate::text::chars_eq;
use crate::text::chars_to_string;
use crate::text::copy_chars;
use crate::text::find_at;
use crate::text::find_from;
use crate::text::lemma_find_at_props;
use crate::text::match_at;
use crate::text::push_all;
use crate::text::str_to_chars;
use crate::text::subvec;
use crate::urlinfo::url_norm_of;
use crate::urlinfo::url_normalize;
use crate::urlinfo::url_path;
use crate::urlinfo::url_path_of;
use crate::urlinfo::url_scheme;
use crate::urlinfo::url_scheme_of;
use crate::workitem::WorkItem;
use crate::workitem::WorkItemId;

verus! {

/// Where an image reference's URL starts.
pub open spec fn img_pat() -> Seq<char> {
    "<img src=\""@
}

/// Where a link's URL starts.
pub open spec fn a_pat() -> Seq<char> {
    "<a href=\""@
}

/// The image pass: each `<img src="u">` whose `u` parses as a URL is
/// rewritten to `/images/{sha256(normalized u)}.webp` and yields an
/// `Image` item keyed by that hash; a `u` that does not parse stays.
/// Returns the rewritten HTML and the discovered identities, in order.
pub open spec fn img_rec(s: Seq<char>) -> (Seq<char>, Seq<WorkItemId>)
    decreases s.len(),
{
    let oi = find_at(s, 0, img_pat());
    if oi is Some && 0 <= oi.unwrap() && oi.unwrap() + img_pat().len() <= s.len() {
        let o = oi.unwrap() + img_pat().len();
        let qi = find_at(s, o, seq!['"']);
        if qi is Some && 0 < qi.unwrap() && o <= qi.unwrap() && qi.unwrap() < s.len() {
            let q = qi.unwrap();
            let raw = s.subrange(o, q);
            let rest = img_rec(s.subrange(q, s.len() as int));
            match url_norm_of(raw) {
                Some(norm) => {
                    let hash = sha256_hex_of(norm);
                    (
                        s.subrange(0, o) + "/images/"@ + hash + ".webp"@ + rest.0,
                        seq![WorkItemId::Image { input: norm, output: hash }] + rest.1,
                    )
                },
                None => (s.subrange(0, q) + rest.0, rest.1),
            }
        } else {
            (s, Seq::<WorkItemId>::empty())
        }
    } else {
        (s, Seq::<WorkItemId>::empty())
    }
}

/// Rewrites image references and discovers their items, as `img_rec`
/// describes; discovery deduplicates against everything the scheduler has
/// seen.
pub fn rewrite_images(html: &Vec<char>, sched: &mut Scheduler) -> (r: Vec<char>)
    requires
        old(sched).inv(),
    ensures
        final(sched).inv(),
        r@ == img_rec(html@).0,
        final(sched).model() == enqueue_all(old(sched).model(), img_rec(html@).1),
{
    let pat = str_to_chars("<img src=\"");
    let mut quote: Vec<char> = Vec::new();
    quote.push('"');
    let mut out: Vec<char> = Vec::new();
    let mut rest = copy_chars(html);
    proof {
        reveal_strlit("<img src=\"");
        assert(quote@ =~= seq!['"']);
        assert(out@ + img_rec(rest@).0 =~= img_rec(html@).0);
    }
    loop
        invariant
            sched.inv(),
            pat@ == img_pat(),
            pat@.len() == 10,
            quote@ == seq!['"'],
            out@ + img_rec(rest@).0 == img_rec(html@).0,
            enqueue_all(old(sched).model(), img_rec(html@).1) == enqueue_all(
                sched.model(),
                img_rec(rest@).1,
            ),
        decreases rest@.len(),
    {
        let rl = rest.len();
        let o0 = match find_from(&rest, 0, &pat) {
            None => {
                push_all(&mut out, &rest);
                return out;
            },
            Some(j) => j,
        };
        proof {
            lemma_find_at_props(rest@, 0, pat@);
            assert(match_at(rest@, o0 as int, pat@));
        }
        let o = o0 + 10;
        let q = match find_from(&rest, o, &quote) {
            None => {
                push_all(&mut out, &rest);
                return out;
            },
            Some(j) => j,
        };
        proof {
            lemma_find_at_props(rest@, o as int, quote@);
            assert(match_at(rest@, q as int, quote@));
        }
        let ghost out0 = out@;
        let ghost rest0 = rest@;
        let ghost m0 = sched.model();
        let raw = subvec(&rest, o, q);
        let next = subvec(&rest, q, rl);
        let raw_s = chars_to_string(&raw);
        match url_normalize(raw_s.as_str()) {
            Some(norm) => {
                let hash = sha256_hex(norm.as_str());
                let ghost normv = norm@;
                let ghost hashv = hash@;
                let prefix = subvec(&rest, 0, o);
                push_all(&mut out, &prefix);
                let t1 = str_to_chars("/images/");
                push_all(&mut out, &t1);
                let hv = str_to_chars(hash.as_str());
                push_all(&mut out, &hv);
                let t2 = str_to_chars(".webp");
                push_all(&mut out, &t2);
                let item = WorkItem::Image { input: norm, output: hash };
                proof {
                    assert(item@ == WorkItemId::Image { input: normv, output: hashv });
                }
                let _ = sched.enqueue_if_new(item);
                rest = next;
                proof {
                    let spec_step = img_rec(rest0);
                    assert(out@ + img_rec(rest@).0 =~= out0 + spec_step.0);
                    assert(seq![WorkItemId::Image { input: normv, output: hashv }]
                        + img_rec(rest@).1 =~= spec_step.1);
                    assert(seq![WorkItemId::Image { input: normv, output: hashv }]
                        + img_rec(rest@).1 =~= spec_step.1.drop_first().insert(
                        0,
                        spec_step.1[0],
                    ));
                    assert(spec_step.1.drop_first() =~= img_rec(rest@).1);
                    assert(enqueue_all(m0, spec_step.1) == enqueue_all(
                        sched.model(),
                        img_rec(rest@).1,
                    ));
                }
            },
            None => {
                let prefix = subvec(&rest, 0, q);
                push_all(&mut out, &prefix);
                rest = next;
                proof {
                    let spec_step = img_rec(rest0);
                    assert(out@ + img_rec(rest@).0 =~= out0 + spec_step.0);
                    assert(spec_step.1 =~= img_rec(rest@).1);
                }
            },
        }
    }
}

/// A URL written with the reserved intra-site scheme.
pub open spec fn is_hyperref(raw: Seq<char>) -> bool {
    url_norm_of(raw) is Some && url_scheme_of(raw) == Some("hyperref"@)
}

/// The source file a hyperref link points at: its URL path resolved
/// against the output root when absolute, against the page's directory
/// otherwise, with the `md` extension.
pub open spec fn hyperref_candidate(
    raw: Seq<char>,
    page_dir: Seq<char>,
    out_root: Seq<char>,
) -> Seq<char> {
    let p = match url_path_of(raw) {
        Some(p) => p,
        None => Seq::<char>::empty(),
    };
    let joined = if is_absolute(p) {
        path_join(out_root, strip_leading_slash(p))
    } else {
        path_join(page_dir, p)
    };
    with_extension(joined, "md"@)
}

/// The candidate files of a page's hyperref links, in order of appearance.
pub open spec fn link_targets(s: Seq<char>, page_dir: Seq<char>, out_root: Seq<char>) -> Seq<
    Seq<char>,
>
    decreases s.len(),
{
    let oi = find_at(s, 0, a_pat());
    if oi is Some && 0 <= oi.unwrap() && oi.unwrap() + a_pat().len() <= s.len() {
        let o = oi.unwrap() + a_pat().len();
        let qi = find_at(s, o, seq!['"']);
        if qi is Some && 0 < qi.unwrap() && o <= qi.unwrap() && qi.unwrap() < s.len() {
            let q = qi.unwrap();
            let raw = s.subrange(o, q);
            let rest = link_targets(s.subrange(q, s.len() as int), page_dir, out_root);
            if is_hyperref(raw) {
                seq![hyperref_candidate(raw, page_dir, out_root)] + rest
            } else {
                rest
            }
        } else {
            Seq::<Seq<char>>::empty()
        }
    } else {
        Seq::<Seq<char>>::empty()
    }
}

/// The link pass: the `k`th hyperref link consumes the `k`th resolution
/// (the canonical path of its candidate file, or nothing). A link whose
/// file resolved under the source root is rewritten to the root-relative
/// `.html` output path and yields a `Page` item for the canonical file;
/// an unresolved link, or one whose file lies outside the source root, is
/// left unrewritten (a warning, not an error). Other links stay.
pub open spec fn links_rec(
    s: Seq<char>,
    res: Seq<Option<Seq<char>>>,
    base_dir: Seq<char>,
) -> (Seq<char>, Seq<WorkItemId>)
    decreases s.len(),
{
    let oi = find_at(s, 0, a_pat());
    if oi is Some && 0 <= oi.unwrap() && oi.unwrap() + a_pat().len() <= s.len() {
        let o = oi.unwrap() + a_pat().len();
        let qi = find_at(s, o, seq!['"']);
        if qi is Some && 0 < qi.unwrap() && o <= qi.unwrap() && qi.unwrap() < s.len() {
            let q = qi.unwrap();
            let raw = s.subrange(o, q);
            if is_hyperref(raw) {
                let rr: Option<Seq<char>> = if res.len() > 0 {
                    res[0]
                } else {
                    None
                };
                let res2 = if res.len() > 0 {
                    res.drop_first()
                } else {
                    res
                };
                let rest = links_rec(s.subrange(q, s.len() as int), res2, base_dir);
                match rr {
                    Some(canon) => match strip_prefix_dir(canon, base_dir) {
                        Some(rel) => (
                            s.subrange(0, o) + seq!['/'] + with_extension(rel, "html"@)
                                + rest.0,
                            seq![WorkItemId::Page(canon)] + rest.1,
                        ),
                        None => (s.subrange(0, q) + rest.0, rest.1),
                    },
                    None => (s.subrange(0, q) + rest.0, rest.1),
                }
            } else {
                let rest = links_rec(s.subrange(q, s.len() as int), res, base_dir);
                (s.subrange(0, q) + rest.0, rest.1)
            }
        } else {
            (s, Seq::<WorkItemId>::empty())
        }
    } else {
        (s, Seq::<WorkItemId>::empty())
    }
}

/// Whether this URL uses the reserved scheme.
fn is_hyperref_x(raw: &Vec<char>) -> (r: bool)
    ensures
        r == is_hyperref(raw@),
{
    let raw_s = chars_to_string(raw);
    match url_scheme(raw_s.as_str()) {
        Some(sch) => {
            let sv = str_to_chars(sch.as_str());
            let hr = str_to_chars("hyperref");
            let eq = chars_eq(&sv, &hr);
            proof {
                if eq {
                    assert(url_scheme_of(raw@) == Some("hyperref"@));
                } else {
                    assert(url_scheme_of(raw@) == Some(sch@));
                }
            }
            eq
        },
        None => false,
    }
}

/// Collects the candidate source files of the page's hyperref links, for
/// the driver to resolve against the file system.
pub fn find_link_targets(html: &Vec<char>, page_dir: &Vec<char>, out_root: &Vec<char>) -> (r:
    Vec<String>)
    ensures
        r@.map_values(|s: String| s@) == link_targets(html@, page_dir@, out_root@),
{
    let pat = str_to_chars("<a href=\"");
    let mut quote: Vec<char> = Vec::new();
    quote.push('"');
    let mut out: Vec<String> = Vec::new();
    let mut rest = copy_chars(html);
    proof {
        reveal_strlit("<a href=\"");
        assert(quote@ =~= seq!['"']);
        assert(out@.map_values(|s: String| s@) + link_targets(rest@, page_dir@, out_root@)
            =~= link_targets(html@, page_dir@, out_root@));
    }
    loop
        invariant
            pat@ == a_pat(),
            pat@.len() == 9,
            quote@ == seq!['"'],
            out@.map_values(|s: String| s@) + link_targets(rest@, page_dir@, out_root@)
                == link_targets(html@, page_dir@, out_root@),
        decreases rest@.len(),
    {
        let rl = rest.len();
        let o0 = match find_from(&rest, 0, &pat) {
            None => {
                proof {
                    assert(out@.map_values(|s: String| s@) =~= out@.map_values(|s: String| s@)
                        + Seq::<Seq<char>>::empty());
                }
                return out;
            },
            Some(j) => j,
        };
        proof {
            lemma_find_at_props(rest@, 0, pat@);
            assert(match_at(rest@, o0 as int, pat@));
        }
        let o = o0 + 9;
        let q = match find_from(&rest, o, &quote) {
            None => {
                proof {
                    assert(out@.map_values(|s: String| s@) =~= out@.map_values(|s: String| s@)
                        + Seq::<Seq<char>>::empty());
                }
                return out;
            },
            Some(j) => j,
        };
        proof {
            lemma_find_at_props(rest@, o as int, quote@);
            assert(match_at(rest@, q as int, quote@));
        }
        let ghost outs0 = out@.map_values(|s: String| s@);
        let ghost rest0 = rest@;
        let raw = subvec(&rest, o, q);
        let next = subvec(&rest, q, rl);
        if is_hyperref_x(&raw) {
            let raw_s = chars_to_string(&raw);
            let p = match url_path(raw_s.as_str()) {
                Some(p) => p,
                None => {
                    proof {
                        assert(false);
                    }
                    return out;
                },
            };
            let pv = str_to_chars(p.as_str());
            let joined = if is_absolute_x(&pv) {
                let stripped = strip_leading_slash_x(&pv);
                path_join_x(out_root, &stripped)
            } else {
                path_join_x(page_dir, &pv)
            };
            let mdext = str_to_chars("md");
            let cand = with_extension_x(&joined, &mdext);
            let ghost candv = cand@;
            out.push(chars_to_string(&cand));
            rest = next;
            proof {
                assert(candv == hyperref_candidate(raw@, page_dir@, out_root@));
                assert(out@.map_values(|s: String| s@) =~= outs0.push(candv));
                assert(outs0.push(candv) + link_targets(rest@, page_dir@, out_root@)
                    =~= outs0 + link_targets(rest0, page_dir@, out_root@));
            }
        } else {
            rest = next;
            proof {
                assert(link_targets(rest0, page_dir@, out_root@) =~= link_targets(
                    rest@,
                    page_dir@,
                    out_root@,
                ));
            }
        }
    }
}

/// Rewrites the page's hyperref links against the driver's resolutions,
/// as `links_rec` describes, and discovers the `Page` items.
pub fn rewrite_links(
    html: &Vec<char>,
    resolutions: &Vec<Option<String>>,
    base_dir: &Vec<char>,
    sched: &mut Scheduler,
) -> (r: Vec<char>)
    requires
        old(sched).inv(),
    ensures
        final(sched).inv(),
        r@ == links_rec(
            html@,
            resolutions@.map_values(
                |o: Option<String>|
                    match o {
                        Some(s) => Some(s@),
                        None => None,
                    },
            ),
            base_dir@,
        ).0,
        final(sched).model() == enqueue_all(
            old(sched).model(),
            links_rec(
                html@,
                resolutions@.map_values(
                    |o: Option<String>|
                        match o {
                            Some(s) => Some(s@),
                            None => None,
                        },
                ),
                base_dir@,
            ).1,
        ),
{
    let ghost resv = resolutions@.map_values(
        |o: Option<String>|
            match o {
                Some(s) => Some(s@),
                None => None,
            },
    );
    let pat = str_to_chars("<a href=\"");
    let mut quote: Vec<char> = Vec::new();
    quote.push('"');
    let mut out: Vec<char> = Vec::new();
    let mut rest = copy_chars(html);
    let mut k: usize = 0;
    proof {
        reveal_strlit("<a href=\"");
        assert(quote@ =~= seq!['"']);
        assert(resv.subrange(0, resv.len() as int) =~= resv);
        assert(out@ + links_rec(rest@, resv, base_dir@).0 =~= links_rec(
            html@,
            resv,
            base_dir@,
        ).0);
    }
    loop
        invariant
            sched.inv(),
            pat@ == a_pat(),
            pat@.len() == 9,
            quote@ == seq!['"'],
            k <= resv.len(),
            resv == resolutions@.map_values(
                |o: Option<String>|
                    match o {
                        Some(s) => Some(s@),
                        None => None,
                    },
            ),
            out@ + links_rec(rest@, resv.subrange(k as int, resv.len() as int), base_dir@).0
                == links_rec(html@, resv, base_dir@).0,
            enqueue_all(old(sched).model(), links_rec(html@, resv, base_dir@).1)
                == enqueue_all(
                sched.model(),
                links_rec(rest@, resv.subrange(k as int, resv.len() as int), base_dir@).1,
            ),
        decreases rest@.len(),
    {
        let ghost rem = resv.subrange(k as int, resv.len() as int);
        let rl = rest.len();
        let o0 = match find_from(&rest, 0, &pat) {
            None => {
                push_all(&mut out, &rest);
                return out;
            },
            Some(j) => j,
        };
        proof {
            lemma_find_at_props(rest@, 0, pat@);
            assert(match_at(rest@, o0 as int, pat@));
        }
        let o = o0 + 9;
        let q = match find_from(&rest, o, &quote) {
            None => {
                push_all(&mut out, &rest);
                return out;
            },
            Some(j) => j,
        };
        proof {
            lemma_find_at_props(rest@, o as int, quote@);
            assert(match_at(rest@, q as int, quote@));
        }
        let ghost out0 = out@;
        let ghost rest0 = rest@;
        let ghost m0 = sched.model();
        let raw = subvec(&rest, o, q);
        let next = subvec(&rest, q, rl);
        if is_hyperref_x(&raw) {
            let rr: Option<&String> = if k < resolutions.len() {
                match &resolutions[k] {
                    Some(s) => Some(s),
                    None => None,
                }
            } else {
                None
            };
            let ghost rrv: Option<Seq<char>> = if rem.len() > 0 {
                rem[0]
            } else {
                None
            };
            proof {
                if k < resolutions@.len() {
                    assert(rem[0] == resv[k as int]);
                }
                assert(rrv == match rr {
                    Some(s) => Some(s@),
                    None => None,
                });
            }
            let mut rewritten = false;
            match rr {
                Some(canon) => {
                    let cv = str_to_chars(canon.as_str());
                    match strip_prefix_dir_x(&cv, base_dir) {
                        Some(rel) => {
                            let prefix = subvec(&rest, 0, o);
                            push_all(&mut out, &prefix);
                            out.push('/');
                            let htmlext = str_to_chars("html");
                            let newpath = with_extension_x(&rel, &htmlext);
                            push_all(&mut out, &newpath);
                            let item = WorkItem::Page(chars_to_string(&cv));
                            let _ = sched.enqueue_if_new(item);
                            rewritten = true;
                        },
                        None => {},
                    }
                },
                None => {},
            }
            if !rewritten {
                let prefix = subvec(&rest, 0, q);
                push_all(&mut out, &prefix);
            }
            if k < resolutions.len() {
                k = k + 1;
            }
            rest = next;
            proof {
                let spec_step = links_rec(rest0, rem, base_dir@);
                let ghost rem2 = resv.subrange(k as int, resv.len() as int);
                if rem.len() > 0 {
                    assert(rem.drop_first() =~= rem2);
                } else {
                    assert(rem =~= rem2);
                }
                assert(out@ + links_rec(rest@, rem2, base_dir@).0 =~= out0 + spec_step.0);
                match rrv {
                    Some(canonv) => {
                        if strip_prefix_dir(canonv, base_dir@) is Some {
                            assert(spec_step.1.drop_first() =~= links_rec(
                                rest@,
                                rem2,
                                base_dir@,
                            ).1);
                            assert(enqueue_all(m0, spec_step.1) == enqueue_all(
                                sched.model(),
                                links_rec(rest@, rem2, base_dir@).1,
                            ));
                        } else {
                            assert(spec_step.1 =~= links_rec(rest@, rem2, base_dir@).1);
                        }
                    },
                    None => {
                        assert(spec_step.1 =~= links_rec(rest@, rem2, base_dir@).1);
                    },
                }
            }
        } else {
            let prefix = subvec(&rest, 0, q);
            push_all(&mut out, &prefix);
            rest = next;
            proof {
                let spec_step = links_rec(rest0, rem, base_dir@);
                assert(out@ + links_rec(rest@, rem, base_dir@).0 =~= out0 + spec_step.0);
                assert(spec_step.1 =~= links_rec(rest@, rem, base_dir@).1);
            }
        }
    }
}

} // verus!
