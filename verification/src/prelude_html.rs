//! The prelude: the HTML shell template with named substitution slots
//! (`@@@SLOT_STYLES@@@`, `@@@SLOT_CONTENT@@@`, `@@@SLOT_TITLE@@@`) and
//! conditional regions bracketed by `<!-- @@@IF_DATE@@@ -->` /
//! `<!-- @@@IF_TIME_TO_READ@@@ -->` and `<!-- @@@ENDIF@@@ -->`. A region
//! collapses to nothing when its field is absent, and to its inner text
//! with the inner slot filled when present.

use vstd::prelude::*;

use crate::frontmatter::SiteDate;
use crate::slug::dec_str_of;
use crate::slug::dec_chars;
use crate::text::find_at;
use crate::text::find_from;
use crate::text::lemma_find_at_props;
use crate::text::match_at;
use crate::text::push_all;
use crate::text::replace_all;
use crate::text::replace_all_spec;
use crate::text::copy_chars;
use crate::text::subvec;

verus! {

/// `n` in decimal, left-padded with zeros to two digits.
pub open spec fn pad2(n: nat) -> Seq<char> {
    if n < 10 {
        seq!['0'] + dec_str_of(n)
    } else {
        dec_str_of(n)
    }
}

/// `n` in decimal, left-padded with zeros to four digits.
pub open spec fn pad4(n: nat) -> Seq<char> {
    if n < 10 {
        seq!['0', '0', '0'] + dec_str_of(n)
    } else if n < 100 {
        seq!['0', '0'] + dec_str_of(n)
    } else if n < 1000 {
        seq!['0'] + dec_str_of(n)
    } else {
        dec_str_of(n)
    }
}

/// A date as the site shows it: `MM/DD/YYYY`, zero-padded.
pub open spec fn date_str(d: SiteDate) -> Seq<char> {
    pad2(d.month as nat) + seq!['/'] + pad2(d.day as nat) + seq!['/'] + pad4(d.year as nat)
}

/// Writes a date as `MM/DD/YYYY`.
pub fn format_date(d: &SiteDate) -> (r: Vec<char>)
    ensures
        r@ == date_str(*d),
{
    let mut r: Vec<char> = Vec::new();
    if d.month < 10 {
        r.push('0');
    }
    let mv = dec_chars(d.month as u128);
    push_all(&mut r, &mv);
    r.push('/');
    if d.day < 10 {
        r.push('0');
    }
    let dv = dec_chars(d.day as u128);
    push_all(&mut r, &dv);
    r.push('/');
    if d.year < 10 {
        r.push('0');
        r.push('0');
        r.push('0');
    } else if d.year < 100 {
        r.push('0');
        r.push('0');
    } else if d.year < 1000 {
        r.push('0');
    }
    let yv = dec_chars(d.year as u128);
    push_all(&mut r, &yv);
    proof {
        assert(r@ =~= date_str(*d));
    }
    r
}

/// Every conditional region of `s` (an `open` marker up to the next
/// `close` marker) replaced: when `payload` is present, by the region's
/// inner text with every `slot` replaced by the payload; when absent, by
/// nothing. Text with no complete region is left unchanged.
pub open spec fn regions_spec(
    s: Seq<char>,
    open_m: Seq<char>,
    close_m: Seq<char>,
    payload: Option<Seq<char>>,
    slot: Seq<char>,
) -> Seq<char>
    decreases s.len(),
    when open_m.len() > 0 && close_m.len() > 0 && slot.len() > 0
{
    let oi = find_at(s, 0, open_m);
    if oi is Some && 0 <= oi.unwrap() && oi.unwrap() + open_m.len() <= s.len() {
        let o = oi.unwrap();
        let ci = find_at(s, o + open_m.len(), close_m);
        if ci is Some && o + open_m.len() <= ci.unwrap() && ci.unwrap() + close_m.len()
            <= s.len() {
            let c = ci.unwrap();
            let inner = s.subrange(o + open_m.len(), c);
            let filled = match payload {
                Some(p) => replace_all_spec(inner, slot, p),
                None => Seq::<char>::empty(),
            };
            s.subrange(0, o) + filled + regions_spec(
                s.subrange(c + close_m.len(), s.len() as int),
                open_m,
                close_m,
                payload,
                slot,
            )
        } else {
            s
        }
    } else {
        s
    }
}

/// Expands every conditional region of `s`, as `regions_spec` describes.
pub fn expand_regions(
    s: &Vec<char>,
    open_m: &Vec<char>,
    close_m: &Vec<char>,
    payload: Option<&Vec<char>>,
    slot: &Vec<char>,
) -> (r: Vec<char>)
    requires
        open_m@.len() > 0,
        close_m@.len() > 0,
        slot@.len() > 0,
    ensures
        r@ == regions_spec(
            s@,
            open_m@,
            close_m@,
            match payload {
                Some(p) => Some(p@),
                None => None,
            },
            slot@,
        ),
{
    let ghost pl: Option<Seq<char>> = match payload {
        Some(p) => Some(p@),
        None => None,
    };
    let mut out: Vec<char> = Vec::new();
    let mut rest = copy_chars(s);
    proof {
        assert(out@ + regions_spec(rest@, open_m@, close_m@, pl, slot@) =~= regions_spec(
            s@,
            open_m@,
            close_m@,
            pl,
            slot@,
        ));
    }
    loop
        invariant
            open_m@.len() > 0,
            close_m@.len() > 0,
            slot@.len() > 0,
            pl == match payload {
                Some(p) => Some(p@),
                None => None,
            },
            out@ + regions_spec(rest@, open_m@, close_m@, pl, slot@) == regions_spec(
                s@,
                open_m@,
                close_m@,
                pl,
                slot@,
            ),
        decreases rest@.len(),
    {
        let rl = rest.len();
        let found_open = find_from(&rest, 0, open_m);
        let o = match found_open {
            None => {
                push_all(&mut out, &rest);
                return out;
            },
            Some(o) => o,
        };
        proof {
            lemma_find_at_props(rest@, 0, open_m@);
            assert(match_at(rest@, o as int, open_m@));
        }
        let found_close = find_from(&rest, o + open_m.len(), close_m);
        let c = match found_close {
            None => {
                push_all(&mut out, &rest);
                return out;
            },
            Some(c) => c,
        };
        proof {
            lemma_find_at_props(rest@, o + open_m@.len(), close_m@);
            assert(match_at(rest@, c as int, close_m@));
        }
        let ghost out0 = out@;
        let ghost rest0 = rest@;
        let prefix = subvec(&rest, 0, o);
        let inner = subvec(&rest, o + open_m.len(), c);
        let next = subvec(&rest, c + close_m.len(), rl);
        push_all(&mut out, &prefix);
        match payload {
            Some(p) => {
                let filled = replace_all(&inner, slot, p);
                push_all(&mut out, &filled);
            },
            None => {},
        }
        rest = next;
        proof {
            assert(out@ + regions_spec(rest@, open_m@, close_m@, pl, slot@) =~= out0
                + regions_spec(rest0, open_m@, close_m@, pl, slot@));
        }
    }
}

/// LAW: a well-formed conditional region collapses. In a template of the
/// shape `pre · open · inner · close · post` — the markers found exactly
/// there — the whole bracketed region vanishes when the field is absent,
/// and becomes the inner text with every slot filled when it is present;
/// the rest of the template is processed unchanged. A page without a date
/// therefore renders with its date-conditional block entirely absent.
pub proof fn lemma_conditional_region(
    pre: Seq<char>,
    inner: Seq<char>,
    post: Seq<char>,
    open_m: Seq<char>,
    close_m: Seq<char>,
    payload: Option<Seq<char>>,
    slot: Seq<char>,
)
    requires
        open_m.len() > 0,
        close_m.len() > 0,
        slot.len() > 0,
        find_at(pre + open_m + inner + close_m + post, 0, open_m) == Some(pre.len() as int),
        find_at(
            pre + open_m + inner + close_m + post,
            pre.len() + open_m.len() as int,
            close_m,
        ) == Some(pre.len() + open_m.len() + inner.len() as int),
    ensures
        regions_spec(pre + open_m + inner + close_m + post, open_m, close_m, payload, slot)
            == pre + (match payload {
            Some(p) => replace_all_spec(inner, slot, p),
            None => Seq::<char>::empty(),
        }) + regions_spec(post, open_m, close_m, payload, slot),
{
    let s = pre + open_m + inner + close_m + post;
    let o = pre.len() as int;
    let c = pre.len() + open_m.len() + inner.len() as int;
    assert(s.subrange(0, o) =~= pre);
    assert(s.subrange(o + open_m.len(), c) =~= inner);
    assert(s.subrange(c + close_m.len() as int, s.len() as int) =~= post);
}

} // verus!
