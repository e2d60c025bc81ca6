//! Heading slugs: URL/anchor-safe identifiers derived from heading text,
//! disambiguated per document with numeric suffixes.

use vstd::prelude::*;

use crate::text::chars_eq;
use crate::text::copy_chars;
use crate::text::push_all;
use crate::text::str_to_chars;

verus! {

/// What `str::to_lowercase` returns: a function of the characters alone.
pub uninterp spec fn lower_of(s: Seq<char>) -> Seq<char>;

/// What `char::is_alphanumeric` returns: a property of the character alone.
pub uninterp spec fn alnum_of(c: char) -> bool;

/// Relies on `str::to_lowercase`: the result depends on the characters
/// alone, and lowercasing an empty string yields an empty string.
#[verifier::external_body]
fn lowercase(s: &str) -> (r: String)
    ensures
        r@ == lower_of(s@),
        s@.len() == 0 ==> r@.len() == 0,
{
    s.to_lowercase()
}

/// Relies on `char::is_alphanumeric`: a property of the character alone.
#[verifier::external_body]
fn is_alnum(c: char) -> (r: bool)
    ensures
        r == alnum_of(c),
{
    c.is_alphanumeric()
}

/// What one (already lowercased) character contributes to a slug: a space
/// becomes a hyphen, alphanumeric characters and hyphens stay, everything
/// else is dropped.
pub open spec fn slug_char(c: char) -> Seq<char> {
    if c == ' ' {
        seq!['-']
    } else if alnum_of(c) || c == '-' {
        seq![c]
    } else {
        Seq::<char>::empty()
    }
}

/// The slug characters of an already lowercased text.
pub open spec fn slug_chars(s: Seq<char>) -> Seq<char>
    decreases s.len(),
{
    if s.len() == 0 {
        Seq::<char>::empty()
    } else {
        slug_char(s[0]) + slug_chars(s.drop_first())
    }
}

/// The (undisambiguated) slug of a heading title.
pub open spec fn slug_of(title: Seq<char>) -> Seq<char> {
    slug_chars(lower_of(title))
}

/// `slug_chars` distributes over concatenation.
pub proof fn lemma_slug_chars_concat(a: Seq<char>, b: Seq<char>)
    ensures
        slug_chars(a + b) == slug_chars(a) + slug_chars(b),
    decreases a.len(),
{
    if a.len() == 0 {
        assert(a + b =~= b);
        assert(slug_chars(a) + slug_chars(b) =~= slug_chars(b));
    } else {
        assert((a + b).drop_first() =~= a.drop_first() + b);
        lemma_slug_chars_concat(a.drop_first(), b);
        assert(slug_chars(a + b) =~= slug_chars(a) + slug_chars(b));
    }
}

/// Turns a heading title into its slug: lowercase, spaces to hyphens, and
/// everything that is neither alphanumeric nor a hyphen stripped.
pub fn slugify(title: &str) -> (r: Vec<char>)
    ensures
        r@ == slug_of(title@),
{
    let lowered = lowercase(title);
    let cs = str_to_chars(lowered.as_str());
    let mut out: Vec<char> = Vec::new();
    let mut i: usize = 0;
    proof {
        assert(cs@.subrange(0, 0) =~= Seq::<char>::empty());
        assert(slug_chars(Seq::<char>::empty()) =~= Seq::<char>::empty());
    }
    while i < cs.len()
        invariant
            i <= cs@.len(),
            cs@ == lower_of(title@),
            out@ == slug_chars(cs@.subrange(0, i as int)),
        decreases cs@.len() - i,
    {
        let c = cs[i];
        proof {
            assert(cs@.subrange(0, i + 1) =~= cs@.subrange(0, i as int) + seq![c]);
            lemma_slug_chars_concat(cs@.subrange(0, i as int), seq![c]);
            assert(seq![c].drop_first() =~= Seq::<char>::empty());
            assert(slug_chars(Seq::<char>::empty()) == Seq::<char>::empty());
            assert(slug_chars(seq![c]) =~= slug_char(c));
        }
        if c == ' ' {
            out.push('-');
        } else if is_alnum(c) || c == '-' {
            out.push(c);
        }
        proof {
            assert(out@ =~= slug_chars(cs@.subrange(0, i + 1)));
        }
        i = i + 1;
    }
    proof {
        assert(cs@.subrange(0, cs@.len() as int) =~= cs@);
    }
    out
}

/// The decimal digit characters of `n`, most significant first.
pub open spec fn dec_str_of(n: nat) -> Seq<char>
    decreases n,
{
    if n < 10 {
        seq![digit_char(n)]
    } else {
        dec_str_of(n / 10).push(digit_char(n % 10))
    }
}

/// The character for a single decimal digit.
pub open spec fn digit_char(d: nat) -> char {
    if d == 0 {
        '0'
    } else if d == 1 {
        '1'
    } else if d == 2 {
        '2'
    } else if d == 3 {
        '3'
    } else if d == 4 {
        '4'
    } else if d == 5 {
        '5'
    } else if d == 6 {
        '6'
    } else if d == 7 {
        '7'
    } else if d == 8 {
        '8'
    } else {
        '9'
    }
}

/// The character for digit `d`, executable.
fn digit_char_x(d: u128) -> (c: char)
    requires
        d < 10,
    ensures
        c == digit_char(d as nat),
{
    if d == 0 {
        '0'
    } else if d == 1 {
        '1'
    } else if d == 2 {
        '2'
    } else if d == 3 {
        '3'
    } else if d == 4 {
        '4'
    } else if d == 5 {
        '5'
    } else if d == 6 {
        '6'
    } else if d == 7 {
        '7'
    } else if d == 8 {
        '8'
    } else {
        '9'
    }
}

/// Writes `n` in decimal.
pub fn dec_chars(n: u128) -> (v: Vec<char>)
    ensures
        v@ == dec_str_of(n as nat),
{
    let mut rev: Vec<char> = Vec::new();
    let mut m: u128 = n;
    if m < 10 {
        let mut v: Vec<char> = Vec::new();
        v.push(digit_char_x(m));
        proof {
            assert(v@ =~= dec_str_of(n as nat));
        }
        return v;
    }
    while m >= 10
        invariant
            dec_str_of(n as nat) == dec_str_of(m as nat) + rev@.reverse(),
        decreases m,
    {
        let d = m % 10;
        let ghost rev0 = rev@;
        let ghost m0 = m as nat;
        rev.push(digit_char_x(d));
        m = m / 10;
        proof {
            assert(m0 / 10 >= 1) by {
                assert(m0 >= 10);
            }
            assert(dec_str_of(m0) == dec_str_of(m0 / 10).push(digit_char(m0 % 10)));
            assert(rev@.reverse() =~= seq![digit_char(m0 % 10)] + rev0.reverse());
            assert(dec_str_of(m0 / 10) + rev@.reverse() =~= dec_str_of(m0) + rev0.reverse());
        }
    }
    let mut v: Vec<char> = Vec::new();
    v.push(digit_char_x(m));
    let mut k: usize = rev.len();
    proof {
        assert(dec_str_of(m as nat) =~= seq![digit_char(m as nat)]);
        assert(v@ + rev@.reverse().subrange(
            rev@.len() - k,
            rev@.len() as int,
        ) =~= dec_str_of(n as nat));
    }
    while k > 0
        invariant
            k <= rev@.len(),
            v@ + rev@.reverse().subrange(rev@.len() - k, rev@.len() as int) == dec_str_of(
                n as nat,
            ),
        decreases k,
    {
        let ghost v0 = v@;
        let c = rev[k - 1];
        v.push(c);
        k = k - 1;
        proof {
            assert(rev@.reverse()[rev@.len() - k - 1] == rev@[k as int]);
            assert(v@ + rev@.reverse().subrange(rev@.len() - k, rev@.len() as int) =~= v0
                + rev@.reverse().subrange(rev@.len() - k - 1, rev@.len() as int));
        }
    }
    proof {
        assert(rev@.reverse().subrange(rev@.len() as int, rev@.len() as int)
            =~= Seq::<char>::empty());
        assert(v@ =~= v@ + Seq::<char>::empty());
    }
    v
}

/// The next anchor for a base slug: the bare base the first time it is
/// seen, then the base followed by 1, 2, and so on.
pub open spec fn numbered_slug(base: Seq<char>, taken: nat) -> Seq<char> {
    if taken == 0 {
        base
    } else {
        base + dec_str_of(taken)
    }
}

/// How many entries of `s` equal `b`.
pub open spec fn occ_count(s: Seq<Seq<char>>, b: Seq<char>) -> nat
    decreases s.len(),
{
    if s.len() == 0 {
        0
    } else {
        occ_count(s.drop_last(), b) + if s.last() == b {
            1nat
        } else {
            0nat
        }
    }
}

/// Per-document slug disambiguation: remembers every base slug handed out,
/// so a repeated base gets a numeric suffix.
pub struct SlugTable {
    seen: Vec<Vec<char>>,
}

impl SlugTable {
    /// The base slugs assigned so far, in order.
    pub closed spec fn bases(&self) -> Seq<Seq<char>> {
        self.seen@.map_values(|v: Vec<char>| v@)
    }

    /// How often `b` has been assigned so far.
    pub open spec fn times(&self, b: Seq<char>) -> nat {
        occ_count(self.bases(), b)
    }

    /// An empty table.
    pub fn new() -> (t: SlugTable)
        ensures
            t.bases() == Seq::<Seq<char>>::empty(),
            forall|b: Seq<char>| t.times(b) == 0,
    {
        let t = SlugTable { seen: Vec::new() };
        proof {
            assert(t.bases() =~= Seq::<Seq<char>>::empty());
            assert forall|b: Seq<char>| t.times(b) == 0 by {
                assert(t.bases() =~= Seq::<Seq<char>>::empty());
            }
        }
        t
    }

    /// Hands out the anchor for `base`: the bare base the first time, then
    /// numbered variants, as `numbered_slug` describes.
    pub fn assign(&mut self, base: Vec<char>) -> (r: Vec<char>)
        ensures
            r@ == numbered_slug(base@, old(self).times(base@)),
            final(self).bases() == old(self).bases().push(base@),
            final(self).times(base@) == old(self).times(base@) + 1,
            forall|c: Seq<char>| c != base@ ==> final(self).times(c) == old(self).times(c),
    {
        let ghost b = base@;
        let mut count: usize = 0;
        let mut i: usize = 0;
        proof {
            assert(self.bases().subrange(0, 0) =~= Seq::<Seq<char>>::empty());
        }
        while i < self.seen.len()
            invariant
                *self == *old(self),
                i <= self.seen@.len(),
                count <= i,
                count == occ_count(self.bases().subrange(0, i as int), b),
                b == base@,
            decreases self.seen@.len() - i,
        {
            proof {
                assert(self.bases().subrange(0, i + 1).drop_last() =~= self.bases().subrange(
                    0,
                    i as int,
                ));
                assert(self.bases().subrange(0, i + 1).last() == self.bases()[i as int]);
            }
            if chars_eq(&self.seen[i], &base) {
                count = count + 1;
            }
            i = i + 1;
        }
        proof {
            assert(self.bases().subrange(0, self.bases().len() as int) =~= self.bases());
        }
        let r = if count == 0 {
            copy_chars(&base)
        } else {
            let mut r = copy_chars(&base);
            let suffix = dec_chars(count as u128);
            push_all(&mut r, &suffix);
            r
        };
        let ghost bases0 = self.bases();
        self.seen.push(base);
        proof {
            assert(self.bases() =~= bases0.push(b));
            assert(self.bases().drop_last() =~= bases0);
            assert(self.bases().last() == b);
            assert forall|c: Seq<char>| c != b implies final(self).times(c) == occ_count(
                bases0,
                c,
            ) by {
                assert(self.bases().drop_last() =~= bases0);
            }
        }
        r
    }
}

} // verus!
