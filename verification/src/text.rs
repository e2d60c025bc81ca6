//! Character-sequence utilities. The engine's transforms all work over
//! `Vec<char>`, whose view is the same `Seq<char>` that `String` and `str`
//! have, so contracts about rewritten documents can be stated uniformly.

use vstd::prelude::*;
use vstd::string::StrSliceExecFns;

verus! {

/// `pat` occurs in `s` at position `i`.
pub open spec fn match_at(s: Seq<char>, i: int, pat: Seq<char>) -> bool {
    &&& 0 <= i
    &&& i + pat.len() <= s.len()
    &&& s.subrange(i, i + pat.len()) == pat
}

/// Position of the first occurrence of `pat` in `s` at or after `from`.
pub open spec fn find_at(s: Seq<char>, from: int, pat: Seq<char>) -> Option<int>
    decreases s.len() + 1 - from,
{
    if from < 0 || from + pat.len() > s.len() {
        None
    } else if match_at(s, from, pat) {
        Some(from)
    } else {
        find_at(s, from + 1, pat)
    }
}

/// What `find_at` returns is the first match at or after `from`.
pub proof fn lemma_find_at_props(s: Seq<char>, from: int, pat: Seq<char>)
    requires
        0 <= from,
    ensures
        match find_at(s, from, pat) {
            Some(j) => from <= j && match_at(s, j, pat) && (forall|k: int|
                from <= k < j ==> !match_at(s, k, pat)),
            None => forall|k: int| from <= k ==> !match_at(s, k, pat),
        },
    decreases s.len() + 1 - from,
{
    if from + pat.len() > s.len() {
        assert forall|k: int| from <= k implies !match_at(s, k, pat) by {
            assert(k + pat.len() > s.len());
        }
    } else if match_at(s, from, pat) {
    } else {
        lemma_find_at_props(s, from + 1, pat);
    }
}

/// The characters of a string slice, in order.
pub fn str_to_chars(s: &str) -> (v: Vec<char>)
    ensures
        v@ == s@,
{
    let n: usize = s.unicode_len();
    let mut v: Vec<char> = Vec::new();
    let mut i: usize = 0;
    while i < n
        invariant
            i <= n,
            n == s@.len(),
            v@ =~= s@.subrange(0, i as int),
        decreases n - i,
    {
        let c = s.get_char(i);
        v.push(c);
        i = i + 1;
    }
    proof {
        assert(s@.subrange(0, n as int) =~= s@);
    }
    v
}

/// Relies on `String: FromIterator<char>`: collecting chars yields the
/// string with exactly those chars.
#[verifier::external_body]
pub(crate) fn chars_to_string(v: &Vec<char>) -> (s: String)
    ensures
        s@ == v@,
{
    v.iter().collect()
}

/// True exactly when `pat` occurs in `s` at position `i`.
pub fn matches_at(s: &Vec<char>, i: usize, pat: &Vec<char>) -> (r: bool)
    ensures
        r == match_at(s@, i as int, pat@),
{
    if i > s.len() || pat.len() > s.len() - i {
        proof {
            assert(i + pat@.len() > s@.len());
        }
        return false;
    }
    let mut k: usize = 0;
    while k < pat.len()
        invariant
            k <= pat.len(),
            i + pat.len() <= s.len(),
            forall|m: int| 0 <= m < k ==> s@[i + m] == pat@[m],
        decreases pat.len() - k,
    {
        if s[i + k] != pat[k] {
            proof {
                assert(s@.subrange(i as int, i + pat@.len())[k as int] == s@[i + k]);
            }
            return false;
        }
        k = k + 1;
    }
    proof {
        assert(s@.subrange(i as int, i + pat@.len()) =~= pat@);
    }
    true
}

/// First occurrence of `pat` at or after `from`, as `find_at` gives it.
pub fn find_from(s: &Vec<char>, from: usize, pat: &Vec<char>) -> (r: Option<usize>)
    requires
        pat@.len() > 0,
    ensures
        match r {
            Some(j) => from <= j && j <= usize::MAX && Some(j as int) == find_at(
                s@,
                from as int,
                pat@,
            ),
            None => find_at(s@, from as int, pat@) is None,
        },
{
    let mut i: usize = from;
    loop
        invariant
            from <= i,
            pat@.len() > 0,
            find_at(s@, from as int, pat@) == find_at(s@, i as int, pat@),
        decreases s@.len() + 1 - i,
    {
        if i > s.len() || pat.len() > s.len() - i {
            proof {
                assert(i + pat@.len() > s@.len());
            }
            return None;
        }
        if matches_at(s, i, pat) {
            return Some(i);
        }
        i = i + 1;
    }
}

/// Copy of `s[i..j]`.
pub fn subvec(s: &Vec<char>, i: usize, j: usize) -> (r: Vec<char>)
    requires
        i <= j <= s@.len(),
    ensures
        r@ == s@.subrange(i as int, j as int),
{
    let mut r: Vec<char> = Vec::new();
    let mut k: usize = i;
    while k < j
        invariant
            i <= k <= j <= s@.len(),
            r@ =~= s@.subrange(i as int, k as int),
        decreases j - k,
    {
        r.push(s[k]);
        k = k + 1;
    }
    r
}

/// Appends all of `src` to `dst`.
pub fn push_all(dst: &mut Vec<char>, src: &Vec<char>)
    ensures
        final(dst)@ == old(dst)@ + src@,
{
    let mut k: usize = 0;
    while k < src.len()
        invariant
            k <= src@.len(),
            dst@ =~= old(dst)@ + src@.subrange(0, k as int),
        decreases src@.len() - k,
    {
        dst.push(src[k]);
        k = k + 1;
    }
    proof {
        assert(old(dst)@ + src@.subrange(0, src@.len() as int) =~= old(dst)@ + src@);
    }
}

/// A copy of `s`.
pub fn copy_chars(s: &Vec<char>) -> (r: Vec<char>)
    ensures
        r@ == s@,
{
    let r = subvec(s, 0, s.len());
    proof {
        assert(s@.subrange(0, s@.len() as int) =~= s@);
    }
    r
}

/// True exactly when `a` and `b` hold the same characters.
pub fn chars_eq(a: &Vec<char>, b: &Vec<char>) -> (r: bool)
    ensures
        r == (a@ == b@),
{
    if a.len() != b.len() {
        return false;
    }
    let m = matches_at(a, 0, b);
    proof {
        if m {
            assert(a@.subrange(0, b@.len() as int) =~= a@);
        } else {
            if a@ == b@ {
                assert(a@.subrange(0, b@.len() as int) =~= b@);
            }
        }
    }
    m
}

/// `s` with every occurrence of `pat` replaced by `rep`, scanning left to
/// right and never rescanning replaced text.
pub open spec fn replace_all_spec(s: Seq<char>, pat: Seq<char>, rep: Seq<char>) -> Seq<char>
    decreases s.len(),
    when pat.len() > 0
{
    if s.len() == 0 {
        s
    } else if match_at(s, 0, pat) {
        rep + replace_all_spec(s.subrange(pat.len() as int, s.len() as int), pat, rep)
    } else {
        s.subrange(0, 1) + replace_all_spec(s.subrange(1, s.len() as int), pat, rep)
    }
}

/// Replaces every occurrence of `pat` in `s` by `rep`.
pub fn replace_all(s: &Vec<char>, pat: &Vec<char>, rep: &Vec<char>) -> (r: Vec<char>)
    requires
        pat@.len() > 0,
    ensures
        r@ == replace_all_spec(s@, pat@, rep@),
{
    let mut r: Vec<char> = Vec::new();
    let mut i: usize = 0;
    proof {
        assert(s@.subrange(0, s@.len() as int) =~= s@);
        assert(r@ + replace_all_spec(s@, pat@, rep@) =~= replace_all_spec(s@, pat@, rep@));
    }
    while i < s.len()
        invariant
            i <= s@.len(),
            pat@.len() > 0,
            r@ + replace_all_spec(s@.subrange(i as int, s@.len() as int), pat@, rep@)
                == replace_all_spec(s@, pat@, rep@),
        decreases s@.len() - i,
    {
        let ghost tail = s@.subrange(i as int, s@.len() as int);
        if matches_at(s, i, pat) {
            proof {
                assert(tail.subrange(0, pat@.len() as int) =~= s@.subrange(
                    i as int,
                    i + pat@.len(),
                ));
                assert(match_at(tail, 0, pat@));
                assert(tail.subrange(pat@.len() as int, tail.len() as int) =~= s@.subrange(
                    i + pat@.len(),
                    s@.len() as int,
                ));
            }
            let ghost r_before = r@;
            push_all(&mut r, rep);
            proof {
                assert(r@ + replace_all_spec(
                    s@.subrange(i + pat@.len(), s@.len() as int),
                    pat@,
                    rep@,
                ) =~= r_before + replace_all_spec(tail, pat@, rep@));
            }
            i = i + pat.len();
        } else {
            proof {
                if match_at(tail, 0, pat@) {
                    assert(tail.subrange(0, pat@.len() as int) =~= s@.subrange(
                        i as int,
                        i + pat@.len(),
                    ));
                }
                assert(tail.subrange(0, 1) =~= seq![s@[i as int]]);
                assert(tail.subrange(1, tail.len() as int) =~= s@.subrange(
                    i + 1,
                    s@.len() as int,
                ));
            }
            let ghost r_before = r@;
            let c = s[i];
            r.push(c);
            proof {
                assert(r@ + replace_all_spec(s@.subrange(i + 1, s@.len() as int), pat@, rep@)
                    =~= r_before + replace_all_spec(tail, pat@, rep@));
            }
            i = i + 1;
        }
    }
    proof {
        assert(s@.subrange(s@.len() as int, s@.len() as int) =~= Seq::<char>::empty());
        assert(replace_all_spec(Seq::<char>::empty(), pat@, rep@) == Seq::<char>::empty());
        assert(r@ + Seq::<char>::empty() =~= r@);
    }
    r
}

/// `s` split at every occurrence of `sep`; an empty input gives one empty
/// field, and a trailing separator a trailing empty field.
pub open spec fn split_spec(s: Seq<char>, sep: char) -> Seq<Seq<char>>
    decreases s.len(),
{
    let i = find_at(s, 0, seq![sep]);
    if i is Some && 0 <= i.unwrap() < s.len() {
        seq![s.subrange(0, i.unwrap())] + split_spec(
            s.subrange(i.unwrap() + 1, s.len() as int),
            sep,
        )
    } else {
        seq![s]
    }
}

/// The fields joined back with `sep` between them.
pub open spec fn join_spec(ls: Seq<Seq<char>>, sep: char) -> Seq<char>
    decreases ls.len(),
{
    if ls.len() == 0 {
        Seq::<char>::empty()
    } else if ls.len() == 1 {
        ls[0]
    } else {
        ls[0] + seq![sep] + join_spec(ls.drop_first(), sep)
    }
}

/// Splits `s` at every occurrence of `sep`.
pub fn split_on(s: &Vec<char>, sep: char) -> (r: Vec<Vec<char>>)
    ensures
        r@.map_values(|v: Vec<char>| v@) == split_spec(s@, sep),
{
    let mut done: Vec<Vec<char>> = Vec::new();
    let mut rest = copy_chars(s);
    let mut pat: Vec<char> = Vec::new();
    pat.push(sep);
    proof {
        assert(pat@ =~= seq![sep]);
        assert(done@.map_values(|v: Vec<char>| v@) + split_spec(rest@, sep) =~= split_spec(
            s@,
            sep,
        ));
    }
    loop
        invariant
            pat@ == seq![sep],
            done@.map_values(|v: Vec<char>| v@) + split_spec(rest@, sep) == split_spec(s@, sep),
        decreases rest@.len(),
    {
        let found = find_from(&rest, 0, &pat);
        match found {
            None => {
                done.push(rest);
                proof {
                    assert(done@.map_values(|v: Vec<char>| v@) =~= done@.map_values(
                        |v: Vec<char>| v@,
                    ).drop_last().push(done@.last()@));
                    assert(done@.map_values(|v: Vec<char>| v@) =~= split_spec(s@, sep));
                }
                return done;
            },
            Some(i) => {
                let rl = rest.len();
                proof {
                    lemma_find_at_props(rest@, 0, pat@);
                    assert(match_at(rest@, i as int, pat@));
                    assert(i + 1 <= rl);
                }
                let line = subvec(&rest, 0, i);
                let next = subvec(&rest, i + 1, rl);
                let ghost prev = done@.map_values(|v: Vec<char>| v@);
                done.push(line);
                rest = next;
                proof {
                    assert(done@.map_values(|v: Vec<char>| v@) =~= prev.push(line@));
                    assert(prev.push(line@) + split_spec(rest@, sep) =~= prev + (seq![line@]
                        + split_spec(rest@, sep)));
                }
            },
        }
    }
}

/// Joins fields with `sep` between them.
pub fn join_with(ls: &Vec<Vec<char>>, sep: char) -> (r: Vec<char>)
    ensures
        r@ == join_spec(ls@.map_values(|v: Vec<char>| v@), sep),
{
    let ghost lss = ls@.map_values(|v: Vec<char>| v@);
    let mut r: Vec<char> = Vec::new();
    if ls.len() == 0 {
        return r;
    }
    let mut i: usize = 0;
    proof {
        assert(lss.subrange(0, lss.len() as int) =~= lss);
        assert(r@ + join_spec(lss, sep) =~= join_spec(lss, sep));
    }
    while i < ls.len() - 1
        invariant
            i <= lss.len() - 1,
            lss.len() == ls@.len(),
            lss == ls@.map_values(|v: Vec<char>| v@),
            r@ + join_spec(lss.subrange(i as int, lss.len() as int), sep) == join_spec(lss, sep),
        decreases ls@.len() - i,
    {
        let ghost r0 = r@;
        let ghost mid = lss.subrange(i as int, lss.len() as int);
        push_all(&mut r, &ls[i]);
        r.push(sep);
        proof {
            assert(mid[0] == lss[i as int]);
            assert(mid.drop_first() =~= lss.subrange(i + 1, lss.len() as int));
            assert(r@ + join_spec(lss.subrange(i + 1, lss.len() as int), sep) =~= r0
                + join_spec(mid, sep));
        }
        i = i + 1;
    }
    let ghost r0 = r@;
    let ghost mid = lss.subrange(i as int, lss.len() as int);
    push_all(&mut r, &ls[i]);
    proof {
        assert(mid.len() == 1);
        assert(mid[0] == lss[i as int]);
        assert(r@ =~= r0 + join_spec(mid, sep));
    }
    r
}

/// `s` without leading spaces.
pub open spec fn trim_start_spec(s: Seq<char>) -> Seq<char>
    decreases s.len(),
{
    if s.len() > 0 && s[0] == ' ' {
        trim_start_spec(s.drop_first())
    } else {
        s
    }
}

/// `s` without trailing spaces.
pub open spec fn trim_end_spec(s: Seq<char>) -> Seq<char>
    decreases s.len(),
{
    if s.len() > 0 && s.last() == ' ' {
        trim_end_spec(s.drop_last())
    } else {
        s
    }
}

/// `s` without leading or trailing spaces.
pub open spec fn trimmed(s: Seq<char>) -> Seq<char> {
    trim_end_spec(trim_start_spec(s))
}

/// Strips leading and trailing spaces.
pub fn trim(s: &Vec<char>) -> (r: Vec<char>)
    ensures
        r@ == trimmed(s@),
{
    let mut i: usize = 0;
    proof {
        assert(s@.subrange(0, s@.len() as int) =~= s@);
    }
    while i < s.len() && s[i] == ' '
        invariant
            i <= s@.len(),
            trim_start_spec(s@) == trim_start_spec(s@.subrange(i as int, s@.len() as int)),
        decreases s@.len() - i,
    {
        proof {
            let mid = s@.subrange(i as int, s@.len() as int);
            assert(mid.drop_first() =~= s@.subrange(i + 1, s@.len() as int));
        }
        i = i + 1;
    }
    let ghost st = s@.subrange(i as int, s@.len() as int);
    proof {
        if i < s@.len() {
            assert(st[0] == s@[i as int]);
        }
        assert(trim_start_spec(st) == st);
    }
    let mut j: usize = s.len();
    while j > i && s[j - 1] == ' '
        invariant
            i <= j <= s@.len(),
            trim_start_spec(s@) == s@.subrange(i as int, s@.len() as int),
            trim_end_spec(s@.subrange(i as int, s@.len() as int)) == trim_end_spec(
                s@.subrange(i as int, j as int),
            ),
        decreases j,
    {
        proof {
            let mid = s@.subrange(i as int, j as int);
            assert(mid.drop_last() =~= s@.subrange(i as int, j - 1));
            assert(mid.last() == s@[j - 1]);
        }
        j = j - 1;
    }
    let r = subvec(s, i, j);
    proof {
        let mid = s@.subrange(i as int, j as int);
        if j > i {
            assert(mid.last() == s@[j - 1]);
        }
        assert(trim_end_spec(mid) == mid);
    }
    r
}

/// A decimal digit.
pub open spec fn is_digit(c: char) -> bool {
    48 <= c as u32 <= 57
}

/// Its value.
pub open spec fn digit_val(c: char) -> nat {
    (c as u32 - 48) as nat
}

/// The numeric value of a nonempty all-digit field, most significant first.
pub open spec fn digits_val_acc(s: Seq<char>, acc: nat) -> Option<nat>
    decreases s.len(),
{
    if s.len() == 0 {
        Some(acc)
    } else if is_digit(s[0]) {
        digits_val_acc(s.drop_first(), acc * 10 + digit_val(s[0]))
    } else {
        None
    }
}

/// The numeric value of a field: `None` unless it is one or more digits.
pub open spec fn digits_val(s: Seq<char>) -> Option<nat> {
    if s.len() == 0 {
        None
    } else {
        digits_val_acc(s, 0)
    }
}

/// Parses a short all-digit field.
pub fn parse_digits(s: &Vec<char>) -> (r: Option<u32>)
    requires
        s@.len() <= 8,
    ensures
        match r {
            Some(n) => digits_val(s@) == Some(n as nat),
            None => digits_val(s@) is None,
        },
{
    if s.len() == 0 {
        return None;
    }
    let mut acc: u32 = 0;
    let mut i: usize = 0;
    proof {
        assert(s@.subrange(0, s@.len() as int) =~= s@);
    }
    while i < s.len()
        invariant
            i <= s@.len(),
            s@.len() <= 8,
            acc as nat <= pow10(i as nat) - 1,
            digits_val_acc(s@, 0) == digits_val_acc(
                s@.subrange(i as int, s@.len() as int),
                acc as nat,
            ),
        decreases s@.len() - i,
    {
        let c = s[i];
        let u = c as u32;
        if u < 48 || u > 57 {
            proof {
                let mid = s@.subrange(i as int, s@.len() as int);
                assert(mid[0] == s@[i as int]);
            }
            return None;
        }
        let ghost mid = s@.subrange(i as int, s@.len() as int);
        proof {
            assert(mid[0] == s@[i as int]);
            assert(mid.drop_first() =~= s@.subrange(i + 1, s@.len() as int));
            lemma_pow10_bound(i as nat);
            lemma_pow10_bound((i + 1) as nat);
            assert(pow10((i + 1) as nat) == 10 * pow10(i as nat));
        }
        acc = acc * 10 + (u - 48);
        i = i + 1;
    }
    proof {
        assert(s@.subrange(s@.len() as int, s@.len() as int) =~= Seq::<char>::empty());
    }
    Some(acc)
}

/// Ten to the `n`.
pub open spec fn pow10(n: nat) -> nat
    decreases n,
{
    if n == 0 {
        1
    } else {
        10 * pow10((n - 1) as nat)
    }
}

/// `pow10` is at least one.
pub proof fn lemma_pow10_pos(n: nat)
    ensures
        pow10(n) >= 1,
    decreases n,
{
    if n > 0 {
        lemma_pow10_pos((n - 1) as nat);
    }
}

/// `pow10` is monotonic.
pub proof fn lemma_pow10_mono(a: nat, b: nat)
    requires
        a <= b,
    ensures
        pow10(a) <= pow10(b),
    decreases b,
{
    if a < b {
        lemma_pow10_mono(a, (b - 1) as nat);
        lemma_pow10_pos((b - 1) as nat);
        assert(pow10(b) == 10 * pow10((b - 1) as nat));
    }
}

/// `pow10` of a small exponent stays small.
pub proof fn lemma_pow10_bound(n: nat)
    requires
        n <= 8,
    ensures
        pow10(n) <= 100000000,
{
    assert(pow10(0) == 1);
    assert(pow10(1) == 10);
    assert(pow10(2) == 100);
    assert(pow10(3) == 1000);
    assert(pow10(4) == 10000);
    assert(pow10(5) == 100000);
    assert(pow10(6) == 1000000);
    assert(pow10(7) == 10000000);
    assert(pow10(8) == 100000000);
    lemma_pow10_mono(n, 8);
}

/// One more digit multiplies the bound by ten.
pub proof fn lemma_pow10_step(n: nat)
    ensures
        pow10(n + 1) == 10 * pow10(n),
{
}

} // verus!
