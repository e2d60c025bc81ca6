//! Paths as plain strings with `/` separators. The engine only joins,
//! splits and re-extends paths; resolving them against the file system
//! (canonicalization, existence) is the driver's job, and the answers come
//! back in as plain values.

use vstd::prelude::*;

use crate::text::match_at;
use crate::text::matches_at;
use crate::text::push_all;
use crate::text::str_to_chars;
use crate::text::subvec;
use crate::text::copy_chars;

verus! {

/// The last position of `c` in `s`.
pub open spec fn rfind(s: Seq<char>, c: char) -> Option<int>
    decreases s.len(),
{
    if s.len() == 0 {
        None
    } else if s.last() == c {
        Some(s.len() - 1)
    } else {
        rfind(s.drop_last(), c)
    }
}

/// Finds the last position of `c` in `s`.
pub fn rfind_x(s: &Vec<char>, c: char) -> (r: Option<usize>)
    ensures
        match r {
            Some(j) => j < s@.len() && Some(j as int) == rfind(s@, c),
            None => rfind(s@, c) is None,
        },
{
    let mut j: usize = s.len();
    proof {
        assert(s@.subrange(0, s@.len() as int) =~= s@);
    }
    while j > 0
        invariant
            j <= s@.len(),
            rfind(s@, c) == rfind(s@.subrange(0, j as int), c),
        decreases j,
    {
        proof {
            let mid = s@.subrange(0, j as int);
            assert(mid.last() == s@[j - 1]);
            assert(mid.drop_last() =~= s@.subrange(0, j - 1));
        }
        if s[j - 1] == c {
            return Some(j - 1);
        }
        j = j - 1;
    }
    proof {
        assert(s@.subrange(0, 0) =~= Seq::<char>::empty());
    }
    None
}

/// An absolute path: one that starts with `/`.
pub open spec fn is_absolute(s: Seq<char>) -> bool {
    s.len() > 0 && s[0] == '/'
}

/// Whether the path starts with `/`.
pub fn is_absolute_x(s: &Vec<char>) -> (r: bool)
    ensures
        r == is_absolute(s@),
{
    s.len() > 0 && s[0] == '/'
}

/// `a` and `b` joined with a single separator; a trailing separator on `a`
/// is not doubled.
pub open spec fn path_join(a: Seq<char>, b: Seq<char>) -> Seq<char> {
    if a.len() > 0 && a.last() == '/' {
        a + b
    } else {
        a + seq!['/'] + b
    }
}

/// Joins two paths.
pub fn path_join_x(a: &Vec<char>, b: &Vec<char>) -> (r: Vec<char>)
    ensures
        r@ == path_join(a@, b@),
{
    let mut r = copy_chars(a);
    if !(a.len() > 0 && a[a.len() - 1] == '/') {
        r.push('/');
    }
    push_all(&mut r, b);
    proof {
        assert(r@ =~= path_join(a@, b@));
    }
    r
}

/// Where the path's last segment starts.
pub open spec fn seg_start(p: Seq<char>) -> int {
    match rfind(p, '/') {
        Some(i) => i + 1,
        None => 0,
    }
}

/// The path with its extension replaced by `ext`: the part of the last
/// segment after its last dot (a dot that starts the segment does not
/// count) is cut, and `.ext` appended.
pub open spec fn with_extension(p: Seq<char>, ext: Seq<char>) -> Seq<char> {
    let ss = seg_start(p);
    let cut = match rfind(p, '.') {
        Some(d) => if d > ss {
            p.subrange(0, d)
        } else {
            p
        },
        None => p,
    };
    cut + seq!['.'] + ext
}

/// Replaces the path's extension, as `with_extension` describes.
pub fn with_extension_x(p: &Vec<char>, ext: &Vec<char>) -> (r: Vec<char>)
    ensures
        r@ == with_extension(p@, ext@),
{
    let pl = p.len();
    let ss: usize = match rfind_x(p, '/') {
        Some(i) => {
            proof {
                assert(i < pl);
            }
            i + 1
        },
        None => 0,
    };
    let mut cut = match rfind_x(p, '.') {
        Some(d) => {
            if d > ss {
                subvec(p, 0, d)
            } else {
                copy_chars(p)
            }
        },
        None => copy_chars(p),
    };
    cut.push('.');
    push_all(&mut cut, ext);
    proof {
        assert(cut@ =~= with_extension(p@, ext@));
    }
    cut
}

/// The path without a leading separator.
pub open spec fn strip_leading_slash(p: Seq<char>) -> Seq<char> {
    if is_absolute(p) {
        p.drop_first()
    } else {
        p
    }
}

/// Drops one leading separator.
pub fn strip_leading_slash_x(p: &Vec<char>) -> (r: Vec<char>)
    ensures
        r@ == strip_leading_slash(p@),
{
    if p.len() > 0 && p[0] == '/' {
        let r = subvec(p, 1, p.len());
        proof {
            assert(p@.subrange(1, p@.len() as int) =~= p@.drop_first());
        }
        r
    } else {
        copy_chars(p)
    }
}

/// What remains of `p` under the directory `base`: the empty path when
/// they are equal, the relative remainder when `base/` is a proper prefix,
/// nothing otherwise.
pub open spec fn strip_prefix_dir(p: Seq<char>, base: Seq<char>) -> Option<Seq<char>> {
    if p == base {
        Some(Seq::<char>::empty())
    } else if match_at(p, 0, base + seq!['/']) {
        Some(p.subrange(base.len() as int + 1, p.len() as int))
    } else {
        None
    }
}

/// Strips a directory prefix, as `strip_prefix_dir` describes.
pub fn strip_prefix_dir_x(p: &Vec<char>, base: &Vec<char>) -> (r: Option<Vec<char>>)
    ensures
        match r {
            Some(ref rest) => strip_prefix_dir(p@, base@) == Some(rest@),
            None => strip_prefix_dir(p@, base@) is None,
        },
{
    if crate::text::chars_eq(p, base) {
        return Some(Vec::new());
    }
    let mut basew = copy_chars(base);
    basew.push('/');
    proof {
        assert(basew@ =~= base@ + seq!['/']);
    }
    if matches_at(p, 0, &basew) {
        let pl = p.len();
        proof {
            assert(basew@.len() == base@.len() + 1);
            assert(base@.len() + 1 <= pl);
        }
        let r = subvec(p, base.len() + 1, pl);
        Some(r)
    } else {
        None
    }
}

/// The path's parent directory; the root when there is no separator.
pub open spec fn parent_of(p: Seq<char>) -> Seq<char> {
    match rfind(p, '/') {
        Some(i) => if i == 0 {
            seq!['/']
        } else {
            p.subrange(0, i)
        },
        None => seq!['/'],
    }
}

/// The parent directory, as `parent_of` describes.
pub fn parent_of_x(p: &Vec<char>) -> (r: Vec<char>)
    ensures
        r@ == parent_of(p@),
{
    match rfind_x(p, '/') {
        Some(i) => {
            if i == 0 {
                let mut r: Vec<char> = Vec::new();
                r.push('/');
                proof {
                    assert(r@ =~= seq!['/']);
                }
                r
            } else {
                subvec(p, 0, i)
            }
        },
        None => {
            let mut r: Vec<char> = Vec::new();
            r.push('/');
            proof {
                assert(r@ =~= seq!['/']);
            }
            r
        },
    }
}

/// Path arithmetic shared by the configuration and the transforms.
pub trait PathHelper: Sized {
    /// The path's characters.
    spec fn chars(&self) -> Seq<char>;

    /// Joins the given base in front of this path, unless this path is
    /// absolute.
    fn maybe_suffix(&self, p: &Self) -> (r: Self)
        ensures
            r.chars() == if is_absolute(self.chars()) {
                self.chars()
            } else {
                path_join(p.chars(), self.chars())
            },
    ;

    /// Removes the given prefix from this path if this path is relative
    /// and the prefix holds; an absolute path is left alone.
    fn maybe_unprefix(&self, p: &Self) -> (r: Self)
        ensures
            r.chars() == if is_absolute(self.chars()) {
                self.chars()
            } else {
                match strip_prefix_dir(self.chars(), p.chars()) {
                    Some(rest) => rest,
                    None => self.chars(),
                }
            },
    ;
}

impl PathHelper for String {
    open spec fn chars(&self) -> Seq<char> {
        self@
    }

    fn maybe_suffix(&self, p: &Self) -> (r: Self) {
        let sv = str_to_chars(self.as_str());
        if is_absolute_x(&sv) {
            crate::text::chars_to_string(&sv)
        } else {
            let pv = str_to_chars(p.as_str());
            let j = path_join_x(&pv, &sv);
            crate::text::chars_to_string(&j)
        }
    }

    fn maybe_unprefix(&self, p: &Self) -> (r: Self) {
        let sv = str_to_chars(self.as_str());
        if is_absolute_x(&sv) {
            crate::text::chars_to_string(&sv)
        } else {
            let pv = str_to_chars(p.as_str());
            match strip_prefix_dir_x(&sv, &pv) {
                Some(rest) => crate::text::chars_to_string(&rest),
                None => crate::text::chars_to_string(&sv),
            }
        }
    }
}

} // verus!
