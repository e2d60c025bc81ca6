//! The per-page set of style-category tokens. It is seeded with the
//! global category and grows as the transforms see paragraphs, images,
//! links, headings, code and the table of contents; it decides which CSS
//! chunks the page links.

use vstd::prelude::*;

use crate::text::chars_eq;
use crate::text::str_to_chars;

verus! {

/// An insertion-ordered set of category tokens.
pub struct StyleSet {
    items: Vec<Vec<char>>,
}

impl StyleSet {
    /// The categories present.
    pub closed spec fn set(&self) -> Set<Seq<char>> {
        Set::new(
            |c: Seq<char>| exists|i: int| 0 <= i < self.items@.len() && self.items@[i]@ == c,
        )
    }

    /// The categories in insertion order.
    pub closed spec fn order(&self) -> Seq<Seq<char>> {
        self.items@.map_values(|v: Vec<char>| v@)
    }

    /// No category twice.
    pub closed spec fn inv(&self) -> bool {
        forall|i: int, j: int|
            0 <= i < j < self.items@.len() ==> self.items@[i]@ != self.items@[j]@
    }

    /// The seeded set: only the global category.
    pub fn seeded() -> (s: StyleSet)
        ensures
            s.inv(),
            s.set() =~= Set::<Seq<char>>::empty().insert("_global"@),
            s.order() =~= seq!["_global"@],
    {
        let mut items: Vec<Vec<char>> = Vec::new();
        items.push(str_to_chars("_global"));
        let s = StyleSet { items };
        proof {
            assert(s.order() =~= seq!["_global"@]);
            assert forall|c: Seq<char>| s.set().contains(c) implies c == "_global"@ by {
                let i = choose|i: int| 0 <= i < s.items@.len() && s.items@[i]@ == c;
            }
            assert(s.items@[0]@ == "_global"@);
            assert(s.set() =~= Set::<Seq<char>>::empty().insert("_global"@));
        }
        s
    }

    /// Registers a category; a category already present is left alone.
    pub fn insert(&mut self, name: &str)
        requires
            old(self).inv(),
        ensures
            final(self).inv(),
            final(self).set() =~= old(self).set().insert(name@),
            old(self).set().contains(name@) ==> final(self).order() == old(self).order(),
            !old(self).set().contains(name@) ==> final(self).order() == old(self).order().push(
                name@,
            ),
    {
        let nv = str_to_chars(name);
        let mut i: usize = 0;
        while i < self.items.len()
            invariant
                *self == *old(self),
                old(self).inv(),
                i <= self.items@.len(),
                nv@ == name@,
                forall|k: int| 0 <= k < i ==> self.items@[k]@ != name@,
            decreases self.items@.len() - i,
        {
            if chars_eq(&self.items[i], &nv) {
                proof {
                    assert(self.items@[i as int]@ == name@);
                    assert(old(self).set().contains(name@));
                    assert(final(self).set() =~= old(self).set().insert(name@));
                }
                return ;
            }
            i = i + 1;
        }
        let ghost order0 = self.order();
        self.items.push(nv);
        proof {
            assert(self.order() =~= order0.push(name@));
            assert(self.items@[self.items@.len() - 1]@ == name@);
            assert forall|c: Seq<char>| final(self).set().contains(c) implies (old(
            self).set().insert(name@).contains(c)) by {
                let i = choose|i: int| 0 <= i < self.items@.len() && self.items@[i]@ == c;
                if i < self.items@.len() - 1 {
                    assert(old(self).items@[i]@ == c);
                }
            }
            assert forall|c: Seq<char>| old(self).set().insert(name@).contains(c) implies (
            final(self).set().contains(c)) by {
                if c == name@ {
                    assert(self.items@[self.items@.len() - 1]@ == c);
                } else {
                    let i = choose|i: int|
                        0 <= i < old(self).items@.len() && old(self).items@[i]@ == c;
                    assert(self.items@[i]@ == c);
                }
            }
            assert(final(self).set() =~= old(self).set().insert(name@));
            assert forall|i: int, j: int|
                0 <= i < j < self.items@.len() implies self.items@[i]@ != self.items@[j]@ by {
                if j < self.items@.len() - 1 {
                    assert(old(self).items@[i]@ != old(self).items@[j]@);
                }
            }
        }
    }

    /// The categories, for resolution against the style-chunk root.
    pub fn names(&self) -> (r: Vec<String>)
        ensures
            r@.map_values(|s: String| s@) == self.order(),
    {
        let mut r: Vec<String> = Vec::new();
        let mut i: usize = 0;
        while i < self.items.len()
            invariant
                i <= self.items@.len(),
                r@.map_values(|s: String| s@) =~= self.order().subrange(0, i as int),
            decreases self.items@.len() - i,
        {
            let ghost prev = r@.map_values(|s: String| s@);
            r.push(crate::text::chars_to_string(&self.items[i]));
            proof {
                assert(r@.map_values(|s: String| s@) =~= prev.push(self.items@[i as int]@));
                assert(prev.push(self.items@[i as int]@) =~= self.order().subrange(0, i + 1));
            }
            i = i + 1;
        }
        proof {
            assert(self.order().subrange(0, self.order().len() as int) =~= self.order());
        }
        r
    }
}

} // verus!
