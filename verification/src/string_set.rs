//! A small set of strings, kept as a list without repetitions.
use vstd::prelude::*;
use crate::text::{owned, str_eq};

verus! {

/// A set of strings.
#[derive(Debug, Clone)]
pub struct StringSet {
    items: Vec<String>,
}

impl View for StringSet {
    type V = Set<Seq<char>>;

    closed spec fn view(&self) -> Set<Seq<char>> {
        Set::new(|x: Seq<char>| exists|i: int| 0 <= i < self.items@.len() && self.items@[i]@ == x)
    }
}

impl StringSet {
    /// The empty set.
    pub fn new() -> (r: Self)
        ensures
            r@ == Set::<Seq<char>>::empty(),
    {
        let r = StringSet { items: Vec::new() };
        assert(r@ =~= Set::<Seq<char>>::empty());
        r
    }

    /// Whether `s` is a member.
    pub fn contains(&self, s: &str) -> (b: bool)
        ensures
            b == self@.contains(s@),
    {
        let mut i: usize = 0;
        while i < self.items.len()
            invariant
                i <= self.items@.len(),
                forall|j: int| 0 <= j < i ==> self.items@[j]@ != s@,
            decreases self.items.len() - i,
        {
            if str_eq(self.items[i].as_str(), s) {
                assert(self@.contains(s@));
                return true;
            }
            i = i + 1;
        }
        false
    }

    /// Adds `s`; a member already present is kept once.
    pub fn insert(&mut self, s: &str)
        ensures
            final(self)@ == old(self)@.insert(s@),
    {
        if !self.contains(s) {
            let ghost before = self.items@;
            self.items.push(owned(s));
            assert forall|x: Seq<char>| self@.contains(x) == old(self)@.insert(s@).contains(x) by {
                if old(self)@.contains(x) {
                    let i = choose|i: int| 0 <= i < before.len() && before[i]@ == x;
                    assert(self.items@[i] == before[i]);
                }
                if self@.contains(x) && x != s@ {
                    let i = choose|i: int| 0 <= i < self.items@.len() && self.items@[i]@ == x;
                    assert(i < before.len());
                    assert(before[i] == self.items@[i]);
                }
                if x == s@ {
                    assert(self.items@[before.len() as int]@ == s@);
                }
            }
            assert(self@ =~= old(self)@.insert(s@));
        } else {
            assert(self@ =~= old(self)@.insert(s@));
        }
    }

    /// Whether the set has no member.
    pub fn is_empty(&self) -> (b: bool)
        ensures
            b == (self@ == Set::<Seq<char>>::empty()),
    {
        if self.items.len() == 0 {
            assert(self@ =~= Set::<Seq<char>>::empty());
            true
        } else {
            assert(self@.contains(self.items@[0]@));
            false
        }
    }

    /// The set of the given strings.
    pub fn from_strs(v: &Vec<&str>) -> (r: Self)
        ensures
            forall|x: Seq<char>| #[trigger]
                r@.contains(x) <==> exists|i: int| 0 <= i < v@.len() && v@[i]@ == x,
    {
        let mut r = StringSet::new();
        let mut i: usize = 0;
        while i < v.len()
            invariant
                i <= v@.len(),
                forall|x: Seq<char>| #[trigger]
                    r@.contains(x) <==> exists|j: int| 0 <= j < i && v@[j]@ == x,
            decreases v.len() - i,
        {
            r.insert(v[i]);
            assert forall|x: Seq<char>| #[trigger]
                r@.contains(x) <==> exists|j: int| 0 <= j < i + 1 && v@[j]@ == x by {
                if r@.contains(x) && x != v@[i as int]@ {
                    let j = choose|j: int| 0 <= j < i && v@[j]@ == x;
                }
            }
            i = i + 1;
        }
        r
    }
}

} // verus!
