//! A set of strings (file stems, paths) kept in a vector.

use vstd::prelude::*;

verus! {

/// Whether some element of `v` has the characters `x`.
pub open spec fn has(v: Seq<String>, x: Seq<char>) -> bool {
    exists|j: int| 0 <= j < v.len() && (#[trigger] v[j])@ == x
}

proof fn lemma_has_push(v: Seq<String>, e: String, x: Seq<char>)
    ensures
        has(v.push(e), x) == (has(v, x) || e@ == x),
{
    if has(v.push(e), x) {
        let j = choose|j: int| 0 <= j < v.push(e).len() && (#[trigger] v.push(e)[j])@ == x;
        if j < v.len() {
            assert(v[j]@ == x);
        }
    }
    if has(v, x) {
        let j = choose|j: int| 0 <= j < v.len() && (#[trigger] v[j])@ == x;
        assert(v.push(e)[j]@ == x);
    }
    if e@ == x {
        assert(v.push(e)[v.len() as int]@ == x);
    }
}

proof fn lemma_has_take(v: Seq<String>, i: int, x: Seq<char>)
    requires
        0 <= i < v.len(),
    ensures
        has(v.take(i + 1), x) == (has(v.take(i), x) || v[i]@ == x),
{
    assert(v.take(i + 1) =~= v.take(i).push(v[i]));
    lemma_has_push(v.take(i), v[i], x);
}

/// Whether `v` holds a string with the characters `x`.
pub fn has_exec(v: &Vec<String>, x: &str) -> (r: bool)
    ensures
        r == has(v@, x@),
{
    let mut i: usize = 0;
    while i < v.len()
        invariant
            i <= v@.len(),
            forall|k: int| 0 <= k < i ==> v@[k]@ != x@,
        decreases v@.len() - i,
    {
        if crate::text::str_eq(v[i].as_str(), x) {
            return true;
        }
        i = i + 1;
    }
    false
}

/// A set of strings.
#[derive(Debug)]
pub struct StemSet {
    items: Vec<String>,
}

impl View for StemSet {
    type V = Set<Seq<char>>;

    closed spec fn view(&self) -> Set<Seq<char>> {
        Set::new(|x: Seq<char>| has(self.items@, x))
    }
}

impl StemSet {
    /// The empty set.
    pub fn new() -> (r: StemSet)
        ensures
            r@ == Set::<Seq<char>>::empty(),
    {
        let r = StemSet { items: Vec::new() };
        assert(r@ =~= Set::<Seq<char>>::empty());
        r
    }

    /// A set holding the given strings.
    pub fn from_vec(items: Vec<String>) -> (r: StemSet)
        ensures
            forall|x: Seq<char>| r@.contains(x) == has(items@, x),
    {
        StemSet { items }
    }

    /// Whether `s` is in the set.
    pub fn contains(&self, s: &str) -> (r: bool)
        ensures
            r == self@.contains(s@),
    {
        let mut i: usize = 0;
        while i < self.items.len()
            invariant
                i <= self.items@.len(),
                forall|j: int| 0 <= j < i ==> self.items@[j]@ != s@,
            decreases self.items@.len() - i,
        {
            if crate::text::str_eq(self.items[i].as_str(), s) {
                assert(has(self.items@, s@));
                return true;
            }
            i = i + 1;
        }
        false
    }

    /// Adds `s`; returns whether it was not there before.
    pub fn insert(&mut self, s: String) -> (r: bool)
        ensures
            final(self)@ == old(self)@.insert(s@),
            r == !old(self)@.contains(s@),
    {
        if self.contains(s.as_str()) {
            assert(self@.insert(s@) =~= self@);
            return false;
        }
        let ghost old_items = self.items@;
        let ghost v = s@;
        self.items.push(s);
        assert forall|x: Seq<char>| #[trigger] has(self.items@, x) == (has(old_items, x) || v == x) by {
            lemma_has_push(old_items, self.items@.last(), x);
            assert(self.items@ =~= old_items.push(self.items@.last()));
        }
        assert(self@ =~= old(self)@.insert(v));
        true
    }

    /// Removes `s`; returns whether it was there.
    pub fn remove(&mut self, s: &str) -> (r: bool)
        ensures
            final(self)@ == old(self)@.remove(s@),
            r == old(self)@.contains(s@),
    {
        let ghost before = self@;
        let was = self.contains(s);
        let mut kept: Vec<String> = Vec::new();
        let mut i: usize = 0;
        while i < self.items.len()
            invariant
                i <= self.items@.len(),
                forall|x: Seq<char>| #[trigger] has(kept@, x) == (x != s@ && has(self.items@.take(i as int), x)),
            decreases self.items@.len() - i,
        {
            let ghost prev = kept@;
            if !crate::text::str_eq(self.items[i].as_str(), s) {
                let c = self.items[i].clone();
                kept.push(c);
            }
            assert forall|x: Seq<char>| #[trigger] has(kept@, x) == (x != s@ && has(self.items@.take(i + 1), x)) by {
                lemma_has_take(self.items@, i as int, x);
                if kept@.len() > prev.len() {
                    assert(kept@ =~= prev.push(kept@.last()));
                    lemma_has_push(prev, kept@.last(), x);
                }
            }
            i = i + 1;
        }
        assert(self.items@.take(self.items@.len() as int) =~= self.items@);
        self.items = kept;
        assert(self@ =~= before.remove(s@));
        was
    }

    /// Removes every element.
    pub fn clear(&mut self)
        ensures
            final(self)@ == Set::<Seq<char>>::empty(),
    {
        self.items = Vec::new();
        assert(self@ =~= Set::<Seq<char>>::empty());
    }

    /// Keeps only the elements that are also in `keep`.
    pub fn retain_in(&mut self, keep: &StemSet)
        ensures
            final(self)@ == old(self)@.intersect(keep@),
    {
        let ghost before = self@;
        let mut kept: Vec<String> = Vec::new();
        let mut i: usize = 0;
        while i < self.items.len()
            invariant
                i <= self.items@.len(),
                forall|x: Seq<char>| #[trigger] has(kept@, x) == (keep@.contains(x) && has(self.items@.take(i as int), x)),
            decreases self.items@.len() - i,
        {
            let ghost prev = kept@;
            if keep.contains(self.items[i].as_str()) {
                let c = self.items[i].clone();
                kept.push(c);
            }
            assert forall|x: Seq<char>| #[trigger] has(kept@, x) == (keep@.contains(x) && has(self.items@.take(i + 1), x)) by {
                lemma_has_take(self.items@, i as int, x);
                if kept@.len() > prev.len() {
                    assert(kept@ =~= prev.push(kept@.last()));
                    lemma_has_push(prev, kept@.last(), x);
                }
            }
            i = i + 1;
        }
        assert(self.items@.take(self.items@.len() as int) =~= self.items@);
        self.items = kept;
        assert(self@ =~= before.intersect(keep@));
    }

    /// Removes the elements that are in `drop`.
    pub fn remove_all(&mut self, drop: &StemSet)
        ensures
            final(self)@ == old(self)@.difference(drop@),
    {
        let ghost before = self@;
        let mut kept: Vec<String> = Vec::new();
        let mut i: usize = 0;
        while i < self.items.len()
            invariant
                i <= self.items@.len(),
                forall|x: Seq<char>| #[trigger] has(kept@, x) == (!drop@.contains(x) && has(self.items@.take(i as int), x)),
            decreases self.items@.len() - i,
        {
            let ghost prev = kept@;
            if !drop.contains(self.items[i].as_str()) {
                let c = self.items[i].clone();
                kept.push(c);
            }
            assert forall|x: Seq<char>| #[trigger] has(kept@, x) == (!drop@.contains(x) && has(self.items@.take(i + 1), x)) by {
                lemma_has_take(self.items@, i as int, x);
                if kept@.len() > prev.len() {
                    assert(kept@ =~= prev.push(kept@.last()));
                    lemma_has_push(prev, kept@.last(), x);
                }
            }
            i = i + 1;
        }
        assert(self.items@.take(self.items@.len() as int) =~= self.items@);
        self.items = kept;
        assert(self@ =~= before.difference(drop@));
    }

    /// Whether the set is empty.
    pub fn is_empty(&self) -> (r: bool)
        ensures
            r == (self@ == Set::<Seq<char>>::empty()),
    {
        if self.items.len() == 0 {
            assert(self@ =~= Set::<Seq<char>>::empty());
            true
        } else {
            assert(has(self.items@, self.items@[0]@));
            assert(self@.contains(self.items@[0]@));
            false
        }
    }

    /// The elements, in insertion order.
    pub fn to_vec(&self) -> (r: Vec<String>)
        ensures
            forall|x: Seq<char>| self@.contains(x) == has(r@, x),
    {
        let r = self.items.clone();
        assert forall|x: Seq<char>| self@.contains(x) == has(r@, x) by {
            if has(self.items@, x) {
                let i = choose|i: int| 0 <= i < self.items@.len() && (#[trigger] self.items@[i])@ == x;
                assert(r@[i]@ == x);
            }
            if has(r@, x) {
                let i = choose|i: int| 0 <= i < r@.len() && (#[trigger] r@[i])@ == x;
                assert(self.items@[i]@ == x);
            }
        }
        r
    }
}

} // verus!
