use vstd::prelude::*;

verus! {

broadcast use vstd::seq_lib::group_seq_properties;

/// A finite set of integer values, held as a vector without repeats.
#[derive(Debug)]
pub struct ValueSet {
    items: Vec<usize>,
}

impl View for ValueSet {
    type V = Set<usize>;

    closed spec fn view(&self) -> Set<usize> {
        self.items@.to_set()
    }
}

impl ValueSet {
    /// The stored vector holds each value at most once.
    #[verifier::type_invariant]
    closed spec fn wf(&self) -> bool {
        self.items@.no_duplicates()
    }

    pub proof fn lemma_finite(&self)
        ensures
            self@.finite(),
    {
        broadcast use vstd::seq_lib::seq_to_set_is_finite;

    }

    pub fn new() -> (r: ValueSet)
        ensures
            r@ == Set::<usize>::empty(),
    {
        let r = ValueSet { items: Vec::new() };
        assert(r@ =~= Set::<usize>::empty());
        r
    }

    pub fn contains(&self, x: usize) -> (r: bool)
        ensures
            r == self@.contains(x),
    {
        let mut i: usize = 0;
        while i < self.items.len()
            invariant
                i <= self.items@.len(),
                forall|j: int| 0 <= j < i ==> self.items@[j] != x,
            decreases self.items@.len() - i,
        {
            if self.items[i] == x {
                assert(self.items@.contains(x));
                return true;
            }
            i = i + 1;
        }
        false
    }

    pub fn insert(&mut self, x: usize)
        ensures
            final(self)@ == old(self)@.insert(x),
    {
        proof {
            use_type_invariant(&*self);
        }
        if !self.contains(x) {
            let mut items = Vec::new();
            std::mem::swap(&mut items, &mut self.items);
            items.push(x);
            self.items = items;
        }
        assert(self@ =~= old(self)@.insert(x));
    }

    /// Adds every value of `other`.
    pub fn extend(&mut self, other: &ValueSet)
        ensures
            final(self)@ == old(self)@.union(other@),
    {
        let mut i: usize = 0;
        while i < other.items.len()
            invariant
                i <= other.items@.len(),
                self@ == old(self)@.union(other.items@.take(i as int).to_set()),
            decreases other.items@.len() - i,
        {
            let x = other.items[i];
            self.insert(x);
            assert(other.items@.take(i as int + 1) =~= other.items@.take(i as int).push(x));
            assert(other.items@.take(i as int + 1).to_set() =~= other.items@.take(
                i as int,
            ).to_set().insert(x));
            assert(self@ =~= old(self)@.union(other.items@.take(i as int + 1).to_set()));
            i = i + 1;
        }
        assert(other.items@.take(i as int) =~= other.items@);
    }

    /// The values of `self` that `other` does not hold.
    pub fn difference(&self, other: &ValueSet) -> (r: ValueSet)
        ensures
            r@ == self@.difference(other@),
    {
        proof {
            use_type_invariant(self);
        }
        let mut out: Vec<usize> = Vec::new();
        let mut i: usize = 0;
        while i < self.items.len()
            invariant
                i <= self.items@.len(),
                self.items@.no_duplicates(),
                out@.no_duplicates(),
                out@.to_set() == self.items@.take(i as int).to_set().difference(other@),
            decreases self.items@.len() - i,
        {
            let x = self.items[i];
            assert(self.items@.take(i as int + 1) =~= self.items@.take(i as int).push(x));
            assert(self.items@.take(i as int + 1).to_set() == self.items@.take(
                i as int,
            ).to_set().insert(x));
            let ghost prev = out@;
            if !other.contains(x) {
                assert(!out@.contains(x)) by {
                    if out@.contains(x) {
                        assert(out@.to_set().contains(x));
                        let j = choose|j: int|
                            0 <= j < i && self.items@.take(i as int)[j] == x;
                        assert(self.items@[j] == self.items@[i as int]);
                    }
                };
                out.push(x);
                assert(out@.to_set() == prev.to_set().insert(x));
            }
            assert(out@.to_set() =~= self.items@.take(i as int + 1).to_set().difference(other@));
            i = i + 1;
        }
        assert(self.items@.take(i as int) =~= self.items@);
        ValueSet { items: out }
    }

    pub fn len(&self) -> (r: usize)
        ensures
            r == self@.len(),
    {
        proof {
            use_type_invariant(self);
            self.items@.unique_seq_to_set();
        }
        self.items.len()
    }

    pub fn is_empty(&self) -> (r: bool)
        ensures
            r == (self@ == Set::<usize>::empty()),
    {
        if self.items.len() == 0 {
            assert(self@ =~= Set::<usize>::empty());
            true
        } else {
            assert(self@.contains(self.items@[0]));
            false
        }
    }

    /// A second set with the same values.
    pub fn snapshot(&self) -> (r: ValueSet)
        ensures
            r@ == self@,
    {
        ValueSet { items: self.to_vec() }
    }

    /// Builds a set from a vector, in which a value may repeat.
    pub fn from_vec(v: Vec<usize>) -> (r: ValueSet)
        ensures
            r@ == v@.to_set(),
    {
        let mut r = ValueSet::new();
        let mut i: usize = 0;
        while i < v.len()
            invariant
                i <= v@.len(),
                    r@ == v@.take(i as int).to_set(),
            decreases v@.len() - i,
        {
            r.insert(v[i]);
            assert(v@.take(i as int + 1) =~= v@.take(i as int).push(v@[i as int]));
            assert(r@ =~= v@.take(i as int + 1).to_set());
            i = i + 1;
        }
        assert(v@.take(i as int) =~= v@);
        r
    }

    /// The values, each once, in the order in which they were first added.
    pub fn to_vec(&self) -> (r: Vec<usize>)
        ensures
            r@.no_duplicates(),
            r@.to_set() == self@,
    {
        proof {
            use_type_invariant(self);
        }
        let mut r: Vec<usize> = Vec::new();
        let mut i: usize = 0;
        while i < self.items.len()
            invariant
                i <= self.items@.len(),
                r@ == self.items@.take(i as int),
            decreases self.items@.len() - i,
        {
            r.push(self.items[i]);
            assert(self.items@.take(i as int + 1) =~= self.items@.take(i as int).push(
                self.items@[i as int],
            ));
            i = i + 1;
        }
        assert(self.items@.take(i as int) =~= self.items@);
        r
    }
}

} // verus!
