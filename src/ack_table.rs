use vstd::prelude::*;
use crate::value_set::ValueSet;

verus! {

/// The map that a list of (node, values) entries stands for: a later entry
/// for a node replaces an earlier one.
pub open spec fn ack_map(e: Seq<(String, ValueSet)>) -> Map<Seq<char>, Set<usize>>
    decreases e.len(),
{
    if e.len() == 0 {
        Map::empty()
    } else {
        ack_map(e.drop_last()).insert(e.last().0@, e.last().1@)
    }
}

/// What `acks` records for `node`: the empty set where it records nothing.
pub open spec fn ack_of(acks: Map<Seq<char>, Set<usize>>, node: Seq<char>) -> Set<usize> {
    if acks.contains_key(node) {
        acks[node]
    } else {
        Set::empty()
    }
}

/// Replacing the last entry for a node changes the map at that node alone.
proof fn lemma_update_last(e: Seq<(String, ValueSet)>, i: int, entry: (String, ValueSet))
    requires
        0 <= i < e.len(),
        e[i].0@ == entry.0@,
        forall|j: int| i < j < e.len() ==> e[j].0@ != entry.0@,
    ensures
        ack_map(e.update(i, entry)) == ack_map(e).insert(entry.0@, entry.1@),
    decreases e.len(),
{
    let u = e.update(i, entry);
    if i == e.len() - 1 {
        assert(u.drop_last() =~= e.drop_last());
        assert(ack_map(u) =~= ack_map(e).insert(entry.0@, entry.1@));
    } else {
        assert(u.drop_last() =~= e.drop_last().update(i, entry));
        lemma_update_last(e.drop_last(), i, entry);
        assert(ack_map(u) =~= ack_map(e).insert(entry.0@, entry.1@));
    }
}

/// For each neighbour, the values that it is known to hold.
pub struct AckTable {
    entries: Vec<(String, ValueSet)>,
}

impl View for AckTable {
    type V = Map<Seq<char>, Set<usize>>;

    closed spec fn view(&self) -> Map<Seq<char>, Set<usize>> {
        ack_map(self.entries@)
    }
}

impl AckTable {
    pub fn new() -> (r: AckTable)
        ensures
            r@ == Map::<Seq<char>, Set<usize>>::empty(),
    {
        AckTable { entries: Vec::new() }
    }

    /// The index of the last entry for `node`, if there is one.
    fn find(&self, node: &String) -> (r: Option<usize>)
        ensures
            r is Some <==> self@.contains_key(node@),
            r matches Some(i) ==> {
                &&& i < self.entries@.len()
                &&& self.entries@[i as int].0@ == node@
                &&& self@[node@] == self.entries@[i as int].1@
                &&& forall|j: int| i < j < self.entries@.len() ==> self.entries@[j].0@ != node@
            },
    {
        let ghost e = self.entries@;
        let mut i: usize = self.entries.len();
        assert(e.take(i as int) =~= e);
        while i > 0
            invariant
                i <= e.len(),
                e == self.entries@,
                forall|j: int| i <= j < e.len() ==> e[j].0@ != node@,
                ack_map(e.take(i as int)).contains_key(node@) == ack_map(e).contains_key(node@),
                ack_map(e.take(i as int)).contains_key(node@) ==> ack_map(e.take(i as int))[node@]
                    == ack_map(e)[node@],
            decreases i,
        {
            assert(e.take(i as int).drop_last() =~= e.take(i as int - 1));
            assert(e.take(i as int).last() == e[i as int - 1]);
            if self.entries[i - 1].0 == *node {
                return Some(i - 1);
            }
            i = i - 1;
        }
        assert(e.take(0) =~= Seq::<(String, ValueSet)>::empty());
        None
    }

    /// The values recorded for `node`, if any.
    pub fn get(&self, node: &String) -> (r: Option<&ValueSet>)
        ensures
            r is Some <==> self@.contains_key(node@),
            r matches Some(s) ==> s@ == self@[node@],
    {
        match self.find(node) {
            Some(i) => Some(&self.entries[i].1),
            None => None,
        }
    }

    /// Records that `node` holds every value of `values`.
    pub fn acknowledge(&mut self, node: &String, values: &ValueSet)
        ensures
            final(self)@ == old(self)@.insert(node@, ack_of(old(self)@, node@).union(values@)),
    {
        match self.find(node) {
            Some(i) => {
                let mut merged = self.entries[i].1.snapshot();
                merged.extend(values);
                let entry = (node.clone(), merged);
                proof {
                    lemma_update_last(self.entries@, i as int, entry);
                }
                self.entries.set(i, entry);
            },
            None => {
                let mut fresh = ValueSet::new();
                fresh.extend(values);
                let ghost e = self.entries@;
                self.entries.push((node.clone(), fresh));
                assert(self.entries@.drop_last() == e);
                assert(Set::<usize>::empty().union(values@) =~= values@);
            },
        }
    }
}

} // verus!
