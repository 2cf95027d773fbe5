use vstd::prelude::*;
use crate::value_set::ValueSet;

verus! {

/// What a message of the replication protocol carries.
#[derive(Debug)]
pub enum Payload {
    Init { node_id: String, node_ids: Vec<String> },
    InitOk,
    Broadcast { message: usize },
    BroadcastOk,
    Read,
    ReadOk { messages: ValueSet },
    Topology { topology: Adjacency },
    TopologyOk,
    Gossip { messages: ValueSet },
    GossipOk { messages: ValueSet },
}

/// The identifiers held by a vector of strings.
pub open spec fn names_of(v: Seq<String>) -> Seq<Seq<char>> {
    v.map_values(|s: String| s@)
}

/// A copy of a vector of strings.
pub fn copy_names(v: &Vec<String>) -> (r: Vec<String>)
    ensures
        r@ == v@,
{
    let mut r: Vec<String> = Vec::new();
    let mut i: usize = 0;
    while i < v.len()
        invariant
            i <= v@.len(),
            r@ == v@.take(i as int),
        decreases v@.len() - i,
    {
        r.push(v[i].clone());
        assert(v@.take(i as int + 1) =~= v@.take(i as int).push(v@[i as int]));
        i = i + 1;
    }
    assert(v@.take(i as int) =~= v@);
    r
}

/// The map that a list of (node, neighbours) entries stands for: a later
/// entry for a node replaces an earlier one.
pub open spec fn adjacency_map(e: Seq<(String, Vec<String>)>) -> Map<Seq<char>, Seq<Seq<char>>>
    decreases e.len(),
{
    if e.len() == 0 {
        Map::empty()
    } else {
        adjacency_map(e.drop_last()).insert(e.last().0@, names_of(e.last().1@))
    }
}

/// Two entries that name the same node and the same neighbours.
pub open spec fn same_entry(a: (String, Vec<String>), b: (String, Vec<String>)) -> bool {
    a.0@ == b.0@ && a.1@ == b.1@
}

proof fn lemma_same_entries(e1: Seq<(String, Vec<String>)>, e2: Seq<(String, Vec<String>)>)
    requires
        e1.len() == e2.len(),
        forall|k: int| 0 <= k < e1.len() ==> same_entry(#[trigger] e1[k], e2[k]),
    ensures
        adjacency_map(e1) == adjacency_map(e2),
    decreases e1.len(),
{
    if e1.len() > 0 {
        let (d1, d2) = (e1.drop_last(), e2.drop_last());
        assert forall|k: int| 0 <= k < d1.len() implies same_entry(#[trigger] d1[k], d2[k]) by {
            assert(same_entry(e1[k], e2[k]));
        };
        lemma_same_entries(d1, d2);
        assert(same_entry(e1[e1.len() - 1], e2[e2.len() - 1]));
    }
}

/// The neighbour list of each node of a cluster.
#[derive(Clone, Debug)]
pub struct Adjacency {
    entries: Vec<(String, Vec<String>)>,
}

impl View for Adjacency {
    type V = Map<Seq<char>, Seq<Seq<char>>>;

    closed spec fn view(&self) -> Map<Seq<char>, Seq<Seq<char>>> {
        adjacency_map(self.entries@)
    }
}

impl Adjacency {
    pub fn new() -> (r: Adjacency)
        ensures
            r@ == Map::<Seq<char>, Seq<Seq<char>>>::empty(),
    {
        Adjacency { entries: Vec::new() }
    }

    /// Sets the neighbour list of `node`, replacing any earlier one.
    pub fn insert(&mut self, node: String, neighbors: Vec<String>)
        ensures
            final(self)@ == old(self)@.insert(node@, names_of(neighbors@)),
    {
        let ghost e = self.entries@;
        self.entries.push((node, neighbors));
        assert(self.entries@.drop_last() == e);
    }

    /// The entries, in order of insertion; a later entry for a node
    /// replaces an earlier one.
    pub fn to_vec(&self) -> (r: Vec<(String, Vec<String>)>)
        ensures
            adjacency_map(r@) == self@,
    {
        let mut r: Vec<(String, Vec<String>)> = Vec::new();
        let mut i: usize = 0;
        while i < self.entries.len()
            invariant
                i <= self.entries@.len(),
                r@.len() == i,
                forall|k: int| 0 <= k < i ==> same_entry(#[trigger] r@[k], self.entries@[k]),
            decreases self.entries@.len() - i,
        {
            let entry = &self.entries[i];
            r.push((entry.0.clone(), copy_names(&entry.1)));
            i = i + 1;
        }
        proof {
            lemma_same_entries(r@, self.entries@);
        }
        r
    }

    /// The neighbour list of `node`, if the map has one.
    pub fn get(&self, node: &String) -> (r: Option<Vec<String>>)
        ensures
            r is Some <==> self@.contains_key(node@),
            r matches Some(v) ==> names_of(v@) == self@[node@],
    {
        let ghost e = self.entries@;
        let mut i: usize = self.entries.len();
        assert(e.take(i as int) =~= e);
        while i > 0
            invariant
                i <= e.len(),
                e == self.entries@,
                adjacency_map(e.take(i as int)).contains_key(node@) == adjacency_map(e).contains_key(
                    node@,
                ),
                adjacency_map(e.take(i as int)).contains_key(node@) ==> adjacency_map(
                    e.take(i as int),
                )[node@] == adjacency_map(e)[node@],
            decreases i,
        {
            assert(e.take(i as int).drop_last() =~= e.take(i as int - 1));
            assert(e.take(i as int).last() == e[i as int - 1]);
            let entry = &self.entries[i - 1];
            if entry.0 == *node {
                return Some(copy_names(&entry.1));
            }
            i = i - 1;
        }
        assert(e.take(0) =~= Seq::<(String, Vec<String>)>::empty());
        None
    }
}

} // verus!
