use vstd::prelude::*;
use vstd::set_lib::lemma_len_subset;
use crate::ack_table::ack_of;
use crate::node::{delta_for, gossip_plan, next_state, NodeView};
use crate::payload::Payload;

verus! {

/// Every value set of the state is finite, as a node's always are.
pub open spec fn finite_sets(v: NodeView) -> bool {
    &&& v.known.finite()
    &&& forall|k: Seq<char>| #[trigger] v.acks.contains_key(k) ==> v.acks[k].finite()
}

/// The state after a node in state `v` handles `events`, in order; each event
/// is a sender and the payload it sent.
pub open spec fn run(v: NodeView, events: Seq<(Seq<char>, Payload)>) -> NodeView
    decreases events.len(),
{
    if events.len() == 0 {
        v
    } else {
        let before = run(v, events.drop_last());
        next_state(before, events.last().0, events.last().1)
    }
}

/// `w` holds everything `v` holds: known values and each acknowledgment set
/// are supersets, and none of them is smaller.
pub open spec fn grows_to(v: NodeView, w: NodeView) -> bool {
    &&& v.known.subset_of(w.known)
    &&& v.known.len() <= w.known.len()
    &&& forall|n: Seq<char>|
        #![trigger ack_of(w.acks, n)]
        ack_of(v.acks, n).subset_of(ack_of(w.acks, n)) && ack_of(v.acks, n).len() <= ack_of(
            w.acks,
            n,
        ).len()
}

/// Handling the same gossip twice leaves the node as handling it once.
pub proof fn lemma_gossip_idempotent(v: NodeView, src: Seq<char>, p: Payload)
    requires
        p is Gossip,
    ensures
        next_state(next_state(v, src, p), src, p) == next_state(v, src, p),
{
    match p {
        Payload::Gossip { messages } => {
            assert(v.known.union(messages@).union(messages@) =~= v.known.union(messages@));
        },
        _ => {},
    }
}

proof fn lemma_step_grows(v: NodeView, src: Seq<char>, p: Payload)
    requires
        finite_sets(v),
    ensures
        finite_sets(next_state(v, src, p)),
        grows_to(v, next_state(v, src, p)),
{
    let w = next_state(v, src, p);
    match p {
        Payload::Broadcast { message } => {
            lemma_len_subset(v.known, w.known);
        },
        Payload::Gossip { messages } => {
            messages.lemma_finite();
            lemma_len_subset(v.known, w.known);
        },
        Payload::GossipOk { messages } => {
            messages.lemma_finite();
            assert forall|n: Seq<char>| #[trigger] w.acks.contains_key(n) implies w.acks[n].finite() by {
                if n != src {
                    assert(v.acks.contains_key(n));
                }
            };
            assert forall|n: Seq<char>|
                #![trigger ack_of(w.acks, n)]
                ack_of(v.acks, n).subset_of(ack_of(w.acks, n)) && ack_of(v.acks, n).len()
                    <= ack_of(w.acks, n).len() by {
                if n == src {
                    lemma_len_subset(ack_of(v.acks, n), ack_of(w.acks, n));
                }
            };
        },
        _ => {},
    }
}

/// Over any sequence of handled messages, no value is forgotten: the known
/// values and each neighbour's acknowledged values only grow, and their
/// counts never fall.
pub proof fn lemma_monotone(v: NodeView, events: Seq<(Seq<char>, Payload)>)
    requires
        finite_sets(v),
    ensures
        finite_sets(run(v, events)),
        grows_to(v, run(v, events)),
    decreases events.len(),
{
    if events.len() > 0 {
        let before = run(v, events.drop_last());
        lemma_monotone(v, events.drop_last());
        lemma_step_grows(before, events.last().0, events.last().1);
        let after = run(v, events);
        assert forall|n: Seq<char>|
            #![trigger ack_of(after.acks, n)]
            ack_of(v.acks, n).subset_of(ack_of(after.acks, n)) && ack_of(v.acks, n).len()
                <= ack_of(after.acks, n).len() by {
            assert(ack_of(v.acks, n).subset_of(ack_of(before.acks, n)));
            assert(ack_of(before.acks, n).subset_of(ack_of(after.acks, n)));
        };
    }
}

/// A tick sends no gossip to a neighbour whose acknowledged values are
/// exactly the node's known values.
pub proof fn lemma_no_redundant_gossip(
    known: Set<usize>,
    acks: Map<Seq<char>, Set<usize>>,
    ns: Seq<Seq<char>>,
    n: Seq<char>,
)
    requires
        ack_of(acks, n) == known,
    ensures
        forall|j: int|
            0 <= j < gossip_plan(known, acks, ns).len() ==> #[trigger] gossip_plan(
                known,
                acks,
                ns,
            )[j].0 != n,
    decreases ns.len(),
{
    if ns.len() > 0 {
        lemma_no_redundant_gossip(known, acks, ns.drop_last(), n);
        if ns.last() == n {
            assert(delta_for(known, acks, n) =~= Set::<usize>::empty());
        }
        let plan = gossip_plan(known, acks, ns);
        let pplan = gossip_plan(known, acks, ns.drop_last());
        assert forall|j: int| 0 <= j < plan.len() implies #[trigger] plan[j].0 != n by {
            if j < pplan.len() {
                assert(plan[j] == pplan[j]);
            }
        };
    }
}

proof fn lemma_plan_entries(known: Set<usize>, acks: Map<Seq<char>, Set<usize>>, ns: Seq<Seq<char>>)
    ensures
        forall|j: int|
            0 <= j < gossip_plan(known, acks, ns).len() ==> #[trigger] gossip_plan(
                known,
                acks,
                ns,
            )[j].1 == delta_for(known, acks, gossip_plan(known, acks, ns)[j].0),
        forall|n: Seq<char>|
            #![trigger ns.contains(n)]
            ns.contains(n) && delta_for(known, acks, n) != Set::<usize>::empty() ==> exists|j: int|
                0 <= j < gossip_plan(known, acks, ns).len() && #[trigger] gossip_plan(
                    known,
                    acks,
                    ns,
                )[j].0 == n,
    decreases ns.len(),
{
    if ns.len() > 0 {
        let prev = ns.drop_last();
        lemma_plan_entries(known, acks, prev);
        let plan = gossip_plan(known, acks, ns);
        let pplan = gossip_plan(known, acks, prev);
        assert forall|n: Seq<char>|
            #![trigger ns.contains(n)]
            ns.contains(n) && delta_for(known, acks, n) != Set::<usize>::empty() implies exists|
                j: int,
            |
                0 <= j < plan.len() && #[trigger] plan[j].0 == n by {
            if n == ns.last() {
                assert(plan[plan.len() - 1].0 == n);
            } else {
                let k = choose|k: int| 0 <= k < ns.len() && ns[k] == n;
                assert(prev[k] == n);
                assert(prev.contains(n));
                let j = choose|j: int| 0 <= j < pplan.len() && #[trigger] pplan[j].0 == n;
                assert(plan[j] == pplan[j]);
            }
        };
    }
}

/// One round of anti-entropy along an edge: where `a`'s acknowledgments for
/// neighbour `b` are values that `b` holds, either `a`'s tick plans gossip to
/// `b` that, once `b` adds it, leaves `b` holding all `a` knows, or `b`
/// already holds it all.
pub proof fn lemma_gossip_catches_up(a: NodeView, b_known: Set<usize>, b: Seq<char>)
    requires
        a.neighbors.contains(b),
        ack_of(a.acks, b).subset_of(b_known),
    ensures
        forall|j: int|
            0 <= j < gossip_plan(a.known, a.acks, a.neighbors).len() && #[trigger] gossip_plan(
                a.known,
                a.acks,
                a.neighbors,
            )[j].0 == b ==> a.known.subset_of(
                b_known.union(gossip_plan(a.known, a.acks, a.neighbors)[j].1),
            ),
        (forall|j: int|
            0 <= j < gossip_plan(a.known, a.acks, a.neighbors).len() ==> #[trigger] gossip_plan(
                a.known,
                a.acks,
                a.neighbors,
            )[j].0 != b) ==> a.known.subset_of(b_known),
{
    lemma_plan_entries(a.known, a.acks, a.neighbors);
    let plan = gossip_plan(a.known, a.acks, a.neighbors);
    if forall|j: int| 0 <= j < plan.len() ==> #[trigger] plan[j].0 != b {
        if delta_for(a.known, a.acks, b) != Set::<usize>::empty() {
            let j = choose|j: int| 0 <= j < plan.len() && #[trigger] plan[j].0 == b;
            assert(plan[j].0 != b);
        }
        assert forall|x: usize| a.known.contains(x) implies b_known.contains(x) by {
            if !ack_of(a.acks, b).contains(x) {
                assert(delta_for(a.known, a.acks, b).contains(x));
            }
        };
    }
}

} // verus!
