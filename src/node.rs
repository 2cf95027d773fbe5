use vstd::prelude::*;
use crate::ack_table::{ack_of, AckTable};
use crate::message::{is_reply_to, Message};
use crate::payload::{names_of, Payload};
use crate::value_set::ValueSet;

verus! {

/// The replication state of a node, as mathematical values.
pub struct NodeView {
    /// This node's identifier, once the handshake has set it.
    pub identity: Option<Seq<char>>,
    /// Every value this node has learned.
    pub known: Set<usize>,
    /// For each neighbour, the values it has acknowledged.
    pub acks: Map<Seq<char>, Set<usize>>,
    /// The peers this node gossips to, in order.
    pub neighbors: Seq<Seq<char>>,
}

/// The request that a node refuses: a reply arrived where a request was due.
#[derive(Debug, Clone, Copy, PartialEq, Eq)]
pub enum ProtocolError {
    UnsolicitedReply,
}

/// The payloads that only ever answer a request.
pub open spec fn is_reply_payload(p: Payload) -> bool {
    match p {
        Payload::InitOk => true,
        Payload::BroadcastOk => true,
        Payload::ReadOk { .. } => true,
        Payload::TopologyOk => true,
        _ => false,
    }
}

/// The state after a node in state `v` handles payload `p` sent by `src`.
pub open spec fn next_state(v: NodeView, src: Seq<char>, p: Payload) -> NodeView {
    match p {
        Payload::Init { node_id, .. } => NodeView { identity: Some(node_id@), ..v },
        Payload::Broadcast { message } => NodeView { known: v.known.insert(message), ..v },
        Payload::Topology { topology } => match v.identity {
            Some(id) => if topology@.contains_key(id) {
                NodeView { neighbors: topology@[id], ..v }
            } else {
                v
            },
            None => v,
        },
        Payload::Gossip { messages } => NodeView { known: v.known.union(messages@), ..v },
        Payload::GossipOk { messages } => NodeView {
            acks: v.acks.insert(src, ack_of(v.acks, src).union(messages@)),
            ..v
        },
        _ => v,
    }
}

/// `r` is the answer that a node in state `v` owes to request `p`.
pub open spec fn is_answer(v: NodeView, p: Payload, r: Option<Payload>) -> bool {
    match p {
        Payload::Init { .. } => r matches Some(Payload::InitOk),
        Payload::Broadcast { .. } => r matches Some(Payload::BroadcastOk),
        Payload::Read => match r {
            Some(Payload::ReadOk { messages }) => messages@ == v.known,
            _ => false,
        },
        Payload::Topology { .. } => r matches Some(Payload::TopologyOk),
        Payload::Gossip { messages } => match r {
            Some(Payload::GossipOk { messages: echoed }) => echoed@ == messages@,
            _ => false,
        },
        Payload::GossipOk { .. } => r is None,
        _ => false,
    }
}

/// The values of `known` that neighbour `n` has not acknowledged.
pub open spec fn delta_for(known: Set<usize>, acks: Map<Seq<char>, Set<usize>>, n: Seq<char>) -> Set<
    usize,
> {
    known.difference(ack_of(acks, n))
}

/// The gossip a tick sends, as (recipient, values) pairs: one for each
/// neighbour in `ns` that lacks an acknowledgment of some known value, in the
/// order of `ns`.
pub open spec fn gossip_plan(
    known: Set<usize>,
    acks: Map<Seq<char>, Set<usize>>,
    ns: Seq<Seq<char>>,
) -> Seq<(Seq<char>, Set<usize>)>
    decreases ns.len(),
{
    if ns.len() == 0 {
        Seq::empty()
    } else {
        let prev = gossip_plan(known, acks, ns.drop_last());
        let delta = delta_for(known, acks, ns.last());
        if delta == Set::<usize>::empty() {
            prev
        } else {
            prev.push((ns.last(), delta))
        }
    }
}

/// `m` is a fresh gossip message to `step.0` carrying exactly `step.1`.
pub open spec fn is_gossip(m: Message<Payload>, step: (Seq<char>, Set<usize>)) -> bool {
    &&& m.dest@ == step.0
    &&& m.body.msg_id is None
    &&& m.body.in_reply_to is None
    &&& match m.body.payload {
        Payload::Gossip { messages } => messages@ == step.1,
        _ => false,
    }
}

/// A node's replication state: what it knows, whom it gossips to, and what
/// each neighbour has acknowledged.
pub struct NodeState {
    id: Option<String>,
    messages: ValueSet,
    known_messages: AckTable,
    nearby_nodes: Vec<String>,
}

impl View for NodeState {
    type V = NodeView;

    closed spec fn view(&self) -> NodeView {
        NodeView {
            identity: match self.id {
                Some(s) => Some(s@),
                None => None,
            },
            known: self.messages@,
            acks: self.known_messages@,
            neighbors: names_of(self.nearby_nodes@),
        }
    }
}

impl NodeState {
    /// Neighbours are configured only once the node knows its identifier.
    pub closed spec fn wf(&self) -> bool {
        self.id is None ==> self.nearby_nodes@.len() == 0
    }

    pub fn new() -> (r: NodeState)
        ensures
            r.wf(),
            r@.identity is None,
            r@.known == Set::<usize>::empty(),
            r@.acks == Map::<Seq<char>, Set<usize>>::empty(),
            r@.neighbors == Seq::<Seq<char>>::empty(),
    {
        let r = NodeState {
            id: None,
            messages: ValueSet::new(),
            known_messages: AckTable::new(),
            nearby_nodes: Vec::new(),
        };
        assert(names_of(r.nearby_nodes@) =~= Seq::<Seq<char>>::empty());
        r
    }

    /// The identifier that the handshake gave this node.
    pub fn node_id(&self) -> (r: Option<String>)
        ensures
            r matches Some(s) ==> self@.identity == Some(s@),
            r is None ==> self@.identity is None,
    {
        match &self.id {
            Some(s) => Some(s.clone()),
            None => None,
        }
    }

    /// Handles the payload of `msg`, and returns the payload of the answer
    /// that it owes, or an error where `msg` carries a reply.
    pub fn payload_reply(&mut self, msg: &Message<Payload>) -> (r: Result<
        Option<Payload>,
        ProtocolError,
    >)
        requires
            old(self).wf(),
        ensures
            final(self).wf(),
            final(self)@ == next_state(old(self)@, msg.src@, msg.body.payload),
            r is Err <==> is_reply_payload(msg.body.payload),
            r matches Ok(o) ==> is_answer(old(self)@, msg.body.payload, o),
    {
        match msg.get_payload() {
            Payload::Init { node_id, .. } => {
                self.id = Some(node_id.clone());
                Ok(Some(Payload::InitOk))
            },
            Payload::Broadcast { message } => {
                self.messages.insert(*message);
                Ok(Some(Payload::BroadcastOk))
            },
            Payload::Read => Ok(Some(Payload::ReadOk { messages: self.messages.snapshot() })),
            Payload::Topology { topology } => {
                match &self.id {
                    Some(id) => match topology.get(id) {
                        Some(nodes) => {
                            self.nearby_nodes = nodes;
                        },
                        None => {},
                    },
                    None => {},
                }
                Ok(Some(Payload::TopologyOk))
            },
            Payload::Gossip { messages } => {
                self.messages.extend(messages);
                Ok(Some(Payload::GossipOk { messages: messages.snapshot() }))
            },
            Payload::GossipOk { messages } => {
                self.known_messages.acknowledge(&msg.src, messages);
                Ok(None)
            },
            Payload::InitOk => Err(ProtocolError::UnsolicitedReply),
            Payload::BroadcastOk => Err(ProtocolError::UnsolicitedReply),
            Payload::ReadOk { .. } => Err(ProtocolError::UnsolicitedReply),
            Payload::TopologyOk => Err(ProtocolError::UnsolicitedReply),
        }
    }

    /// Handles `msg` and returns the reply that it owes, addressed back to
    /// its sender, or an error where `msg` carries a reply.
    pub fn apply(&mut self, msg: &Message<Payload>) -> (r: Result<
        Option<Message<Payload>>,
        ProtocolError,
    >)
        requires
            old(self).wf(),
        ensures
            final(self).wf(),
            final(self)@ == next_state(old(self)@, msg.src@, msg.body.payload),
            r is Err <==> is_reply_payload(msg.body.payload),
            r matches Ok(Some(m)) ==> is_reply_to(m, *msg) && is_answer(
                old(self)@,
                msg.body.payload,
                Some(m.body.payload),
            ),
            r matches Ok(None) ==> is_answer(old(self)@, msg.body.payload, None),
    {
        match self.payload_reply(msg) {
            Ok(Some(p)) => Ok(Some(msg.reply(p))),
            Ok(None) => Ok(None),
            Err(e) => Err(e),
        }
    }

    /// The gossip that a tick sends: to each neighbour, in order, the known
    /// values that it has not acknowledged, where there are any.
    pub fn gossip(&self) -> (r: Vec<Message<Payload>>)
        requires
            self.wf(),
        ensures
            r@.len() == gossip_plan(self@.known, self@.acks, self@.neighbors).len(),
            forall|j: int|
                0 <= j < r@.len() ==> Some(#[trigger] r@[j].src@) == self@.identity && is_gossip(
                    r@[j],
                    gossip_plan(self@.known, self@.acks, self@.neighbors)[j],
                ),
    {
        let ghost ns = self@.neighbors;
        let ghost known = self@.known;
        let ghost acks = self@.acks;
        let mut out: Vec<Message<Payload>> = Vec::new();
        let id = match &self.id {
            Some(id) => id,
            None => {
                assert(ns =~= Seq::<Seq<char>>::empty());
                return out;
            },
        };
        let mut i: usize = 0;
        while i < self.nearby_nodes.len()
            invariant
                i <= self.nearby_nodes@.len(),
                ns == names_of(self.nearby_nodes@),
                known == self@.known,
                acks == self@.acks,
                self.id == Some(*id),
                out@.len() == gossip_plan(known, acks, ns.take(i as int)).len(),
                forall|j: int|
                    0 <= j < out@.len() ==> Some(#[trigger] out@[j].src@) == self@.identity
                        && is_gossip(out@[j], gossip_plan(known, acks, ns.take(i as int))[j]),
            decreases self.nearby_nodes@.len() - i,
        {
            let dest = &self.nearby_nodes[i];
            assert(ns.take(i as int + 1).drop_last() =~= ns.take(i as int));
            assert(ns.take(i as int + 1).last() == dest@);
            let delta = match self.known_messages.get(dest) {
                Some(acked) => self.messages.difference(acked),
                None => {
                    assert(known.difference(Set::<usize>::empty()) =~= known);
                    self.messages.snapshot()
                },
            };
            if !delta.is_empty() {
                let msg = Message::new(id.clone(), dest.clone(), Payload::Gossip { messages: delta });
                out.push(msg);
            }
            i = i + 1;
        }
        assert(ns.take(i as int) =~= ns);
        out
    }
}

} // verus!
