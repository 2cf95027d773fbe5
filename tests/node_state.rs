use gossip::{Adjacency, Message, NodeState, Payload, ProtocolError, ValueSet};

fn request(src: &str, dest: &str, msg_id: usize, payload: Payload) -> Message<Payload> {
    let mut m = Message::new(src.to_string(), dest.to_string(), payload);
    m.body.msg_id = Some(msg_id);
    m
}

fn set_of(values: &[usize]) -> ValueSet {
    ValueSet::from_vec(values.to_vec())
}

fn sorted(s: &ValueSet) -> Vec<usize> {
    let mut v = s.to_vec();
    v.sort();
    v
}

fn init(node: &mut NodeState, id: &str) {
    let msg = request(
        "c0",
        id,
        1,
        Payload::Init { node_id: id.to_string(), node_ids: vec![id.to_string()] },
    );
    let reply = node.apply(&msg).unwrap().unwrap();
    assert!(matches!(reply.body.payload, Payload::InitOk));
}

fn set_topology(node: &mut NodeState, entries: &[(&str, &[&str])]) {
    let mut t = Adjacency::new();
    for (k, ns) in entries {
        t.insert(k.to_string(), ns.iter().map(|s| s.to_string()).collect());
    }
    let reply = node.apply(&request("c1", "n1", 2, Payload::Topology { topology: t })).unwrap();
    assert!(matches!(reply.unwrap().body.payload, Payload::TopologyOk));
}

fn read(node: &mut NodeState) -> Vec<usize> {
    let reply = node.apply(&request("c1", "n1", 9, Payload::Read)).unwrap().unwrap();
    match &reply.body.payload {
        Payload::ReadOk { messages } => sorted(messages),
        _ => panic!("expected read_ok"),
    }
}

fn gossip_targets(node: &NodeState) -> Vec<(String, Vec<usize>)> {
    node.gossip()
        .iter()
        .map(|m| match &m.body.payload {
            Payload::Gossip { messages } => (m.dest.clone(), sorted(messages)),
            _ => panic!("expected gossip"),
        })
        .collect()
}

#[test]
fn example_scenario_broadcast_gossip_ack_read() {
    let mut node = NodeState::new();
    init(&mut node, "n1");
    set_topology(&mut node, &[("n1", &["n2"])]);

    let reply = node.apply(&request("c1", "n1", 3, Payload::Broadcast { message: 5 })).unwrap().unwrap();
    assert!(matches!(reply.body.payload, Payload::BroadcastOk));
    assert_eq!(read(&mut node), vec![5]);

    let sent = node.gossip();
    assert_eq!(sent.len(), 1);
    assert_eq!(sent[0].src, "n1");
    assert_eq!(sent[0].dest, "n2");
    assert_eq!(sent[0].body.msg_id, None);
    assert_eq!(sent[0].in_reply_to(), None);
    assert_eq!(gossip_targets(&node), vec![("n2".to_string(), vec![5])]);

    let ack = Message::new("n2".to_string(), "n1".to_string(), Payload::GossipOk { messages: set_of(&[5]) });
    assert!(node.apply(&ack).unwrap().is_none());
    assert!(node.gossip().is_empty());
    assert_eq!(read(&mut node), vec![5]);
}

#[test]
fn gossip_applied_twice_is_idempotent() {
    let mut once = NodeState::new();
    let mut twice = NodeState::new();
    init(&mut once, "n1");
    init(&mut twice, "n1");
    let g = Message::new("n2".to_string(), "n1".to_string(), Payload::Gossip { messages: set_of(&[1, 2, 3]) });
    once.apply(&g).unwrap();
    twice.apply(&g).unwrap();
    twice.apply(&g).unwrap();
    assert_eq!(read(&mut once), vec![1, 2, 3]);
    assert_eq!(read(&mut twice), vec![1, 2, 3]);
}

#[test]
fn gossip_reply_echoes_received_values() {
    let mut node = NodeState::new();
    init(&mut node, "n1");
    node.apply(&request("c1", "n1", 3, Payload::Broadcast { message: 9 })).unwrap();
    let reply = node
        .apply(&request("n2", "n1", 4, Payload::Gossip { messages: set_of(&[1, 1, 2]) }))
        .unwrap()
        .unwrap();
    match &reply.body.payload {
        Payload::GossipOk { messages } => assert_eq!(sorted(messages), vec![1, 2]),
        _ => panic!("expected gossip_ok"),
    }
    assert_eq!(read(&mut node), vec![1, 2, 9]);
}

#[test]
fn known_values_never_shrink() {
    let mut node = NodeState::new();
    init(&mut node, "n1");
    let mut last = 0;
    for v in [4usize, 4, 7, 1, 7] {
        node.apply(&request("c1", "n1", 5, Payload::Broadcast { message: v })).unwrap();
        let now = read(&mut node).len();
        assert!(now >= last);
        last = now;
    }
    node.apply(&request("n2", "n1", 6, Payload::Gossip { messages: set_of(&[]) })).unwrap();
    assert_eq!(read(&mut node), vec![1, 4, 7]);
}

#[test]
fn acknowledgments_accumulate_per_neighbor() {
    let mut node = NodeState::new();
    init(&mut node, "n1");
    set_topology(&mut node, &[("n1", &["n2", "n3"])]);
    for v in [1usize, 2, 3] {
        node.apply(&request("c1", "n1", 7, Payload::Broadcast { message: v })).unwrap();
    }
    let ack = |vals: &[usize]| Message::new("n2".to_string(), "n1".to_string(), Payload::GossipOk { messages: set_of(vals) });
    node.apply(&ack(&[1])).unwrap();
    node.apply(&ack(&[2])).unwrap();
    assert_eq!(
        gossip_targets(&node),
        vec![("n2".to_string(), vec![3]), ("n3".to_string(), vec![1, 2, 3])]
    );
}

#[test]
fn no_gossip_to_neighbor_that_acknowledged_everything() {
    let mut node = NodeState::new();
    init(&mut node, "n1");
    set_topology(&mut node, &[("n1", &["n2", "n3"])]);
    node.apply(&request("c1", "n1", 3, Payload::Broadcast { message: 8 })).unwrap();
    let ack = Message::new("n3".to_string(), "n1".to_string(), Payload::GossipOk { messages: set_of(&[8]) });
    node.apply(&ack).unwrap();
    assert_eq!(gossip_targets(&node), vec![("n2".to_string(), vec![8])]);
}

#[test]
fn tick_with_nothing_known_sends_nothing() {
    let mut node = NodeState::new();
    assert!(node.gossip().is_empty());
    init(&mut node, "n1");
    set_topology(&mut node, &[("n1", &["n2"])]);
    assert!(node.gossip().is_empty());
}

#[test]
fn reply_swaps_addresses_and_correlates() {
    let mut node = NodeState::new();
    init(&mut node, "n1");
    let reply = node.apply(&request("c7", "n1", 41, Payload::Read)).unwrap().unwrap();
    assert_eq!(reply.src, "n1");
    assert_eq!(reply.dest, "c7");
    assert_eq!(reply.in_reply_to(), Some(41));
    assert_eq!(reply.body.msg_id, Some(42));
}

#[test]
fn topology_takes_own_entry() {
    let mut node = NodeState::new();
    init(&mut node, "n1");
    set_topology(&mut node, &[("n1", &["n2", "n3"]), ("n2", &["n1"])]);
    node.apply(&request("c1", "n1", 3, Payload::Broadcast { message: 1 })).unwrap();
    assert_eq!(
        gossip_targets(&node),
        vec![("n2".to_string(), vec![1]), ("n3".to_string(), vec![1])]
    );
}

#[test]
fn topology_without_own_entry_keeps_neighbors() {
    let mut node = NodeState::new();
    init(&mut node, "n3");
    set_topology(&mut node, &[("n3", &["n4"])]);
    set_topology(&mut node, &[("n1", &["n2", "n3"]), ("n2", &["n1"])]);
    node.apply(&request("c1", "n3", 3, Payload::Broadcast { message: 2 })).unwrap();
    assert_eq!(gossip_targets(&node), vec![("n4".to_string(), vec![2])]);
}

#[test]
fn topology_before_init_is_ignored() {
    let mut node = NodeState::new();
    set_topology(&mut node, &[("n1", &["n2"])]);
    init(&mut node, "n1");
    node.apply(&request("c1", "n1", 3, Payload::Broadcast { message: 2 })).unwrap();
    assert!(node.gossip().is_empty());
    assert_eq!(node.node_id(), Some("n1".to_string()));
}

#[test]
fn replies_received_as_requests_are_refused() {
    let mut node = NodeState::new();
    init(&mut node, "n1");
    let payloads = vec![
        Payload::InitOk,
        Payload::BroadcastOk,
        Payload::ReadOk { messages: set_of(&[1]) },
        Payload::TopologyOk,
    ];
    for p in payloads {
        let r = node.apply(&request("n2", "n1", 3, p));
        assert_eq!(r.err(), Some(ProtocolError::UnsolicitedReply));
    }
    assert_eq!(read(&mut node), Vec::<usize>::new());
}

#[test]
fn payload_reply_of_gossip_ok_is_none() {
    let mut node = NodeState::new();
    init(&mut node, "n1");
    let ack = Message::new("n2".to_string(), "n1".to_string(), Payload::GossipOk { messages: set_of(&[3]) });
    assert!(node.payload_reply(&ack).unwrap().is_none());
    assert!(matches!(node.payload_reply(&request("c", "n1", 1, Payload::Broadcast { message: 3 })), Ok(Some(Payload::BroadcastOk))));
}

#[test]
fn two_nodes_converge_through_gossip() {
    let mut a = NodeState::new();
    let mut b = NodeState::new();
    init(&mut a, "n1");
    init(&mut b, "n2");
    set_topology(&mut a, &[("n1", &["n2"]), ("n2", &["n1"])]);
    set_topology(&mut b, &[("n1", &["n2"]), ("n2", &["n1"])]);
    a.apply(&request("c1", "n1", 3, Payload::Broadcast { message: 10 })).unwrap();
    b.apply(&request("c2", "n2", 3, Payload::Broadcast { message: 20 })).unwrap();
    for _ in 0..3 {
        for m in a.gossip() {
            if let Some(r) = b.apply(&m).unwrap() {
                a.apply(&r).unwrap();
            }
        }
        for m in b.gossip() {
            if let Some(r) = a.apply(&m).unwrap() {
                b.apply(&r).unwrap();
            }
        }
    }
    assert_eq!(read(&mut a), vec![10, 20]);
    assert_eq!(read(&mut b), vec![10, 20]);
    assert!(a.gossip().is_empty());
    assert!(b.gossip().is_empty());
}
