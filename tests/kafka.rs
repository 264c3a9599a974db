use distributed::kafka::{Actions, InjectedPayload, KafkaNode, Payload};
use distributed::message::{Body, Event, Init, Message};

fn init(me: &str, all: &[&str]) -> Init {
    Init {
        node_id: me.to_string(),
        node_ids: all.iter().map(|s| s.to_string()).collect(),
    }
}

fn request(dst: &str, id: Option<usize>, payload: Payload) -> Event<Payload, InjectedPayload> {
    Event::Message(Message {
        src: "c1".to_string(),
        dst: dst.to_string(),
        body: Body { id, in_reply_to: None, payload },
    })
}

fn send(node: &mut KafkaNode, key: &str, msg: usize) -> Actions {
    node.step(request("n1", Some(7), Payload::Send { key: key.to_string(), msg }))
}

fn poll(node: &mut KafkaNode, key: &str, offset: usize) -> Vec<(String, Vec<(usize, usize)>)> {
    let mut a = node.step(request("n1", Some(8), Payload::Poll { offsets: vec![(key.to_string(), offset)] }));
    assert_eq!(a.outgoing.len(), 1);
    match a.outgoing.pop().unwrap().body.payload {
        Payload::PollOk { msgs } => msgs,
        _ => panic!("poll answered with another payload"),
    }
}

fn list(node: &mut KafkaNode, keys: &[&str]) -> Vec<(String, usize)> {
    let keys = keys.iter().map(|s| s.to_string()).collect();
    let mut a = node.step(request("n1", Some(9), Payload::ListCommittedOffsets { keys }));
    match a.outgoing.pop().unwrap().body.payload {
        Payload::ListCommittedOffsetsOk { offsets } => offsets,
        _ => panic!("list answered with another payload"),
    }
}

#[test]
fn send_then_gossip_to_each_peer_once() {
    let mut a = KafkaNode::from_init(init("A", &["A", "B", "C"]));
    let mut acts = a.step(Event::Message(Message {
        src: "c1".to_string(),
        dst: "A".to_string(),
        body: Body { id: Some(3), in_reply_to: None, payload: Payload::Send { key: "x".to_string(), msg: 9 } },
    }));
    assert_eq!(acts.outgoing.len(), 1);
    let reply = &acts.outgoing[0];
    assert_eq!(reply.src, "A");
    assert_eq!(reply.dst, "c1");
    assert_eq!(reply.body.in_reply_to, Some(3));
    assert_eq!(reply.body.id, Some(1));
    assert!(matches!(reply.body.payload, Payload::SendOk { offset: 0 }));
    assert_eq!(acts.injected.len(), 1);
    let ev = Event::Injected(acts.injected.pop().unwrap());
    let gossip = a.step(ev);
    assert_eq!(gossip.outgoing.len(), 2);
    assert!(gossip.injected.is_empty());
    let dsts: Vec<&str> = gossip.outgoing.iter().map(|m| m.dst.as_str()).collect();
    assert_eq!(dsts, vec!["B", "C"]);
    for m in &gossip.outgoing {
        assert_eq!(m.src, "A");
        assert_eq!(m.body.id, None);
        assert_eq!(m.body.in_reply_to, None);
        match &m.body.payload {
            Payload::GossipSend { key, msg } => {
                assert_eq!(key, "x");
                assert_eq!(*msg, 9);
            }
            _ => panic!("gossip carries another payload"),
        }
    }
}

#[test]
fn sends_are_polled_back_in_order() {
    let mut n = KafkaNode::from_init(init("n1", &["n1"]));
    let values = [5usize, 11, 2, 40];
    for (i, v) in values.iter().enumerate() {
        let acts = send(&mut n, "k", *v);
        assert!(matches!(acts.outgoing[0].body.payload, Payload::SendOk { offset } if offset == i));
    }
    let got = poll(&mut n, "k", 0);
    assert_eq!(got, vec![("k".to_string(), vec![(0, 5), (1, 11), (2, 2), (3, 40)])]);
    let tail = poll(&mut n, "k", 2);
    assert_eq!(tail, vec![("k".to_string(), vec![(2, 2), (3, 40)])]);
}

#[test]
fn keys_have_separate_offsets() {
    let mut n = KafkaNode::from_init(init("n1", &["n1"]));
    send(&mut n, "a", 1);
    let acts = send(&mut n, "b", 2);
    assert!(matches!(acts.outgoing[0].body.payload, Payload::SendOk { offset: 0 }));
    let acts = send(&mut n, "a", 3);
    assert!(matches!(acts.outgoing[0].body.payload, Payload::SendOk { offset: 1 }));
}

#[test]
fn poll_of_unknown_or_empty_key() {
    let mut n = KafkaNode::from_init(init("n1", &["n1"]));
    assert!(poll(&mut n, "nothing", 0).is_empty());
    send(&mut n, "k", 1);
    assert_eq!(poll(&mut n, "k", 5), vec![("k".to_string(), vec![])]);
}

#[test]
fn commit_then_list() {
    let mut n = KafkaNode::from_init(init("n1", &["n1", "n2"]));
    send(&mut n, "k", 1);
    let acts = n.step(request("n1", Some(4), Payload::CommitOffsets { offsets: vec![("k".to_string(), 1)] }));
    assert!(matches!(acts.outgoing[0].body.payload, Payload::CommitOffsetsOk));
    assert_eq!(acts.outgoing[0].body.in_reply_to, Some(4));
    assert_eq!(acts.injected.len(), 1);
    assert_eq!(list(&mut n, &["k"]), vec![("k".to_string(), 1)]);
    assert!(list(&mut n, &["other"]).is_empty());
}

#[test]
fn commit_of_unseen_key_is_kept() {
    let mut n = KafkaNode::from_init(init("n1", &["n1"]));
    n.step(request("n1", None, Payload::GossipCommit { offsets: vec![("fresh".to_string(), 3)] }));
    assert_eq!(list(&mut n, &["fresh"]), vec![("fresh".to_string(), 3)]);
}

#[test]
fn gossip_commit_twice_keeps_the_pointer() {
    let mut n = KafkaNode::from_init(init("n2", &["n1", "n2"]));
    for _ in 0..2 {
        let acts = n.step(request("n2", None, Payload::GossipCommit { offsets: vec![("k".to_string(), 4)] }));
        assert!(acts.outgoing.is_empty());
        assert!(acts.injected.is_empty());
    }
    assert_eq!(list(&mut n, &["k"]), vec![("k".to_string(), 4)]);
}

#[test]
fn gossip_reaches_peer() {
    let mut a = KafkaNode::from_init(init("A", &["A", "B"]));
    let mut b = KafkaNode::from_init(init("B", &["A", "B"]));
    let mut acts = send(&mut a, "k", 77);
    let gossip = a.step(Event::Injected(acts.injected.pop().unwrap()));
    for m in gossip.outgoing {
        assert_eq!(m.dst, "B");
        let out = b.step(Event::Message(m));
        assert!(out.outgoing.is_empty());
        assert!(out.injected.is_empty());
    }
    assert_eq!(poll(&mut b, "k", 0), vec![("k".to_string(), vec![(0, 77)])]);
}

#[test]
fn gossip_commit_fans_out() {
    let mut a = KafkaNode::from_init(init("A", &["A", "B", "C"]));
    let mut acts = a.step(request("A", Some(1), Payload::CommitOffsets { offsets: vec![("k".to_string(), 2)] }));
    let gossip = a.step(Event::Injected(acts.injected.pop().unwrap()));
    assert_eq!(gossip.outgoing.len(), 2);
    for m in &gossip.outgoing {
        assert_eq!(m.body.in_reply_to, None);
        match &m.body.payload {
            Payload::GossipCommit { offsets } => assert_eq!(offsets, &vec![("k".to_string(), 2)]),
            _ => panic!("gossip carries another payload"),
        }
    }
}

#[test]
fn request_without_id_gets_no_reply() {
    let mut n = KafkaNode::from_init(init("n1", &["n1", "n2"]));
    let acts = n.step(request("n1", None, Payload::Send { key: "k".to_string(), msg: 1 }));
    assert!(acts.outgoing.is_empty());
    assert_eq!(acts.injected.len(), 1);
    assert_eq!(poll(&mut n, "k", 0), vec![("k".to_string(), vec![(0, 1)])]);
}

#[test]
fn message_ids_count_up_from_one() {
    let mut n = KafkaNode::from_init(init("n1", &["n1"]));
    assert_eq!(n.message_id(), 1);
    let a1 = send(&mut n, "k", 1);
    let a2 = send(&mut n, "k", 2);
    assert_eq!(a1.outgoing[0].body.id, Some(1));
    assert_eq!(a2.outgoing[0].body.id, Some(2));
    assert_eq!(n.message_id(), 3);
    n.step(Event::EOF);
    assert_eq!(n.message_id(), 3);
}

#[test]
fn replies_are_ignored() {
    let mut n = KafkaNode::from_init(init("n1", &["n1"]));
    let acts = n.step(request("n1", Some(2), Payload::SendOk { offset: 3 }));
    assert!(acts.outgoing.is_empty());
    assert!(acts.injected.is_empty());
}

#[test]
fn commit_survives_unrelated_events() {
    let mut n = KafkaNode::from_init(init("n1", &["n1", "n2"]));
    n.step(request("n1", Some(1), Payload::CommitOffsets { offsets: vec![("k".to_string(), 2)] }));
    send(&mut n, "k", 8);
    n.step(request("n1", None, Payload::GossipCommit { offsets: vec![("other".to_string(), 5)] }));
    poll(&mut n, "k", 0);
    assert_eq!(list(&mut n, &["k", "other"]), vec![("k".to_string(), 2), ("other".to_string(), 5)]);
}
