use distributed::relay::{self, BroadcastNode};
use distributed::counter::{self, CounterError, GrowCounterNode};
use distributed::message::{Body, Event, Init, Message};
use distributed::runtime::{handshake, InitPayload, ProtocolError};
use distributed::unique_ids::{self, UniqueIdNode};

fn init(me: &str, all: &[&str]) -> Init {
    Init {
        node_id: me.to_string(),
        node_ids: all.iter().map(|s| s.to_string()).collect(),
    }
}

fn msg<P>(dst: &str, id: Option<usize>, payload: P) -> Message<P> {
    Message {
        src: "c1".to_string(),
        dst: dst.to_string(),
        body: Body { id, in_reply_to: None, payload },
    }
}

#[test]
fn into_reply_swaps_and_correlates() {
    let mut counter = 5usize;
    let r = msg("n1", Some(42), 7u8).into_reply(&mut counter);
    assert_eq!(r.src, "n1");
    assert_eq!(r.dst, "c1");
    assert_eq!(r.body.id, Some(5));
    assert_eq!(r.body.in_reply_to, Some(42));
    assert_eq!(r.body.payload, 7);
    assert_eq!(counter, 6);
}

#[test]
fn peers_leave_out_the_node_itself() {
    assert_eq!(init("n2", &["n1", "n2", "n3"]).peers(), vec!["n1".to_string(), "n3".to_string()]);
    assert!(init("n1", &["n1"]).peers().is_empty());
}

#[test]
fn handshake_answers_init_ok() {
    let first = msg("n1", Some(1), InitPayload::Init(init("n1", &["n1", "n2"])));
    let (got, reply) = handshake(first).unwrap();
    assert_eq!(got.node_id, "n1");
    assert_eq!(got.node_ids, vec!["n1".to_string(), "n2".to_string()]);
    assert_eq!(reply.src, "n1");
    assert_eq!(reply.dst, "c1");
    assert_eq!(reply.body.id, Some(0));
    assert_eq!(reply.body.in_reply_to, Some(1));
    assert!(matches!(reply.body.payload, InitPayload::InitOk));
}

#[test]
fn handshake_refuses_other_first_message() {
    let first = msg("n1", Some(1), InitPayload::InitOk);
    assert_eq!(handshake(first).err(), Some(ProtocolError::FirstMessageNotInit));
}

#[test]
fn broadcast_stores_and_reads() {
    let mut n = BroadcastNode::from_init(init("n1", &["n1"]));
    for v in [3usize, 1, 4] {
        let out = n.step(Event::Message(msg("n1", Some(v), relay::Payload::Broadcast { message: v }))).unwrap();
        assert!(matches!(out[0].body.payload, relay::Payload::BroadcastOk));
        assert_eq!(out[0].body.in_reply_to, Some(v));
    }
    let out = n.step(Event::Message(msg("n1", Some(9), relay::Payload::Read))).unwrap();
    match &out[0].body.payload {
        relay::Payload::ReadOk { messages } => assert_eq!(messages, &vec![3, 1, 4]),
        _ => panic!("read answered with another payload"),
    }
    let out = n
        .step(Event::Message(msg("n1", Some(10), relay::Payload::Topology { topology: vec![] })))
        .unwrap();
    assert!(matches!(out[0].body.payload, relay::Payload::TopologyOk));
    assert_eq!(n.id, 6);
}

#[test]
fn broadcast_refuses_replies_and_injected_events() {
    let mut n = BroadcastNode::from_init(init("n1", &["n1"]));
    let r = n.step(Event::Message(msg("n1", Some(1), relay::Payload::BroadcastOk)));
    assert_eq!(r.err(), Some(ProtocolError::UnexpectedEvent));
    assert_eq!(n.step(Event::Injected(())).err(), Some(ProtocolError::UnexpectedEvent));
    assert!(n.step(Event::EOF).unwrap().is_empty());
}

#[test]
fn unique_ids_join_node_and_counter() {
    let mut n = UniqueIdNode::from_init(init("n3", &["n3"]));
    let mut seen = Vec::new();
    for i in 0..12usize {
        let out = n.step(Event::Message(msg("n3", Some(i), unique_ids::Payload::Generate))).unwrap();
        match &out[0].body.payload {
            unique_ids::Payload::GenerateOk { guid } => seen.push(guid.clone()),
            _ => panic!("generate answered with another payload"),
        }
    }
    assert_eq!(seen[0], "n3-2");
    assert_eq!(seen[8], "n3-10");
    assert_eq!(seen[11], "n3-13");
    let mut dedup = seen.clone();
    dedup.sort();
    dedup.dedup();
    assert_eq!(dedup.len(), seen.len());
}

#[test]
fn unique_ids_refuse_injected_events() {
    let mut n = UniqueIdNode::from_init(init("n3", &["n3"]));
    assert_eq!(n.step(Event::Injected(())).err(), Some(ProtocolError::UnexpectedEvent));
}

fn read(n: &mut GrowCounterNode) -> i64 {
    let a = n.step(Event::Message(msg("n1", Some(1), counter::Payload::Read))).ok().unwrap();
    match a.outgoing[0].body.payload {
        counter::Payload::ReadOk { value } => value,
        _ => panic!("read answered with another payload"),
    }
}

fn add(n: &mut GrowCounterNode, delta: i64) -> Result<counter::CounterActions, CounterError> {
    n.step(Event::Message(msg("n1", Some(1), counter::Payload::Add { delta })))
}

#[test]
fn counter_adds_and_reads() {
    let mut n = GrowCounterNode::from_init(init("n1", &["n1", "n2"]));
    assert_eq!(read(&mut n), 0);
    let a = add(&mut n, 10).ok().unwrap();
    assert!(matches!(a.outgoing[0].body.payload, counter::Payload::AddOk));
    assert_eq!(a.injected.len(), 1);
    add(&mut n, -3).ok().unwrap();
    assert_eq!(read(&mut n), 7);
    let a = add(&mut n, 0).ok().unwrap();
    assert!(a.injected.is_empty());
    assert_eq!(read(&mut n), 7);
}

#[test]
fn counter_gossip_merges_state() {
    let mut a = GrowCounterNode::from_init(init("n1", &["n1", "n2"]));
    let mut b = GrowCounterNode::from_init(init("n2", &["n1", "n2"]));
    add(&mut a, 5).ok().unwrap();
    add(&mut b, -2).ok().unwrap();
    let g = a.step(Event::Injected(counter::InjectedPayload::Gossip)).ok().unwrap();
    assert_eq!(g.outgoing.len(), 1);
    assert_eq!(g.outgoing[0].dst, "n2");
    assert_eq!(g.outgoing[0].body.in_reply_to, None);
    for m in g.outgoing {
        let out = b.step(Event::Message(m)).ok().unwrap();
        assert!(out.outgoing.is_empty());
    }
    assert_eq!(read(&mut b), 3);
    let g = a.step(Event::Injected(counter::InjectedPayload::Gossip)).ok().unwrap();
    for m in g.outgoing {
        b.step(Event::Message(m)).ok().unwrap();
    }
    assert_eq!(read(&mut b), 3);
}

#[test]
fn counter_refuses_malformed_gossip() {
    let mut n = GrowCounterNode::from_init(init("n1", &["n1"]));
    let r = n.step(Event::Message(msg("n1", None, counter::Payload::Gossip { json: "not json".to_string() })));
    assert_eq!(r.err(), Some(CounterError::MalformedGossip));
}

#[test]
fn counter_most_negative_delta() {
    let mut n = GrowCounterNode::from_init(init("n1", &["n1"]));
    add(&mut n, i64::MIN).ok().unwrap();
    assert_eq!(read(&mut n), i64::MIN);
    let r = add(&mut n, -1);
    assert!(r.is_ok());
    let r = n.step(Event::Message(msg("n1", Some(1), counter::Payload::Read)));
    assert_eq!(r.err(), Some(CounterError::ValueOutOfRange));
}

#[test]
fn counter_total_past_u64_is_refused() {
    let mut n = GrowCounterNode::from_init(init("n1", &["n1"]));
    add(&mut n, i64::MAX).ok().unwrap();
    add(&mut n, i64::MAX).ok().unwrap();
    assert_eq!(add(&mut n, 2).err(), Some(CounterError::TotalOverflow));
    assert!(add(&mut n, 1).is_ok());
    let r = n.step(Event::Message(msg("n1", Some(1), counter::Payload::Read)));
    assert_eq!(r.err(), Some(CounterError::ValueOutOfRange));
    add(&mut n, i64::MIN).ok().unwrap();
    assert_eq!(read(&mut n), i64::MAX);
    assert_eq!(add(&mut n, i64::MIN).err(), Some(CounterError::TotalOverflow));
    assert_eq!(read(&mut n), i64::MAX);
}

#[test]
fn counters_converge_after_mutual_gossip() {
    let mut a = GrowCounterNode::from_init(init("A", &["A", "B"]));
    let mut b = GrowCounterNode::from_init(init("B", &["A", "B"]));
    for d in [1i64, 10, -1, 1, -2] {
        add(&mut a, d).ok().unwrap();
    }
    assert_eq!(read(&mut a), 9);
    let g = a.step(Event::Injected(counter::InjectedPayload::Gossip)).ok().unwrap();
    for m in g.outgoing {
        b.step(Event::Message(m)).ok().unwrap();
    }
    assert_eq!(read(&mut b), 9);
    for d in [1i64, 12, -1, 1] {
        add(&mut b, d).ok().unwrap();
    }
    assert_eq!(read(&mut b), 22);
    let g = b.step(Event::Injected(counter::InjectedPayload::Gossip)).ok().unwrap();
    assert_eq!(g.outgoing[0].dst, "A");
    for m in g.outgoing {
        a.step(Event::Message(m)).ok().unwrap();
    }
    assert_eq!(read(&mut a), 22);
}

#[test]
fn counter_gossip_order_does_not_matter() {
    let mut a = GrowCounterNode::from_init(init("A", &["A", "B", "C"]));
    let mut b = GrowCounterNode::from_init(init("B", &["A", "B", "C"]));
    add(&mut a, 4).ok().unwrap();
    add(&mut b, -9).ok().unwrap();
    let ga = a.step(Event::Injected(counter::InjectedPayload::Gossip)).ok().unwrap();
    let gb = b.step(Event::Injected(counter::InjectedPayload::Gossip)).ok().unwrap();
    let to_c = |msgs: &Vec<Message<counter::Payload>>| -> String {
        let m = msgs.iter().find(|m| m.dst == "C").unwrap();
        match &m.body.payload {
            counter::Payload::Gossip { json } => json.clone(),
            _ => panic!("gossip carries another payload"),
        }
    };
    let (ja, jb) = (to_c(&ga.outgoing), to_c(&gb.outgoing));
    let gossip = |j: &String| Event::Message(msg("C", None, counter::Payload::Gossip { json: j.clone() }));
    let mut c1 = GrowCounterNode::from_init(init("C", &["A", "B", "C"]));
    let mut c2 = GrowCounterNode::from_init(init("C", &["A", "B", "C"]));
    c1.step(gossip(&ja)).ok().unwrap();
    c1.step(gossip(&jb)).ok().unwrap();
    c2.step(gossip(&jb)).ok().unwrap();
    c2.step(gossip(&ja)).ok().unwrap();
    c2.step(gossip(&ja)).ok().unwrap();
    assert_eq!(read(&mut c1), -5);
    assert_eq!(read(&mut c2), -5);
}
