//! The replicated log node: per-key logs and commit pointers, answered from
//! local state and spread to every peer by one hop of gossip.
use vstd::prelude::*;
use crate::log::{
    appended, committed_all, listed, log_of, offsets_view, polled, polled_view, KeyLog, Messages,
};
use crate::message::{peers_of, strings_view, Body, Event, Init, Message};

verus! {

/// The payloads of the log service, requests, replies and gossip.
pub enum Payload {
    Send { key: String, msg: usize },
    SendOk { offset: usize },
    Poll { offsets: Vec<(String, usize)> },
    PollOk { msgs: Vec<(String, Vec<(usize, usize)>)> },
    CommitOffsets { offsets: Vec<(String, usize)> },
    CommitOffsetsOk,
    ListCommittedOffsets { keys: Vec<String> },
    ListCommittedOffsetsOk { offsets: Vec<(String, usize)> },
    GossipSend { key: String, msg: usize },
    GossipCommit { offsets: Vec<(String, usize)> },
}

/// The events a log node injects into its own loop: a write or a set of
/// commit pointers to pass on to every peer.
pub enum InjectedPayload {
    GossipSend { key: String, msg: usize },
    GossipCommitOffsets { offsets: Vec<(String, usize)> },
}

/// A payload as plain values.
pub enum PayloadView {
    Send { key: Seq<char>, msg: usize },
    SendOk { offset: usize },
    Poll { offsets: Seq<(Seq<char>, usize)> },
    PollOk { msgs: Seq<(Seq<char>, Seq<(usize, usize)>)> },
    CommitOffsets { offsets: Seq<(Seq<char>, usize)> },
    CommitOffsetsOk,
    ListCommittedOffsets { keys: Seq<Seq<char>> },
    ListCommittedOffsetsOk { offsets: Seq<(Seq<char>, usize)> },
    GossipSend { key: Seq<char>, msg: usize },
    GossipCommit { offsets: Seq<(Seq<char>, usize)> },
}

/// An injected event as plain values.
pub enum InjectedView {
    GossipSend { key: Seq<char>, msg: usize },
    GossipCommitOffsets { offsets: Seq<(Seq<char>, usize)> },
}

/// A message as plain values.
pub struct MsgView {
    pub src: Seq<char>,
    pub dst: Seq<char>,
    pub id: Option<usize>,
    pub in_reply_to: Option<usize>,
    pub payload: PayloadView,
}

/// An event as plain values.
pub enum EventView {
    Message(MsgView),
    Injected(InjectedView),
    EOF,
}

/// A log node as plain values: its id, the next message id it hands out,
/// what it holds of each key, and its peers.
pub struct NodeView {
    pub node: Seq<char>,
    pub id: usize,
    pub log: Map<Seq<char>, KeyLog>,
    pub others: Seq<Seq<char>>,
}

/// What one step of a node sends and injects, as plain values.
pub struct ActionsView {
    pub outgoing: Seq<MsgView>,
    pub injected: Seq<InjectedView>,
}

impl View for Payload {
    type V = PayloadView;

    open spec fn view(&self) -> PayloadView {
        match self {
            Payload::Send { key, msg } => PayloadView::Send { key: key@, msg: *msg },
            Payload::SendOk { offset } => PayloadView::SendOk { offset: *offset },
            Payload::Poll { offsets } => PayloadView::Poll { offsets: offsets_view(offsets@) },
            Payload::PollOk { msgs } => PayloadView::PollOk { msgs: polled_view(msgs@) },
            Payload::CommitOffsets { offsets } => PayloadView::CommitOffsets {
                offsets: offsets_view(offsets@),
            },
            Payload::CommitOffsetsOk => PayloadView::CommitOffsetsOk,
            Payload::ListCommittedOffsets { keys } => PayloadView::ListCommittedOffsets {
                keys: strings_view(keys@),
            },
            Payload::ListCommittedOffsetsOk { offsets } => PayloadView::ListCommittedOffsetsOk {
                offsets: offsets_view(offsets@),
            },
            Payload::GossipSend { key, msg } => PayloadView::GossipSend { key: key@, msg: *msg },
            Payload::GossipCommit { offsets } => PayloadView::GossipCommit {
                offsets: offsets_view(offsets@),
            },
        }
    }
}

impl View for InjectedPayload {
    type V = InjectedView;

    open spec fn view(&self) -> InjectedView {
        match self {
            InjectedPayload::GossipSend { key, msg } => InjectedView::GossipSend {
                key: key@,
                msg: *msg,
            },
            InjectedPayload::GossipCommitOffsets { offsets } => InjectedView::GossipCommitOffsets {
                offsets: offsets_view(offsets@),
            },
        }
    }
}

/// A message of the log service as plain values.
pub open spec fn msg_view(m: Message<Payload>) -> MsgView {
    MsgView {
        src: m.src@,
        dst: m.dst@,
        id: m.body.id,
        in_reply_to: m.body.in_reply_to,
        payload: m.body.payload@,
    }
}

/// An event of the log service as plain values.
pub open spec fn event_view(e: Event<Payload, InjectedPayload>) -> EventView {
    match e {
        Event::Message(m) => EventView::Message(msg_view(m)),
        Event::Injected(p) => EventView::Injected(p@),
        Event::EOF => EventView::EOF,
    }
}

/// What one step of the node sends and injects.
pub struct Actions {
    pub outgoing: Vec<Message<Payload>>,
    pub injected: Vec<InjectedPayload>,
}

impl View for Actions {
    type V = ActionsView;

    open spec fn view(&self) -> ActionsView {
        ActionsView {
            outgoing: self.outgoing@.map_values(|m: Message<Payload>| msg_view(m)),
            injected: self.injected@.map_values(|p: InjectedPayload| p@),
        }
    }
}

/// The message `p` from node `v` to each of its peers, in order, with
/// neither an id nor an `in_reply_to`.
pub open spec fn gossip_to(v: NodeView, p: PayloadView) -> Seq<MsgView> {
    v.others.map_values(
        |n: Seq<char>| MsgView { src: v.node, dst: n, id: None, in_reply_to: None, payload: p },
    )
}

/// The reply with payload `p` that node `v` gives to request `m`: none where
/// `m` carries no id.
pub open spec fn reply_to(v: NodeView, m: MsgView, p: PayloadView) -> Seq<MsgView> {
    if m.id is Some {
        seq![MsgView { src: m.dst, dst: m.src, id: Some(v.id), in_reply_to: m.id, payload: p }]
    } else {
        Seq::empty()
    }
}

/// The node `v` with log state `log` and its message counter moved on.
pub open spec fn advanced(v: NodeView, log: Map<Seq<char>, KeyLog>) -> NodeView {
    NodeView { node: v.node, id: (v.id + 1) as usize, log, others: v.others }
}

/// The node after handling `e`, and what it sends and injects meanwhile.
pub open spec fn step_spec(v: NodeView, e: EventView) -> (NodeView, ActionsView) {
    match e {
        EventView::EOF => (v, ActionsView { outgoing: Seq::empty(), injected: Seq::empty() }),
        EventView::Injected(InjectedView::GossipSend { key, msg }) => (
            v,
            ActionsView {
                outgoing: gossip_to(v, PayloadView::GossipSend { key, msg }),
                injected: Seq::empty(),
            },
        ),
        EventView::Injected(InjectedView::GossipCommitOffsets { offsets }) => (
            v,
            ActionsView {
                outgoing: gossip_to(v, PayloadView::GossipCommit { offsets }),
                injected: Seq::empty(),
            },
        ),
        EventView::Message(m) => match m.payload {
            PayloadView::GossipSend { key, msg } => (
                advanced(v, appended(v.log, key, msg)),
                ActionsView { outgoing: Seq::empty(), injected: Seq::empty() },
            ),
            PayloadView::GossipCommit { offsets } => (
                advanced(v, committed_all(v.log, offsets)),
                ActionsView { outgoing: Seq::empty(), injected: Seq::empty() },
            ),
            PayloadView::Send { key, msg } => (
                advanced(v, appended(v.log, key, msg)),
                ActionsView {
                    outgoing: reply_to(
                        v,
                        m,
                        PayloadView::SendOk { offset: log_of(v.log, key).len() as usize },
                    ),
                    injected: seq![InjectedView::GossipSend { key, msg }],
                },
            ),
            PayloadView::Poll { offsets } => (
                advanced(v, v.log),
                ActionsView {
                    outgoing: reply_to(v, m, PayloadView::PollOk { msgs: polled(v.log, offsets) }),
                    injected: Seq::empty(),
                },
            ),
            PayloadView::CommitOffsets { offsets } => (
                advanced(v, committed_all(v.log, offsets)),
                ActionsView {
                    outgoing: reply_to(v, m, PayloadView::CommitOffsetsOk),
                    injected: seq![InjectedView::GossipCommitOffsets { offsets }],
                },
            ),
            PayloadView::ListCommittedOffsets { keys } => (
                advanced(v, v.log),
                ActionsView {
                    outgoing: reply_to(
                        v,
                        m,
                        PayloadView::ListCommittedOffsetsOk { offsets: listed(v.log, keys) },
                    ),
                    injected: Seq::empty(),
                },
            ),
            _ => (advanced(v, v.log), ActionsView { outgoing: Seq::empty(), injected: Seq::empty() }),
        },
    }
}

/// A copy of a key-to-offset mapping.
fn clone_offsets(v: &Vec<(String, usize)>) -> (r: Vec<(String, usize)>)
    ensures
        offsets_view(r@) == offsets_view(v@),
{
    let mut r: Vec<(String, usize)> = Vec::new();
    let mut i: usize = 0;
    while i < v.len()
        invariant
            i <= v@.len(),
            offsets_view(r@) == offsets_view(v@).take(i as int),
        decreases v@.len() - i,
    {
        let ghost r0 = r@;
        r.push((v[i].0.clone(), v[i].1));
        assert(offsets_view(r@) =~= offsets_view(r0).push((v@[i as int].0@, v@[i as int].1)));
        assert(offsets_view(v@).take(i + 1) =~= offsets_view(v@).take(i as int).push(
            (v@[i as int].0@, v@[i as int].1),
        ));
        i = i + 1;
    }
    assert(offsets_view(v@).take(i as int) =~= offsets_view(v@));
    r
}

/// The reply to a request whose id was `in_reply_to`; none where the
/// request carried no id.
fn reply(
    src: String,
    dst: String,
    id: Option<usize>,
    in_reply_to: Option<usize>,
    payload: Payload,
) -> (r: Vec<Message<Payload>>)
    ensures
        r@.map_values(|m: Message<Payload>| msg_view(m)) == if in_reply_to is Some {
            seq![MsgView { src: src@, dst: dst@, id, in_reply_to, payload: payload@ }]
        } else {
            Seq::<MsgView>::empty()
        },
{
    let mut r: Vec<Message<Payload>> = Vec::new();
    if in_reply_to.is_some() {
        r.push(Message { src, dst, body: Body { id, in_reply_to, payload } });
    }
    assert(r@.map_values(|m: Message<Payload>| msg_view(m)) =~= if in_reply_to is Some {
        seq![MsgView { src: src@, dst: dst@, id, in_reply_to, payload: payload@ }]
    } else {
        Seq::<MsgView>::empty()
    });
    r
}

/// A node of the replicated log service.
pub struct KafkaNode {
    node: String,
    id: usize,
    messages: Messages,
    others: Vec<String>,
}

impl KafkaNode {
    /// The node's key states are well formed.
    pub closed spec fn wf(&self) -> bool {
        self.messages.wf()
    }

    /// The node as plain values.
    pub closed spec fn view(&self) -> NodeView {
        NodeView {
            node: self.node@,
            id: self.id,
            log: self.messages@,
            others: strings_view(self.others@),
        }
    }

    /// A fresh node: no keys yet, message ids from 1, every other node as a
    /// peer.
    pub fn from_init(init: Init) -> (r: KafkaNode)
        ensures
            r.wf(),
            r@ == (NodeView {
                node: init.node_id@,
                id: 1,
                log: Map::empty(),
                others: peers_of(strings_view(init.node_ids@), init.node_id@),
            }),
    {
        let others = init.peers();
        KafkaNode { node: init.node_id, id: 1, messages: Messages::new(), others }
    }

    /// The id the node's next reply will carry.
    pub fn message_id(&self) -> (r: usize)
        ensures
            r == self@.id,
    {
        self.id
    }

    /// The gossip of a write to every peer.
    fn gossip_send(&self, key: &String, msg: usize) -> (r: Vec<Message<Payload>>)
        ensures
            r@.map_values(|m: Message<Payload>| msg_view(m)) == gossip_to(
                self@,
                PayloadView::GossipSend { key: key@, msg },
            ),
    {
        let ghost g = gossip_to(self@, PayloadView::GossipSend { key: key@, msg });
        let mut r: Vec<Message<Payload>> = Vec::new();
        let mut i: usize = 0;
        while i < self.others.len()
            invariant
                i <= self.others@.len(),
                g == gossip_to(self@, PayloadView::GossipSend { key: key@, msg }),
                r@.map_values(|m: Message<Payload>| msg_view(m)) == g.take(i as int),
            decreases self.others@.len() - i,
        {
            let ghost r0 = r@;
            r.push(
                Message {
                    src: self.node.clone(),
                    dst: self.others[i].clone(),
                    body: Body {
                        id: None,
                        in_reply_to: None,
                        payload: Payload::GossipSend { key: key.clone(), msg },
                    },
                },
            );
            assert(r@.map_values(|m: Message<Payload>| msg_view(m)) =~= r0.map_values(
                |m: Message<Payload>| msg_view(m),
            ).push(g[i as int]));
            assert(g.take(i + 1) =~= g.take(i as int).push(g[i as int]));
            i = i + 1;
        }
        assert(g.take(i as int) =~= g);
        r
    }

    /// The gossip of commit pointers to every peer.
    fn gossip_commit(&self, offsets: &Vec<(String, usize)>) -> (r: Vec<Message<Payload>>)
        ensures
            r@.map_values(|m: Message<Payload>| msg_view(m)) == gossip_to(
                self@,
                PayloadView::GossipCommit { offsets: offsets_view(offsets@) },
            ),
    {
        let ghost g = gossip_to(self@, PayloadView::GossipCommit { offsets: offsets_view(offsets@) });
        let mut r: Vec<Message<Payload>> = Vec::new();
        let mut i: usize = 0;
        while i < self.others.len()
            invariant
                i <= self.others@.len(),
                g == gossip_to(self@, PayloadView::GossipCommit { offsets: offsets_view(offsets@) }),
                r@.map_values(|m: Message<Payload>| msg_view(m)) == g.take(i as int),
            decreases self.others@.len() - i,
        {
            let ghost r0 = r@;
            r.push(
                Message {
                    src: self.node.clone(),
                    dst: self.others[i].clone(),
                    body: Body {
                        id: None,
                        in_reply_to: None,
                        payload: Payload::GossipCommit { offsets: clone_offsets(offsets) },
                    },
                },
            );
            assert(r@.map_values(|m: Message<Payload>| msg_view(m)) =~= r0.map_values(
                |m: Message<Payload>| msg_view(m),
            ).push(g[i as int]));
            assert(g.take(i + 1) =~= g.take(i as int).push(g[i as int]));
            i = i + 1;
        }
        assert(g.take(i as int) =~= g);
        r
    }

    /// Handles one event. A message is answered from local state and may
    /// change it; a write or commit accepted from a client is also handed
    /// back as an injected event, which, when handled in its turn, becomes
    /// gossip to every peer. Gossip from peers changes state and is not
    /// passed on. Each message received takes one message id.
    pub fn step(&mut self, input: Event<Payload, InjectedPayload>) -> (r: Actions)
        requires
            old(self).wf(),
            input is Message ==> old(self)@.id < usize::MAX,
        ensures
            final(self).wf(),
            (final(self)@, r@) == step_spec(old(self)@, event_view(input)),
    {
        let ghost v = self@;
        let ghost e = event_view(input);
        match input {
            Event::EOF => {
                let r = Actions { outgoing: Vec::new(), injected: Vec::new() };
                assert(r@.outgoing =~= Seq::<MsgView>::empty());
                assert(r@.injected =~= Seq::<InjectedView>::empty());
                r
            },
            Event::Injected(p) => {
                let outgoing = match p {
                    InjectedPayload::GossipSend { key, msg } => self.gossip_send(&key, msg),
                    InjectedPayload::GossipCommitOffsets { offsets } => self.gossip_commit(
                        &offsets,
                    ),
                };
                let r = Actions { outgoing, injected: Vec::new() };
                assert(r@.injected =~= Seq::<InjectedView>::empty());
                r
            },
            Event::Message(input) => {
                let ghost m = msg_view(input);
                let reply_msg = input.into_reply(&mut self.id);
                let Message { src, dst, body } = reply_msg;
                let Body { id, in_reply_to, payload } = body;
                let mut injected: Vec<InjectedPayload> = Vec::new();
                let outgoing = match payload {
                    Payload::GossipSend { key, msg } => {
                        self.messages.add_msg(key, msg);
                        Vec::new()
                    },
                    Payload::GossipCommit { offsets } => {
                        self.messages.insert_commited_offsets(offsets);
                        Vec::new()
                    },
                    Payload::Send { key, msg } => {
                        let offset = self.messages.add_msg(key.clone(), msg);
                        injected.push(InjectedPayload::GossipSend { key, msg });
                        reply(src, dst, id, in_reply_to, Payload::SendOk { offset })
                    },
                    Payload::Poll { offsets } => {
                        let msgs = self.messages.get_msgs(&offsets);
                        reply(src, dst, id, in_reply_to, Payload::PollOk { msgs })
                    },
                    Payload::CommitOffsets { offsets } => {
                        self.messages.insert_commited_offsets(clone_offsets(&offsets));
                        injected.push(InjectedPayload::GossipCommitOffsets { offsets });
                        reply(src, dst, id, in_reply_to, Payload::CommitOffsetsOk)
                    },
                    Payload::ListCommittedOffsets { keys } => {
                        let offsets = self.messages.get_commited_offsets(&keys);
                        reply(src, dst, id, in_reply_to, Payload::ListCommittedOffsetsOk { offsets })
                    },
                    Payload::SendOk { .. }
                    | Payload::PollOk { .. }
                    | Payload::CommitOffsetsOk
                    | Payload::ListCommittedOffsetsOk { .. } => Vec::new(),
                };
                let r = Actions { outgoing, injected };
                let ghost expect = step_spec(v, e);
                assert(r@.outgoing =~= expect.1.outgoing);
                assert(r@.injected =~= expect.1.injected);
                r
            },
        }
    }

}

} // verus!
