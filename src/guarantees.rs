//! What the log node guarantees across several steps, proved over the
//! spec-level step function that `KafkaNode::step` is held to.
use vstd::prelude::*;
use crate::kafka::{step_spec, EventView, InjectedView, MsgView, NodeView, PayloadView};
use crate::log::{committed, committed_all, commit_of, entries_from, listed, log_of, polled, KeyLog};

verus! {

/// The node `v` after handling the events `es` in order.
pub open spec fn run(v: NodeView, es: Seq<EventView>) -> NodeView
    decreases es.len(),
{
    if es.len() == 0 {
        v
    } else {
        step_spec(run(v, es.drop_last()), es.last()).0
    }
}

/// The values that the requests `reqs` send, where each is a `Send`.
pub open spec fn sent_values(reqs: Seq<MsgView>) -> Seq<usize> {
    reqs.map_values(|m: MsgView| m.payload->Send_msg)
}

/// The requests `reqs` as events.
pub open spec fn as_events(reqs: Seq<MsgView>) -> Seq<EventView> {
    reqs.map_values(|m: MsgView| EventView::Message(m))
}

proof fn lemma_sends_append(v: NodeView, k: Seq<char>, reqs: Seq<MsgView>)
    requires
        forall|i: int| 0 <= i < reqs.len() ==> #[trigger] reqs[i].payload is Send
            && reqs[i].payload->Send_key == k,
    ensures
        log_of(run(v, as_events(reqs)).log, k) == log_of(v.log, k) + sent_values(reqs),
        reqs.len() > 0 ==> run(v, as_events(reqs)).log.contains_key(k),
    decreases reqs.len(),
{
    if reqs.len() > 0 {
        let rest = reqs.drop_last();
        assert(as_events(reqs).drop_last() =~= as_events(rest));
        assert forall|i: int| 0 <= i < rest.len() implies #[trigger] rest[i].payload is Send
            && rest[i].payload->Send_key == k by {
            assert(rest[i] == reqs[i]);
        }
        lemma_sends_append(v, k, rest);
        assert(reqs[reqs.len() - 1].payload is Send);
        assert(sent_values(reqs) =~= sent_values(rest).push(reqs.last().payload->Send_msg));
        assert(log_of(v.log, k) + sent_values(reqs) =~= (log_of(v.log, k) + sent_values(rest)).push(
            reqs.last().payload->Send_msg,
        ));
    } else {
        assert(sent_values(reqs) =~= Seq::<usize>::empty());
        assert(log_of(v.log, k) + sent_values(reqs) =~= log_of(v.log, k));
    }
}

proof fn lemma_polled_one(m: Map<Seq<char>, KeyLog>, k: Seq<char>, o: usize)
    ensures
        polled(m, seq![(k, o)]) == if m.contains_key(k) {
            seq![(k, entries_from(m[k].msgs, o as int))]
        } else {
            Seq::empty()
        },
{
    let s = seq![(k, o)];
    assert(s.drop_last() =~= Seq::<(Seq<char>, usize)>::empty());
    assert(polled(m, s.drop_last()) == Seq::<(Seq<char>, Seq<(usize, usize)>)>::empty());
    assert(Seq::<(Seq<char>, Seq<(usize, usize)>)>::empty().push(
        (k, entries_from(m[k].msgs, o as int)),
    ) =~= seq![(k, entries_from(m[k].msgs, o as int))]);
}

proof fn lemma_listed_one(m: Map<Seq<char>, KeyLog>, k: Seq<char>)
    ensures
        listed(m, seq![k]) == match commit_of(m, k) {
            Some(n) => seq![(k, n)],
            None => Seq::empty(),
        },
{
    let s = seq![k];
    assert(s.drop_last() =~= Seq::<Seq<char>>::empty());
    assert(listed(m, s.drop_last()) == Seq::<(Seq<char>, usize)>::empty());
    if let Some(n) = commit_of(m, k) {
        assert(Seq::<(Seq<char>, usize)>::empty().push((k, n)) =~= seq![(k, n)]);
    }
}

proof fn lemma_committed_one(m: Map<Seq<char>, KeyLog>, k: Seq<char>, n: usize)
    ensures
        committed_all(m, seq![(k, n)]) == committed(m, k, n),
{
    let s = seq![(k, n)];
    assert(s.drop_last() =~= Seq::<(Seq<char>, usize)>::empty());
    assert(committed_all(m, s.drop_last()) == m);
}

/// Writes to one key are read back in order: after a node with no entries
/// for `k` accepts the sends `reqs`, all for `k`, a poll of `k` from offset
/// 0 answers each sent value at the offset of its turn.
pub proof fn lemma_sends_then_poll(v: NodeView, k: Seq<char>, reqs: Seq<MsgView>, poll: MsgView)
    requires
        log_of(v.log, k).len() == 0,
        reqs.len() > 0,
        forall|i: int| 0 <= i < reqs.len() ==> #[trigger] reqs[i].payload is Send
            && reqs[i].payload->Send_key == k,
        poll.payload == (PayloadView::Poll { offsets: seq![(k, 0usize)] }),
        poll.id is Some,
    ensures
        ({
            let w = run(v, as_events(reqs));
            step_spec(w, EventView::Message(poll)).1.outgoing == seq![
                MsgView {
                    src: poll.dst,
                    dst: poll.src,
                    id: Some(w.id),
                    in_reply_to: poll.id,
                    payload: PayloadView::PollOk {
                        msgs: seq![
                            (
                                k,
                                Seq::new(
                                    reqs.len(),
                                    |i: int| (i as usize, sent_values(reqs)[i]),
                                ),
                            ),
                        ],
                    },
                },
            ]
        }),
{
    let w = run(v, as_events(reqs));
    lemma_sends_append(v, k, reqs);
    assert(log_of(v.log, k) + sent_values(reqs) =~= sent_values(reqs));
    lemma_polled_one(w.log, k, 0);
    assert(entries_from(w.log[k].msgs, 0) =~= Seq::new(
        reqs.len(),
        |i: int| (i as usize, sent_values(reqs)[i]),
    ));
}

/// A commit is read back: after `CommitOffsets` of `n` for `k`, listing the
/// commit pointer of `k` on the same node answers `n`.
pub proof fn lemma_commit_then_list(v: NodeView, k: Seq<char>, n: usize, commit: MsgView, list: MsgView)
    requires
        commit.payload == (PayloadView::CommitOffsets { offsets: seq![(k, n)] }),
        list.payload == (PayloadView::ListCommittedOffsets { keys: seq![k] }),
        list.id is Some,
    ensures
        ({
            let w = step_spec(v, EventView::Message(commit)).0;
            step_spec(w, EventView::Message(list)).1.outgoing == seq![
                MsgView {
                    src: list.dst,
                    dst: list.src,
                    id: Some(w.id),
                    in_reply_to: list.id,
                    payload: PayloadView::ListCommittedOffsetsOk { offsets: seq![(k, n)] },
                },
            ]
        }),
{
    lemma_committed_one(v.log, k, n);
    let w = step_spec(v, EventView::Message(commit)).0;
    lemma_listed_one(w.log, k);
}

/// A write reaches a peer: once node `a` accepts `Send(k, x)` and handles the
/// gossip event this injects, it sends one gossip message to each peer, and
/// the one for peer `b`, if `b` had no entries for `k`, has `b` answer a poll
/// of `k` from offset 0 with `(0, x)`.
pub proof fn lemma_gossip_reaches_peer(a: NodeView, b: NodeView, send: MsgView, i: int)
    requires
        send.payload is Send,
        0 <= i < a.others.len(),
        a.others[i] == b.node,
        log_of(b.log, send.payload->Send_key).len() == 0,
    ensures
        ({
            let k = send.payload->Send_key;
            let x = send.payload->Send_msg;
            let (a1, acts1) = step_spec(a, EventView::Message(send));
            let (a2, acts2) = step_spec(a1, EventView::Injected(acts1.injected[0]));
            let b1 = step_spec(b, EventView::Message(acts2.outgoing[i])).0;
            &&& acts1.injected.len() == 1
            &&& acts2.outgoing.len() == a.others.len()
            &&& acts2.outgoing[i].dst == b.node
            &&& polled(b1.log, seq![(k, 0usize)]) == seq![(k, seq![(0usize, x)])]
        }),
{
    let k = send.payload->Send_key;
    let x = send.payload->Send_msg;
    let (a1, acts1) = step_spec(a, EventView::Message(send));
    let (a2, acts2) = step_spec(a1, EventView::Injected(acts1.injected[0]));
    let b1 = step_spec(b, EventView::Message(acts2.outgoing[i])).0;
    assert(log_of(b1.log, k) =~= seq![x]);
    lemma_polled_one(b1.log, k, 0);
    assert(entries_from(b1.log[k].msgs, 0) =~= seq![(0usize, x)]);
}

/// The last pointer that `s` writes for `k`, if any.
pub open spec fn last_commit(s: Seq<(Seq<char>, usize)>, k: Seq<char>) -> Option<usize>
    decreases s.len(),
{
    if s.len() == 0 {
        None
    } else if s.last().0 == k {
        Some(s.last().1)
    } else {
        last_commit(s.drop_last(), k)
    }
}

proof fn lemma_committed_all_at(m: Map<Seq<char>, KeyLog>, s: Seq<(Seq<char>, usize)>, k: Seq<char>)
    ensures
        committed_all(m, s).contains_key(k) == (m.contains_key(k) || last_commit(s, k) is Some),
        log_of(committed_all(m, s), k) == log_of(m, k),
        commit_of(committed_all(m, s), k) == if last_commit(s, k) is Some {
            last_commit(s, k)
        } else {
            commit_of(m, k)
        },
    decreases s.len(),
{
    if s.len() > 0 {
        lemma_committed_all_at(m, s.drop_last(), k);
    }
}

/// Whether handling `e` may set the commit pointer of key `k`.
pub open spec fn sets_commit(e: EventView, k: Seq<char>) -> bool {
    match e {
        EventView::Message(m) => match m.payload {
            PayloadView::CommitOffsets { offsets } => last_commit(offsets, k) is Some,
            PayloadView::GossipCommit { offsets } => last_commit(offsets, k) is Some,
            _ => false,
        },
        _ => false,
    }
}

proof fn lemma_run_keeps_commit(v: NodeView, es: Seq<EventView>, k: Seq<char>)
    requires
        forall|i: int| 0 <= i < es.len() ==> !sets_commit(#[trigger] es[i], k),
    ensures
        commit_of(run(v, es).log, k) == commit_of(v.log, k),
    decreases es.len(),
{
    if es.len() > 0 {
        let rest = es.drop_last();
        assert forall|i: int| 0 <= i < rest.len() implies !sets_commit(#[trigger] rest[i], k) by {
            assert(rest[i] == es[i]);
        }
        lemma_run_keeps_commit(v, rest, k);
        let w = run(v, rest);
        let e = es.last();
        assert(!sets_commit(es[es.len() - 1], k));
        if let EventView::Message(m) = e {
            match m.payload {
                PayloadView::CommitOffsets { offsets } => lemma_committed_all_at(w.log, offsets, k),
                PayloadView::GossipCommit { offsets } => lemma_committed_all_at(w.log, offsets, k),
                _ => {},
            }
        }
    }
}

/// A commit is read back for as long as nothing sets that pointer again:
/// after `CommitOffsets` whose last pointer for `k` is `n`, followed by any
/// events none of which sets the pointer of `k`, listing the commit pointer
/// of `k` answers `n`.
pub proof fn lemma_commit_survives(
    v: NodeView,
    k: Seq<char>,
    n: usize,
    commit: MsgView,
    es: Seq<EventView>,
    list: MsgView,
)
    requires
        commit.payload is CommitOffsets,
        last_commit(commit.payload->CommitOffsets_offsets, k) == Some(n),
        forall|i: int| 0 <= i < es.len() ==> !sets_commit(#[trigger] es[i], k),
        list.payload == (PayloadView::ListCommittedOffsets { keys: seq![k] }),
        list.id is Some,
    ensures
        ({
            let w = run(step_spec(v, EventView::Message(commit)).0, es);
            step_spec(w, EventView::Message(list)).1.outgoing == seq![
                MsgView {
                    src: list.dst,
                    dst: list.src,
                    id: Some(w.id),
                    in_reply_to: list.id,
                    payload: PayloadView::ListCommittedOffsetsOk { offsets: seq![(k, n)] },
                },
            ]
        }),
{
    let w0 = step_spec(v, EventView::Message(commit)).0;
    lemma_committed_all_at(v.log, commit.payload->CommitOffsets_offsets, k);
    lemma_run_keeps_commit(w0, es, k);
    let w = run(w0, es);
    lemma_listed_one(w.log, k);
}

/// Commit gossip is idempotent: handling the same `GossipCommit` twice
/// leaves every log and commit pointer as handling it once does, and for a
/// single key `k` the pointer is the one gossiped.
pub proof fn lemma_gossip_commit_idempotent(v: NodeView, g: MsgView)
    requires
        g.payload is GossipCommit,
    ensures
        ({
            let once = step_spec(v, EventView::Message(g)).0;
            let twice = step_spec(once, EventView::Message(g)).0;
            &&& twice.log == once.log
            &&& forall|k: Seq<char>, n: usize|
                g.payload->GossipCommit_offsets == seq![(k, n)] ==> commit_of(twice.log, k) == Some(
                    n,
                )
        }),
{
    let s = g.payload->GossipCommit_offsets;
    let once = step_spec(v, EventView::Message(g)).0;
    let twice = step_spec(once, EventView::Message(g)).0;
    assert forall|k: Seq<char>| #[trigger] twice.log.contains_key(k) == once.log.contains_key(k)
        by {
        lemma_committed_all_at(v.log, s, k);
        lemma_committed_all_at(once.log, s, k);
    }
    assert forall|k: Seq<char>| #[trigger] twice.log.contains_key(k) implies twice.log[k]
        == once.log[k] by {
        lemma_committed_all_at(v.log, s, k);
        lemma_committed_all_at(once.log, s, k);
        assert(twice.log[k] == KeyLog { committed: commit_of(twice.log, k), msgs: log_of(twice.log, k) });
        assert(once.log[k] == KeyLog { committed: commit_of(once.log, k), msgs: log_of(once.log, k) });
    }
    assert(twice.log =~= once.log);
    assert forall|k: Seq<char>, n: usize| s == seq![(k, n)] implies commit_of(twice.log, k) == Some(n)
        by {
        lemma_committed_one(v.log, k, n);
        lemma_committed_one(once.log, k, n);
    }
}

/// Replies are correlated and gossip is not: every message a node sends in
/// answer to a request is a reply to that request's id, which it had;
/// every message it sends for an injected event carries neither an id nor
/// an `in_reply_to`.
pub proof fn lemma_reply_correlation(v: NodeView, e: EventView)
    ensures
        forall|j: int| 0 <= j < step_spec(v, e).1.outgoing.len() ==> {
            let out = #[trigger] step_spec(v, e).1.outgoing[j];
            &&& e is Message ==> e->Message_0.id is Some && out.in_reply_to == e->Message_0.id
                && out.dst == e->Message_0.src && out.id == Some(v.id)
            &&& e is Injected ==> out.in_reply_to is None && out.id is None && out.src == v.node
        },
{
}

/// Empty and new keys: a poll of a key with no entries answers an empty
/// sequence for it or leaves it out, and a send to a key the node has not
/// seen gets offset 0.
pub proof fn lemma_empty_and_new_keys(v: NodeView, k: Seq<char>, o: usize, send: MsgView)
    requires
        send.payload is Send,
        send.payload->Send_key == k,
        send.id is Some,
        log_of(v.log, k).len() == 0,
    ensures
        polled(v.log, seq![(k, o)]) == seq![(k, Seq::<(usize, usize)>::empty())] || polled(
            v.log,
            seq![(k, o)],
        ) == Seq::<(Seq<char>, Seq<(usize, usize)>)>::empty(),
        step_spec(v, EventView::Message(send)).1.outgoing[0].payload == (PayloadView::SendOk {
            offset: 0,
        }),
{
    lemma_polled_one(v.log, k, o);
    if v.log.contains_key(k) {
        assert(entries_from(v.log[k].msgs, o as int) =~= Seq::<(usize, usize)>::empty());
    }
}

} // verus!
