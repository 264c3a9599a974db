//! A node that keeps a counter replicated by gossip of its whole state: a
//! positive-negative counter of the crdts crate, with one actor per node.
use vstd::prelude::*;
use vstd::set::fold::{is_fun_commutative, lemma_fold_empty, lemma_fold_insert};
use crdts::{CmRDT, CvRDT, PNCounter};
use crate::message::{peers_of, strings_view, Body, Event, Init, Message};
use crate::runtime::ProtocolError;

verus! {

#[verifier::external_type_specification]
#[verifier::external_body]
#[verifier::reject_recursive_types(A)]
pub struct ExPNCounter<A: Ord>(PNCounter<A>);

/// The increments a counter holds: for each actor, its total of increments.
pub uninterp spec fn increments(c: PNCounter<String>) -> Map<Seq<char>, u64>;

/// The decrements a counter holds: for each actor, its total of decrements.
pub uninterp spec fn decrements(c: PNCounter<String>) -> Map<Seq<char>, u64>;

/// The increments and decrements of the counter that serde_json reads from
/// the text `s`; `None` where the text holds no counter.
pub uninterp spec fn counter_text_totals(s: Seq<char>) -> Option<
    (Map<Seq<char>, u64>, Map<Seq<char>, u64>),
>;

/// No actor has a total.
pub open spec fn no_totals() -> Map<Seq<char>, u64> {
    Map::empty()
}

/// The total of actor `k` in `m`; 0 for an actor not held.
pub open spec fn total_of(m: Map<Seq<char>, u64>, k: Seq<char>) -> u64 {
    if m.contains_key(k) {
        m[k]
    } else {
        0
    }
}

/// Adds the total of an actor of `m` to a running sum.
pub open spec fn adder(m: Map<Seq<char>, u64>) -> spec_fn(int, Seq<char>) -> int {
    |acc: int, k: Seq<char>| acc + m[k]
}

/// The sum of all totals in `m`.
pub open spec fn sum_of(m: Map<Seq<char>, u64>) -> int {
    m.dom().fold(0int, adder(m))
}

/// Both totals maps hold finitely many actors.
pub open spec fn finite_totals(p: Map<Seq<char>, u64>, n: Map<Seq<char>, u64>) -> bool {
    p.dom().finite() && n.dom().finite()
}

proof fn lemma_sum_agree(s: Set<Seq<char>>, a: Map<Seq<char>, u64>, b: Map<Seq<char>, u64>)
    requires
        s.finite(),
        forall|k: Seq<char>| s.contains(k) ==> a[k] == b[k],
    ensures
        s.fold(0int, adder(a)) == s.fold(0int, adder(b)),
    decreases s.len(),
{
    assert(is_fun_commutative(adder(a)));
    assert(is_fun_commutative(adder(b)));
    if s.len() == 0 {
        assert(s =~= Set::empty());
        lemma_fold_empty(0int, adder(a));
        lemma_fold_empty(0int, adder(b));
    } else {
        let x = s.choose();
        let r = s.remove(x);
        assert(r.insert(x) =~= s);
        lemma_sum_agree(r, a, b);
        lemma_fold_insert(r, 0int, adder(a), x);
        lemma_fold_insert(r, 0int, adder(b), x);
    }
}

/// Setting the total of one actor changes the sum by the difference.
proof fn lemma_sum_insert(m: Map<Seq<char>, u64>, k: Seq<char>, v: u64)
    requires
        m.dom().finite(),
    ensures
        m.insert(k, v).dom().finite(),
        sum_of(m.insert(k, v)) == sum_of(m) - total_of(m, k) + v,
{
    let m2 = m.insert(k, v);
    assert(is_fun_commutative(adder(m)));
    assert(is_fun_commutative(adder(m2)));
    if m.contains_key(k) {
        let r = m.dom().remove(k);
        assert(r.insert(k) =~= m.dom());
        assert(r.insert(k) =~= m2.dom());
        lemma_sum_agree(r, m, m2);
        lemma_fold_insert(r, 0int, adder(m), k);
        lemma_fold_insert(r, 0int, adder(m2), k);
    } else {
        assert(m.dom().insert(k) =~= m2.dom());
        lemma_sum_agree(m.dom(), m, m2);
        lemma_fold_insert(m.dom(), 0int, adder(m2), k);
    }
}

/// The value a counter reads: its increments less its decrements.
pub open spec fn value_of(p: Map<Seq<char>, u64>, n: Map<Seq<char>, u64>) -> int {
    sum_of(p) - sum_of(n)
}

/// `m` after actor `k` moved on by `steps`; unchanged for 0 steps.
pub open spec fn stepped(m: Map<Seq<char>, u64>, k: Seq<char>, steps: u64) -> Map<Seq<char>, u64> {
    if steps > 0 {
        m.insert(k, (total_of(m, k) + steps) as u64)
    } else {
        m
    }
}

/// The join of two totals maps: for each actor the larger total; an actor
/// only in `b` with total 0 is not added.
pub open spec fn joined(a: Map<Seq<char>, u64>, b: Map<Seq<char>, u64>) -> Map<Seq<char>, u64> {
    Map::new(
        |k: Seq<char>| a.contains_key(k) || (b.contains_key(k) && b[k] > 0),
        |k: Seq<char>|
            if total_of(a, k) >= total_of(b, k) {
                total_of(a, k)
            } else {
                total_of(b, k)
            },
    )
}

/// Gossip joined twice is joined once: joining the same totals again
/// changes nothing.
pub proof fn lemma_joined_idempotent(a: Map<Seq<char>, u64>, b: Map<Seq<char>, u64>)
    ensures
        joined(joined(a, b), b) == joined(a, b),
{
    assert(joined(joined(a, b), b) =~= joined(a, b));
}

/// The order of gossip does not matter: joining `b` then `c` gives the
/// totals that joining `c` then `b` gives.
pub proof fn lemma_joined_order(a: Map<Seq<char>, u64>, b: Map<Seq<char>, u64>, c: Map<Seq<char>, u64>)
    ensures
        joined(joined(a, b), c) == joined(joined(a, c), b),
{
    assert(joined(joined(a, b), c) =~= joined(joined(a, c), b));
}

/// Relies on PNCounter::new: a counter with no increments or decrements.
#[verifier::external_body]
fn new_counter() -> (r: PNCounter<String>)
    ensures
        increments(r) == no_totals(),
        decrements(r) == no_totals(),
        finite_totals(increments(r), decrements(r)),
{
    PNCounter::new()
}

/// Relies on PNCounter::inc_many with 0 steps: its dot carries the actor's
/// current total of increments.
#[verifier::external_body]
fn increments_of(c: &PNCounter<String>, actor: String) -> (r: u64)
    ensures
        r == total_of(increments(*c), actor@),
{
    c.inc_many(actor, 0).dot.counter
}

/// Relies on PNCounter::dec_many with 0 steps: its dot carries the actor's
/// current total of decrements.
#[verifier::external_body]
fn decrements_of(c: &PNCounter<String>, actor: String) -> (r: u64)
    ensures
        r == total_of(decrements(*c), actor@),
{
    c.dec_many(actor, 0).dot.counter
}

/// Relies on PNCounter::inc_many and CmRDT::apply: the actor's increments
/// move on by `steps` (the sum must fit in a u64, as inc_many adds them).
#[verifier::external_body]
fn increase(c: &mut PNCounter<String>, actor: String, steps: u64)
    requires
        total_of(increments(*old(c)), actor@) + steps <= u64::MAX,
    ensures
        increments(*final(c)) == stepped(increments(*old(c)), actor@, steps),
        decrements(*final(c)) == decrements(*old(c)),
        finite_totals(increments(*old(c)), decrements(*old(c))) ==> finite_totals(
            increments(*final(c)),
            decrements(*final(c)),
        ),
{
    let op = c.inc_many(actor, steps);
    c.apply(op);
}

/// Relies on PNCounter::dec_many and CmRDT::apply: the actor's decrements
/// move on by `steps` (the sum must fit in a u64, as dec_many adds them).
#[verifier::external_body]
fn decrease(c: &mut PNCounter<String>, actor: String, steps: u64)
    requires
        total_of(decrements(*old(c)), actor@) + steps <= u64::MAX,
    ensures
        increments(*final(c)) == increments(*old(c)),
        decrements(*final(c)) == stepped(decrements(*old(c)), actor@, steps),
        finite_totals(increments(*old(c)), decrements(*old(c))) ==> finite_totals(
            increments(*final(c)),
            decrements(*final(c)),
        ),
{
    let op = c.dec_many(actor, steps);
    c.apply(op);
}

/// Relies on CvRDT::merge of PNCounter: increments and decrements are each
/// joined actor by actor.
#[verifier::external_body]
fn merge_counter(c: &mut PNCounter<String>, other: PNCounter<String>)
    ensures
        increments(*final(c)) == joined(increments(*old(c)), increments(other)),
        decrements(*final(c)) == joined(decrements(*old(c)), decrements(other)),
        finite_totals(increments(*old(c)), decrements(*old(c))) ==> finite_totals(
            increments(*final(c)),
            decrements(*final(c)),
        ),
{
    c.merge(other);
}

/// Relies on PNCounter::read: the counter's value, where it fits in an i64.
#[verifier::external_body]
fn read_counter(c: &PNCounter<String>) -> (r: Option<i64>)
    ensures
        (i64::MIN <= value_of(increments(*c), decrements(*c)) <= i64::MAX) ==> r == Some(
            value_of(increments(*c), decrements(*c)) as i64,
        ),
        !(i64::MIN <= value_of(increments(*c), decrements(*c)) <= i64::MAX) ==> r is None,
{
    i64::try_from(c.read()).ok()
}

/// Relies on serde_json::to_string over the derived `Serialize` of
/// PNCounter: it cannot fail, as every map key is a string, and the text
/// reads back as the same totals.
#[verifier::external_body]
fn counter_to_json(c: &PNCounter<String>) -> (r: Option<String>)
    ensures
        r is Some,
        r matches Some(s) ==> counter_text_totals(s@) == Some(
            (increments(*c), decrements(*c)),
        ),
{
    serde_json::to_string(c).ok()
}

/// Relies on serde_json::from_str over the derived `Deserialize` of
/// PNCounter: a counter read from JSON text, where the text holds one. Its
/// totals are `BTreeMap`s, so finite.
#[verifier::external_body]
fn counter_from_json(s: &String) -> (r: Option<PNCounter<String>>)
    ensures
        r is None <==> counter_text_totals(s@) is None,
        r matches Some(c) ==> counter_text_totals(s@) == Some((increments(c), decrements(c))),
        r matches Some(c) ==> finite_totals(increments(c), decrements(c)),
{
    serde_json::from_str(s).ok()
}

/// The payloads of the counter service.
pub enum Payload {
    Add { delta: i64 },
    AddOk,
    Read,
    ReadOk { value: i64 },
    Gossip { json: String },
}

/// The event a counter node injects into its own loop: send the counter's
/// state to every peer.
pub enum InjectedPayload {
    Gossip,
}

/// Why a counter node could not handle an event.
#[derive(Debug, PartialEq, Eq, Structural)]
pub enum CounterError {
    /// Gossip from a peer did not hold a counter.
    MalformedGossip,
    /// The counter's value does not fit in an i64.
    ValueOutOfRange,
    /// An actor's total would pass the largest u64.
    TotalOverflow,
}

/// What one step of a counter node sends and injects.
pub struct CounterActions {
    pub outgoing: Vec<Message<Payload>>,
    pub injected: Vec<InjectedPayload>,
}

/// A node of the counter service.
pub struct GrowCounterNode {
    pub node: String,
    pub id: usize,
    pub counter: PNCounter<String>,
    pub others: Vec<String>,
}

/// `out` is a reply to request `m` that carries message id `id`.
pub open spec fn is_reply(out: Message<Payload>, m: Message<Payload>, id: usize) -> bool {
    out.src@ == m.dst@ && out.dst@ == m.src@ && out.body.id == Some(id) && out.body.in_reply_to
        == m.body.id
}

impl GrowCounterNode {
    /// A fresh node: a counter at zero, message ids from 1, every other node
    /// as a peer.
    pub fn from_init(init: Init) -> (r: GrowCounterNode)
        ensures
            r.node@ == init.node_id@,
            r.id == 1,
            increments(r.counter) == no_totals(),
            decrements(r.counter) == no_totals(),
            r.wf(),
            strings_view(r.others@) == peers_of(strings_view(init.node_ids@), init.node_id@),
    {
        let others = init.peers();
        GrowCounterNode { node: init.node_id, id: 1, counter: new_counter(), others }
    }

    /// Adds `delta` to this node's share of the counter: a positive delta to
    /// its increments, a negative one to its decrements, nothing for 0.
    pub fn add(&mut self, delta: i64) -> (r: Result<(), CounterError>)
        ensures
            final(self).node == old(self).node,
            final(self).id == old(self).id,
            final(self).others == old(self).others,
            old(self).wf() ==> final(self).wf(),
            delta > 0 ==> (r is Ok <==> total_of(increments(old(self).counter), old(self).node@)
                + delta <= u64::MAX),
            delta < 0 ==> (r is Ok <==> total_of(decrements(old(self).counter), old(self).node@)
                - delta <= u64::MAX),
            delta == 0 ==> r is Ok,
            r is Err ==> r == Err::<(), CounterError>(CounterError::TotalOverflow) && final(self).counter == old(self).counter,
            r is Ok ==> increments(final(self).counter) == (if delta > 0 {
                stepped(increments(old(self).counter), old(self).node@, delta as u64)
            } else {
                increments(old(self).counter)
            }),
            r is Ok ==> decrements(final(self).counter) == (if delta < 0 {
                stepped(decrements(old(self).counter), old(self).node@, (-delta) as u64)
            } else {
                decrements(old(self).counter)
            }),
    {
        if delta > 0 {
            let steps = delta as u64;
            let current = increments_of(&self.counter, self.node.clone());
            if steps > u64::MAX - current {
                return Err(CounterError::TotalOverflow);
            }
            increase(&mut self.counter, self.node.clone(), steps);
        } else if delta < 0 {
            let steps = (0i128 - delta as i128) as u64;
            let current = decrements_of(&self.counter, self.node.clone());
            if steps > u64::MAX - current {
                return Err(CounterError::TotalOverflow);
            }
            decrease(&mut self.counter, self.node.clone(), steps);
        }
        Ok(())
    }

    /// Joins a counter received from a peer into this node's, where the
    /// gossip held one.
    pub fn absorb(&mut self, other: Option<PNCounter<String>>) -> (r: Result<(), CounterError>)
        ensures
            final(self).node == old(self).node,
            final(self).id == old(self).id,
            final(self).others == old(self).others,
            old(self).wf() ==> final(self).wf(),
            other is None ==> r == Err::<(), CounterError>(CounterError::MalformedGossip)
                && final(self).counter == old(self).counter,
            other matches Some(o) ==> (r is Ok && increments(final(self).counter) == joined(
                increments(old(self).counter),
                increments(o),
            ) && decrements(final(self).counter) == joined(
                decrements(old(self).counter),
                decrements(o),
            )),
    {
        match other {
            Some(o) => {
                merge_counter(&mut self.counter, o);
                Ok(())
            },
            None => Err(CounterError::MalformedGossip),
        }
    }

    /// The counter's state to every peer, in order, with neither an id nor
    /// an `in_reply_to`.
    fn gossip(&self) -> (out: Vec<Message<Payload>>)
        ensures
            out@.len() == self.others@.len(),
            forall|i: int|
                0 <= i < out@.len() ==> #[trigger] out@[i].src@ == self.node@ && out@[i].dst@
                    == self.others@[i]@ && out@[i].body.id is None && out@[i].body.in_reply_to is None
                    && out@[i].body.payload is Gossip && counter_text_totals(
                    out@[i].body.payload->json@,
                ) == Some((increments(self.counter), decrements(self.counter))),
    {
        let mut out: Vec<Message<Payload>> = Vec::new();
        let json = match counter_to_json(&self.counter) {
            Some(j) => j,
            None => {
                return out;
            },
        };
        let mut i: usize = 0;
        while i < self.others.len()
            invariant
                i <= self.others@.len(),
                out@.len() == i,
                counter_text_totals(json@) == Some(
                    (increments(self.counter), decrements(self.counter)),
                ),
                forall|j: int|
                    0 <= j < i ==> #[trigger] out@[j].src@ == self.node@ && out@[j].dst@
                        == self.others@[j]@ && out@[j].body.id is None && out@[j].body.in_reply_to is None
                        && out@[j].body.payload is Gossip && out@[j].body.payload->json@ == json@,
            decreases self.others@.len() - i,
        {
            let ghost out0 = out@;
            out.push(
                Message {
                    src: self.node.clone(),
                    dst: self.others[i].clone(),
                    body: Body { id: None, in_reply_to: None, payload: Payload::Gossip { json: json.clone() } },
                },
            );
            assert forall|j: int| 0 <= j < i implies out@[j] == out0[j] by {}
            i = i + 1;
        }
        out
    }

    /// The node's counter holds finitely many actors.
    pub open spec fn wf(&self) -> bool {
        finite_totals(increments(self.counter), decrements(self.counter))
    }

    /// The value the node's counter reads.
    pub open spec fn value(&self) -> int {
        value_of(increments(self.counter), decrements(self.counter))
    }

    /// Handles one event. An add changes this node's share, moving the
    /// counter's value by the delta, and, unless the delta is 0, injects a
    /// gossip event; a read answers the counter's value; gossip from a peer
    /// is joined in; an injected gossip event sends the counter's state to
    /// every peer. Each message received takes one message id.
    pub fn step(&mut self, input: Event<Payload, InjectedPayload>) -> (r: Result<
        CounterActions,
        CounterError,
    >)
        requires
            old(self).wf(),
            input is Message ==> old(self).id < usize::MAX,
        ensures
            final(self).wf(),
            final(self).node == old(self).node,
            final(self).others == old(self).others,
            input is EOF ==> (r matches Ok(a) && a.outgoing@.len() == 0 && a.injected@.len() == 0
                && *final(self) == *old(self)),
            input is Injected ==> *final(self) == *old(self) && (r matches Ok(a)
                && a.injected@.len() == 0 && a.outgoing@.len() == old(self).others@.len()
                && forall|i: int|
                0 <= i < a.outgoing@.len() ==> #[trigger] a.outgoing@[i].src@ == old(self).node@
                    && a.outgoing@[i].dst@ == old(self).others@[i]@ && a.outgoing@[i].body.id is None
                    && a.outgoing@[i].body.in_reply_to is None && a.outgoing@[i].body.payload is Gossip
                    && counter_text_totals(a.outgoing@[i].body.payload->json@) == Some(
                    (increments(old(self).counter), decrements(old(self).counter)),
                )),
            input matches Event::Message(m) ==> final(self).id == old(self).id + 1,
            input matches Event::Message(m) ==> match m.body.payload {
                Payload::Add { delta } => match r {
                    Ok(a) => a.outgoing@.len() == 1 && is_reply(a.outgoing@[0], m, old(self).id)
                        && a.outgoing@[0].body.payload is AddOk && a.injected@.len() == (if delta
                        == 0 {
                        0int
                    } else {
                        1int
                    }) && final(self).value() == old(self).value() + delta && increments(
                        final(self).counter,
                    ) == (if delta > 0 {
                        stepped(increments(old(self).counter), old(self).node@, delta as u64)
                    } else {
                        increments(old(self).counter)
                    }) && decrements(final(self).counter) == (if delta < 0 {
                        stepped(decrements(old(self).counter), old(self).node@, (-delta) as u64)
                    } else {
                        decrements(old(self).counter)
                    }),
                    Err(e) => e == CounterError::TotalOverflow && final(self).counter == old(
                        self).counter && (delta > 0 ==> total_of(
                        increments(old(self).counter),
                        old(self).node@,
                    ) + delta > u64::MAX) && (delta < 0 ==> total_of(
                        decrements(old(self).counter),
                        old(self).node@,
                    ) - delta > u64::MAX) && delta != 0,
                },
                Payload::Read => final(self).counter == old(self).counter && match r {
                    Ok(a) => a.injected@.len() == 0 && a.outgoing@.len() == 1 && is_reply(
                        a.outgoing@[0],
                        m,
                        old(self).id,
                    ) && a.outgoing@[0].body.payload == (Payload::ReadOk {
                        value: old(self).value() as i64,
                    }) && i64::MIN <= old(self).value() <= i64::MAX,
                    Err(e) => e == CounterError::ValueOutOfRange && !(i64::MIN <= old(
                        self).value() <= i64::MAX),
                },
                Payload::Gossip { json } => match counter_text_totals(json@) {
                    Some((p, n)) => r matches Ok(a) && a.outgoing@.len() == 0 && a.injected@.len()
                        == 0 && increments(final(self).counter) == joined(
                        increments(old(self).counter),
                        p,
                    ) && decrements(final(self).counter) == joined(
                        decrements(old(self).counter),
                        n,
                    ),
                    None => r == Err::<CounterActions, CounterError>(CounterError::MalformedGossip)
                        && final(self).counter == old(self).counter,
                },
                _ => (r matches Ok(a) && a.outgoing@.len() == 0 && a.injected@.len() == 0
                    && final(self).counter == old(self).counter),
            },
    {
        let input = match input {
            Event::EOF => {
                return Ok(CounterActions { outgoing: Vec::new(), injected: Vec::new() });
            },
            Event::Injected(InjectedPayload::Gossip) => {
                let outgoing = self.gossip();
                return Ok(CounterActions { outgoing, injected: Vec::new() });
            },
            Event::Message(m) => m,
        };
        let ghost before = *self;
        let mut reply_msg = input.into_reply(&mut self.id);
        let mut outgoing: Vec<Message<Payload>> = Vec::new();
        let mut injected: Vec<InjectedPayload> = Vec::new();
        match reply_msg.body.payload {
            Payload::Gossip { json } => {
                let other = counter_from_json(&json);
                self.absorb(other)?;
            },
            Payload::Add { delta } => {
                self.add(delta)?;
                proof {
                    let p0 = increments(before.counter);
                    let n0 = decrements(before.counter);
                    let k = before.node@;
                    if delta > 0 {
                        lemma_sum_insert(p0, k, (total_of(p0, k) + delta) as u64);
                    } else if delta < 0 {
                        lemma_sum_insert(n0, k, (total_of(n0, k) - delta) as u64);
                    }
                }
                if delta != 0 {
                    injected.push(InjectedPayload::Gossip);
                }
                reply_msg.body.payload = Payload::AddOk;
                outgoing.push(reply_msg);
            },
            Payload::Read => {
                let value = match read_counter(&self.counter) {
                    Some(v) => v,
                    None => {
                        return Err(CounterError::ValueOutOfRange);
                    },
                };
                reply_msg.body.payload = Payload::ReadOk { value };
                outgoing.push(reply_msg);
            },
            Payload::AddOk | Payload::ReadOk { .. } => {},
        }
        Ok(CounterActions { outgoing, injected })
    }
}

} // verus!
