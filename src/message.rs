//! The message envelope, its body, and the events a node handles.
use vstd::prelude::*;

verus! {

/// One envelope on the wire: who sent it, to whom, and its body.
pub struct Message<P> {
    pub src: String,
    pub dst: String,
    pub body: Body<P>,
}

/// The body of an envelope. `id` is set on requests and replies, `in_reply_to`
/// only on replies, where it holds the request's `id`.
pub struct Body<P> {
    pub id: Option<usize>,
    pub in_reply_to: Option<usize>,
    pub payload: P,
}

/// What a node learns at start-up: its own id and the ids of all nodes.
pub struct Init {
    pub node_id: String,
    pub node_ids: Vec<String>,
}

/// One event of a node's loop: a message from the wire, an event the node
/// injected itself, or the end of the input.
pub enum Event<P, IP> {
    Message(Message<P>),
    Injected(IP),
    EOF,
}

impl<P> Message<P> {
    /// Turns a received message into the reply to it: source and destination
    /// swap, `in_reply_to` is the request's id and the payload is kept. The
    /// reply takes the counter's current value as its id, and the counter
    /// moves on by one.
    pub fn into_reply(self, id: &mut usize) -> (r: Message<P>)
        requires
            *old(id) < usize::MAX,
        ensures
            r.src@ == self.dst@,
            r.dst@ == self.src@,
            r.body.id == Some(*old(id)),
            r.body.in_reply_to == self.body.id,
            r.body.payload == self.body.payload,
            *final(id) == *old(id) + 1,
    {
        let mid = *id;
        *id = mid + 1;
        Message {
            src: self.dst,
            dst: self.src,
            body: Body { id: Some(mid), in_reply_to: self.body.id, payload: self.body.payload },
        }
    }
}

/// A list of strings as plain values.
pub open spec fn strings_view(v: Seq<String>) -> Seq<Seq<char>> {
    v.map_values(|s: String| s@)
}

/// The ids of `ids` other than `me`, in order.
pub open spec fn peers_of(ids: Seq<Seq<char>>, me: Seq<char>) -> Seq<Seq<char>>
    decreases ids.len(),
{
    if ids.len() == 0 {
        Seq::empty()
    } else if ids.last() == me {
        peers_of(ids.drop_last(), me)
    } else {
        peers_of(ids.drop_last(), me).push(ids.last())
    }
}

impl Init {
    /// The node's peers: every node id but its own, in the given order.
    pub fn peers(&self) -> (r: Vec<String>)
        ensures
            strings_view(r@) == peers_of(strings_view(self.node_ids@), self.node_id@),
    {
        let ghost s = strings_view(self.node_ids@);
        let mut r: Vec<String> = Vec::new();
        let mut i: usize = 0;
        while i < self.node_ids.len()
            invariant
                i <= self.node_ids@.len(),
                s == strings_view(self.node_ids@),
                strings_view(r@) == peers_of(s.take(i as int), self.node_id@),
            decreases self.node_ids@.len() - i,
        {
            proof {
                assert(s.take(i + 1).drop_last() =~= s.take(i as int));
            }
            if self.node_ids[i] != self.node_id {
                let ghost r0 = r@;
                r.push(self.node_ids[i].clone());
                assert(strings_view(r@) =~= strings_view(r0).push(s[i as int]));
            }
            i = i + 1;
        }
        assert(s.take(i as int) =~= s);
        r
    }
}

} // verus!
