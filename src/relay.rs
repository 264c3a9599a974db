//! A node that stores the values broadcast to it and reads them back.
use vstd::prelude::*;
use crate::message::{Event, Init, Message};
use crate::runtime::ProtocolError;

verus! {

/// The payloads of the broadcast service.
pub enum Payload {
    Broadcast { message: usize },
    BroadcastOk,
    Read,
    ReadOk { messages: Vec<usize> },
    Topology { topology: Vec<(String, Vec<String>)> },
    TopologyOk,
}

/// A node of the broadcast service: the values it got, in arrival order.
pub struct BroadcastNode {
    pub node: String,
    pub id: usize,
    pub messages: Vec<usize>,
}

impl BroadcastNode {
    /// A fresh node with no values, message ids from 1.
    pub fn from_init(init: Init) -> (r: BroadcastNode)
        ensures
            r.node@ == init.node_id@,
            r.id == 1,
            r.messages@ == Seq::<usize>::empty(),
    {
        BroadcastNode { node: init.node_id, id: 1, messages: Vec::new() }
    }

    /// Handles one event and returns the reply to send. A broadcast value is
    /// stored, a read answers every value stored, a topology is acknowledged.
    /// The end of the input is a no-op; an injected event, or a reply
    /// payload, is a protocol error.
    pub fn step(&mut self, input: Event<Payload, ()>) -> (r: Result<
        Vec<Message<Payload>>,
        ProtocolError,
    >)
        requires
            input is Message ==> old(self).id < usize::MAX,
        ensures
            final(self).node == old(self).node,
            r is Err ==> *final(self) == *old(self),
            input is EOF ==> (r matches Ok(out) && out@.len() == 0 && *final(self) == *old(self)),
            input is Injected ==> r == Err::<Vec<Message<Payload>>, _>(
                ProtocolError::UnexpectedEvent,
            ),
            input matches Event::Message(m) ==> {
                let p = m.body.payload;
                &&& p is Broadcast ==> final(self).messages@ == old(self).messages@.push(
                    p->message,
                )
                &&& !(p is Broadcast) ==> final(self).messages@ == old(self).messages@
                &&& (p is BroadcastOk || p is ReadOk || p is TopologyOk) ==> r == Err::<
                    Vec<Message<Payload>>,
                    _,
                >(ProtocolError::UnexpectedEvent)
                &&& (p is Broadcast || p is Read || p is Topology) ==> (r matches Ok(out)
                    && out@.len() == 1 && final(self).id == old(self).id + 1 && out@[0].src@
                    == m.dst@ && out@[0].dst@ == m.src@ && out@[0].body.id == Some(old(self).id)
                    && out@[0].body.in_reply_to == m.body.id && (p is Broadcast
                    ==> out@[0].body.payload is BroadcastOk) && (p is Read
                    ==> (out@[0].body.payload matches Payload::ReadOk { messages }
                    && messages@ == old(self).messages@)) && (p is Topology
                    ==> out@[0].body.payload is TopologyOk))
            },
    {
        let input = match input {
            Event::Message(m) => m,
            Event::Injected(_) => {
                return Err(ProtocolError::UnexpectedEvent);
            },
            Event::EOF => {
                return Ok(Vec::new());
            },
        };
        match input.body.payload {
            Payload::BroadcastOk | Payload::ReadOk { .. } | Payload::TopologyOk => {
                return Err(ProtocolError::UnexpectedEvent);
            },
            _ => {},
        }
        let mut reply = input.into_reply(&mut self.id);
        match reply.body.payload {
            Payload::Broadcast { message } => {
                self.messages.push(message);
                reply.body.payload = Payload::BroadcastOk;
            },
            Payload::Read => {
                reply.body.payload = Payload::ReadOk { messages: self.messages.clone() };
            },
            _ => {
                reply.body.payload = Payload::TopologyOk;
            },
        }
        let mut out: Vec<Message<Payload>> = Vec::new();
        out.push(reply);
        Ok(out)
    }
}

} // verus!
