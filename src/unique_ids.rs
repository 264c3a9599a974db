//! A node that hands out ids unique across the cluster: its own id and a
//! counter that never repeats.
use vstd::prelude::*;
use vstd::string::*;
use crate::message::{Event, Init, Message};
use crate::runtime::ProtocolError;

verus! {

/// The payloads of the id service.
pub enum Payload {
    Generate,
    GenerateOk { guid: String },
}

/// The decimal digit for `d`, where `d < 10`.
pub open spec fn digit_char(d: nat) -> char {
    (('0' as u8) + d) as char
}

/// The decimal representation of `n`, without leading zeros.
pub open spec fn decimal(n: nat) -> Seq<char>
    decreases n,
{
    if n < 10 {
        seq![digit_char(n)]
    } else {
        decimal(n / 10).push(digit_char(n % 10))
    }
}

/// The id handed out by node `node` with counter value `n`.
pub open spec fn guid_of(node: Seq<char>, n: nat) -> Seq<char> {
    node + seq!['-'] + decimal(n)
}

/// Relies on the standard library's `Display` for `usize` (through
/// `to_string`): it writes the number in decimal, without sign or leading
/// zeros.
#[verifier::external_body]
fn to_decimal(n: usize) -> (r: String)
    ensures
        r@ == decimal(n as nat),
{
    n.to_string()
}

/// A node of the id service.
pub struct UniqueIdNode {
    pub node: String,
    pub id: usize,
}

impl UniqueIdNode {
    /// A fresh node, message ids from 1.
    pub fn from_init(init: Init) -> (r: UniqueIdNode)
        ensures
            r.node@ == init.node_id@,
            r.id == 1,
    {
        UniqueIdNode { node: init.node_id, id: 1 }
    }

    /// Handles one event. A `generate` request is answered with the node's
    /// id, a dash and the counter's value after the reply took its own id;
    /// the end of the input and a `generate_ok` are no-ops; an injected
    /// event is a protocol error.
    pub fn step(&mut self, input: Event<Payload, ()>) -> (r: Result<
        Vec<Message<Payload>>,
        ProtocolError,
    >)
        requires
            input is Message ==> old(self).id < usize::MAX,
        ensures
            final(self).node == old(self).node,
            input is EOF ==> (r matches Ok(out) && out@.len() == 0 && *final(self) == *old(self)),
            input is Injected ==> r == Err::<Vec<Message<Payload>>, _>(
                ProtocolError::UnexpectedEvent,
            ),
            input matches Event::Message(m) ==> final(self).id == old(self).id + 1,
            input matches Event::Message(m) ==> (m.body.payload is GenerateOk ==> (r matches Ok(
                out,
            ) && out@.len() == 0)),
            input matches Event::Message(m) ==> (m.body.payload is Generate ==> (r matches Ok(
                out,
            ) && out@.len() == 1 && out@[0].src@ == m.dst@ && out@[0].dst@ == m.src@
                && out@[0].body.id == Some(old(self).id) && out@[0].body.in_reply_to
                == m.body.id && out@[0].body.payload is GenerateOk
                && out@[0].body.payload->guid@ == guid_of(old(self).node@, final(self).id as nat))),
    {
        let input = match input {
            Event::Message(m) => m,
            Event::Injected(_) => {
                return Err(ProtocolError::UnexpectedEvent);
            },
            Event::EOF => {
                return Ok(Vec::new());
            },
        };
        let mut reply = input.into_reply(&mut self.id);
        let mut out: Vec<Message<Payload>> = Vec::new();
        match reply.body.payload {
            Payload::Generate => {
                let mut guid = self.node.clone();
                guid.append("-");
                let n = to_decimal(self.id);
                guid.append(n.as_str());
                proof {
                    reveal_strlit("-");
                }
                assert(guid@ =~= guid_of(self.node@, self.id as nat));
                reply.body.payload = Payload::GenerateOk { guid };
                out.push(reply);
            },
            Payload::GenerateOk { .. } => {},
        }
        Ok(out)
    }
}

} // verus!
