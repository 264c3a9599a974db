//! The start-up handshake that every node goes through before its loop.
use vstd::prelude::*;
use crate::message::{Body, Init, Message};

verus! {

/// The payloads of the handshake.
pub enum InitPayload {
    Init(Init),
    InitOk,
}

/// A violation of the protocol, which ends the node.
#[derive(Debug, PartialEq, Eq, Structural)]
pub enum ProtocolError {
    /// The first message was not an `init` request.
    FirstMessageNotInit,
    /// An event the node cannot handle in its current state.
    UnexpectedEvent,
}

/// Takes the first message a node receives. An `init` request yields what it
/// carries and the `init_ok` reply to it, with message id 0; anything else is
/// a protocol error.
pub fn handshake(first: Message<InitPayload>) -> (r: Result<(Init, Message<InitPayload>), ProtocolError>)
    ensures
        first.body.payload is InitOk ==> r == Err::<(Init, Message<InitPayload>), _>(
            ProtocolError::FirstMessageNotInit,
        ),
        first.body.payload is Init ==> (r matches Ok((init, reply)) && init
            == first.body.payload->Init_0 && reply.src@ == first.dst@ && reply.dst@
            == first.src@ && reply.body.id == Some(0usize) && reply.body.in_reply_to
            == first.body.id && reply.body.payload is InitOk),
{
    let Message { src, dst, body } = first;
    match body.payload {
        InitPayload::Init(init) => {
            let reply = Message {
                src: dst,
                dst: src,
                body: Body { id: Some(0), in_reply_to: body.id, payload: InitPayload::InitOk },
            };
            Ok((init, reply))
        },
        InitPayload::InitOk => Err(ProtocolError::FirstMessageNotInit),
    }
}

} // verus!
