//! Building blocks for nodes of a distributed protocol that talk in
//! line-delimited JSON envelopes: the envelope and its reply correlation,
//! the start-up handshake, and node state machines: a gossip-replicated,
//! offset-addressed log, a broadcast store, a unique-id generator and a
//! replicated counter. Reading input, writing output and running the loop
//! are left to the program that embeds them.
pub mod message;
pub mod log;
pub mod kafka;
pub mod guarantees;
pub mod runtime;
pub mod relay;
pub mod unique_ids;
pub mod counter;
