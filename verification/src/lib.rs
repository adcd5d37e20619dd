//! Peer-to-peer data-retrieval core for an Ethereum consensus light client.
//!
//! The crate maintains a live table of discovered peers, seeds it from a
//! compiled-in bootstrap list per network, and turns each retrieval call
//! (bootstrap, committee updates, finality update, optimistic update, beacon
//! block) into a raced fan-out of per-peer requests with a shared deadline.
//! The surrounding event loop performs the actual socket work and feeds the
//! per-candidate outcomes back into the verified state machine.

pub mod discovery;
pub mod errors;
pub mod facade;
pub mod messages;
pub mod networks;
pub mod peer_table;
pub mod records;
