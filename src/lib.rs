//! The per-node front end of a replicated key-value store: the wire
//! envelope of its three message lanes, the addressing of peers, the
//! outbound bridge step, the command processor's decisions and the
//! reconstruction of a key's value from the replicated log.

pub mod bridge;
pub mod command;
pub mod envelope;
pub mod input;
pub mod resolver;
pub mod store;
