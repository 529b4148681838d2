//! Core of a caching, forwarding DNS resolver: the wire codec for DNS
//! messages, the cache policy, the transaction bookkeeping and the state
//! machine of a stream worker, each with a machine-checked contract.

pub mod buffer;
pub mod cache;
pub mod comm;
pub mod protocol;
pub mod text;
pub mod time;
