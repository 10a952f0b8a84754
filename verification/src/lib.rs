//! A small Redis-compatible server: the RESP framing, the command decoder,
//! the key/value store and the replies it sends, with their contracts.

pub mod redis;
pub mod server;

pub use server::{RedisServer, Replica};
