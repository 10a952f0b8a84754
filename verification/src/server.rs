//! The server's command line and the master it may replicate.

use vstd::prelude::*;

use crate::redis::text::{parse_u16, parse_u16_spec};

verus! {

/// The master that a replica connects to.
#[derive(Debug, Clone)]
pub struct Replica {
    pub host: String,
    pub port: u16,
}

/// The server's command line: the port to listen on and, for a replica,
/// the host and port of its master.
#[derive(Debug)]
pub struct RedisServer {
    pub port: u16,
    pub replicaof: Option<Vec<String>>,
}

/// The master named by the words `<host> <port>`, if there are at least
/// two and the second reads as a port number.
pub fn replica_of(rep: &Vec<String>) -> (r: Option<Replica>)
    ensures
        r is Some <==> rep@.len() >= 2 && parse_u16_spec(rep@[1]@) is Some,
        r matches Some(x) ==> x.host@ == rep@[0]@ && Some(x.port) == parse_u16_spec(rep@[1]@),
{
    if rep.len() < 2 {
        return None;
    }
    match parse_u16(rep[1].as_str()) {
        Some(port) => Some(Replica { host: rep[0].clone(), port }),
        None => None,
    }
}

} // verus!
