//! The agent-side handle: a display name plus the endpoint it talks to.

use crate::protocol::ZabbixProtocol;
use vstd::prelude::*;

verus! {

/// An agent's identity toward the server.
#[derive(Debug)]
pub struct ZabbixAgent {
    pub name: String,
    pub proto: ZabbixProtocol,
}

impl ZabbixAgent {
    /// Builds an agent handle from its name and the server's address.
    pub fn new(name: &str, server: &str, port: u16) -> (r: Self)
        ensures
            r.name@ == name@,
            r.proto.server@ == server@,
            r.proto.port == port,
    {
        ZabbixAgent { name: name.to_owned(), proto: ZabbixProtocol::new(server, port) }
    }
}

} // verus!
