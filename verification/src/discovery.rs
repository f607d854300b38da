//! Servers as clients find them on the network.

use vstd::prelude::*;

verus! {

/// Service type under which servers announce themselves.
pub fn service_type() -> (s: &'static str)
    ensures
        s@ == "_audiomultiverse._tcp.local."@,
{
    "_audiomultiverse._tcp.local."
}

/// A server that was found on the network.
#[derive(Debug, Clone)]
pub struct DiscoveredServer {
    pub name: String,
    pub host: String,
    pub port: u16,
    pub version: String,
    pub addresses: Vec<String>,
}

} // verus!
