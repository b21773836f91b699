//! The record of addresses, ports and names that a front end keeps between
//! runs and hands to the session entry points.
use vstd::prelude::*;

verus! {

/// Connection settings: the rendezvous server, and the local port and name
/// of the client and of the host side.
#[derive(Clone, Debug)]
pub struct Config {
    pub server_addr: String,
    pub server_port: u16,
    pub client_port: u16,
    pub client_name: String,
    pub host_port: u16,
    pub host_name: String,
}

impl Default for Config {
    /// Empty address and names; server port 1324, client port 1234, host
    /// port 1235.
    fn default() -> (r: Self)
        ensures
            r.server_addr@.len() == 0,
            r.server_port == 1324,
            r.client_port == 1234,
            r.client_name@.len() == 0,
            r.host_port == 1235,
            r.host_name@.len() == 0,
    {
        Config {
            server_addr: String::new(),
            server_port: 1324,
            client_port: 1234,
            client_name: String::new(),
            host_port: 1235,
            host_name: String::new(),
        }
    }
}

} // verus!
