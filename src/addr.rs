//! Socket endpoints as plain values.
use vstd::prelude::*;

verus! {

/// An IP address and port identifying one socket endpoint.
///
/// A version 4 address holds its four octets as one big-endian integer; a
/// version 6 address holds its sixteen octets likewise, with the flow label
/// and scope id that travel with it.
#[derive(Clone, Copy, Debug, PartialEq, Eq, Structural, Hash)]
#[allow(inconsistent_fields)]
pub enum PeerAddr {
    V4 { ip: u32, port: u16 },
    V6 { ip: u128, port: u16, flowinfo: u32, scope_id: u32 },
}

impl PeerAddr {
    /// The port of the endpoint.
    pub fn port(&self) -> (r: u16)
        ensures
            r == self.spec_port(),
    {
        match self {
            PeerAddr::V4 { port, .. } => *port,
            PeerAddr::V6 { port, .. } => *port,
        }
    }

    pub open spec fn spec_port(&self) -> u16 {
        match self {
            PeerAddr::V4 { port, .. } => *port,
            PeerAddr::V6 { port, .. } => *port,
        }
    }

    /// The version 4 loopback address `127.0.0.1` with the given port.
    pub fn loopback(port: u16) -> (r: PeerAddr)
        ensures
            r == (PeerAddr::V4 { ip: 0x7f00_0001, port }),
    {
        PeerAddr::V4 { ip: 0x7f00_0001, port }
    }
}

} // verus!
