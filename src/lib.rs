//! Rendezvous, hole-punching and tunnelling logic for two peers behind NATs.
//!
//! The library holds the decisions of the system: the rendezvous server's
//! host registry, the wire payloads, the host and client session rules and
//! the tunnel multiplexer's framing and routing. Sockets, threads and
//! timers are driven by the caller, which hands plain values in and
//! performs the actions that come back.
pub mod addr;
pub mod bytes;
pub mod registry;
pub mod wire;
pub mod server;
pub mod tunnel;
pub mod host;
pub mod client;
pub mod config;
