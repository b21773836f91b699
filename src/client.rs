//! The client session's handshake: from registration with the rendezvous
//! server to the host's address, or to an error that the caller can report.
use vstd::prelude::*;
use crate::addr::PeerAddr;
use crate::wire::{Message, Role, probe, registration_message, payload_bytes, role_tag, Delivery};

verus! {

/// How long, in seconds, the client waits for the first event after it
/// registers.
pub const HANDSHAKE_TIMEOUT_SECS: u64 = 5;

/// What the client's punching socket yields while the handshake runs.
#[derive(Clone, Copy, Debug, PartialEq, Eq, Structural)]
pub enum HandshakeEvent {
    /// The wait ran out with nothing received.
    TimedOut,
    /// The socket's event stream closed.
    Closed,
    /// An event that carries no message (a connect or a timeout of a peer).
    Other,
    /// A message arrived; its payload read as a socket address, if it is one.
    Received(Option<PeerAddr>),
}

/// Why a handshake failed.
#[derive(Clone, Copy, Debug, PartialEq, Eq, Structural)]
pub enum HandshakeError {
    /// Nothing arrived in time: no host holds the name, or the server is
    /// out of reach.
    TimedOut,
    /// The socket's event stream closed.
    Closed,
    /// The exchange message was not a socket address.
    Malformed,
    /// Something other than the exchange message came second.
    NoExchange,
}

/// The state of a client handshake.
#[derive(Clone, Copy, Debug, PartialEq, Eq, Structural)]
pub enum Handshake {
    /// Registered; waiting, for at most the timeout, for the first event.
    AwaitingFirst,
    /// The first event came; the next message is the exchange message.
    AwaitingExchange,
    /// The host's address is known.
    Connected(PeerAddr),
    /// The handshake failed.
    Failed(HandshakeError),
}

/// The handshake state after `ev` in state `s`.
pub open spec fn step_spec(s: Handshake, ev: HandshakeEvent) -> Handshake {
    match s {
        Handshake::AwaitingFirst => match ev {
            HandshakeEvent::TimedOut => Handshake::Failed(HandshakeError::TimedOut),
            HandshakeEvent::Closed => Handshake::Failed(HandshakeError::Closed),
            _ => Handshake::AwaitingExchange,
        },
        Handshake::AwaitingExchange => match ev {
            HandshakeEvent::TimedOut => Handshake::Failed(HandshakeError::TimedOut),
            HandshakeEvent::Closed => Handshake::Failed(HandshakeError::Closed),
            HandshakeEvent::Other => Handshake::Failed(HandshakeError::NoExchange),
            HandshakeEvent::Received(Some(a)) => Handshake::Connected(a),
            HandshakeEvent::Received(None) => Handshake::Failed(HandshakeError::Malformed),
        },
        _ => s,
    }
}

impl Handshake {
    /// Whether the handshake has ended, connected or failed.
    pub open spec fn is_done(self) -> bool {
        self is Connected || self is Failed
    }

    /// A handshake that has just sent its registration.
    pub fn start() -> (r: Handshake)
        ensures
            r == Handshake::AwaitingFirst,
    {
        Handshake::AwaitingFirst
    }

    /// Moves the handshake on by one event. Once connected or failed it
    /// stays so.
    pub fn step(self, ev: HandshakeEvent) -> (r: Handshake)
        ensures
            r == step_spec(self, ev),
    {
        match self {
            Handshake::AwaitingFirst => match ev {
                HandshakeEvent::TimedOut => Handshake::Failed(HandshakeError::TimedOut),
                HandshakeEvent::Closed => Handshake::Failed(HandshakeError::Closed),
                _ => Handshake::AwaitingExchange,
            },
            Handshake::AwaitingExchange => match ev {
                HandshakeEvent::TimedOut => Handshake::Failed(HandshakeError::TimedOut),
                HandshakeEvent::Closed => Handshake::Failed(HandshakeError::Closed),
                HandshakeEvent::Other => Handshake::Failed(HandshakeError::NoExchange),
                HandshakeEvent::Received(Some(a)) => Handshake::Connected(a),
                HandshakeEvent::Received(None) => Handshake::Failed(HandshakeError::Malformed),
            },
            _ => self,
        }
    }

    /// Whether the next wait is bounded by the handshake timeout.
    pub fn waits_with_timeout(&self) -> (r: bool)
        ensures
            r == (*self == Handshake::AwaitingFirst),
    {
        match self {
            Handshake::AwaitingFirst => true,
            _ => false,
        }
    }

    /// The outcome of an ended handshake: the host's address, or the error.
    pub fn outcome(&self) -> (r: Option<Result<PeerAddr, HandshakeError>>)
        ensures
            match *self {
                Handshake::Connected(a) => r == Some(Ok::<PeerAddr, HandshakeError>(a)),
                Handshake::Failed(e) => r == Some(Err::<PeerAddr, HandshakeError>(e)),
                _ => r is None,
            },
    {
        match self {
            Handshake::Connected(a) => Some(Ok(*a)),
            Handshake::Failed(e) => Some(Err(*e)),
            _ => None,
        }
    }
}

/// The client's registration with the server at `server`, asking for the
/// host named `name`.
pub fn client_registration(server: PeerAddr, name: &[u8]) -> (r: Message)
    ensures
        r.dest == server,
        r.delivery == Delivery::ReliableOrdered,
        payload_bytes(r) == seq![role_tag(Role::Client)] + name@,
{
    registration_message(server, Role::Client, name)
}

/// The probe the client sends straight to the host once it knows the
/// host's address.
pub fn punch(host: PeerAddr) -> (r: Message)
    ensures
        r.dest == host,
        r.delivery == Delivery::ReliableOrdered,
        payload_bytes(r) == seq![0u8],
{
    probe(host)
}

/// A client whose first wait times out, as it does when no host holds the
/// requested name, ends in a failure that it reports, and never connects.
pub proof fn lemma_timeout_is_reported()
    ensures
        step_spec(Handshake::AwaitingFirst, HandshakeEvent::TimedOut) == Handshake::Failed(
            HandshakeError::TimedOut,
        ),
        forall|ev: HandshakeEvent|
            step_spec(Handshake::Failed(HandshakeError::TimedOut), ev) == Handshake::Failed(
                HandshakeError::TimedOut,
            ),
{
}

} // verus!
