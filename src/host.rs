//! The host session's dispatch rules: which peer an inbound message comes
//! from, and the map from client addresses to their relay channels.
use vstd::prelude::*;
use crate::addr::PeerAddr;
use crate::wire::{Message, Role, probe, payload_bytes, registration_message, role_tag, Delivery};

verus! {

/// Where an inbound message on the host's punching socket comes from.
#[derive(Clone, Copy, Debug, PartialEq, Eq, Structural)]
pub enum Origin {
    /// The rendezvous server: the payload announces a client's address.
    Server,
    /// A client with a running session: the payload goes to its relay.
    KnownClient,
    /// Anyone else: the message is dropped.
    Unknown,
}

/// What the host's dispatch loop hands to [`HostSession::step`].
#[derive(Clone, Copy, Debug, PartialEq, Eq, Structural)]
pub enum HostEvent {
    /// A message arrived on the punching socket from `from`.
    Packet { from: PeerAddr },
    /// The server's announcement, read as a client's address if it is one.
    Announcement(Option<PeerAddr>),
    /// A message could not be handed to the relay of the client at the
    /// address: its session is gone.
    ForwardFailed(PeerAddr),
    /// The peer at the address disconnected.
    Disconnect(PeerAddr),
    /// Any other socket event.
    Other,
}

/// What the dispatch loop does after an event.
#[derive(Clone, Copy, Debug, PartialEq, Eq, Structural)]
pub enum HostAction {
    /// Read the message's payload as a client's address and report it as an
    /// [`HostEvent::Announcement`].
    ReadAnnouncement,
    /// Start a session for the announced client: make its relay channel,
    /// hand it to [`HostSession::accept_client`] and send the probe.
    StartSession(PeerAddr),
    /// Hand the message to the relay of the client at the address.
    Forward(PeerAddr),
    /// Nothing more.
    Done,
}

/// The action for event `ev` in a session with server `server` and
/// clients `m`.
pub open spec fn host_action_spec<C>(server: PeerAddr, m: Map<PeerAddr, C>, ev: HostEvent) -> HostAction {
    match ev {
        HostEvent::Packet { from } => if from == server {
            HostAction::ReadAnnouncement
        } else if m.contains_key(from) {
            HostAction::Forward(from)
        } else {
            HostAction::Done
        },
        HostEvent::Announcement(Some(a)) => HostAction::StartSession(a),
        _ => HostAction::Done,
    }
}

/// The clients after event `ev`: a client whose relay is gone, or that
/// disconnected, loses its session.
pub open spec fn host_sessions_after<C>(m: Map<PeerAddr, C>, ev: HostEvent) -> Map<PeerAddr, C> {
    match ev {
        HostEvent::ForwardFailed(a) => m.remove(a),
        HostEvent::Disconnect(a) => m.remove(a),
        _ => m,
    }
}

/// A running host session: the rendezvous server it registered with, and
/// one relay channel of type `C` per client address.
pub struct HostSession<C> {
    server: PeerAddr,
    clients: Vec<(PeerAddr, C)>,
    sessions: Ghost<Map<PeerAddr, C>>,
}

impl<C> View for HostSession<C> {
    type V = Map<PeerAddr, C>;

    closed spec fn view(&self) -> Map<PeerAddr, C> {
        self.sessions@
    }
}

impl<C> HostSession<C> {
    /// The rendezvous server's address.
    pub closed spec fn server_spec(&self) -> PeerAddr {
        self.server
    }

    pub closed spec fn wf(&self) -> bool {
        let m = self.sessions@;
        let e = self.clients@;
        &&& forall|i: int|
            0 <= i < e.len() ==> #[trigger] m.contains_key(e[i].0) && m[e[i].0] == e[i].1
        &&& forall|a: PeerAddr|
            #[trigger] m.contains_key(a) ==> exists|i: int| 0 <= i < e.len() && #[trigger] e[i].0 == a
        &&& forall|i: int, j: int|
            0 <= i < e.len() && 0 <= j < e.len() && i != j ==> #[trigger] e[i].0 != #[trigger] e[j].0
    }

    /// A session with no clients, registered with the server at `server`.
    pub fn new(server: PeerAddr) -> (r: HostSession<C>)
        ensures
            r.wf(),
            r.server_spec() == server,
            r@ == Map::<PeerAddr, C>::empty(),
    {
        HostSession { server, clients: Vec::new(), sessions: Ghost(Map::empty()) }
    }

    /// The rendezvous server's address.
    pub fn server(&self) -> (r: PeerAddr)
        ensures
            r == self.server_spec(),
    {
        self.server
    }

    /// The number of running client sessions.
    pub fn len(&self) -> (r: usize)
        requires
            self.wf(),
        ensures
            r == self@.dom().len(),
    {
        proof {
            self.lemma_len();
        }
        self.clients.len()
    }

    proof fn lemma_len(&self)
        requires
            self.wf(),
        ensures
            self@.dom().finite(),
            self@.dom().len() == self.clients@.len(),
        decreases self.clients@.len(),
    {
        let e = self.clients@;
        let keys = e.map_values(|p: (PeerAddr, C)| p.0);
        assert(keys.no_duplicates()) by {
            assert forall|i: int, j: int| 0 <= i < keys.len() && 0 <= j < keys.len() && i != j
                implies keys[i] != keys[j] by {
                assert(e[i].0 != e[j].0);
            }
        }
        assert(self@.dom() =~= keys.to_set()) by {
            assert forall|a: PeerAddr| self@.dom().contains(a) implies keys.to_set().contains(a) by {
                let i = choose|i: int| 0 <= i < e.len() && e[i].0 == a;
                assert(keys[i] == a);
            }
            assert forall|a: PeerAddr| keys.to_set().contains(a) implies self@.dom().contains(a) by {
                let i = choose|i: int| 0 <= i < keys.len() && keys[i] == a;
                assert(self@.contains_key(e[i].0));
            }
        }
        keys.unique_seq_to_set();
    }

    /// The position of the session for `addr`, if any.
    fn find(&self, addr: PeerAddr) -> (r: Option<usize>)
        requires
            self.wf(),
        ensures
            match r {
                Some(i) => i < self.clients@.len() && self.clients@[i as int].0 == addr,
                None => !self@.contains_key(addr),
            },
    {
        let mut i: usize = 0;
        while i < self.clients.len()
            invariant
                self.wf(),
                i <= self.clients@.len(),
                forall|j: int| 0 <= j < i ==> self.clients@[j].0 != addr,
            decreases self.clients@.len() - i,
        {
            if self.clients[i].0 == addr {
                return Some(i);
            }
            i = i + 1;
        }
        None
    }

    /// Where a message from `from` comes from: the server first, then the
    /// clients with a running session.
    pub fn origin(&self, from: PeerAddr) -> (r: Origin)
        requires
            self.wf(),
        ensures
            r == (if from == self.server_spec() {
                Origin::Server
            } else if self@.contains_key(from) {
                Origin::KnownClient
            } else {
                Origin::Unknown
            }),
    {
        if from == self.server {
            Origin::Server
        } else {
            match self.find(from) {
                Some(i) => {
                    assert(self@.contains_key(self.clients@[i as int].0));
                    Origin::KnownClient
                },
                None => Origin::Unknown,
            }
        }
    }

    /// The relay channel of the client at `addr`, if it has a session.
    pub fn channel(&self, addr: PeerAddr) -> (r: Option<&C>)
        requires
            self.wf(),
        ensures
            match r {
                Some(c) => self@.contains_key(addr) && *c == self@[addr],
                None => !self@.contains_key(addr),
            },
    {
        match self.find(addr) {
            Some(i) => {
                assert(self@.contains_key(self.clients@[i as int].0));
                Some(&self.clients[i].1)
            },
            None => None,
        }
    }

    /// Ends the session of the client at `addr`, if it has one, and hands its
    /// channel back.
    pub fn remove(&mut self, addr: PeerAddr) -> (r: Option<C>)
        requires
            old(self).wf(),
        ensures
            final(self).wf(),
            final(self).server_spec() == old(self).server_spec(),
            final(self)@ == old(self)@.remove(addr),
            match r {
                Some(c) => old(self)@.contains_key(addr) && c == old(self)@[addr],
                None => !old(self)@.contains_key(addr),
            },
    {
        match self.find(addr) {
            None => {
                assert(self@ =~= self@.remove(addr));
                None
            },
            Some(i) => {
                let ghost m0 = self.sessions@;
                let ghost e0 = self.clients@;
                proof {
                    assert(forall|a: int, b: int|
                        0 <= a < e0.len() && 0 <= b < e0.len() && a != b ==> #[trigger] e0[a].0
                            != #[trigger] e0[b].0);
                    assert(forall|a: int|
                        0 <= a < e0.len() ==> #[trigger] m0.contains_key(e0[a].0) && m0[e0[a].0]
                            == e0[a].1);
                    assert(m0.contains_key(e0[i as int].0));
                }
                let (_, c) = self.clients.remove(i);
                self.sessions = Ghost(m0.remove(addr));
                proof {
                    let m = self.sessions@;
                    let e = self.clients@;
                    assert(e =~= e0.remove(i as int));
                    assert forall|k: int| 0 <= k < e.len() implies #[trigger] m.contains_key(e[k].0)
                        && m[e[k].0] == e[k].1 by {
                        let k0 = if k < i { k } else { k + 1 };
                        assert(e[k] == e0[k0]);
                        assert(e0[k0].0 != e0[i as int].0);
                        assert(m0.contains_key(e0[k0].0) && m0[e0[k0].0] == e0[k0].1);
                    }
                    assert forall|a: PeerAddr| #[trigger] m.contains_key(a) implies exists|k: int|
                        0 <= k < e.len() && #[trigger] e[k].0 == a by {
                        let j = choose|j: int| 0 <= j < e0.len() && e0[j].0 == a;
                        if j < i {
                            assert(e[j] == e0[j]);
                        } else {
                            assert(e[j - 1] == e0[j]);
                        }
                    }
                    assert forall|a: int, b: int|
                        0 <= a < e.len() && 0 <= b < e.len() && a != b implies #[trigger] e[a].0
                        != #[trigger] e[b].0 by {
                        let a0 = if a < i { a } else { a + 1 };
                        let b0 = if b < i { b } else { b + 1 };
                        assert(e[a] == e0[a0]);
                        assert(e[b] == e0[b0]);
                        assert(e0[a0].0 != e0[b0].0);
                    }
                }
                Some(c)
            },
        }
    }

    /// Moves the session on by one event of the dispatch loop and says what
    /// the loop does next.
    pub fn step(&mut self, ev: HostEvent) -> (r: HostAction)
        requires
            old(self).wf(),
        ensures
            final(self).wf(),
            final(self).server_spec() == old(self).server_spec(),
            final(self)@ == host_sessions_after(old(self)@, ev),
            r == host_action_spec(old(self).server_spec(), old(self)@, ev),
    {
        match ev {
            HostEvent::Packet { from } => match self.origin(from) {
                Origin::Server => HostAction::ReadAnnouncement,
                Origin::KnownClient => HostAction::Forward(from),
                Origin::Unknown => HostAction::Done,
            },
            HostEvent::Announcement(Some(a)) => HostAction::StartSession(a),
            HostEvent::Announcement(None) => HostAction::Done,
            HostEvent::ForwardFailed(a) => {
                let _ = self.remove(a);
                HostAction::Done
            },
            HostEvent::Disconnect(a) => {
                let _ = self.remove(a);
                HostAction::Done
            },
            HostEvent::Other => HostAction::Done,
        }
    }

    /// Starts a session for the client at `client`, announced by the server,
    /// with relay channel `channel`; a session already held for that address
    /// is replaced. Returns the probe to send straight to the client.
    pub fn accept_client(&mut self, client: PeerAddr, channel: C) -> (r: Message)
        requires
            old(self).wf(),
        ensures
            final(self).wf(),
            final(self).server_spec() == old(self).server_spec(),
            final(self)@ == old(self)@.insert(client, channel),
            r.dest == client,
            r.delivery == Delivery::ReliableOrdered,
            payload_bytes(r) == seq![0u8],
    {
        let _ = self.remove(client);
        let ghost m0 = self.sessions@;
        let ghost e0 = self.clients@;
        self.clients.push((client, channel));
        self.sessions = Ghost(m0.insert(client, channel));
        proof {
            let m = self.sessions@;
            let e = self.clients@;
            assert(!m0.contains_key(client));
            assert forall|k: int| 0 <= k < e.len() implies #[trigger] m.contains_key(e[k].0)
                && m[e[k].0] == e[k].1 by {
                if k < e0.len() {
                    assert(e[k] == e0[k]);
                    assert(m0.contains_key(e0[k].0));
                }
            }
            assert forall|a: PeerAddr| #[trigger] m.contains_key(a) implies exists|k: int|
                0 <= k < e.len() && #[trigger] e[k].0 == a by {
                if a == client {
                    assert(e[e0.len() as int].0 == a);
                } else {
                    let j = choose|j: int| 0 <= j < e0.len() && e0[j].0 == a;
                    assert(e[j] == e0[j]);
                }
            }
            assert forall|a: int, b: int|
                0 <= a < e.len() && 0 <= b < e.len() && a != b implies #[trigger] e[a].0
                != #[trigger] e[b].0 by {
                if a < e0.len() {
                    assert(e[a] == e0[a]);
                    assert(m0.contains_key(e0[a].0));
                }
                if b < e0.len() {
                    assert(e[b] == e0[b]);
                    assert(m0.contains_key(e0[b].0));
                }
            }
            assert(self@ =~= old(self)@.insert(client, channel));
        }
        probe(client)
    }
}

/// The host's registration of its own `name` with the server at `server`.
pub fn host_registration(server: PeerAddr, name: &[u8]) -> (r: Message)
    ensures
        r.dest == server,
        r.delivery == Delivery::ReliableOrdered,
        payload_bytes(r) == seq![role_tag(Role::Host)] + name@,
{
    registration_message(server, Role::Host, name)
}

} // verus!
