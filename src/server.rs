//! The rendezvous server's handling of registrations and disconnects.
use vstd::prelude::*;
use crate::addr::PeerAddr;
use crate::registry::{
    HostRegistry,
    after_register,
    can_register,
    lookup_spec,
    without_address,
};
use crate::wire::{
    Message,
    Registration,
    RegistrationError,
    Role,
    address_exchange,
    address_exchange_spec,
    name_part,
    parse_registration,
    payload_role,
    registration_error,
};

verus! {

/// What the server did with a well-formed registration.
#[derive(Clone, Copy, Debug, PartialEq, Eq, Structural)]
pub enum ServerOutcome {
    /// A host took its name.
    HostRegistered,
    /// A host's name was taken, its address already held a name, or the
    /// registry was full; no answer is sent.
    HostRejected,
    /// A client asked for a registered host: each is told the other's address.
    Introduce { host: PeerAddr, client: PeerAddr },
    /// A client asked for a name that no host holds; no answer is sent.
    UnknownHost,
    /// The role tag was neither a client's nor a host's; nothing changes and
    /// no answer is sent.
    Ignored,
}

/// The outcome of a registration payload `p` from `from` against the
/// registry `m` of capacity `max_hosts`.
pub open spec fn outcome_spec(
    m: Map<Seq<u8>, PeerAddr>,
    max_hosts: nat,
    from: PeerAddr,
    p: Seq<u8>,
) -> ServerOutcome {
    match payload_role(p) {
        None => ServerOutcome::Ignored,
        Some(Role::Host) => if can_register(m, max_hosts, name_part(p), from) {
            ServerOutcome::HostRegistered
        } else {
            ServerOutcome::HostRejected
        },
        Some(Role::Client) => match lookup_spec(m, name_part(p)) {
            Some(host) => ServerOutcome::Introduce { host, client: from },
            None => ServerOutcome::UnknownHost,
        },
    }
}

/// The registry after a registration payload `p` from `from`.
pub open spec fn registry_after(
    m: Map<Seq<u8>, PeerAddr>,
    max_hosts: nat,
    from: PeerAddr,
    p: Seq<u8>,
) -> Map<Seq<u8>, PeerAddr> {
    if registration_error(p) is None && payload_role(p) == Some(Role::Host) {
        after_register(m, max_hosts, name_part(p), from)
    } else {
        m
    }
}

/// Handles one payload that the peer at `from` sent to the server. A host
/// registration takes the name if it can; a client registration looks the
/// name up. A payload with another role tag changes nothing and is
/// ignored; a malformed payload changes nothing and is reported.
pub fn handle_payload(registry: &mut HostRegistry, from: PeerAddr, payload: &[u8]) -> (r: Result<
    ServerOutcome,
    RegistrationError,
>)
    requires
        old(registry).wf(),
    ensures
        final(registry).wf(),
        final(registry).capacity() == old(registry).capacity(),
        final(registry)@ == registry_after(old(registry)@, old(registry).capacity(), from, payload@),
        match r {
            Ok(o) => registration_error(payload@) is None && o == outcome_spec(
                old(registry)@,
                old(registry).capacity(),
                from,
                payload@,
            ),
            Err(e) => registration_error(payload@) == Some(e),
        },
{
    match parse_registration(payload) {
        Err(e) => Err(e),
        Ok(reg) => {
            let Registration { role, name } = reg;
            match role {
                None => Ok(ServerOutcome::Ignored),
                Some(Role::Host) => {
                    if registry.register(name, from) {
                        Ok(ServerOutcome::HostRegistered)
                    } else {
                        Ok(ServerOutcome::HostRejected)
                    }
                },
                Some(Role::Client) => match registry.lookup(name.as_slice()) {
                    Some(host) => Ok(ServerOutcome::Introduce { host, client: from }),
                    None => Ok(ServerOutcome::UnknownHost),
                },
            }
        },
    }
}

/// Handles the disconnect of the peer at `addr`: a host registered there
/// loses its name.
pub fn handle_disconnect(registry: &mut HostRegistry, addr: PeerAddr)
    requires
        old(registry).wf(),
    ensures
        final(registry).wf(),
        final(registry).capacity() == old(registry).capacity(),
        final(registry)@ == without_address(old(registry)@, addr),
{
    registry.remove_address(addr);
}

/// The messages an outcome asks the server to send: for an introduction, the
/// client's address to the host and the host's address to the client, in
/// that order; nothing otherwise.
pub fn replies(outcome: ServerOutcome) -> (r: Vec<Message>)
    ensures
        match outcome {
            ServerOutcome::Introduce { host, client } => {
                &&& r@.len() == 2
                &&& r@[0] == address_exchange_spec(host, client)
                &&& r@[1] == address_exchange_spec(client, host)
            },
            _ => r@.len() == 0,
        },
{
    let mut r: Vec<Message> = Vec::new();
    match outcome {
        ServerOutcome::Introduce { host, client } => {
            r.push(address_exchange(host, client));
            r.push(address_exchange(client, host));
        },
        _ => {},
    }
    r
}

/// Once a host at `host` has registered `name` while there was room, a
/// client at `client` that asks for `name` is introduced to exactly that
/// host, and the host is told exactly the client's address.
pub proof fn lemma_registered_host_is_introduced(
    m: Map<Seq<u8>, PeerAddr>,
    max_hosts: nat,
    name: Seq<u8>,
    host: PeerAddr,
    client: PeerAddr,
)
    requires
        can_register(m, max_hosts, name, host),
        registration_error(seq![1u8] + name) is None,
    ensures
        registration_error(seq![0u8] + name) is None,
        outcome_spec(m, max_hosts, host, seq![1u8] + name) == ServerOutcome::HostRegistered,
        outcome_spec(
            registry_after(m, max_hosts, host, seq![1u8] + name),
            max_hosts,
            client,
            seq![0u8] + name,
        ) == (ServerOutcome::Introduce { host, client }),
{
    let ph = seq![1u8] + name;
    let pc = seq![0u8] + name;
    assert(name_part(ph) =~= name);
    assert(name_part(pc) =~= name);
    assert(ph[0] == 1u8);
    assert(pc[0] == 0u8);
}

/// After the host holding `name` disconnects, a client asking for `name`
/// is introduced to nobody.
pub proof fn lemma_disconnect_forgets_host(
    m: Map<Seq<u8>, PeerAddr>,
    max_hosts: nat,
    name: Seq<u8>,
    host: PeerAddr,
    client: PeerAddr,
)
    requires
        m.contains_key(name),
        m[name] == host,
        registration_error(seq![0u8] + name) is None,
    ensures
        !without_address(m, host).contains_key(name),
        outcome_spec(without_address(m, host), max_hosts, client, seq![0u8] + name)
            == ServerOutcome::UnknownHost,
{
    let pc = seq![0u8] + name;
    assert(name_part(pc) =~= name);
    assert(pc[0] == 0u8);
}

} // verus!
