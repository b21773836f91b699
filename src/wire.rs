//! Messages over the punched channel and the registration payload.
use vstd::prelude::*;
use vstd::utf8::valid_utf8;
use crate::addr::PeerAddr;
use crate::bytes::slice_range;

verus! {

/// Which side of a session a peer plays when it registers.
#[derive(Clone, Copy, Debug, PartialEq, Eq, Structural)]
pub enum Role {
    Client,
    Host,
}

/// The first byte of a registration payload for `role`.
pub open spec fn role_tag(role: Role) -> u8 {
    match role {
        Role::Client => 0,
        Role::Host => 1,
    }
}

/// The delivery class of a message.
#[derive(Clone, Copy, Debug, PartialEq, Eq, Structural)]
pub enum Delivery {
    ReliableOrdered,
    Unreliable,
}

/// What a message carries: raw bytes, or a socket address that goes on the
/// wire in its textual `ip:port` form.
#[derive(Debug)]
pub enum Payload {
    Bytes(Vec<u8>),
    Address(PeerAddr),
}

/// A message to be sent over the punched channel.
#[derive(Debug)]
pub struct Message {
    pub dest: PeerAddr,
    pub payload: Payload,
    pub delivery: Delivery,
}

/// The bytes a message carries, when it carries bytes.
pub open spec fn payload_bytes(m: Message) -> Seq<u8> {
    match m.payload {
        Payload::Bytes(b) => b@,
        Payload::Address(_) => Seq::empty(),
    }
}

/// A registration as the rendezvous server reads it; `role` is `None` for
/// a tag other than 0 or 1, which the server ignores.
#[derive(Debug)]
pub struct Registration {
    pub role: Option<Role>,
    pub name: Vec<u8>,
}

/// Why a registration payload was refused.
#[derive(Clone, Copy, Debug, PartialEq, Eq, Structural)]
pub enum RegistrationError {
    /// Fewer than two bytes: no role tag and name.
    TooShort,
    /// The name is not UTF-8.
    InvalidName,
}

/// The name part of a registration payload.
pub open spec fn name_part(p: Seq<u8>) -> Seq<u8> {
    p.subrange(1, p.len() as int)
}

/// The error a registration payload is refused with, if any.
pub open spec fn registration_error(p: Seq<u8>) -> Option<RegistrationError> {
    if p.len() < 2 {
        Some(RegistrationError::TooShort)
    } else if !valid_utf8(name_part(p)) {
        Some(RegistrationError::InvalidName)
    } else {
        None
    }
}

/// The role a registration payload names, if its tag is a known one.
pub open spec fn payload_role(p: Seq<u8>) -> Option<Role> {
    if p[0] == 0 {
        Some(Role::Client)
    } else if p[0] == 1 {
        Some(Role::Host)
    } else {
        None
    }
}

/// Relies on `std::str::from_utf8`, which succeeds exactly on valid UTF-8.
#[verifier::external_body]
fn is_utf8(b: &[u8]) -> (r: bool)
    ensures
        r == valid_utf8(b@),
{
    std::str::from_utf8(b).is_ok()
}

/// The payload with which a peer in `role` registers `name`: the role tag
/// followed by the name's bytes.
pub fn registration_payload(role: Role, name: &[u8]) -> (r: Vec<u8>)
    ensures
        r@ == seq![role_tag(role)] + name@,
{
    let mut r: Vec<u8> = Vec::new();
    match role {
        Role::Client => r.push(0),
        Role::Host => r.push(1),
    }
    let mut i: usize = 0;
    while i < name.len()
        invariant
            i <= name@.len(),
            r@ == seq![role_tag(role)] + name@.subrange(0, i as int),
        decreases name@.len() - i,
    {
        r.push(name[i]);
        i = i + 1;
        assert(name@.subrange(0, i as int) =~= name@.subrange(0, i - 1) + seq![name@[i - 1]]);
    }
    assert(name@.subrange(0, name@.len() as int) =~= name@);
    r
}

/// The reliable registration message of a peer in `role` for `name`, sent to
/// the rendezvous server at `server`.
pub fn registration_message(server: PeerAddr, role: Role, name: &[u8]) -> (r: Message)
    ensures
        r.dest == server,
        r.delivery == Delivery::ReliableOrdered,
        r.payload is Bytes,
        payload_bytes(r) == seq![role_tag(role)] + name@,
{
    Message {
        dest: server,
        payload: Payload::Bytes(registration_payload(role, name)),
        delivery: Delivery::ReliableOrdered,
    }
}

/// Reads a registration payload: a role tag (0 for a client, 1 for a host,
/// any other value for no known role) followed by a UTF-8 name of at least
/// one byte.
pub fn parse_registration(payload: &[u8]) -> (r: Result<Registration, RegistrationError>)
    ensures
        match r {
            Ok(reg) => {
                &&& registration_error(payload@) is None
                &&& reg.role == payload_role(payload@)
                &&& reg.name@ == name_part(payload@)
            },
            Err(e) => registration_error(payload@) == Some(e),
        },
{
    if payload.len() < 2 {
        return Err(RegistrationError::TooShort);
    }
    let name = slice_range(payload, 1, payload.len());
    if !is_utf8(name.as_slice()) {
        return Err(RegistrationError::InvalidName);
    }
    let tag = payload[0];
    let role = if tag == 0 {
        Some(Role::Client)
    } else if tag == 1 {
        Some(Role::Host)
    } else {
        None
    };
    Ok(Registration { role, name })
}

/// The one-byte probe sent straight to a peer to open the local NAT mapping
/// towards it.
pub fn probe(dest: PeerAddr) -> (r: Message)
    ensures
        r.dest == dest,
        r.delivery == Delivery::ReliableOrdered,
        r.payload is Bytes,
        payload_bytes(r) == seq![0u8],
{
    let b: Vec<u8> = vec![0u8];
    assert(b@ =~= seq![0u8]);
    Message { dest, payload: Payload::Bytes(b), delivery: Delivery::ReliableOrdered }
}

/// The reliable message that tells `dest` the address `about`.
pub open spec fn address_exchange_spec(dest: PeerAddr, about: PeerAddr) -> Message {
    Message { dest, payload: Payload::Address(about), delivery: Delivery::ReliableOrdered }
}

/// The message that tells `dest` the address of its counterpart `about`.
pub fn address_exchange(dest: PeerAddr, about: PeerAddr) -> (r: Message)
    ensures
        r == address_exchange_spec(dest, about),
{
    Message { dest, payload: Payload::Address(about), delivery: Delivery::ReliableOrdered }
}

/// A registration payload built for a role and a non-empty UTF-8 name reads
/// back as that role and name.
pub proof fn lemma_registration_round_trip(role: Role, name: Seq<u8>)
    requires
        name.len() > 0,
        valid_utf8(name),
    ensures
        registration_error(seq![role_tag(role)] + name) is None,
        payload_role(seq![role_tag(role)] + name) == Some(role),
        name_part(seq![role_tag(role)] + name) == name,
{
    let p = seq![role_tag(role)] + name;
    assert(name_part(p) =~= name);
    assert(p[0] == role_tag(role));
}

} // verus!
