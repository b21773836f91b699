use hole_punch::addr::PeerAddr;
use hole_punch::client::{client_registration, punch, Handshake, HandshakeError, HandshakeEvent};
use hole_punch::config::Config;
use hole_punch::host::{host_registration, HostAction, HostEvent, HostSession, Origin};
use hole_punch::registry::HostRegistry;
use hole_punch::server::{handle_payload, replies, ServerOutcome};
use hole_punch::tunnel::{stream_of, tcp_messages, Stream, CHUNK_SIZE};
use hole_punch::wire::{parse_registration, probe, Delivery, Payload, Role};

fn bytes(p: &Payload) -> Vec<u8> {
    match p {
        Payload::Bytes(b) => b.clone(),
        Payload::Address(_) => panic!("address payload"),
    }
}

#[test]
fn registration_payloads() {
    let server = PeerAddr::loopback(1234);
    let c = client_registration(server, b"test");
    assert_eq!(c.dest, server);
    assert_eq!(c.delivery, Delivery::ReliableOrdered);
    assert_eq!(bytes(&c.payload), b"\x00test".to_vec());
    let h = host_registration(server, b"test");
    assert_eq!(bytes(&h.payload), b"\x01test".to_vec());
    let reg = parse_registration(&bytes(&h.payload)).unwrap();
    assert_eq!(reg.role, Some(Role::Host));
    assert_eq!(reg.name, b"test".to_vec());
}

#[test]
fn probes_are_one_byte() {
    let peer = PeerAddr::loopback(7);
    for m in [probe(peer), punch(peer)] {
        assert_eq!(m.dest, peer);
        assert_eq!(m.delivery, Delivery::ReliableOrdered);
        assert_eq!(bytes(&m.payload), vec![0u8]);
    }
}

#[test]
fn handshake_connects_on_exchange() {
    let host = PeerAddr::loopback(1235);
    let s = Handshake::start();
    assert!(s.waits_with_timeout());
    let s = s.step(HandshakeEvent::Other);
    assert_eq!(s, Handshake::AwaitingExchange);
    assert!(!s.waits_with_timeout());
    assert_eq!(s.outcome(), None);
    let s = s.step(HandshakeEvent::Received(Some(host)));
    assert_eq!(s, Handshake::Connected(host));
    assert_eq!(s.outcome(), Some(Ok(host)));
    assert_eq!(s.step(HandshakeEvent::Closed), Handshake::Connected(host));
}

#[test]
fn handshake_timeout_is_recoverable_failure() {
    let s = Handshake::start().step(HandshakeEvent::TimedOut);
    assert_eq!(s, Handshake::Failed(HandshakeError::TimedOut));
    assert_eq!(s.outcome(), Some(Err(HandshakeError::TimedOut)));
    let s = s.step(HandshakeEvent::Received(Some(PeerAddr::loopback(1))));
    assert_eq!(s, Handshake::Failed(HandshakeError::TimedOut));
}

#[test]
fn handshake_failures() {
    let waiting = Handshake::start().step(HandshakeEvent::Received(None));
    assert_eq!(waiting, Handshake::AwaitingExchange);
    assert_eq!(
        waiting.step(HandshakeEvent::Received(None)),
        Handshake::Failed(HandshakeError::Malformed)
    );
    assert_eq!(waiting.step(HandshakeEvent::Other), Handshake::Failed(HandshakeError::NoExchange));
    assert_eq!(waiting.step(HandshakeEvent::Closed), Handshake::Failed(HandshakeError::Closed));
    assert_eq!(
        Handshake::start().step(HandshakeEvent::Closed),
        Handshake::Failed(HandshakeError::Closed)
    );
}

#[test]
fn host_session_routes_by_origin() {
    let server = PeerAddr::loopback(1234);
    let a = PeerAddr::loopback(5000);
    let b = PeerAddr::loopback(5001);
    let mut s: HostSession<u32> = HostSession::new(server);
    assert_eq!(s.server(), server);
    assert_eq!(s.origin(server), Origin::Server);
    assert_eq!(s.origin(a), Origin::Unknown);
    let p = s.accept_client(a, 1);
    assert_eq!(p.dest, a);
    assert_eq!(bytes(&p.payload), vec![0u8]);
    s.accept_client(b, 2);
    assert_eq!(s.len(), 2);
    assert_eq!(s.origin(a), Origin::KnownClient);
    assert_eq!(s.channel(a), Some(&1));
    s.accept_client(a, 3);
    assert_eq!(s.len(), 2);
    assert_eq!(s.channel(a), Some(&3));
    assert_eq!(s.remove(a), Some(3));
    assert_eq!(s.origin(a), Origin::Unknown);
    assert_eq!(s.channel(a), None);
    assert_eq!(s.remove(a), None);
    assert_eq!(s.channel(b), Some(&2));
    assert_eq!(s.len(), 1);
}

#[test]
fn config_defaults() {
    let c = Config::default();
    assert_eq!(c.server_addr, "");
    assert_eq!(c.server_port, 1324);
    assert_eq!(c.client_port, 1234);
    assert_eq!(c.client_name, "");
    assert_eq!(c.host_port, 1235);
    assert_eq!(c.host_name, "");
}

#[test]
fn exchange_then_tunnel_test_message() {
    // server with room for one host, a host named "test" and a client asking for it
    let server = PeerAddr::loopback(1234);
    let host_addr = PeerAddr::loopback(1235);
    let client_addr = PeerAddr::loopback(1236);
    let mut reg = HostRegistry::new(1);
    let h = host_registration(server, b"test");
    assert_eq!(handle_payload(&mut reg, host_addr, &bytes(&h.payload)), Ok(ServerOutcome::HostRegistered));
    let c = client_registration(server, b"test");
    let out = handle_payload(&mut reg, client_addr, &bytes(&c.payload)).unwrap();
    let msgs = replies(out);

    // the host learns the client's address and starts a session for it
    let mut host: HostSession<Vec<Vec<u8>>> = HostSession::new(server);
    assert_eq!(host.origin(server), Origin::Server);
    let announced = match msgs[0].payload {
        Payload::Address(a) => a,
        _ => panic!("no address"),
    };
    assert_eq!(announced, client_addr);
    host.accept_client(announced, Vec::new());

    // the client learns the host's address
    let learned = match msgs[1].payload {
        Payload::Address(a) => a,
        _ => panic!("no address"),
    };
    let s = Handshake::start()
        .step(HandshakeEvent::Other)
        .step(HandshakeEvent::Received(Some(learned)));
    assert_eq!(s, Handshake::Connected(host_addr));

    // bytes written on the client side reach the host side whole
    let sent = b"TEST MESSAGE";
    let framed = tcp_messages(host_addr, sent, CHUNK_SIZE);
    let mut received = Vec::new();
    for m in &framed {
        assert_eq!(host.origin(client_addr), Origin::KnownClient);
        if stream_of(m.delivery) == Stream::Tcp {
            received.extend(bytes(&m.payload));
        }
    }
    assert_eq!(received.len(), 12);
    assert_eq!(received, sent.to_vec());
}

#[test]
fn host_step_decides_per_event() {
    let server = PeerAddr::loopback(1234);
    let a = PeerAddr::loopback(5000);
    let stranger = PeerAddr::loopback(6000);
    let mut s: HostSession<u32> = HostSession::new(server);
    assert_eq!(s.step(HostEvent::Packet { from: server }), HostAction::ReadAnnouncement);
    assert_eq!(s.step(HostEvent::Announcement(None)), HostAction::Done);
    assert_eq!(s.step(HostEvent::Announcement(Some(a))), HostAction::StartSession(a));
    assert_eq!(s.len(), 0);
    s.accept_client(a, 1);
    assert_eq!(s.step(HostEvent::Packet { from: a }), HostAction::Forward(a));
    assert_eq!(s.step(HostEvent::Packet { from: stranger }), HostAction::Done);
    assert_eq!(s.step(HostEvent::Other), HostAction::Done);
    assert_eq!(s.len(), 1);
    assert_eq!(s.step(HostEvent::ForwardFailed(a)), HostAction::Done);
    assert_eq!(s.len(), 0);
    assert_eq!(s.step(HostEvent::Packet { from: a }), HostAction::Done);
    s.accept_client(a, 2);
    assert_eq!(s.step(HostEvent::Disconnect(stranger)), HostAction::Done);
    assert_eq!(s.len(), 1);
    assert_eq!(s.step(HostEvent::Disconnect(a)), HostAction::Done);
    assert_eq!(s.channel(a), None);
}
