use hole_punch::bytes::{bytes_eq, copy_bytes, slice_range};
use hole_punch::addr::PeerAddr;
use hole_punch::registry::HostRegistry;
use hole_punch::server::{handle_disconnect, handle_payload, replies, ServerOutcome};
use hole_punch::wire::{registration_payload, Delivery, Payload, RegistrationError, Role};
use std::sync::Mutex;

fn v4(a: u8, b: u8, c: u8, d: u8, port: u16) -> PeerAddr {
    PeerAddr::V4 { ip: u32::from_be_bytes([a, b, c, d]), port }
}

#[test]
fn registered_host_is_found_by_name() {
    let mut reg = HostRegistry::new(2);
    let host = v4(10, 0, 0, 1, 4000);
    assert!(reg.register(b"test".to_vec(), host));
    assert_eq!(reg.lookup(b"test"), Some(host));
    assert_eq!(reg.lookup(b"other"), None);
    assert_eq!(reg.len(), 1);
    assert_eq!(reg.max_hosts(), 2);
}

#[test]
fn client_lookup_introduces_both_peers() {
    let mut reg = HostRegistry::new(4);
    let host = v4(10, 0, 0, 1, 4000);
    let client = v4(10, 0, 0, 2, 5000);
    let out = handle_payload(&mut reg, host, &registration_payload(Role::Host, b"test"));
    assert_eq!(out, Ok(ServerOutcome::HostRegistered));
    let out = handle_payload(&mut reg, client, &registration_payload(Role::Client, b"test"));
    assert_eq!(out, Ok(ServerOutcome::Introduce { host, client }));
    let msgs = replies(out.unwrap());
    assert_eq!(msgs.len(), 2);
    assert_eq!(msgs[0].dest, host);
    assert!(matches!(msgs[0].payload, Payload::Address(a) if a == client));
    assert_eq!(msgs[0].delivery, Delivery::ReliableOrdered);
    assert_eq!(msgs[1].dest, client);
    assert!(matches!(msgs[1].payload, Payload::Address(a) if a == host));
    assert_eq!(msgs[1].delivery, Delivery::ReliableOrdered);
}

#[test]
fn same_name_twice_keeps_first_registrant() {
    let mut reg = HostRegistry::new(4);
    let first = v4(10, 0, 0, 1, 4000);
    let second = v4(10, 0, 0, 3, 4001);
    assert!(reg.register(b"test".to_vec(), first));
    assert!(!reg.register(b"test".to_vec(), second));
    assert_eq!(reg.lookup(b"test"), Some(first));
    assert_eq!(reg.len(), 1);
    let out = handle_payload(&mut reg, second, &registration_payload(Role::Host, b"test"));
    assert_eq!(out, Ok(ServerOutcome::HostRejected));
    assert_eq!(reg.lookup(b"test"), Some(first));
}

#[test]
fn registration_beyond_capacity_is_rejected() {
    let mut reg = HostRegistry::new(1);
    assert!(reg.register(b"a".to_vec(), v4(1, 1, 1, 1, 1)));
    assert!(!reg.register(b"b".to_vec(), v4(2, 2, 2, 2, 2)));
    assert_eq!(reg.len(), 1);
    assert_eq!(reg.lookup(b"b"), None);
    let mut empty = HostRegistry::new(0);
    assert!(!empty.register(b"a".to_vec(), v4(1, 1, 1, 1, 1)));
    assert_eq!(empty.len(), 0);
}

#[test]
fn address_holds_one_name() {
    let mut reg = HostRegistry::new(4);
    let host = v4(10, 0, 0, 1, 4000);
    assert!(reg.register(b"a".to_vec(), host));
    assert!(!reg.register(b"b".to_vec(), host));
    assert_eq!(reg.lookup(b"b"), None);
}

#[test]
fn disconnect_removes_host() {
    let mut reg = HostRegistry::new(2);
    let host = v4(10, 0, 0, 1, 4000);
    let other = v4(10, 0, 0, 9, 4000);
    let client = v4(10, 0, 0, 2, 5000);
    assert!(reg.register(b"test".to_vec(), host));
    assert!(reg.register(b"keep".to_vec(), other));
    handle_disconnect(&mut reg, client);
    assert_eq!(reg.len(), 2);
    handle_disconnect(&mut reg, host);
    assert_eq!(reg.lookup(b"test"), None);
    assert_eq!(reg.lookup(b"keep"), Some(other));
    assert_eq!(reg.len(), 1);
    let out = handle_payload(&mut reg, client, &registration_payload(Role::Client, b"test"));
    assert_eq!(out, Ok(ServerOutcome::UnknownHost));
    assert!(replies(out.unwrap()).is_empty());
    // the freed name can be taken again
    assert!(reg.register(b"test".to_vec(), v4(10, 0, 0, 5, 1)));
}

#[test]
fn malformed_registrations_are_reported() {
    let mut reg = HostRegistry::new(2);
    let from = v4(10, 0, 0, 1, 4000);
    assert_eq!(handle_payload(&mut reg, from, &[]), Err(RegistrationError::TooShort));
    assert_eq!(handle_payload(&mut reg, from, &[1]), Err(RegistrationError::TooShort));
    assert_eq!(
        handle_payload(&mut reg, from, &[1, 0xff, 0xfe]),
        Err(RegistrationError::InvalidName)
    );
    assert_eq!(reg.len(), 0);
}

#[test]
fn unknown_role_tag_is_ignored() {
    let mut reg = HostRegistry::new(2);
    let from = v4(10, 0, 0, 1, 4000);
    assert!(reg.register(b"x".to_vec(), v4(10, 0, 0, 2, 1)));
    let out = handle_payload(&mut reg, from, &[7, b'x']);
    assert_eq!(out, Ok(ServerOutcome::Ignored));
    assert!(replies(out.unwrap()).is_empty());
    assert_eq!(reg.len(), 1);
    assert_eq!(reg.lookup(b"x"), Some(v4(10, 0, 0, 2, 1)));
    assert_eq!(reg.name_at(from), None);
}

#[test]
fn utf8_names_are_accepted() {
    let mut reg = HostRegistry::new(2);
    let from = v4(10, 0, 0, 1, 4000);
    let name = "h\u{f4}te".as_bytes();
    let out = handle_payload(&mut reg, from, &registration_payload(Role::Host, name));
    assert_eq!(out, Ok(ServerOutcome::HostRegistered));
    assert_eq!(reg.lookup(name), Some(from));
}

#[test]
fn distinct_registrations_up_to_capacity_all_succeed() {
    let max = 16usize;
    let reg = Mutex::new(HostRegistry::new(max));
    // registrations arrive in an interleaved order, each under the lock
    let order: Vec<usize> = (0..max).map(|i| (i * 7) % max).collect();
    for &i in &order {
        let name = format!("host{}", i).into_bytes();
        let addr = v4(10, 0, 1, i as u8, 4000 + i as u16);
        let mut guard = reg.lock().unwrap();
        let out = handle_payload(&mut guard, addr, &registration_payload(Role::Host, &name));
        assert_eq!(out, Ok(ServerOutcome::HostRegistered));
    }
    let mut guard = reg.lock().unwrap();
    assert_eq!(guard.len(), max);
    for i in 0..max {
        let name = format!("host{}", i).into_bytes();
        assert_eq!(guard.lookup(&name), Some(v4(10, 0, 1, i as u8, 4000 + i as u16)));
    }
    assert!(!guard.register(b"one more".to_vec(), v4(10, 0, 2, 0, 1)));
}

#[test]
fn reverse_lookup_by_address() {
    let mut reg = HostRegistry::new(2);
    let host = v4(10, 0, 0, 1, 4000);
    assert_eq!(reg.name_at(host), None);
    assert!(reg.register(b"test".to_vec(), host));
    assert_eq!(reg.name_at(host), Some(b"test".to_vec()));
    assert_eq!(reg.name_at(v4(10, 0, 0, 1, 4001)), None);
}

#[test]
fn byte_helpers() {
    assert!(bytes_eq(b"abc", b"abc"));
    assert!(!bytes_eq(b"abc", b"abd"));
    assert!(!bytes_eq(b"ab", b"abc"));
    assert_eq!(copy_bytes(b"xyz"), b"xyz".to_vec());
    assert_eq!(slice_range(b"hello", 1, 4), b"ell".to_vec());
}
