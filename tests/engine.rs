use boringtun::errors::WireGuardError;
use boringtun::session::{REJECT_AFTER_MESSAGES, REKEY_AFTER_MESSAGES};
use chacha20poly1305::aead::{Aead, KeyInit, Payload};
use chacha20poly1305::ChaCha20Poly1305;
use boringtun::timers::{KEEPALIVE_TIMEOUT, REKEY_AFTER_TIME, REKEY_TIMEOUT};
use boringtun::tunnel::{Tunn, TunnelResult};
use x25519_dalek::{PublicKey, StaticSecret};

const T0: u64 = 1_700_000_000_000;

fn keypair(seed: u8) -> (Vec<u8>, Vec<u8>) {
    let sk = StaticSecret::from([seed; 32]);
    let pk = PublicKey::from(&sk);
    (sk.to_bytes().to_vec(), pk.to_bytes().to_vec())
}

fn pair(rate_b: Option<u64>) -> (Tunn, Tunn) {
    let (a_priv, a_pub) = keypair(7);
    let (b_priv, b_pub) = keypair(9);
    let a = Tunn::new(a_priv, b_pub, None, None, 1, None, T0);
    let b = Tunn::new(b_priv, a_pub, None, None, 2, rate_b, T0);
    (a, b)
}

fn net(r: TunnelResult) -> Vec<u8> {
    match r {
        TunnelResult::WriteToNetwork(m) => m,
        other => panic!("expected a network write, got {:?}", other),
    }
}

fn handshake(a: &mut Tunn, b: &mut Tunn, now: u64) {
    let m1 = net(a.format_handshake_initiation(now, true));
    let m2 = net(b.decapsulate(&[], &m1, now));
    assert_eq!(a.decapsulate(&[], &m2, now), TunnelResult::Done);
}

fn ipv4(body: &[u8]) -> Vec<u8> {
    let mut p = vec![0x45u8, 0, 0, 0];
    p.extend_from_slice(body);
    p
}

#[test]
fn end_to_end_hello() {
    let (mut a, mut b) = pair(None);
    let m1 = net(a.format_handshake_initiation(T0, true));
    assert_eq!(m1.len(), 148);
    assert_eq!(&m1[0..4], &[1, 0, 0, 0]);
    let m2 = net(b.decapsulate(&[], &m1, T0));
    assert_eq!(m2.len(), 92);
    assert_eq!(&m2[0..4], &[2, 0, 0, 0]);
    assert_eq!(a.decapsulate(&[], &m2, T0), TunnelResult::Done);
    assert!(a.sessions.current.is_some());
    let hello = ipv4(b"hello");
    let c = net(a.encapsulate(&hello, T0 + 1));
    assert_eq!(c.len(), hello.len() + 32);
    assert_eq!(b.decapsulate(&[], &c, T0 + 2), TunnelResult::WriteToTunnelV4(hello));
}

#[test]
fn round_trip_both_ways_and_sizes() {
    let (mut a, mut b) = pair(None);
    handshake(&mut a, &mut b, T0);
    for n in [1usize, 20, 100, 1400] {
        let mut p = ipv4(&vec![0xabu8; n]);
        let c = net(a.encapsulate(&p, T0 + 5));
        assert_eq!(b.decapsulate(&[], &c, T0 + 6), TunnelResult::WriteToTunnelV4(p.clone()));
        p[0] = 0x60;
        let c = net(b.encapsulate(&p, T0 + 7));
        assert_eq!(a.decapsulate(&[], &c, T0 + 8), TunnelResult::WriteToTunnelV6(p));
    }
}

#[test]
fn replayed_transport_is_rejected() {
    let (mut a, mut b) = pair(None);
    handshake(&mut a, &mut b, T0);
    let c = net(a.encapsulate(&ipv4(b"once"), T0 + 1));
    assert!(matches!(b.decapsulate(&[], &c, T0 + 2), TunnelResult::WriteToTunnelV4(_)));
    assert_eq!(b.decapsulate(&[], &c, T0 + 3), TunnelResult::Error(WireGuardError::DuplicateCounter));
}

#[test]
fn reordered_packets_within_window_are_accepted() {
    let (mut a, mut b) = pair(None);
    handshake(&mut a, &mut b, T0);
    let c0 = net(a.encapsulate(&ipv4(b"zero"), T0 + 1));
    let c1 = net(a.encapsulate(&ipv4(b"one"), T0 + 1));
    let c2 = net(a.encapsulate(&ipv4(b"two"), T0 + 1));
    assert!(matches!(b.decapsulate(&[], &c2, T0 + 2), TunnelResult::WriteToTunnelV4(_)));
    assert!(matches!(b.decapsulate(&[], &c0, T0 + 2), TunnelResult::WriteToTunnelV4(_)));
    assert!(matches!(b.decapsulate(&[], &c1, T0 + 2), TunnelResult::WriteToTunnelV4(_)));
    assert_eq!(b.decapsulate(&[], &c0, T0 + 2), TunnelResult::Error(WireGuardError::DuplicateCounter));
}

#[test]
fn exhausted_counter_forces_handshake() {
    let (mut a, mut b) = pair(None);
    handshake(&mut a, &mut b, T0);
    a.sessions.current.as_mut().unwrap().tx_counter = REJECT_AFTER_MESSAGES;
    let m = net(a.encapsulate(&ipv4(b"data"), T0 + 1));
    assert_eq!(m.len(), 148);
    assert_eq!(&m[0..4], &[1, 0, 0, 0]);
    // a second send waits for the handshake in flight
    assert_eq!(a.encapsulate(&ipv4(b"data"), T0 + 2), TunnelResult::Done);
}

#[test]
fn no_session_starts_handshake() {
    let (mut a, _b) = pair(None);
    let m = net(a.encapsulate(&ipv4(b"x"), T0));
    assert_eq!(m.len(), 148);
    assert_eq!(a.encapsulate(&ipv4(b"x"), T0 + 1), TunnelResult::Done);
}

#[test]
fn cookie_under_load_then_mac2_succeeds() {
    let (mut a, mut b) = pair(Some(0));
    let addr = [10u8, 0, 0, 1];
    let m1 = net(a.format_handshake_initiation(T0, true));
    let reply = net(b.decapsulate(&addr, &m1, T0));
    assert_eq!(reply.len(), 64);
    assert_eq!(&reply[0..4], &[3, 0, 0, 0]);
    assert_eq!(a.decapsulate(&addr, &reply, T0), TunnelResult::Done);
    let m1b = net(a.format_handshake_initiation(T0 + 1, true));
    let m2 = net(b.decapsulate(&addr, &m1b, T0 + 1));
    assert_eq!(m2.len(), 92);
    assert_eq!(a.decapsulate(&addr, &m2, T0 + 1), TunnelResult::Done);
}

#[test]
fn old_session_still_decrypts_after_rekey() {
    let (mut a, mut b) = pair(None);
    handshake(&mut a, &mut b, T0);
    let first = net(a.encapsulate(&ipv4(b"first"), T0 + 1));
    assert!(matches!(b.decapsulate(&[], &first, T0 + 1), TunnelResult::WriteToTunnelV4(_)));
    let in_flight = net(a.encapsulate(&ipv4(b"late"), T0 + 2));
    handshake(&mut a, &mut b, T0 + 3);
    let fresh = net(a.encapsulate(&ipv4(b"new"), T0 + 4));
    assert!(matches!(b.decapsulate(&[], &fresh, T0 + 4), TunnelResult::WriteToTunnelV4(_)));
    assert_eq!(b.decapsulate(&[], &in_flight, T0 + 10_000), TunnelResult::WriteToTunnelV4(ipv4(b"late")));
}

#[test]
fn old_session_expires_after_reject_time() {
    let (mut a, mut b) = pair(None);
    handshake(&mut a, &mut b, T0);
    let first = net(a.encapsulate(&ipv4(b"first"), T0 + 1));
    assert!(matches!(b.decapsulate(&[], &first, T0 + 1), TunnelResult::WriteToTunnelV4(_)));
    let in_flight = net(a.encapsulate(&ipv4(b"late"), T0 + 2));
    handshake(&mut a, &mut b, T0 + 3);
    let fresh = net(a.encapsulate(&ipv4(b"new"), T0 + 4));
    assert!(matches!(b.decapsulate(&[], &fresh, T0 + 4), TunnelResult::WriteToTunnelV4(_)));
    assert_eq!(b.decapsulate(&[], &in_flight, T0 + 4 + 180_000), TunnelResult::Error(WireGuardError::WrongIndex));
}

#[test]
fn keepalive_once_then_rekey() {
    let (mut a, mut b) = pair(None);
    handshake(&mut a, &mut b, T0);
    let c = net(a.encapsulate(&ipv4(b"ping"), T0));
    assert!(matches!(b.decapsulate(&[], &c, T0), TunnelResult::WriteToTunnelV4(_)));
    let mut keepalives = 0;
    let mut initiations = 0;
    let mut t = T0;
    while t <= T0 + REKEY_AFTER_TIME + REKEY_TIMEOUT - 1000 {
        match b.update_timers(t) {
            TunnelResult::WriteToNetwork(m) if m.len() == 32 => {
                keepalives += 1;
                assert_eq!(t, T0 + KEEPALIVE_TIMEOUT);
            }
            TunnelResult::WriteToNetwork(m) if m.len() == 148 => {
                initiations += 1;
                assert_eq!(t, T0 + REKEY_AFTER_TIME);
            }
            TunnelResult::Done => {}
            other => panic!("unexpected {:?}", other),
        }
        t += 1000;
    }
    assert_eq!(keepalives, 1);
    assert_eq!(initiations, 1);
}

#[test]
fn keepalive_is_accepted_as_done() {
    let (mut a, mut b) = pair(None);
    handshake(&mut a, &mut b, T0);
    let c = net(a.encapsulate(&ipv4(b"ping"), T0));
    assert!(matches!(b.decapsulate(&[], &c, T0), TunnelResult::WriteToTunnelV4(_)));
    let k = net(b.update_timers(T0 + KEEPALIVE_TIMEOUT));
    assert_eq!(k.len(), 32);
    assert_eq!(a.decapsulate(&[], &k, T0 + KEEPALIVE_TIMEOUT), TunnelResult::Done);
}

#[test]
fn handshake_retries_then_abandons() {
    let (mut a, _b) = pair(None);
    let _ = net(a.format_handshake_initiation(T0, false));
    assert_eq!(a.update_timers(T0 + 1000), TunnelResult::Done);
    assert_eq!(net(a.update_timers(T0 + REKEY_TIMEOUT)).len(), 148);
    assert_eq!(a.update_timers(T0 + 90_000), TunnelResult::Done);
    assert!(a.timers.handshake_started.is_none());
    assert_eq!(net(a.encapsulate(&ipv4(b"x"), T0 + 91_000)).len(), 148);
}

#[test]
fn malformed_and_unknown_packets() {
    let (mut a, mut b) = pair(None);
    assert_eq!(b.decapsulate(&[], &[1, 2, 3], T0), TunnelResult::Error(WireGuardError::InvalidPacket));
    assert_eq!(b.decapsulate(&[], &[1, 0, 0, 0, 5], T0), TunnelResult::Error(WireGuardError::InvalidPacket));
    let mut data = vec![4u8, 0, 0, 0];
    data.extend_from_slice(&[0u8; 40]);
    assert_eq!(b.decapsulate(&[], &data, T0), TunnelResult::Error(WireGuardError::WrongIndex));
    let mut m1 = net(a.format_handshake_initiation(T0, true));
    m1[20] ^= 1;
    assert_eq!(b.decapsulate(&[], &m1, T0), TunnelResult::Error(WireGuardError::InvalidMac));
}

#[test]
fn replayed_initiation_is_rejected() {
    let (mut a, mut b) = pair(None);
    let m1 = net(a.format_handshake_initiation(T0, true));
    assert_eq!(net(b.decapsulate(&[], &m1, T0)).len(), 92);
    assert_eq!(b.decapsulate(&[], &m1, T0 + 5), TunnelResult::Error(WireGuardError::WrongTai64nTimestamp));
}

#[test]
fn forged_transport_is_rejected() {
    let (mut a, mut b) = pair(None);
    handshake(&mut a, &mut b, T0);
    let mut c = net(a.encapsulate(&ipv4(b"secret"), T0 + 1));
    let last = c.len() - 1;
    c[last] ^= 0x80;
    assert_eq!(b.decapsulate(&[], &c, T0 + 2), TunnelResult::Error(WireGuardError::InvalidAeadTag));
}

#[test]
fn wrong_peer_key_is_rejected() {
    let (a_priv, _) = keypair(7);
    let (_, b_pub) = keypair(9);
    let (c_priv, _) = keypair(11);
    let (_, x_pub) = keypair(13);
    let mut a = Tunn::new(a_priv, b_pub.clone(), None, None, 1, None, T0);
    let mut c = Tunn::new(c_priv, x_pub, None, None, 3, None, T0);
    let m1 = net(a.format_handshake_initiation(T0, true));
    assert_eq!(c.decapsulate(&[], &m1, T0), TunnelResult::Error(WireGuardError::InvalidMac));
}

#[test]
fn preshared_key_must_match() {
    let (a_priv, a_pub) = keypair(7);
    let (b_priv, b_pub) = keypair(9);
    let mut a = Tunn::new(a_priv.clone(), b_pub.clone(), Some(vec![5u8; 32]), None, 1, None, T0);
    let mut b = Tunn::new(b_priv.clone(), a_pub.clone(), Some(vec![5u8; 32]), None, 2, None, T0);
    handshake(&mut a, &mut b, T0);
    let mut a2 = Tunn::new(a_priv, b_pub, Some(vec![5u8; 32]), None, 1, None, T0);
    let mut b2 = Tunn::new(b_priv, a_pub, None, None, 2, None, T0);
    let m1 = net(a2.format_handshake_initiation(T0, true));
    let m2 = net(b2.decapsulate(&[], &m1, T0));
    assert_eq!(a2.decapsulate(&[], &m2, T0), TunnelResult::Error(WireGuardError::InvalidAeadTag));
}

#[test]
fn stats_count_bytes() {
    let (mut a, mut b) = pair(None);
    handshake(&mut a, &mut b, T0);
    let c = net(a.encapsulate(&ipv4(b"abcd"), T0 + 1));
    let _ = b.decapsulate(&[], &c, T0 + 2);
    assert_eq!(a.stats(), (Some(T0), 8, 0));
    assert_eq!(b.stats(), (Some(T0 + 2), 0, c.len() as u64));
}

#[test]
fn cookie_reply_for_unknown_handshake_is_refused() {
    let (mut a, mut b) = pair(Some(0));
    let m1 = net(a.format_handshake_initiation(T0, true));
    let mut reply = net(b.decapsulate(&[], &m1, T0));
    assert_eq!(reply.len(), 64);
    reply[4] ^= 0xff;
    assert_eq!(a.decapsulate(&[], &reply, T0), TunnelResult::Error(WireGuardError::WrongIndex));
}

#[test]
fn response_without_initiation_is_unexpected() {
    let (mut a, mut b) = pair(None);
    let m1 = net(a.format_handshake_initiation(T0, true));
    let m2 = net(b.decapsulate(&[], &m1, T0));
    assert_eq!(a.decapsulate(&[], &m2, T0), TunnelResult::Done);
    assert_eq!(a.decapsulate(&[], &m2, T0), TunnelResult::Error(WireGuardError::UnexpectedPacket));
}

#[test]
fn transport_uses_wireguard_nonce_layout() {
    let (mut a, mut b) = pair(None);
    handshake(&mut a, &mut b, T0);
    let key = a.sessions.current.as_ref().unwrap().send_key.clone();
    let _ = net(a.encapsulate(&ipv4(b"zero"), T0 + 1));
    let c = net(a.encapsulate(&ipv4(b"one"), T0 + 1));
    let mut nonce = [0u8; 12];
    nonce[4..].copy_from_slice(&1u64.to_le_bytes());
    let cipher = ChaCha20Poly1305::new_from_slice(&key).unwrap();
    let p = cipher.decrypt(&nonce.into(), Payload { msg: &c[16..], aad: &[] }).unwrap();
    assert_eq!(p, ipv4(b"one"));
}

#[test]
fn initiation_from_given_ephemeral_carries_its_public_key() {
    let (mut a, _b) = pair(None);
    let eph = [21u8; 32];
    let m = a.handshake.initiation_from(eph.to_vec(), T0);
    assert_eq!(m.len(), 148);
    let expected = PublicKey::from(&StaticSecret::from(eph)).to_bytes();
    assert_eq!(&m[8..40], &expected[..]);
}

#[test]
fn cookie_reply_from_given_nonce_has_layout() {
    let (_a, b) = pair(None);
    let nonce = [7u8; 24];
    let r = b.handshake.cookie_reply_from(0x0a0b0c0d, &[1u8; 16], &[10, 0, 0, 1], &nonce);
    assert_eq!(r.len(), 64);
    assert_eq!(&r[0..4], &[3, 0, 0, 0]);
    assert_eq!(&r[4..8], &[0x0d, 0x0c, 0x0b, 0x0a]);
    assert_eq!(&r[8..32], &nonce[..]);
}

#[test]
fn worn_session_rekeys_on_tick_and_not_again_after_abandon() {
    let (mut a, mut b) = pair(None);
    handshake(&mut a, &mut b, T0);
    a.sessions.current.as_mut().unwrap().tx_counter = REKEY_AFTER_MESSAGES - 1;
    let c = net(a.encapsulate(&ipv4(b"x"), T0 + 1));
    assert_eq!(c[0], 4);
    let m = net(a.update_timers(T0 + 2));
    assert_eq!(m.len(), 148);
    assert_eq!(a.update_timers(T0 + 2 + 90_000), TunnelResult::Done);
    assert!(a.timers.handshake_started.is_none());
    assert_eq!(a.update_timers(T0 + 2 + 91_000), TunnelResult::Done);
}
