use base64::prelude::BASE64_STANDARD;
use base64::Engine;
use boringtun::keys::KeyBytesError;
use boringtun::tunnel::{Tunnel, TunnelResult};
use x25519_dalek::{PublicKey, StaticSecret};

const NOW: u64 = 1_700_000_000_000;

fn b64_pair(seed: u8) -> (String, String) {
    let sk = StaticSecret::from([seed; 32]);
    let pk = PublicKey::from(&sk);
    (BASE64_STANDARD.encode(sk.to_bytes()), BASE64_STANDARD.encode(pk.to_bytes()))
}

#[test]
fn tunnels_from_text_keys_exchange_data() {
    let (a_priv, a_pub) = b64_pair(3);
    let (b_priv, b_pub) = b64_pair(4);
    let mut a = Tunnel::new(a_priv, b_pub, None, None, 10, NOW).unwrap();
    let mut b = Tunnel::new(b_priv, a_pub, None, Some(25), 20, NOW).unwrap();
    let m1 = match a.force_handshake(NOW) {
        TunnelResult::WriteToNetwork(m) => m,
        other => panic!("{:?}", other),
    };
    let m2 = match b.read(&m1, NOW) {
        TunnelResult::WriteToNetwork(m) => m,
        other => panic!("{:?}", other),
    };
    assert_eq!(a.read(&m2, NOW), TunnelResult::Done);
    let pkt = vec![0x45u8, 1, 2, 3];
    let c = match a.write(&pkt, NOW + 1) {
        TunnelResult::WriteToNetwork(m) => m,
        other => panic!("{:?}", other),
    };
    assert_eq!(b.read(&c, NOW + 1), TunnelResult::WriteToTunnelV4(pkt));
    let s = a.stats();
    assert_eq!(s.tx_bytes, 4);
    assert_eq!(s.last_handshake, NOW / 1000);
    assert_eq!(b.stats().rx_bytes, c.len() as u64);
    assert_eq!(a.tick(NOW + 2), TunnelResult::Done);
}

#[test]
fn tunnel_refuses_bad_keys() {
    let (_, b_pub) = b64_pair(4);
    assert!(matches!(Tunnel::new("short".to_string(), b_pub.clone(), None, None, 1, NOW), Err(KeyBytesError::IllegalSize)));
    assert!(matches!(
        Tunnel::new("zz".repeat(32), b_pub.clone(), None, None, 1, NOW),
        Err(KeyBytesError::IllegalCharacter)
    ));
    let (a_priv, _) = b64_pair(3);
    assert!(matches!(
        Tunnel::new(a_priv, b_pub, Some("x".to_string()), None, 1, NOW),
        Err(KeyBytesError::IllegalSize)
    ));
}

#[test]
fn tunnel_stats_start_at_zero() {
    let (a_priv, _) = b64_pair(3);
    let (_, b_pub) = b64_pair(4);
    let t = Tunnel::new(a_priv, b_pub, None, None, 1, NOW).unwrap();
    let s = t.stats();
    assert_eq!((s.tx_bytes, s.rx_bytes, s.last_handshake), (0, 0, 0));
}

#[test]
fn tunnel_reports_first_bad_key() {
    // private key has an illegal character, public key an illegal size
    let r = Tunnel::new("zz".repeat(32), "short".to_string(), None, None, 1, NOW);
    assert!(matches!(r, Err(KeyBytesError::IllegalCharacter)));
    let (a_priv, _) = b64_pair(3);
    let r = Tunnel::new(a_priv, "zz".repeat(32), Some("x".to_string()), None, 1, NOW);
    assert!(matches!(r, Err(KeyBytesError::IllegalCharacter)));
}

#[test]
fn fresh_tunnel_write_sends_initiation() {
    let (a_priv, _) = b64_pair(3);
    let (_, b_pub) = b64_pair(4);
    let mut t = Tunnel::new(a_priv, b_pub, None, None, 1, NOW).unwrap();
    match t.write(&[0x45, 0, 0, 0], NOW) {
        TunnelResult::WriteToNetwork(m) => {
            assert_eq!(m.len(), 148);
            assert_eq!(&m[0..4], &[1, 0, 0, 0]);
        }
        other => panic!("{:?}", other),
    }
    assert_eq!(t.write(&[0x45, 0, 0, 0], NOW + 1), TunnelResult::Done);
}
