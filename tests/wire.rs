use boringtun::device::{parse_utun_name, DeviceError};
use boringtun::messages::{format_data, parse_packet, Packet, ParseError};
use boringtun::replay::ReplayFilter;
use boringtun::timers::{TimerAction, Timers};

#[test]
fn data_message_layout_and_parse() {
    let m = format_data(0x0102_0304, 0x1122_3344_5566_7788, &[9u8; 16]);
    assert_eq!(m.len(), 32);
    assert_eq!(&m[0..4], &[4, 0, 0, 0]);
    assert_eq!(&m[4..8], &[4, 3, 2, 1]);
    assert_eq!(&m[8..16], &[0x88, 0x77, 0x66, 0x55, 0x44, 0x33, 0x22, 0x11]);
    match parse_packet(&m) {
        Ok(Packet::Data { receiver_idx, counter, encrypted_encapsulated_packet }) => {
            assert_eq!(receiver_idx, 0x0102_0304);
            assert_eq!(counter, 0x1122_3344_5566_7788);
            assert_eq!(encrypted_encapsulated_packet, vec![9u8; 16]);
        }
        _ => panic!("not a data message"),
    }
}

#[test]
fn parse_checks_type_and_length() {
    assert!(matches!(parse_packet(&[4u8, 0, 0, 0, 1, 2]), Err(ParseError::InvalidPacket)));
    assert!(matches!(parse_packet(&vec![1u8; 148]), Err(ParseError::InvalidPacket)));
    let mut init = vec![0u8; 148];
    init[0] = 1;
    init[4] = 7;
    match parse_packet(&init) {
        Ok(Packet::Initiation { sender_idx, unencrypted_ephemeral, encrypted_static, encrypted_timestamp }) => {
            assert_eq!(sender_idx, 7);
            assert_eq!(unencrypted_ephemeral.len(), 32);
            assert_eq!(encrypted_static.len(), 48);
            assert_eq!(encrypted_timestamp.len(), 28);
        }
        _ => panic!("not an initiation"),
    }
    let mut resp = vec![0u8; 92];
    resp[0] = 2;
    assert!(matches!(parse_packet(&resp), Ok(Packet::Response { .. })));
    let mut cookie = vec![0u8; 64];
    cookie[0] = 3;
    assert!(matches!(parse_packet(&cookie), Ok(Packet::CookieReply { .. })));
    cookie.push(0);
    assert!(matches!(parse_packet(&cookie), Err(ParseError::InvalidPacket)));
}

#[test]
fn replay_window_edges() {
    let mut f = ReplayFilter::new();
    assert!(f.check_and_set(0));
    assert!(!f.check_and_set(0));
    assert!(f.check_and_set(5000));
    assert!(!f.check_and_set(5000 - 2048));
    assert!(f.check_and_set(5000 - 2047));
    assert!(!f.check_and_set(5000 - 2047));
    assert!(f.will_accept(4999));
    assert!(f.check_and_set(4999));
    assert!(!f.will_accept(4999));
    assert!(f.check_and_set(5000 + 4096));
    assert!(!f.check_and_set(5000));
}

#[test]
fn timers_idle_without_session() {
    let t = Timers::new(0);
    assert_eq!(t.action(1_000_000), TimerAction::Idle);
}

#[test]
fn persistent_keepalive_fires_on_interval() {
    let mut t = Timers::new(25_000);
    t.on_session_established(1_000);
    t.on_packet_sent(1_000);
    assert_eq!(t.action(25_999), TimerAction::Idle);
    assert_eq!(t.action(26_000), TimerAction::Keepalive);
}

#[test]
fn retries_until_attempt_time_then_abandon() {
    let mut t = Timers::new(0);
    t.on_initiation_sent(0, false);
    let mut now = 0u64;
    for _ in 0..17 {
        now += 5_000;
        assert_eq!(t.action(now), TimerAction::RetryHandshake);
        t.on_initiation_sent(now, true);
    }
    assert_eq!(t.retries, 17);
    assert_eq!(t.action(now + 4_999), TimerAction::Idle);
    assert_eq!(t.action(90_000), TimerAction::Abandon);
    t.on_abandon();
    assert_eq!(t.action(95_000), TimerAction::Idle);
}

#[test]
fn utun_names() {
    assert_eq!(parse_utun_name("utun"), Ok(0));
    assert_eq!(parse_utun_name("utun5"), Ok(6));
    assert_eq!(parse_utun_name("utun+3"), Ok(4));
    assert_eq!(parse_utun_name("utun4294967294"), Ok(4294967295));
    assert_eq!(parse_utun_name("utun4294967295"), Err(DeviceError::InvalidTunnelName));
    assert_eq!(parse_utun_name("tun0"), Err(DeviceError::InvalidTunnelName));
    assert_eq!(parse_utun_name("utunx"), Err(DeviceError::InvalidTunnelName));
    assert_eq!(parse_utun_name("utun+"), Err(DeviceError::InvalidTunnelName));
    assert_eq!(parse_utun_name("utun1a"), Err(DeviceError::InvalidTunnelName));
}
