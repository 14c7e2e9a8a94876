//! The engine: one peer's handshake, sessions and timers behind encapsulate,
//! decapsulate and tick, each of which reports one action for the caller.
use vstd::prelude::*;
use crate::bytes::{copy_range, le_u32, le_u64, u32_le};
use crate::crypto::{seal_of, xseal_of, MAX_PLAINTEXT};
use crate::bytes::counter_nonce_of;
use crate::errors::WireGuardError;
use crate::keys::{key_text, KeyBytes, KeyBytesError};
use vstd::utf8::encode_utf8;
use crate::messages::{
    lemma_data_round_trip, msg_type, parse_packet, well_formed, Packet, COOKIE_REPLY, COOKIE_REPLY_SZ, DATA, DATA_OVERHEAD_SZ, HANDSHAKE_RESP_SZ,
    HANDSHAKE_INIT, HANDSHAKE_INIT_SZ, HANDSHAKE_RESP, INIT_MAC1_OFF, INIT_MAC2_OFF, RESP_MAC1_OFF,
};
use crate::noise::{cookie_of, mac1_valid, mac2_valid, Handshake, HandshakeState};
use crate::replay::ReplayFilter;
use crate::session::{Session, SessionRing, Slot, REJECT_AFTER_MESSAGES, REKEY_AFTER_MESSAGES, REJECT_AFTER_TIME};
use crate::timers::{sat_add, TimerAction, Timers, KEEPALIVE_TIMEOUT, REKEY_AFTER_TIME};

verus! {

/// Initiations per second above which this side counts as under load.
pub const DEFAULT_HANDSHAKE_RATE_LIMIT: u64 = 10;
/// Length of the window over which initiations are counted (ms).
pub const RATE_WINDOW: u64 = 1_000;

/// What the caller is to do after an engine operation.
#[derive(Debug, PartialEq, Eq)]
pub enum TunnelResult {
    Done,
    Error(WireGuardError),
    WriteToNetwork(Vec<u8>),
    WriteToTunnelV4(Vec<u8>),
    WriteToTunnelV6(Vec<u8>),
}

/// The engine for one peer.
pub struct Tunn {
    pub handshake: Handshake,
    pub sessions: SessionRing,
    pub timers: Timers,
    pub tx_bytes: u64,
    pub rx_bytes: u64,
    /// When the last handshake completed.
    pub last_handshake: Option<u64>,
    /// Initiations per rate window above which a cookie is demanded.
    pub rate_limit: u64,
    pub rate_window_start: u64,
    pub rate_count: u64,
}

/// The IP version nibble of a decrypted packet decides where it goes.
pub open spec fn deliver(p: Seq<u8>) -> Option<u8> {
    if p.len() > 0 && p[0] >> 4u8 == 4u8 {
        Some(4u8)
    } else if p.len() > 0 && p[0] >> 4u8 == 6u8 {
        Some(6u8)
    } else {
        None
    }
}

impl Tunn {
    pub open spec fn wf(&self) -> bool {
        &&& self.handshake.wf()
        &&& self.sessions.wf()
    }

    /// Whether the current session may encrypt at `now`.
    pub open spec fn can_send(&self, now: u64) -> bool {
        &&& self.sessions.current matches Some(s) && s.tx_counter < REJECT_AFTER_MESSAGES
        &&& self.timers.session_alive(now)
    }

    /// An engine for the peer holding `peer_static_public`; keepalives every
    /// `persistent_keepalive` seconds if given.
    pub fn new(static_private: Vec<u8>, peer_static_public: Vec<u8>, preshared_key: Option<Vec<u8>>, persistent_keepalive: Option<u16>, index: u32, rate_limit: Option<u64>, now: u64) -> (r: Tunn)
        requires
            static_private@.len() == 32,
            peer_static_public@.len() == 32,
            preshared_key matches Some(k) ==> k@.len() == 32,
        ensures
            r.wf(),
            r.handshake.state is Idle,
            r.handshake.index_base == index,
            r.sessions.current is None,
            r.sessions.previous is None,
            r.sessions.next is None,
            r.handshake.static_private == static_private,
            r.handshake.peer_static_public == peer_static_public,
            preshared_key matches Some(k) ==> r.handshake.preshared_key == k,
            preshared_key is None ==> r.handshake.preshared_key@ == Seq::new(32, |i: int| 0u8),
            r.handshake.cookie is None,
            r.timers == (Timers { handshake_started: None, last_initiation: 0, retries: 0, session_started: None,
                want_keepalive_since: None, last_sent: 0, rekey_requested: false,
                persistent_keepalive: match persistent_keepalive { Some(k) => (k as u64 * 1000) as u64, None => 0u64 } }),
            r.tx_bytes == 0,
            r.rx_bytes == 0,
            r.last_handshake is None,
            r.rate_limit == (match rate_limit { Some(l) => l, None => DEFAULT_HANDSHAKE_RATE_LIMIT }),
    {
        let pk: u64 = match persistent_keepalive {
            Some(k) => k as u64 * 1000,
            None => 0,
        };
        Tunn {
            handshake: Handshake::new(static_private, peer_static_public, preshared_key, index, now),
            sessions: SessionRing::new(),
            timers: Timers::new(pk),
            tx_bytes: 0,
            rx_bytes: 0,
            last_handshake: None,
            rate_limit: match rate_limit {
                Some(l) => l,
                None => DEFAULT_HANDSHAKE_RATE_LIMIT,
            },
            rate_window_start: now,
            rate_count: 0,
        }
    }

    /// `new` is `old` after the initiation `m` went out at `now`.
    pub open spec fn initiation_out(old: Tunn, new: Tunn, now: u64, m: Seq<u8>) -> bool {
        &&& Handshake::initiation_sent(old.handshake, new.handshake, now, m)
        &&& new.timers == old.timers.after_initiation(now, old.handshake.state is InitSent)
        &&& new == (Tunn { handshake: new.handshake, timers: new.timers, ..old })
    }

    /// What asking for an initiation (forced or not) at `now` does: nothing
    /// while one is in flight and it is not forced, else a new initiation
    /// (unless the random source fails, which changes nothing).
    pub open spec fn initiation_result(old: Tunn, new: Tunn, now: u64, force: bool, r: TunnelResult) -> bool {
        &&& new.wf()
        &&& (old.handshake.state is InitSent && !force) ==> (r is Done && new == old)
        &&& !(old.handshake.state is InitSent && !force) ==> {
            ||| (r matches TunnelResult::WriteToNetwork(m) && Self::initiation_out(old, new, now, m@))
            ||| (r == TunnelResult::Error(WireGuardError::RandomUnavailable) && new == old)
        }
    }

    /// Sends an initiation unless one is in flight and `force` is not set.
    pub fn format_handshake_initiation(&mut self, now: u64, force: bool) -> (r: TunnelResult)
        requires
            old(self).wf(),
        ensures
            Self::initiation_result(*old(self), *final(self), now, force, r),
    {
        let retry = match &self.handshake.state {
            HandshakeState::InitSent { .. } => true,
            _ => false,
        };
        match self.handshake.format_initiation(now, force) {
            Ok(Some(m)) => {
                self.timers.on_initiation_sent(now, retry);
                TunnelResult::WriteToNetwork(m)
            },
            Ok(None) => TunnelResult::Done,
            Err(e) => TunnelResult::Error(e),
        }
    }

    fn can_send_now(&self, now: u64) -> (r: bool)
        ensures
            r == self.can_send(now),
    {
        let alive = match self.timers.session_started {
            Some(s) => now < if s <= u64::MAX - REJECT_AFTER_TIME { s + REJECT_AFTER_TIME } else { u64::MAX },
            None => false,
        };
        match &self.sessions.current {
            Some(s) => s.tx_counter < REJECT_AFTER_MESSAGES && alive,
            None => false,
        }
    }

    /// `new` and `r` after encapsulating `src` at `now` in `old`: the sealed
    /// frame under the current session's next counter, or, with no session
    /// that may send, the initiation of a handshake (nothing while one is in
    /// flight).
    pub open spec fn encapsulated(old: Tunn, new: Tunn, src: Seq<u8>, now: u64, r: TunnelResult) -> bool {
        &&& new.wf()
        &&& new.tx_bytes >= old.tx_bytes
        &&& new.rx_bytes == old.rx_bytes
        &&& old.can_send(now) ==> {
            let c = old.sessions.current.unwrap();
            &&& r matches TunnelResult::WriteToNetwork(m) && m@ == c.sealed_packet(c.tx_counter, src) && m@.len() == src.len() + 32
            &&& new == (Tunn {
                sessions: SessionRing { current: Some(Session { tx_counter: (c.tx_counter + 1) as u64, ..c }), ..old.sessions },
                tx_bytes: sat_add(old.tx_bytes, src.len() as u64),
                timers: old.timers.after_packet_sent(now).after_counter(c.tx_counter),
                ..old
            })
        }
        &&& !old.can_send(now) ==> Self::initiation_result(old, new, now, false, r)
    }

    /// Encrypts `src` for the peer under the current session; with none that
    /// may send, starts a handshake instead and sends nothing of `src`.
    pub fn encapsulate(&mut self, src: &[u8], now: u64) -> (r: TunnelResult)
        requires
            old(self).wf(),
            src@.len() < MAX_PLAINTEXT,
        ensures
            Self::encapsulated(*old(self), *final(self), src@, now, r),
    {
        if self.can_send_now(now) {
            let mut s = self.sessions.current.take().unwrap();
            let n = s.tx_counter;
            let m = s.encrypt(src);
            self.sessions.current = Some(s);
            self.tx_bytes = if self.tx_bytes <= u64::MAX - src.len() as u64 { self.tx_bytes + src.len() as u64 } else { u64::MAX };
            assert(self.tx_bytes == sat_add(old(self).tx_bytes, src@.len() as u64));
            self.timers.on_packet_sent(now);
            self.timers.on_counter_used(n);
            TunnelResult::WriteToNetwork(m)
        } else {
            self.format_handshake_initiation(now, false)
        }
    }
    /// The number of initiations counted in the window that `now` falls in,
    /// once one more is counted.
    pub open spec fn rate_count_at(&self, now: u64) -> u64 {
        let fresh = now < self.rate_window_start || now >= sat_add(self.rate_window_start, RATE_WINDOW);
        let base: u64 = if fresh { 0 } else { self.rate_count };
        if base < u64::MAX { (base + 1) as u64 } else { u64::MAX }
    }

    /// Counts an incoming initiation; whether this side is now under load.
    fn note_initiation(&mut self, now: u64) -> (r: bool)
        ensures
            final(self).rate_count == old(self).rate_count_at(now),
            r == (old(self).rate_count_at(now) > old(self).rate_limit),
            *final(self) == (Tunn { rate_count: final(self).rate_count, rate_window_start: final(self).rate_window_start, ..*old(self) }),
    {
        let end: u64 = if self.rate_window_start <= u64::MAX - RATE_WINDOW { self.rate_window_start + RATE_WINDOW } else { u64::MAX };
        if now < self.rate_window_start || now >= end {
            self.rate_window_start = now;
            self.rate_count = 0;
        }
        if self.rate_count < u64::MAX {
            self.rate_count = self.rate_count + 1;
        }
        self.rate_count > self.rate_limit
    }

    /// `r` is what a decrypted payload `p` turns into: nothing for a keepalive,
    /// else the packet for the stack of its IP version.
    pub open spec fn delivers(r: TunnelResult, p: Seq<u8>) -> bool {
        if p.len() == 0 {
            r is Done
        } else {
            match deliver(p) {
                Some(v) => if v == 4 {
                    r matches TunnelResult::WriteToTunnelV4(q) && q@ == p
                } else {
                    r matches TunnelResult::WriteToTunnelV6(q) && q@ == p
                },
                None => r == TunnelResult::Error(WireGuardError::InvalidPacket),
            }
        }
    }

    /// The timers after a transport packet was accepted: the pending session
    /// became current if it carried it, and data (not a keepalive) asks for an
    /// answer.
    pub open spec fn timers_after_data(t: Timers, promoted: bool, keepalive: bool, now: u64) -> Timers {
        let t1 = if promoted { t.after_established(now) } else { t };
        if keepalive { t1 } else { t1.after_data_received(now) }
    }

    /// Handling a transport message.
    pub open spec fn data_handled(old: Tunn, new: Tunn, src: Seq<u8>, now: u64, r: TunnelResult) -> bool {
        let idx = le_u32(src.subrange(4, 8));
        let n = le_u64(src.subrange(8, 16));
        let ct = src.subrange(16, src.len() as int);
        &&& (r == TunnelResult::Error(WireGuardError::WrongIndex) || r == TunnelResult::Error(WireGuardError::DuplicateCounter)
            || r == TunnelResult::Error(WireGuardError::InvalidCounter) || r == TunnelResult::Error(WireGuardError::InvalidAeadTag)) ==> new == old
        &&& old.sessions.slot_of(idx, now) is None ==> r == TunnelResult::Error(WireGuardError::WrongIndex)
        &&& old.sessions.slot_of(idx, now) matches Some(sl) ==> {
            let sess = old.sessions.member(sl);
            &&& (n < REJECT_AFTER_MESSAGES && !sess.replay.fresh(n)) ==> r == TunnelResult::Error(WireGuardError::DuplicateCounter)
            &&& n >= REJECT_AFTER_MESSAGES ==> r == TunnelResult::Error(WireGuardError::InvalidCounter)
            &&& (n < REJECT_AFTER_MESSAGES && sess.replay.fresh(n) && forall|p: Seq<u8>| seal_of(sess.recv_key@, counter_nonce_of(n), Seq::empty(), p) != ct)
                ==> r == TunnelResult::Error(WireGuardError::InvalidAeadTag)
            &&& forall|p: Seq<u8>| n < REJECT_AFTER_MESSAGES && sess.replay.fresh(n) && #[trigger] seal_of(sess.recv_key@, counter_nonce_of(n), Seq::empty(), p) == ct ==> Self::delivers(r, p)
            &&& Self::accepted(r) ==> {
                &&& sl != Slot::Next ==> {
                    &&& ReplayFilter::accepts(sess.replay, n, new.sessions.member(sl).replay)
                    &&& new.sessions == old.sessions.with_replay(sl, new.sessions.member(sl).replay)
                }
                &&& sl == Slot::Next ==> {
                    &&& new.sessions.current matches Some(c) && ReplayFilter::accepts(sess.replay, n, c.replay)
                        && new.sessions == old.sessions.with_replay(sl, c.replay).promoted(Session { replay: c.replay, ..sess }, now)
                }
                &&& new.timers == Self::timers_after_data(old.timers, sl == Slot::Next, r is Done, now)
                &&& new.last_handshake == (if sl == Slot::Next { Some(now) } else { old.last_handshake })
                &&& new.rx_bytes == sat_add(old.rx_bytes, src.len() as u64)
                &&& new == (Tunn { sessions: new.sessions, timers: new.timers, last_handshake: new.last_handshake, rx_bytes: new.rx_bytes, ..old })
            }
        }
    }

    /// Handling an initiation from `addr`.
    pub open spec fn initiation_handled(old: Tunn, new: Tunn, addr: Seq<u8>, src: Seq<u8>, now: u64, r: TunnelResult) -> bool {
        let sender = le_u32(src.subrange(4, 8));
        let pe = src.subrange(8, 40);
        let es = src.subrange(40, 88);
        let et = src.subrange(88, 116);
        let hs = old.handshake;
        let mac1_ok = mac1_valid(hs.mac1_key_own@, src, INIT_MAC1_OFF as int);
        let under = old.rate_count_at(now) > old.rate_limit;
        let mac2_ok = mac2_valid(cookie_of(hs.cookie_secret@, addr), src, INIT_MAC2_OFF as int);
        &&& new.rate_count == old.rate_count_at(now)
        &&& !mac1_ok ==> r == TunnelResult::Error(WireGuardError::InvalidMac)
        &&& !(r matches TunnelResult::WriteToNetwork(m) && m@.len() == HANDSHAKE_RESP_SZ)
            ==> new == (Tunn { rate_count: new.rate_count, rate_window_start: new.rate_window_start, ..old })
        &&& (mac1_ok && under && !mac2_ok) ==> {
            ||| (r matches TunnelResult::WriteToNetwork(m) && exists|nonce: Seq<u8>| nonce.len() == 24
                && #[trigger] hs.cookie_reply_bytes(sender, src.subrange(116, 132), addr, nonce) == m@)
            ||| r == TunnelResult::Error(WireGuardError::RandomUnavailable)
        }
        &&& (mac1_ok && (!under || mac2_ok)) ==> {
            &&& hs.initiation_ok(pe, es, et) ==> (r is WriteToNetwork || r == TunnelResult::Error(WireGuardError::RandomUnavailable))
            &&& !hs.initiation_ok(pe, es, et) ==> r is Error
            &&& r matches TunnelResult::WriteToNetwork(m) ==> {
                &&& new.sessions.next matches Some(sess) && Handshake::initiation_answered(hs, new.handshake, sender, pe, es, et, now, m@, sess)
                &&& new.sessions == (SessionRing { next: new.sessions.next, ..old.sessions })
                &&& new.timers == old.timers.after_packet_sent(now)
                &&& new == (Tunn { handshake: new.handshake, sessions: new.sessions, timers: new.timers,
                    rate_count: new.rate_count, rate_window_start: new.rate_window_start, ..old })
            }
        }
    }

    /// Handling a response.
    pub open spec fn response_handled(old: Tunn, new: Tunn, src: Seq<u8>, now: u64, r: TunnelResult) -> bool {
        let sender = le_u32(src.subrange(4, 8));
        let receiver = le_u32(src.subrange(8, 12));
        let pe = src.subrange(12, 44);
        let en = src.subrange(44, 60);
        let hs = old.handshake;
        let mac1_ok = mac1_valid(hs.mac1_key_own@, src, RESP_MAC1_OFF as int);
        &&& !mac1_ok ==> r == TunnelResult::Error(WireGuardError::InvalidMac)
        &&& (mac1_ok && hs.state !is InitSent) ==> r == TunnelResult::Error(WireGuardError::UnexpectedPacket)
        &&& mac1_ok ==> (r is Done <==> hs.response_ok(receiver, pe, en))
        &&& r is Error ==> new == old
        &&& r is Done || r is Error
        &&& r is Done ==> {
            &&& new.sessions.current matches Some(sess) && Handshake::response_session(hs, sender, receiver, pe, now, sess)
                && new.sessions == old.sessions.promoted(sess, now)
            &&& new.timers == old.timers.after_established(now)
            &&& new.last_handshake == Some(now)
            &&& new.handshake == (Handshake { state: HandshakeState::Established, ..hs })
            &&& new == (Tunn { handshake: new.handshake, sessions: new.sessions, timers: new.timers, last_handshake: new.last_handshake, ..old })
        }
    }

    /// Handling a cookie reply: the cookie is kept when it answers the
    /// initiation in flight and opens under the last `mac1` sent.
    pub open spec fn cookie_reply_handled(old: Tunn, new: Tunn, src: Seq<u8>, now: u64, r: TunnelResult) -> bool {
        let receiver = le_u32(src.subrange(4, 8));
        let nonce = src.subrange(8, 32);
        let enc = src.subrange(32, 64);
        let hs = old.handshake;
        &&& r is Done || r is Error
        &&& r is Error ==> new == old
        &&& r is Done ==> {
            &&& new.handshake.cookie matches Some(c)
                && xseal_of(hs.cookie_key_peer@, nonce, hs.last_mac1.unwrap()@, c@) == enc
            &&& new.handshake == (Handshake { cookie: new.handshake.cookie, cookie_received_at: now, ..hs })
            &&& new == (Tunn { handshake: new.handshake, ..old })
        }
        &&& (hs.state matches HandshakeState::InitSent { local_index, .. } && local_index == receiver
            && hs.last_mac1 is Some
            && exists|c: Seq<u8>| c.len() == 16 && #[trigger] xseal_of(hs.cookie_key_peer@, nonce, hs.last_mac1.unwrap()@, c) == enc)
            ==> r is Done
    }

    /// What handling the message `src` from `addr` at `now` turned `old` into
    /// (`new`) and reported (`r`).
    pub open spec fn decapsulated(old: Tunn, new: Tunn, addr: Seq<u8>, src: Seq<u8>, now: u64, r: TunnelResult) -> bool {
        &&& new.wf()
        &&& new.tx_bytes == old.tx_bytes
        &&& new.rx_bytes >= old.rx_bytes
        &&& !well_formed(src) ==> (r == TunnelResult::Error(WireGuardError::InvalidPacket) && new == old)
        &&& (well_formed(src) && msg_type(src) == DATA) ==> Self::data_handled(old, new, src, now, r)
        &&& (well_formed(src) && msg_type(src) == HANDSHAKE_INIT) ==> Self::initiation_handled(old, new, addr, src, now, r)
        &&& (well_formed(src) && msg_type(src) == HANDSHAKE_RESP) ==> Self::response_handled(old, new, src, now, r)
        &&& (well_formed(src) && msg_type(src) == COOKIE_REPLY) ==> Self::cookie_reply_handled(old, new, src, now, r)
    }

    /// `r` hands a decrypted packet on, or reports a keepalive.
    pub open spec fn accepted(r: TunnelResult) -> bool {
        r is Done || r is WriteToTunnelV4 || r is WriteToTunnelV6
    }

    /// Handles one message from the peer, sent from `addr`.
    #[verifier::rlimit(50)]
    pub fn decapsulate(&mut self, addr: &[u8], src: &[u8], now: u64) -> (r: TunnelResult)
        requires
            old(self).wf(),
        ensures
            Self::decapsulated(*old(self), *final(self), addr@, src@, now, r),
    {
        let pkt = match parse_packet(src) {
            Ok(p) => p,
            Err(_) => return TunnelResult::Error(WireGuardError::InvalidPacket),
        };
        match pkt {
            Packet::Initiation { sender_idx, unencrypted_ephemeral, encrypted_static, encrypted_timestamp } => {
                let under_load = self.note_initiation(now);
                match self.handshake.check_macs(src, INIT_MAC1_OFF, under_load, addr) {
                    Err(WireGuardError::UnderLoad) => {
                        let mac1 = copy_range(src, INIT_MAC1_OFF, INIT_MAC2_OFF);
                        return match self.handshake.format_cookie_reply(sender_idx, mac1.as_slice(), addr) {
                            Some(m) => TunnelResult::WriteToNetwork(m),
                            None => TunnelResult::Error(WireGuardError::RandomUnavailable),
                        };
                    },
                    Err(e) => return TunnelResult::Error(e),
                    Ok(()) => {},
                }
                match self.handshake.consume_initiation(sender_idx, unencrypted_ephemeral.as_slice(), encrypted_static.as_slice(), encrypted_timestamp.as_slice(), now) {
                    Ok((m, sess)) => {
                        self.sessions.set_next(sess);
                        self.timers.on_packet_sent(now);
                        TunnelResult::WriteToNetwork(m)
                    },
                    Err(e) => TunnelResult::Error(e),
                }
            },
            Packet::Response { sender_idx, receiver_idx, unencrypted_ephemeral, encrypted_nothing } => {
                match self.handshake.check_macs(src, RESP_MAC1_OFF, false, addr) {
                    Err(e) => return TunnelResult::Error(e),
                    Ok(()) => {},
                }
                match self.handshake.consume_response(sender_idx, receiver_idx, unencrypted_ephemeral.as_slice(), encrypted_nothing.as_slice(), now) {
                    Ok(sess) => {
                        self.sessions.promote(sess, now);
                        self.timers.on_session_established(now);
                        self.last_handshake = Some(now);
                        TunnelResult::Done
                    },
                    Err(e) => TunnelResult::Error(e),
                }
            },
            Packet::CookieReply { receiver_idx, nonce, encrypted_cookie } => {
                match self.handshake.consume_cookie_reply(receiver_idx, nonce.as_slice(), encrypted_cookie.as_slice(), now) {
                    Ok(()) => TunnelResult::Done,
                    Err(e) => TunnelResult::Error(e),
                }
            },
            Packet::Data { receiver_idx, counter, encrypted_encapsulated_packet } => {
                let slot = match self.sessions.route_inbound(receiver_idx, now) {
                    Some(sl) => sl,
                    None => return TunnelResult::Error(WireGuardError::WrongIndex),
                };
                let p = match self.sessions.decrypt_in(slot, counter, encrypted_encapsulated_packet.as_slice()) {
                    Ok(p) => p,
                    Err(e) => return TunnelResult::Error(e),
                };
                if slot == Slot::Next {
                    self.sessions.promote_next(now);
                    self.timers.on_session_established(now);
                    self.last_handshake = Some(now);
                }
                self.rx_bytes = if self.rx_bytes <= u64::MAX - src.len() as u64 { self.rx_bytes + src.len() as u64 } else { u64::MAX };
                if p.len() == 0 {
                    return TunnelResult::Done;
                }
                self.timers.on_data_received(now);
                let v = p[0] >> 4u8;
                if v == 4 {
                    TunnelResult::WriteToTunnelV4(p)
                } else if v == 6 {
                    TunnelResult::WriteToTunnelV6(p)
                } else {
                    TunnelResult::Error(WireGuardError::InvalidPacket)
                }
            },
        }
    }

    /// What running the timers at `now` turned `old` into (`new`) and reported
    /// (`r`): an expired previous session is dropped, then the one action that
    /// the timers ask for is taken.
    pub open spec fn timers_ran(old: Tunn, new: Tunn, now: u64, r: TunnelResult) -> bool {
        let o = Tunn { sessions: old.sessions.expired_at(now), ..old };
        let act = old.timers.action_at(now);
        &&& new.wf()
        &&& new.tx_bytes >= old.tx_bytes
        &&& new.rx_bytes == old.rx_bytes
        &&& act == TimerAction::Abandon ==> {
            &&& r is Done
            &&& new == (Tunn { handshake: Handshake { state: HandshakeState::Idle, ..o.handshake }, timers: o.timers.after_abandon(), ..o })
        }
        &&& (act == TimerAction::RetryHandshake || act == TimerAction::Rekey) ==> Self::initiation_result(o, new, now, true, r)
        &&& (act == TimerAction::Keepalive && o.can_send(now)) ==> Self::encapsulated(o, new, Seq::empty(), now, r)
        &&& (act == TimerAction::Keepalive && !o.can_send(now)) ==> (r is Done && new == o)
        &&& act == TimerAction::Idle ==> (r is Done && new == o)
    }

    /// Runs the timers at `now` and performs the one action they ask for.
    pub fn update_timers(&mut self, now: u64) -> (r: TunnelResult)
        requires
            old(self).wf(),
        ensures
            Self::timers_ran(*old(self), *final(self), now, r),
    {
        self.sessions.expire(now);
        match self.timers.action(now) {
            TimerAction::Abandon => {
                self.timers.on_abandon();
                self.handshake.abandon();
                TunnelResult::Done
            },
            TimerAction::RetryHandshake => self.format_handshake_initiation(now, true),
            TimerAction::Rekey => self.format_handshake_initiation(now, true),
            TimerAction::Keepalive => {
                if self.can_send_now(now) {
                    let empty: Vec<u8> = Vec::new();
                    assert(empty@ =~= Seq::<u8>::empty());
                    self.encapsulate(empty.as_slice(), now)
                } else {
                    TunnelResult::Done
                }
            },
            TimerAction::Idle => TunnelResult::Done,
        }
    }

    /// When the last handshake completed, and the bytes sent and received.
    pub fn stats(&self) -> (r: (Option<u64>, u64, u64))
        ensures
            r == (self.last_handshake, self.tx_bytes, self.rx_bytes),
    {
        (self.last_handshake, self.tx_bytes, self.rx_bytes)
    }

}

/// Transfer counters of a tunnel.
#[derive(Debug, Clone, Copy, PartialEq, Eq, Structural)]
pub struct TunnelStats {
    pub tx_bytes: u64,
    pub rx_bytes: u64,
    /// Seconds since the UNIX epoch at the last completed handshake; 0 if none.
    pub last_handshake: u64,
}

/// A tunnel to one peer, configured from keys in text form. Times are
/// milliseconds since the UNIX epoch, read by the caller.
pub struct Tunnel(pub Tunn);

impl Tunnel {
    pub open spec fn wf(&self) -> bool {
        self.0.wf()
    }

    /// A tunnel just built from the key bytes `sk`, `pk` and `psk`.
    pub open spec fn fresh(t: Tunnel, sk: Seq<u8>, pk: Seq<u8>, psk: Option<Seq<u8>>, keep_alive: Option<u16>, index: u32) -> bool {
        &&& t.wf()
        &&& t.0.handshake.state is Idle
        &&& t.0.handshake.index_base == index
        &&& t.0.handshake.static_private@ == sk
        &&& t.0.handshake.peer_static_public@ == pk
        &&& t.0.handshake.preshared_key@ == (match psk { Some(k) => k, None => Seq::new(32, |i: int| 0u8) })
        &&& t.0.handshake.cookie is None
        &&& t.0.sessions.previous is None && t.0.sessions.current is None && t.0.sessions.next is None
        &&& t.0.timers == (Timers { handshake_started: None, last_initiation: 0, retries: 0, session_started: None,
            want_keepalive_since: None, last_sent: 0, rekey_requested: false,
            persistent_keepalive: match keep_alive { Some(k) => (k as u64 * 1000) as u64, None => 0u64 } })
        &&& t.0.tx_bytes == 0 && t.0.rx_bytes == 0 && t.0.last_handshake is None
        &&& t.0.rate_limit == DEFAULT_HANDSHAKE_RATE_LIMIT
    }

    /// Reads the keys (hex or base64) and builds the engine. A key that does not
    /// read fails the whole, with the error of the first such key in the order
    /// private, public, preshared.
    pub fn new(private_key: String, server_public_key: String, preshared_key: Option<String>, keep_alive: Option<u16>, index: u32, now: u64) -> (r: Result<Tunnel, KeyBytesError>)
        ensures
            ({
                let sk = key_text(encode_utf8(private_key@));
                let pk = key_text(encode_utf8(server_public_key@));
                let psk = match preshared_key { Some(k) => Some(key_text(encode_utf8(k@))), None => None };
                &&& sk matches Err(e) ==> r == Err::<Tunnel, KeyBytesError>(e)
                &&& sk is Ok ==> (pk matches Err(e) ==> r == Err::<Tunnel, KeyBytesError>(e))
                &&& (sk is Ok && pk is Ok) ==> (psk matches Some(Err(e)) ==> r == Err::<Tunnel, KeyBytesError>(e))
                &&& (sk is Ok && pk is Ok && !(psk matches Some(Err(_)))) ==> (r matches Ok(t)
                    && Self::fresh(t, sk.unwrap(), pk.unwrap(), match psk { Some(k) => Some(k.unwrap()), None => None }, keep_alive, index))
            }),
    {
        let sk = match KeyBytes::from_string(private_key.as_str()) {
            Ok(k) => k,
            Err(e) => return Err(e),
        };
        let pk = match KeyBytes::from_string(server_public_key.as_str()) {
            Ok(k) => k,
            Err(e) => return Err(e),
        };
        let psk = match preshared_key {
            Some(k) => match KeyBytes::from_string(k.as_str()) {
                Ok(k) => Some(k.raw_bytes()),
                Err(e) => return Err(e),
            },
            None => None,
        };
        Ok(Tunnel(Tunn::new(sk.raw_bytes(), pk.raw_bytes(), psk, keep_alive, index, None, now)))
    }

    /// Runs the timers, after drawing a new cookie secret if it is due.
    pub fn tick(&mut self, now: u64) -> (r: TunnelResult)
        requires
            old(self).wf(),
        ensures
            final(self).wf(),
            Tunn::timers_ran(
                Tunn { handshake: Handshake { cookie_secret: final(self).0.handshake.cookie_secret,
                    cookie_secret_at: final(self).0.handshake.cookie_secret_at, ..old(self).0.handshake }, ..old(self).0 },
                final(self).0, now, r),
    {
        self.0.handshake.rotate_cookie_secret(now);
        self.0.update_timers(now)
    }

    /// Starts a handshake now, whether or not one is in flight.
    pub fn force_handshake(&mut self, now: u64) -> (r: TunnelResult)
        requires
            old(self).wf(),
        ensures
            final(self).wf(),
            Tunn::initiation_result(old(self).0, final(self).0, now, true, r),
    {
        self.0.format_handshake_initiation(now, true)
    }

    /// Handles a message from the peer.
    pub fn read(&mut self, src: &[u8], now: u64) -> (r: TunnelResult)
        requires
            old(self).wf(),
        ensures
            final(self).wf(),
            Tunn::decapsulated(old(self).0, final(self).0, Seq::empty(), src@, now, r),
    {
        let addr: Vec<u8> = Vec::new();
        assert(addr@ =~= Seq::<u8>::empty());
        self.0.decapsulate(addr.as_slice(), src, now)
    }

    /// Sends a packet to the peer, or starts the handshake it waits for.
    pub fn write(&mut self, src: &[u8], now: u64) -> (r: TunnelResult)
        requires
            old(self).wf(),
            src@.len() < MAX_PLAINTEXT,
        ensures
            final(self).wf(),
            Tunn::encapsulated(old(self).0, final(self).0, src@, now, r),
    {
        self.0.encapsulate(src, now)
    }

    /// The transfer counters and the time of the last handshake.
    pub fn stats(&self) -> (r: TunnelStats)
        ensures
            r.tx_bytes == self.0.tx_bytes,
            r.rx_bytes == self.0.rx_bytes,
            r.last_handshake == (match self.0.last_handshake { Some(t) => t / 1000, None => 0 }),
    {
        let (time, tx_bytes, rx_bytes) = self.0.stats();
        TunnelStats {
            tx_bytes,
            rx_bytes,
            last_handshake: match time {
                Some(t) => t / 1000,
                None => 0,
            },
        }
    }
}

/// A payload sealed by a session, as `Tunn::encapsulate` returns it, reaches the
/// peer's session that holds the same key the other way: the framed packet is a
/// well-formed transport message, addressed to that session, whose counter it
/// has not seen and whose ciphertext is the sealing under its receiving key.
/// That is exactly the case in which `Tunn::decapsulate` delivers the payload.
pub proof fn lemma_transport_round_trip(a: Session, ring: SessionRing, now: u64, p: Seq<u8>)
    requires
        ring.slot_of(a.remote_index, now) is Some,
        ring.member(ring.slot_of(a.remote_index, now).unwrap()).recv_key@ == a.send_key@,
        ring.member(ring.slot_of(a.remote_index, now).unwrap()).replay.fresh(a.tx_counter),
        a.tx_counter < REJECT_AFTER_MESSAGES,
        a.sealed_packet(a.tx_counter, p).len() == p.len() + 32,
    ensures
        ({
            let pkt = a.sealed_packet(a.tx_counter, p);
            let sess = ring.member(ring.slot_of(le_u32(pkt.subrange(4, 8)), now).unwrap());
            &&& well_formed(pkt)
            &&& msg_type(pkt) == DATA
            &&& le_u32(pkt.subrange(4, 8)) == a.remote_index
            &&& le_u64(pkt.subrange(8, 16)) == a.tx_counter
            &&& sess.replay.fresh(a.tx_counter)
            &&& seal_of(sess.recv_key@, counter_nonce_of(a.tx_counter), Seq::empty(), p) == pkt.subrange(16, pkt.len() as int)
        }),
{
    let ct = seal_of(a.send_key@, counter_nonce_of(a.tx_counter), Seq::empty(), p);
    assert(a.sealed_packet(a.tx_counter, p).len() == 16 + ct.len());
    lemma_data_round_trip(a.remote_index, a.tx_counter, ct);
}

/// Once the current session has used up its counters, it can no longer send:
/// `encapsulate` then starts a handshake instead of emitting data.
pub proof fn lemma_reject_after_messages(t: Tunn, now: u64)
    requires
        t.sessions.current matches Some(s) && s.tx_counter >= REJECT_AFTER_MESSAGES,
    ensures
        !t.can_send(now),
{
}

/// A transport message that was accepted once is refused as a duplicate when
/// it arrives again at the session that took it (the same member of the ring,
/// or the current one if it was the pending session that it promoted).
pub proof fn lemma_duplicate_refused(t0: Tunn, t1: Tunn, t2: Tunn, addr: Seq<u8>, addr2: Seq<u8>, src: Seq<u8>, now: u64, now2: u64, r1: TunnelResult, r2: TunnelResult)
    requires
        well_formed(src),
        msg_type(src) == DATA,
        Tunn::decapsulated(t0, t1, addr, src, now, r1),
        Tunn::accepted(r1),
        Tunn::decapsulated(t1, t2, addr2, src, now2, r2),
        t0.sessions.slot_of(le_u32(src.subrange(4, 8)), now) matches Some(sl) && {
            ||| (sl != Slot::Next && t1.sessions.slot_of(le_u32(src.subrange(4, 8)), now2) == Some(sl))
            ||| (sl == Slot::Next && t1.sessions.slot_of(le_u32(src.subrange(4, 8)), now2) == Some(Slot::Current))
        },
    ensures
        r2 == TunnelResult::Error(WireGuardError::DuplicateCounter),
{
    let idx = le_u32(src.subrange(4, 8));
    let n = le_u64(src.subrange(8, 16));
    let sl = t0.sessions.slot_of(idx, now).unwrap();
    let f = t0.sessions.member(sl).replay;
    if sl != Slot::Next {
        crate::replay::lemma_no_replay(f, n, t1.sessions.member(sl).replay);
    } else {
        crate::replay::lemma_no_replay(f, n, t1.sessions.current.unwrap().replay);
    }
}

/// Ticking the engine: with a live session that can send, no handshake in
/// flight, no persistent keepalive and received data unanswered for
/// `KEEPALIVE_TIMEOUT`, the tick sends one empty transport message; a later
/// tick before the session is due for renewal, with nothing in between,
/// sends nothing.
pub proof fn lemma_tick_single_keepalive(t0: Tunn, t1: Tunn, t2: Tunn, now: u64, later: u64, r1: TunnelResult, r2: TunnelResult)
    requires
        Tunn::timers_ran(t0, t1, now, r1),
        Tunn::timers_ran(t1, t2, later, r2),
        t0.timers.handshake_started is None,
        t0.timers.persistent_keepalive == 0,
        !t0.timers.rekey_requested,
        t0.timers.session_started matches Some(s) && now < sat_add(s, REKEY_AFTER_TIME),
        t0.timers.want_keepalive_since matches Some(w) && now >= sat_add(w, KEEPALIVE_TIMEOUT),
        t0.can_send(now),
        t0.sessions.current.unwrap().tx_counter + 1 < REKEY_AFTER_MESSAGES,
        now <= later,
        later < sat_add(t0.timers.session_started.unwrap(), REKEY_AFTER_TIME),
    ensures
        r1 matches TunnelResult::WriteToNetwork(m) && m@.len() == DATA_OVERHEAD_SZ,
        r2 is Done,
{
    crate::timers::lemma_single_keepalive(t0.timers, now, later);
}

} // verus!
