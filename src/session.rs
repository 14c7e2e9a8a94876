//! Keyed transport sessions and the ring of previous, current and next session.
use vstd::prelude::*;
use crate::bytes::{counter_nonce, counter_nonce_of, wipe_bytes};
use crate::crypto::{open, seal, seal_of, MAX_PLAINTEXT};
use crate::errors::WireGuardError;
use crate::messages::{data_bytes, format_data};
use crate::replay::ReplayFilter;

verus! {

/// After this many messages a session should be replaced.
pub const REKEY_AFTER_MESSAGES: u64 = 1152921504606846976;
/// A session refuses to send or receive counters at or above this limit.
pub const REJECT_AFTER_MESSAGES: u64 = 18446744073709543423;
/// How long a session, or a replaced one, may still be used (ms).
pub const REJECT_AFTER_TIME: u64 = 180_000;

/// One direction-pair of transport keys with its counters.
pub struct Session {
    pub local_index: u32,
    pub remote_index: u32,
    pub send_key: Vec<u8>,
    pub recv_key: Vec<u8>,
    pub tx_counter: u64,
    pub replay: ReplayFilter,
    pub established_at: u64,
}

impl Session {
    pub open spec fn wf(&self) -> bool {
        &&& self.send_key@.len() == 32
        &&& self.recv_key@.len() == 32
        &&& self.replay.wf()
    }

    /// A fresh session, keyed by the handshake that produced it.
    pub fn new(local_index: u32, remote_index: u32, send_key: Vec<u8>, recv_key: Vec<u8>, now: u64) -> (r: Session)
        requires
            send_key@.len() == 32,
            recv_key@.len() == 32,
        ensures
            r.wf(),
            r.local_index == local_index,
            r.remote_index == remote_index,
            r.send_key == send_key,
            r.recv_key == recv_key,
            r.tx_counter == 0,
            r.replay.next_spec() == 0,
            forall|m: u64| !r.replay.marked(m),
            r.established_at == now,
    {
        Session { local_index, remote_index, send_key, recv_key, tx_counter: 0, replay: ReplayFilter::new(), established_at: now }
    }

    /// Overwrites both keys with zeros before the session is dropped.
    pub fn wipe(&mut self)
        ensures
            final(self).local_index == old(self).local_index,
            final(self).remote_index == old(self).remote_index,
            forall|i: int| 0 <= i < final(self).send_key@.len() ==> final(self).send_key@[i] == 0,
            forall|i: int| 0 <= i < final(self).recv_key@.len() ==> final(self).recv_key@[i] == 0,
    {
        wipe_bytes(&mut self.send_key);
        wipe_bytes(&mut self.recv_key);
    }

    /// The transport message that carries `pt` under counter `n`.
    pub open spec fn sealed_packet(&self, n: u64, pt: Seq<u8>) -> Seq<u8> {
        data_bytes(self.remote_index, n, seal_of(self.send_key@, counter_nonce_of(n), Seq::empty(), pt))
    }

    /// Encrypts `pt` under the next counter and frames it for the peer.
    pub fn encrypt(&mut self, pt: &[u8]) -> (r: Vec<u8>)
        requires
            old(self).wf(),
            old(self).tx_counter < REJECT_AFTER_MESSAGES,
            pt@.len() < MAX_PLAINTEXT,
        ensures
            r@ == old(self).sealed_packet(old(self).tx_counter, pt@),
            r@.len() == pt@.len() + 32,
            *final(self) == (Session { tx_counter: (old(self).tx_counter + 1) as u64, ..*old(self) }),
    {
        let n = self.tx_counter;
        let empty: Vec<u8> = Vec::new();
        let nonce = counter_nonce(n);
        let ct = seal(self.send_key.as_slice(), nonce.as_slice(), empty.as_slice(), pt);
        self.tx_counter = n + 1;
        format_data(self.remote_index, n, ct.as_slice())
    }

    /// Decrypts the payload of a transport message that carries counter `n`,
    /// rejecting counters past the limit, replays and forgeries.
    pub fn decrypt(&mut self, n: u64, ct: &[u8]) -> (r: Result<Vec<u8>, WireGuardError>)
        requires
            old(self).wf(),
        ensures
            n >= REJECT_AFTER_MESSAGES ==> r == Err::<Vec<u8>, _>(WireGuardError::InvalidCounter),
            n < REJECT_AFTER_MESSAGES && !old(self).replay.fresh(n) ==> r == Err::<Vec<u8>, _>(WireGuardError::DuplicateCounter),
            n < REJECT_AFTER_MESSAGES && old(self).replay.fresh(n) && r is Err ==> r == Err::<Vec<u8>, _>(WireGuardError::InvalidAeadTag),
            forall|p: Seq<u8>| n < REJECT_AFTER_MESSAGES && old(self).replay.fresh(n) && #[trigger] seal_of(old(self).recv_key@, counter_nonce_of(n), Seq::empty(), p) == ct@ ==> r.is_ok() && r.unwrap()@ == p,
            r.is_ok() ==> seal_of(old(self).recv_key@, counter_nonce_of(n), Seq::empty(), r.unwrap()@) == ct@,
            r.is_ok() ==> n < REJECT_AFTER_MESSAGES && old(self).replay.fresh(n),
            r.is_ok() ==> ReplayFilter::accepts(old(self).replay, n, final(self).replay),
            r.is_ok() ==> *final(self) == (Session { replay: final(self).replay, ..*old(self) }),
            r.is_err() ==> *final(self) == *old(self),
    {
        if n >= REJECT_AFTER_MESSAGES {
            return Err(WireGuardError::InvalidCounter);
        }
        if !self.replay.will_accept(n) {
            return Err(WireGuardError::DuplicateCounter);
        }
        let empty: Vec<u8> = Vec::new();
        let nonce = counter_nonce(n);
        match open(self.recv_key.as_slice(), nonce.as_slice(), empty.as_slice(), ct) {
            None => Err(WireGuardError::InvalidAeadTag),
            Some(p) => {
                self.replay.check_and_set(n);
                Ok(p)
            },
        }
    }
}

/// Which member of the ring a packet belongs to.
#[derive(Debug, Clone, Copy, PartialEq, Eq, Structural)]
pub enum Slot {
    Previous,
    Current,
    Next,
}

/// Up to three sessions: the one replaced last, the one used for sending, and
/// the one a handshake in progress produced.
pub struct SessionRing {
    pub previous: Option<Session>,
    pub current: Option<Session>,
    pub next: Option<Session>,
    /// The time from which `previous` is no longer used.
    pub previous_expires: u64,
}

pub open spec fn opt_wf(s: Option<Session>) -> bool {
    s matches Some(x) ==> x.wf()
}

pub open spec fn has_index(s: Option<Session>, idx: u32) -> bool {
    s matches Some(x) && x.local_index == idx
}

impl SessionRing {
    pub open spec fn wf(&self) -> bool {
        opt_wf(self.previous) && opt_wf(self.current) && opt_wf(self.next)
    }

    /// The member that holds local index `idx` at time `now`, if any.
    pub open spec fn slot_of(&self, idx: u32, now: u64) -> Option<Slot> {
        if has_index(self.current, idx) {
            Some(Slot::Current)
        } else if has_index(self.previous, idx) && now < self.previous_expires {
            Some(Slot::Previous)
        } else if has_index(self.next, idx) {
            Some(Slot::Next)
        } else {
            None
        }
    }

    /// The ring after `s` becomes current at `now`.
    pub open spec fn promoted(&self, s: Session, now: u64) -> SessionRing {
        SessionRing {
            previous: self.current,
            current: Some(s),
            next: None,
            previous_expires: if now <= u64::MAX - REJECT_AFTER_TIME { (now + REJECT_AFTER_TIME) as u64 } else { u64::MAX },
        }
    }

    pub fn new() -> (r: SessionRing)
        ensures
            r.wf(),
            r.previous is None,
            r.current is None,
            r.next is None,
    {
        SessionRing { previous: None, current: None, next: None, previous_expires: 0 }
    }

    /// Finds the member that a packet addressed to `idx` belongs to.
    pub fn route_inbound(&self, idx: u32, now: u64) -> (r: Option<Slot>)
        ensures
            r == self.slot_of(idx, now),
    {
        if let Some(s) = &self.current {
            if s.local_index == idx {
                return Some(Slot::Current);
            }
        }
        if let Some(s) = &self.previous {
            if s.local_index == idx && now < self.previous_expires {
                return Some(Slot::Previous);
            }
        }
        if let Some(s) = &self.next {
            if s.local_index == idx {
                return Some(Slot::Next);
            }
        }
        None
    }

    /// Makes `s` current; the current session becomes the previous one and a
    /// pending one is dropped.
    pub fn promote(&mut self, s: Session, now: u64)
        requires
            old(self).wf(),
            s.wf(),
        ensures
            *final(self) == old(self).promoted(s, now),
            final(self).wf(),
    {
        let expires: u64 = if now <= u64::MAX - REJECT_AFTER_TIME { now + REJECT_AFTER_TIME } else { u64::MAX };
        if let Some(mut dropped) = self.previous.take() {
            dropped.wipe();
        }
        if let Some(mut dropped) = self.next.take() {
            dropped.wipe();
        }
        self.previous = self.current.take();
        self.current = Some(s);
        self.previous_expires = expires;
    }

    /// The ring at `now`, without the previous session once its time is over.
    pub open spec fn expired_at(&self, now: u64) -> SessionRing {
        if now >= self.previous_expires { SessionRing { previous: None, ..*self } } else { *self }
    }

    /// Wipes and drops the previous session once its time is over.
    pub fn expire(&mut self, now: u64)
        requires
            old(self).wf(),
        ensures
            final(self).wf(),
            *final(self) == old(self).expired_at(now),
    {
        if now >= self.previous_expires {
            if let Some(mut dropped) = self.previous.take() {
                dropped.wipe();
            }
        }
    }

    /// Holds `s` as the pending session, replacing any other.
    pub fn set_next(&mut self, s: Session)
        requires
            old(self).wf(),
            s.wf(),
        ensures
            *final(self) == (SessionRing { next: Some(s), ..*old(self) }),
            final(self).wf(),
    {
        if let Some(mut dropped) = self.next.take() {
            dropped.wipe();
        }
        self.next = Some(s);
    }

    /// Makes the pending session current, if there is one.
    pub fn promote_next(&mut self, now: u64)
        requires
            old(self).wf(),
        ensures
            old(self).next matches Some(s) ==> *final(self) == old(self).promoted(s, now),
            old(self).next is None ==> *final(self) == *old(self),
            final(self).wf(),
    {
        if let Some(s) = self.next.take() {
            self.promote(s, now);
        }
    }

    /// Decrypts with the member in `slot`.
    pub fn decrypt_in(&mut self, slot: Slot, n: u64, ct: &[u8]) -> (r: Result<Vec<u8>, WireGuardError>)
        requires
            old(self).wf(),
            old(self).slot_of_is_some(slot),
        ensures
            final(self).wf(),
            final(self).slot_of_is_some(slot),
            final(self).previous_expires == old(self).previous_expires,
            slot != Slot::Previous ==> final(self).previous == old(self).previous,
            slot != Slot::Current ==> final(self).current == old(self).current,
            slot != Slot::Next ==> final(self).next == old(self).next,
            forall|p: Seq<u8>| n < REJECT_AFTER_MESSAGES && old(self).member(slot).replay.fresh(n) && #[trigger] seal_of(old(self).member(slot).recv_key@, counter_nonce_of(n), Seq::empty(), p) == ct@ ==> r.is_ok() && r.unwrap()@ == p,
            r.is_ok() ==> seal_of(old(self).member(slot).recv_key@, counter_nonce_of(n), Seq::empty(), r.unwrap()@) == ct@,
            r.is_ok() ==> ReplayFilter::accepts(old(self).member(slot).replay, n, final(self).member(slot).replay),
            r.is_ok() ==> final(self).member(slot) == (Session { replay: final(self).member(slot).replay, ..old(self).member(slot) }),
            r.is_err() ==> *final(self) == *old(self),
            r.is_ok() ==> *final(self) == old(self).with_replay(slot, final(self).member(slot).replay),
            n >= REJECT_AFTER_MESSAGES ==> r == Err::<Vec<u8>, _>(WireGuardError::InvalidCounter),
            n < REJECT_AFTER_MESSAGES && !old(self).member(slot).replay.fresh(n) ==> r == Err::<Vec<u8>, _>(WireGuardError::DuplicateCounter),
            n < REJECT_AFTER_MESSAGES && old(self).member(slot).replay.fresh(n) && r is Err ==> r == Err::<Vec<u8>, _>(WireGuardError::InvalidAeadTag),
    {
        match slot {
            Slot::Previous => {
                let mut s = self.previous.take().unwrap();
                let r = s.decrypt(n, ct);
                self.previous = Some(s);
                r
            },
            Slot::Current => {
                let mut s = self.current.take().unwrap();
                let r = s.decrypt(n, ct);
                self.current = Some(s);
                r
            },
            Slot::Next => {
                let mut s = self.next.take().unwrap();
                let r = s.decrypt(n, ct);
                self.next = Some(s);
                r
            },
        }
    }

    /// The ring with the replay window of the member in `slot` replaced by `f`.
    pub open spec fn with_replay(&self, slot: Slot, f: ReplayFilter) -> SessionRing {
        match slot {
            Slot::Previous => SessionRing { previous: Some(Session { replay: f, ..self.previous.unwrap() }), ..*self },
            Slot::Current => SessionRing { current: Some(Session { replay: f, ..self.current.unwrap() }), ..*self },
            Slot::Next => SessionRing { next: Some(Session { replay: f, ..self.next.unwrap() }), ..*self },
        }
    }

    pub open spec fn slot_of_is_some(&self, slot: Slot) -> bool {
        match slot {
            Slot::Previous => self.previous is Some,
            Slot::Current => self.current is Some,
            Slot::Next => self.next is Some,
        }
    }

    pub open spec fn member(&self, slot: Slot) -> Session
        recommends
            self.slot_of_is_some(slot),
    {
        match slot {
            Slot::Previous => self.previous.unwrap(),
            Slot::Current => self.current.unwrap(),
            Slot::Next => self.next.unwrap(),
        }
    }
}

/// After a new session is promoted, packets addressed to the session it
/// replaced are still routed to that session until `REJECT_AFTER_TIME` has passed.
pub proof fn lemma_session_overlap(r: SessionRing, s: Session, now: u64, t: u64)
    requires
        r.current is Some,
        s.local_index != r.current.unwrap().local_index,
        now <= u64::MAX - REJECT_AFTER_TIME,
        t < now + REJECT_AFTER_TIME,
    ensures
        r.promoted(s, now).slot_of(r.current.unwrap().local_index, t) == Some(Slot::Previous),
        r.promoted(s, now).member(Slot::Previous) == r.current.unwrap(),
{
}

} // verus!
