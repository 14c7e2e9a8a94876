//! The clock-driven decisions: retransmitting, abandoning and renewing
//! handshakes, and sending keepalives. All times are milliseconds.
use vstd::prelude::*;
use crate::session::{REJECT_AFTER_TIME, REKEY_AFTER_MESSAGES};

verus! {

/// Age after which a session is renewed.
pub const REKEY_AFTER_TIME: u64 = 120_000;
/// How long a handshake is retried before it is abandoned.
pub const REKEY_ATTEMPT_TIME: u64 = 90_000;
/// Interval between retransmissions of an unanswered initiation.
pub const REKEY_TIMEOUT: u64 = 5_000;
/// How long received data may go unanswered before a keepalive is sent.
pub const KEEPALIVE_TIMEOUT: u64 = 10_000;
/// Retransmissions of one handshake at most.
pub const MAX_RETRIES: u32 = 18;

/// What the timers ask for.
#[derive(Debug, Clone, Copy, PartialEq, Eq, Structural)]
pub enum TimerAction {
    Idle,
    Abandon,
    RetryHandshake,
    Rekey,
    Keepalive,
}

/// The times that the decisions depend on.
#[derive(Debug, Clone, Copy, PartialEq, Eq, Structural)]
pub struct Timers {
    /// When the handshake now awaiting its response began.
    pub handshake_started: Option<u64>,
    /// When the last initiation was sent.
    pub last_initiation: u64,
    /// Retransmissions of the handshake in progress.
    pub retries: u32,
    /// When the current session was established.
    pub session_started: Option<u64>,
    /// When data was first received since anything was last sent.
    pub want_keepalive_since: Option<u64>,
    /// When any packet was last sent.
    pub last_sent: u64,
    /// Interval of persistent keepalives; 0 turns them off.
    pub persistent_keepalive: u64,
    /// The current session has carried enough messages to be renewed.
    pub rekey_requested: bool,
}

/// `a + b`, or `u64::MAX` if that does not fit.
pub open spec fn sat_add(a: u64, b: u64) -> u64 {
    if a <= u64::MAX - b { (a + b) as u64 } else { u64::MAX }
}

fn add_sat(a: u64, b: u64) -> (r: u64)
    ensures
        r == sat_add(a, b),
{
    if a <= u64::MAX - b { a + b } else { u64::MAX }
}

impl Timers {
    /// Whether the current session may still carry packets at `now`.
    pub open spec fn session_alive(&self, now: u64) -> bool {
        self.session_started matches Some(s) && now < sat_add(s, REJECT_AFTER_TIME)
    }

    pub open spec fn keepalive_due(&self, now: u64) -> bool {
        &&& self.session_alive(now)
        &&& {
            ||| (self.want_keepalive_since matches Some(w) && now >= sat_add(w, KEEPALIVE_TIMEOUT))
            ||| (self.persistent_keepalive > 0 && now >= sat_add(self.last_sent, self.persistent_keepalive))
        }
    }

    /// The current session is due for renewal: by age, or by the messages it carried.
    pub open spec fn rekey_due(&self, now: u64) -> bool {
        &&& self.session_alive(now)
        &&& (now >= sat_add(self.session_started.unwrap(), REKEY_AFTER_TIME) || self.rekey_requested)
    }

    /// What the timers ask for at `now`; at most one thing. A due keepalive
    /// goes before a renewal, which follows at the next tick.
    pub open spec fn action_at(&self, now: u64) -> TimerAction {
        match self.handshake_started {
            Some(start) => if now >= sat_add(start, REKEY_ATTEMPT_TIME) {
                TimerAction::Abandon
            } else if now >= sat_add(self.last_initiation, REKEY_TIMEOUT) && self.retries < MAX_RETRIES {
                TimerAction::RetryHandshake
            } else if self.keepalive_due(now) {
                TimerAction::Keepalive
            } else {
                TimerAction::Idle
            },
            None => if self.keepalive_due(now) {
                TimerAction::Keepalive
            } else if self.rekey_due(now) {
                TimerAction::Rekey
            } else {
                TimerAction::Idle
            },
        }
    }

    /// After an initiation is sent; `retry` if it repeats the one in progress.
    pub open spec fn after_initiation(self, now: u64, retry: bool) -> Timers {
        Timers {
            handshake_started: if retry && self.handshake_started is Some { self.handshake_started } else { Some(now) },
            retries: if retry && self.handshake_started is Some && self.retries < MAX_RETRIES { (self.retries + 1) as u32 } else if retry && self.handshake_started is Some { self.retries } else { 0 },
            last_initiation: now,
            last_sent: now,
            want_keepalive_since: None,
            rekey_requested: false,
            ..self
        }
    }

    /// After the handshake in progress is given up.
    pub open spec fn after_abandon(self) -> Timers {
        Timers { handshake_started: None, retries: 0, rekey_requested: false, ..self }
    }

    /// After a new session became current at `now`.
    pub open spec fn after_established(self, now: u64) -> Timers {
        Timers { handshake_started: None, retries: 0, session_started: Some(now), rekey_requested: false, ..self }
    }

    /// After a packet other than an initiation went out at `now`.
    pub open spec fn after_packet_sent(self, now: u64) -> Timers {
        Timers { last_sent: now, want_keepalive_since: None, ..self }
    }

    /// After data arrived from the peer at `now`.
    pub open spec fn after_data_received(self, now: u64) -> Timers {
        Timers { want_keepalive_since: if self.want_keepalive_since is None { Some(now) } else { self.want_keepalive_since }, ..self }
    }

    /// After the current session sent a message under counter `n`.
    pub open spec fn after_counter(self, n: u64) -> Timers {
        Timers { rekey_requested: self.rekey_requested || n + 1 >= REKEY_AFTER_MESSAGES, ..self }
    }

    pub fn new(persistent_keepalive: u64) -> (r: Timers)
        ensures
            r == (Timers { handshake_started: None, last_initiation: 0, retries: 0, session_started: None, want_keepalive_since: None, last_sent: 0, persistent_keepalive, rekey_requested: false }),
    {
        Timers { handshake_started: None, last_initiation: 0, retries: 0, session_started: None, want_keepalive_since: None, last_sent: 0, persistent_keepalive, rekey_requested: false }
    }

    fn session_alive_at(&self, now: u64) -> (r: bool)
        ensures
            r == self.session_alive(now),
    {
        match self.session_started {
            Some(s) => now < add_sat(s, REJECT_AFTER_TIME),
            None => false,
        }
    }

    fn keepalive_due_at(&self, now: u64) -> (r: bool)
        ensures
            r == self.keepalive_due(now),
    {
        if !self.session_alive_at(now) {
            return false;
        }
        let wanted = match self.want_keepalive_since {
            Some(w) => now >= add_sat(w, KEEPALIVE_TIMEOUT),
            None => false,
        };
        wanted || (self.persistent_keepalive > 0 && now >= add_sat(self.last_sent, self.persistent_keepalive))
    }

    /// Decides what to do at `now`.
    pub fn action(&self, now: u64) -> (r: TimerAction)
        ensures
            r == self.action_at(now),
    {
        match self.handshake_started {
            Some(start) => if now >= add_sat(start, REKEY_ATTEMPT_TIME) {
                TimerAction::Abandon
            } else if now >= add_sat(self.last_initiation, REKEY_TIMEOUT) && self.retries < MAX_RETRIES {
                TimerAction::RetryHandshake
            } else if self.keepalive_due_at(now) {
                TimerAction::Keepalive
            } else {
                TimerAction::Idle
            },
            None => {
                if self.keepalive_due_at(now) {
                    return TimerAction::Keepalive;
                }
                let rekey = match self.session_started {
                    Some(s) => self.session_alive_at(now) && (now >= add_sat(s, REKEY_AFTER_TIME) || self.rekey_requested),
                    None => false,
                };
                if rekey {
                    TimerAction::Rekey
                } else {
                    TimerAction::Idle
                }
            },
        }
    }

    /// The current session sent a message under counter `n`.
    pub fn on_counter_used(&mut self, n: u64)
        ensures
            *final(self) == old(self).after_counter(n),
    {
        if n >= REKEY_AFTER_MESSAGES - 1 {
            self.rekey_requested = true;
        }
    }

    /// An initiation went out; `retry` if it repeats the one in progress.
    pub fn on_initiation_sent(&mut self, now: u64, retry: bool)
        ensures
            *final(self) == old(self).after_initiation(now, retry),
    {
        if retry && self.handshake_started.is_some() {
            if self.retries < MAX_RETRIES {
                self.retries = self.retries + 1;
            }
        } else {
            self.handshake_started = Some(now);
            self.retries = 0;
        }
        self.last_initiation = now;
        self.last_sent = now;
        self.want_keepalive_since = None;
        self.rekey_requested = false;
    }

    /// The handshake in progress is given up.
    pub fn on_abandon(&mut self)
        ensures
            *final(self) == old(self).after_abandon(),
    {
        self.handshake_started = None;
        self.retries = 0;
        self.rekey_requested = false;
    }

    /// A new session became current.
    pub fn on_session_established(&mut self, now: u64)
        ensures
            *final(self) == old(self).after_established(now),
    {
        self.handshake_started = None;
        self.retries = 0;
        self.session_started = Some(now);
        self.rekey_requested = false;
    }

    /// A packet other than an initiation went out.
    pub fn on_packet_sent(&mut self, now: u64)
        ensures
            *final(self) == old(self).after_packet_sent(now),
    {
        self.last_sent = now;
        self.want_keepalive_since = None;
    }

    /// Data arrived from the peer.
    pub fn on_data_received(&mut self, now: u64)
        ensures
            *final(self) == old(self).after_data_received(now),
    {
        if self.want_keepalive_since.is_none() {
            self.want_keepalive_since = Some(now);
        }
    }
}

/// With a live session, no handshake in flight and no persistent keepalive,
/// unanswered data asks for one keepalive once `KEEPALIVE_TIMEOUT` has passed,
/// and once it is sent, for no other until the session is due for renewal.
pub proof fn lemma_single_keepalive(t: Timers, now: u64, later: u64)
    requires
        t.handshake_started is None,
        t.persistent_keepalive == 0,
        !t.rekey_requested,
        t.session_started matches Some(s) && now < sat_add(s, REKEY_AFTER_TIME),
        t.want_keepalive_since matches Some(w) && now >= sat_add(w, KEEPALIVE_TIMEOUT),
        now <= later,
        later < sat_add(t.session_started.unwrap(), REKEY_AFTER_TIME),
    ensures
        t.action_at(now) == TimerAction::Keepalive,
        (Timers { last_sent: now, want_keepalive_since: None, ..t }).action_at(later) == TimerAction::Idle,
{
}

/// With a live session, no handshake in flight and no keepalive due, the
/// session's age reaching `REKEY_AFTER_TIME` asks for a new handshake, and once its initiation is sent,
/// for no other before `REKEY_TIMEOUT` has passed.
pub proof fn lemma_single_rekey(t: Timers, now: u64, later: u64)
    requires
        t.handshake_started is None,
        !t.keepalive_due(now),
        t.session_started matches Some(s) && sat_add(s, REKEY_AFTER_TIME) <= now && now < sat_add(s, REJECT_AFTER_TIME),
        now <= later,
        later < sat_add(now, REKEY_TIMEOUT),
    ensures
        t.action_at(now) == TimerAction::Rekey,
        t.after_initiation(now, false).action_at(later) != TimerAction::Rekey,
        t.after_initiation(now, false).action_at(later) != TimerAction::RetryHandshake,
{
}

} // verus!
