//! The per-session sliding window that rejects replayed transport counters.
use vstd::prelude::*;

verus! {

/// How many counters below the highest accepted one are still tracked.
pub const WINDOW: u64 = 2048;

/// A sliding window anchored just above the highest accepted counter.
///
/// `bits[i]` records whether counter `next - 1 - i` has been accepted.
pub struct ReplayFilter {
    next: u64,
    bits: Vec<bool>,
}

impl ReplayFilter {
    pub closed spec fn wf(&self) -> bool {
        self.bits@.len() == WINDOW
    }

    /// One more than the highest counter accepted so far (0 if none).
    pub closed spec fn next_spec(&self) -> int {
        self.next as int
    }

    /// Counter `m` has been accepted and is still inside the window.
    pub closed spec fn marked(&self, m: u64) -> bool {
        &&& (m as int) < self.next
        &&& self.next - WINDOW <= m
        &&& self.bits@[self.next - 1 - m]
    }

    /// Counter `n` would be accepted now: above every accepted counter, or
    /// inside the window and not yet seen.
    pub open spec fn fresh(&self, n: u64) -> bool {
        ||| n >= self.next_spec()
        ||| (self.next_spec() - WINDOW <= n && !self.marked(n))
    }

    /// `g` is `f` after accepting `n`.
    pub open spec fn accepts(f: ReplayFilter, n: u64, g: ReplayFilter) -> bool {
        &&& g.wf()
        &&& g.next_spec() == if n >= f.next_spec() { n + 1 } else { f.next_spec() }
        &&& forall|m: u64| #[trigger] g.marked(m) <==> (m == n || (f.marked(m) && g.next_spec() - WINDOW <= m))
    }

    /// A window in which nothing has been accepted.
    pub fn new() -> (r: ReplayFilter)
        ensures
            r.wf(),
            r.next_spec() == 0,
            forall|m: u64| !r.marked(m),
    {
        let mut bits: Vec<bool> = Vec::with_capacity(WINDOW as usize);
        let mut i: u64 = 0;
        while i < WINDOW
            invariant
                i <= WINDOW,
                bits@.len() == i,
            decreases WINDOW - i,
        {
            bits.push(false);
            i = i + 1;
        }
        ReplayFilter { next: 0, bits }
    }

    /// Whether `n` would be accepted now; nothing is recorded.
    pub fn will_accept(&self, n: u64) -> (r: bool)
        requires
            self.wf(),
        ensures
            r == self.fresh(n),
    {
        if n >= self.next {
            true
        } else {
            let d: u64 = self.next - 1 - n;
            d < WINDOW && !self.bits[d as usize]
        }
    }

    /// Accepts `n` if it was not seen before and is not too old, and records it.
    pub fn check_and_set(&mut self, n: u64) -> (r: bool)
        requires
            old(self).wf(),
            n < u64::MAX,
        ensures
            r == old(self).fresh(n),
            r ==> Self::accepts(*old(self), n, *final(self)),
            !r ==> *final(self) == *old(self),
    {
        if n >= self.next {
            let mut bits: Vec<bool> = Vec::with_capacity(WINDOW as usize);
            let mut i: u64 = 0;
            while i < WINDOW
                invariant
                    self.wf(),
                    n >= self.next,
                    i <= WINDOW,
                    bits@.len() == i,
                    forall|j: int| 0 <= j < i ==> #[trigger] bits@[j] == (j == 0 || (n - j
                        >= 0 && self.marked((n - j) as u64))),
                decreases WINDOW - i,
            {
                let v: bool = if i == 0 {
                    true
                } else if i > n {
                    false
                } else {
                    let c: u64 = n - i;
                    c < self.next && self.next - c <= WINDOW && self.bits[(self.next - 1 - c) as usize]
                };
                bits.push(v);
                i = i + 1;
            }
            let ghost f = *self;
            self.next = n + 1;
            self.bits = bits;
            assert forall|m: u64| #[trigger] self.marked(m) <==> (m == n || (f.marked(m)
                && self.next_spec() - WINDOW <= m)) by {
                if self.marked(m) {
                    assert(self.bits@[n - m] == (n - m == 0 || f.marked((n - (n - m)) as u64)));
                }
                if m == n {
                    assert(self.bits@[0]);
                }
                if f.marked(m) && self.next_spec() - WINDOW <= m {
                    assert(self.bits@[n - m] == (n - m == 0 || f.marked((n - (n - m)) as u64)));
                }
            }
            true
        } else {
            let d: u64 = self.next - 1 - n;
            if d >= WINDOW {
                false
            } else if self.bits[d as usize] {
                false
            } else {
                let ghost f = *self;
                self.bits.set(d as usize, true);
                assert forall|m: u64| #[trigger] self.marked(m) <==> (m == n || (f.marked(m)
                    && self.next_spec() - WINDOW <= m)) by {
                    if m != n && (m as int) < self.next && self.next - WINDOW <= m {
                        assert(self.bits@[self.next - 1 - m] == f.bits@[f.next - 1 - m]);
                    }
                }
                true
            }
        }
    }
}

/// A counter that was accepted is rejected when it arrives again.
pub proof fn lemma_no_replay(f: ReplayFilter, n: u64, g: ReplayFilter)
    requires
        ReplayFilter::accepts(f, n, g),
    ensures
        !g.fresh(n),
{
    assert(g.marked(n));
}

/// Accepting a counter never forgets a later or equal counter that was already seen.
pub proof fn lemma_window_keeps_recent(f: ReplayFilter, n: u64, g: ReplayFilter, m: u64)
    requires
        ReplayFilter::accepts(f, n, g),
        f.marked(m),
        g.next_spec() - WINDOW <= m,
    ensures
        !g.fresh(m),
{
    assert(g.marked(m));
}

} // verus!
