//! A token bucket shared by the workers of one download. It holds tokens in
//! thousandths of a byte so that refills of a few milliseconds are not lost; its
//! capacity and its refill rate are both the configured bytes per second.
use vstd::prelude::*;

verus! {

/// The bucket; `last_ms` is the time of its last refill, in milliseconds.
pub struct RateLimiter {
    pub rate: u64,
    pub milli: u64,
    pub last_ms: u64,
}

impl RateLimiter {
    /// A rate that fits in 32 bits, and never more than a full bucket.
    pub open spec fn wf(&self) -> bool {
        &&& 1 <= self.rate <= u32::MAX
        &&& self.milli <= self.capacity()
    }

    /// A full bucket, in thousandths of a byte.
    pub open spec fn capacity(&self) -> nat {
        (self.rate * 1000) as nat
    }

    /// The tokens (in thousandths) that the bucket holds at `now_ms` before
    /// anything is taken: what it held, plus `rate` per second since the last
    /// refill, up to a full bucket.
    pub open spec fn refilled(&self, now_ms: u64) -> nat {
        let elapsed: nat = if now_ms > self.last_ms {
            (now_ms - self.last_ms) as nat
        } else {
            0
        };
        let sum: nat = (self.milli + elapsed * self.rate) as nat;
        if sum > self.capacity() {
            self.capacity()
        } else {
            sum
        }
    }

    /// A full bucket for `rate` bytes per second, refilled last at `now_ms`.
    pub fn new(rate: u32, now_ms: u64) -> (r: RateLimiter)
        requires
            rate >= 1,
        ensures
            r.wf(),
            r.rate == rate,
            r.milli == r.capacity(),
            r.last_ms == now_ms,
    {
        RateLimiter { rate: rate as u64, milli: rate as u64 * 1000, last_ms: now_ms }
    }

    /// Grants at most `want` bytes at `now_ms`: as many whole bytes as the
    /// refilled bucket holds, and debits them.
    pub fn acquire(&mut self, want: u64, now_ms: u64) -> (granted: u64)
        requires
            old(self).wf(),
        ensures
            final(self).wf(),
            final(self).rate == old(self).rate,
            final(self).last_ms == if now_ms > old(self).last_ms {
                now_ms
            } else {
                old(self).last_ms
            },
            granted == if want <= old(self).refilled(now_ms) / 1000 {
                want as nat
            } else {
                old(self).refilled(now_ms) / 1000
            },
            final(self).milli == old(self).refilled(now_ms) - granted * 1000,
            released(*old(self), *final(self), granted as nat),
    {
        let cap: u64 = self.rate * 1000;
        let elapsed: u64 = if now_ms > self.last_ms { now_ms - self.last_ms } else { 0 };
        let refilled: u64 = if elapsed >= 1000 {
            cap
        } else {
            proof {
                assert(elapsed * self.rate <= 1000 * u32::MAX) by (nonlinear_arith)
                    requires elapsed < 1000, self.rate <= u32::MAX;
            }
            let sum: u64 = self.milli + elapsed * self.rate;
            if sum > cap { cap } else { sum }
        };
        proof {
            if elapsed >= 1000 {
                assert(elapsed * self.rate >= 1000 * self.rate) by (nonlinear_arith)
                    requires elapsed >= 1000, self.rate >= 1;
            }
            assert(refilled == self.refilled(now_ms));
        }
        let avail: u64 = refilled / 1000;
        let granted: u64 = if want <= avail { want } else { avail };
        self.milli = refilled - granted * 1000;
        if now_ms > self.last_ms {
            self.last_ms = now_ms;
        }
        granted
    }

    /// How long after its last refill the bucket holds `min(want, rate)` whole
    /// bytes: zero if it holds them already.
    pub fn wait_ms(&self, want: u64) -> (r: u64)
        requires
            self.wf(),
        ensures
            ({
                let need: nat = if want <= self.rate { want as nat } else { self.rate as nat };
                &&& need * 1000 <= self.milli ==> r == 0
                &&& need * 1000 > self.milli ==> r == ((need * 1000 - self.milli) + self.rate - 1)
                    / (self.rate as int)
            }),
    {
        let need: u64 = if want <= self.rate { want } else { self.rate };
        if need * 1000 <= self.milli {
            0
        } else {
            ((need * 1000 - self.milli) + self.rate - 1) / self.rate
        }
    }
}

/// From `a` to `b` the bucket handed out `granted` bytes, and no more than it
/// held at `a` plus what refilled in between.
pub open spec fn released(a: RateLimiter, b: RateLimiter, granted: nat) -> bool {
    &&& b.rate == a.rate
    &&& b.last_ms >= a.last_ms
    &&& granted * 1000 + b.milli <= a.milli + (b.last_ms - a.last_ms) * a.rate
}

/// The sum of the bytes granted.
pub open spec fn total_granted(grants: Seq<nat>) -> nat
    decreases grants.len(),
{
    if grants.len() == 0 {
        0
    } else {
        total_granted(grants.drop_last()) + grants.last()
    }
}

/// Over any run of grants by one bucket, from state `states[0]` to the last
/// state, the bytes released are at most one full bucket (one second's worth)
/// plus the rate times the elapsed time. So within a window of one second
/// workers together get no more than the rate, up to that one-bucket burst.
pub proof fn lemma_throughput_bound(states: Seq<RateLimiter>, grants: Seq<nat>)
    requires
        states.len() == grants.len() + 1,
        states[0].wf(),
        forall|i: int|
            0 <= i < grants.len() ==> released(states[i], #[trigger] states[i + 1], grants[i]),
    ensures
        states.last().rate == states[0].rate,
        states.last().last_ms >= states[0].last_ms,
        total_granted(grants) * 1000 + states.last().milli <= states[0].milli + (
        states.last().last_ms - states[0].last_ms) * states[0].rate,
        total_granted(grants) * 1000 <= states[0].capacity() + (states.last().last_ms
            - states[0].last_ms) * states[0].rate,
    decreases grants.len(),
{
    if grants.len() > 0 {
        let n = grants.len() as int;
        let ps = states.drop_last();
        let pg = grants.drop_last();
        assert forall|i: int| 0 <= i < pg.len() implies released(ps[i], #[trigger] ps[i + 1], pg[i]) by {
            assert(released(states[i], states[i + 1], grants[i]));
        }
        lemma_throughput_bound(ps, pg);
        assert(released(states[n - 1], states[n], grants[n - 1]));
        let a = states[n - 1];
        let b = states[n];
        let r = states[0].rate as int;
        let x = a.last_ms - states[0].last_ms;
        let y = b.last_ms - a.last_ms;
        assert(x * r + y * r == (b.last_ms - states[0].last_ms) * r) by (nonlinear_arith)
            requires x + y == b.last_ms - states[0].last_ms;
    }
}

} // verus!
