//! A control value that ramps linearly toward a target over a fixed time.

use crate::arith::{div_down, floor_div, lemma_div_of_multiple};
use vstd::arithmetic::div_mod::lemma_div_is_ordered;
use vstd::arithmetic::mul::lemma_mul_inequality;
use vstd::prelude::*;

verus! {

/// The modulator value that stands for 1.0.
pub const FULL_SCALE: i32 = 1_000_000;

/// The value of a linear ramp from `from` (at time `start`) to `target`
/// (at time `start + duration`), held at `from` before the start and at
/// `target` from the end on. A ramp of no duration is at `target` at once.
pub open spec fn ramp(from: int, target: int, start: int, duration: int, now: int) -> int {
    if duration <= 0 || now >= start + duration {
        target
    } else if now <= start {
        from
    } else {
        from + div_down((target - from) * (now - start), duration)
    }
}

/// A continuously valued control signal with at most one transition in
/// flight: it ramps from `from` at `start_ms` to `target` at
/// `start_ms + duration_ms`, and rests at `target` afterwards.
#[derive(Clone, Copy, Debug, PartialEq, Eq)]
pub struct Modulator {
    pub from: i32,
    pub target: i32,
    pub start_ms: u64,
    pub duration_ms: u64,
}

impl Modulator {
    /// The value at time `now`.
    pub open spec fn value_spec(self, now: int) -> int {
        ramp(self.from as int, self.target as int, self.start_ms as int, self.duration_ms as int, now)
    }

    /// The modulator after `set(target, duration, now)`: a new ramp that
    /// starts at `now` from the value the old one had at `now`.
    pub open spec fn set_spec(self, target: i32, duration: u64, now: u64) -> Modulator {
        Modulator {
            from: self.value_spec(now as int) as i32,
            target,
            start_ms: now,
            duration_ms: duration,
        }
    }

    /// Whether a transition is still in flight at `now`.
    pub open spec fn in_transition_spec(self, now: int) -> bool {
        self.duration_ms > 0 && now < self.start_ms + self.duration_ms
    }

    /// A modulator at rest at `initial`.
    pub fn new(initial: i32) -> (m: Modulator)
        ensures
            m.from == initial,
            m.target == initial,
            m.duration_ms == 0,
            forall|t: int| m.value_spec(t) == initial,
    {
        Modulator { from: initial, target: initial, start_ms: 0, duration_ms: 0 }
    }

    /// The value at time `now`: `from + (target - from) * (now - start) / duration`
    /// with the fraction clamped to `[0, 1]` and the quotient rounded down.
    pub fn value_at(&self, now: u64) -> (r: i32)
        ensures
            r as int == self.value_spec(now as int),
    {
        proof {
            lemma_value_between(*self, now as int);
        }
        if self.duration_ms == 0 {
            return self.target;
        }
        if now <= self.start_ms {
            return self.from;
        }
        let elapsed: u64 = now - self.start_ms;
        if elapsed >= self.duration_ms {
            return self.target;
        }
        let diff: i128 = self.target as i128 - self.from as i128;
        proof {
            assert(-0x1_0000_0000_0000_0000_0000_0000 <= diff * elapsed
                <= 0x1_0000_0000_0000_0000_0000_0000) by (nonlinear_arith)
                requires
                    -0x1_0000_0000 <= diff <= 0x1_0000_0000,
                    0 <= elapsed <= 0xffff_ffff_ffff_ffff,
            ;
        }
        let q = floor_div(diff * (elapsed as i128), self.duration_ms as u128);
        (self.from as i128 + q) as i32
    }

    /// Whether a transition is still in flight at `now`.
    pub fn in_transition(&self, now: u64) -> (r: bool)
        ensures
            r == self.in_transition_spec(now as int),
    {
        self.duration_ms > 0 && (now < self.start_ms || now - self.start_ms < self.duration_ms)
    }

    /// Starts a linear transition from the current value to `target` over
    /// `duration_ms`, replacing any transition in flight. A duration of zero
    /// jumps at once.
    pub fn set(&mut self, target: i32, duration_ms: u64, now: u64)
        ensures
            *final(self) == old(self).set_spec(target, duration_ms, now),
            final(self).from as int == old(self).value_spec(now as int),
    {
        let current = self.value_at(now);
        self.from = current;
        self.target = target;
        self.start_ms = now;
        self.duration_ms = duration_ms;
    }
}

/// The value always lies between the ramp's two ends.
pub proof fn lemma_value_between(m: Modulator, now: int)
    ensures
        m.from <= m.target ==> m.from <= m.value_spec(now) <= m.target,
        m.target <= m.from ==> m.target <= m.value_spec(now) <= m.from,
{
    let d = m.duration_ms as int;
    let n = m.target - m.from;
    let e = now - m.start_ms;
    if d > 0 && now < m.start_ms + d && now > m.start_ms {
        lemma_div_of_multiple(n, d);
        if n >= 0 {
            lemma_mul_inequality(0, e, n);
            lemma_mul_inequality(e, d, n);
            assert(0 * n == 0) by (nonlinear_arith);
            assert(e * n == n * e) by (nonlinear_arith);
            assert(d * n == n * d) by (nonlinear_arith);
            lemma_div_is_ordered(0, n * e, d);
            lemma_div_is_ordered(n * e, n * d, d);
        } else {
            assert(n * d <= n * e <= 0) by (nonlinear_arith)
                requires
                    n < 0,
                    0 < e < d,
            ;
            lemma_div_is_ordered(n * e, 0, d);
            lemma_div_is_ordered(n * d, n * e, d);
        }
    }
}

/// Monotone ramp: over time the value never moves away from the target, so
/// it is non-decreasing toward a larger target and non-increasing toward a
/// smaller one.
pub proof fn lemma_value_monotone(m: Modulator, t1: int, t2: int)
    requires
        t1 <= t2,
    ensures
        m.from <= m.target ==> m.value_spec(t1) <= m.value_spec(t2),
        m.target <= m.from ==> m.value_spec(t1) >= m.value_spec(t2),
{
    lemma_value_between(m, t1);
    lemma_value_between(m, t2);
    let d = m.duration_ms as int;
    let s = m.start_ms as int;
    let n = m.target - m.from;
    if d > 0 && s < t1 && t2 < s + d {
        let e1 = t1 - s;
        let e2 = t2 - s;
        if n >= 0 {
            assert(n * e1 <= n * e2) by (nonlinear_arith)
                requires
                    n >= 0,
                    e1 <= e2,
            ;
            lemma_div_is_ordered(n * e1, n * e2, d);
        } else {
            assert(n * e2 <= n * e1) by (nonlinear_arith)
                requires
                    n < 0,
                    e1 <= e2,
            ;
            lemma_div_is_ordered(n * e2, n * e1, d);
        }
    }
}

/// A ramp set at `now` starts from the value held just before the call and
/// ends exactly on the target once the duration has passed.
pub proof fn lemma_set_endpoints(m: Modulator, target: i32, duration: u64, now: u64)
    requires
        duration > 0,
    ensures
        m.set_spec(target, duration, now).value_spec(now as int) == m.value_spec(now as int),
        m.set_spec(target, duration, now).value_spec(now + duration) == target,
{
    lemma_value_between(m, now as int);
}

/// Setting the value a modulator already rests at leaves it there for good.
pub proof fn lemma_set_at_rest(m: Modulator, x: i32, duration: u64, now: u64)
    requires
        m.value_spec(now as int) == x,
    ensures
        forall|t: int| #[trigger] m.set_spec(x, duration, now).value_spec(t) == x,
{
    lemma_value_between(m, now as int);
    let m2 = m.set_spec(x, duration, now);
    assert forall|t: int| #[trigger] m2.value_spec(t) == x by {
        assert((x - m2.from) * (t - now) == 0) by (nonlinear_arith)
            requires
                m2.from == x,
        ;
    }
}

/// Re-targeting halfway through a ramp starts the new ramp from the value
/// the first ramp had reached at that moment, not from its target or from
/// the value held before it.
pub proof fn lemma_retarget_midway(
    m: Modulator,
    a: i32,
    d1: u64,
    start: u64,
    b: i32,
    d2: u64,
)
    requires
        start + d1 / 2 <= u64::MAX,
    ensures
        ({
            let mid = (start + d1 / 2) as u64;
            let m1 = m.set_spec(a, d1, start);
            let m2 = m1.set_spec(b, d2, mid);
            &&& m2.from == ramp(m.value_spec(start as int), a as int, start as int, d1 as int, mid as int)
            &&& m2.from == m1.value_spec(mid as int)
            &&& m2.start_ms == mid
            &&& m2.target == b
            &&& (d2 > 0 ==> m2.value_spec(mid as int) == m2.from)
        }),
{
    let mid = (start + d1 / 2) as u64;
    let m1 = m.set_spec(a, d1, start);
    lemma_value_between(m, start as int);
    lemma_value_between(m1, mid as int);
}

} // verus!
