//! The timed-transition primitive.
//!
//! An animation is evaluated purely and statelessly against the shared
//! monotonic clock: it stores only its start time and duration, and every
//! question about it is a function of those and of "now". Progress is
//! reported in thousandths and grows linearly from start to end time.

use vstd::prelude::*;

use crate::config::{AnimationParams, Permille};
use crate::MonotonicMillis;

verus! {

/// A 0-to-1 transition running on the monotonic clock.
#[derive(Clone, Copy, Debug, PartialEq, Eq, Structural)]
pub struct Animation {
    /// Clock time at which the transition started.
    pub start_ms: MonotonicMillis,
    /// Length of the transition; zero for a disabled one.
    pub duration_ms: u64,
}

impl Animation {
    /// The clock time at which the transition is over.
    pub open spec fn spec_end_time(&self) -> MonotonicMillis {
        (self.start_ms + self.duration_ms) as MonotonicMillis
    }

    /// No overflow lurks in `end_time`.
    pub open spec fn wf(&self) -> bool {
        self.start_ms + self.duration_ms <= u64::MAX
    }

    /// Whether the transition is over at time `now`.
    pub open spec fn spec_is_done(&self, now: MonotonicMillis) -> bool {
        now >= self.spec_end_time()
    }

    /// Progress at time `now` in thousandths, clamped to [0, 1000].
    pub open spec fn spec_progress(&self, now: MonotonicMillis) -> Permille {
        if self.duration_ms == 0 || now >= self.spec_end_time() {
            1000
        } else if now <= self.start_ms {
            0
        } else {
            (((now - self.start_ms) * 1000) / self.duration_ms as int) as Permille
        }
    }

    /// The transition that starting at time `now` with the given timing
    /// yields: a disabled timing, and one whose end would not fit on the
    /// clock, complete immediately or at the clock's end respectively.
    pub open spec fn spec_new(now: MonotonicMillis, params: AnimationParams) -> Animation {
        let duration_ms = if params.off {
            0
        } else if now + params.duration_ms <= u64::MAX {
            params.duration_ms as int
        } else {
            u64::MAX - now
        };
        Animation { start_ms: now, duration_ms: duration_ms as u64 }
    }

    /// Starts a transition at time `now` with the given timing.
    pub fn new(now: MonotonicMillis, params: AnimationParams) -> (r: Animation)
        ensures
            r == Self::spec_new(now, params),
            r.wf(),
            r.start_ms == now,
            params.off ==> r.duration_ms == 0,
            !params.off ==> r.duration_ms == if now + params.duration_ms <= u64::MAX {
                params.duration_ms as int
            } else {
                u64::MAX - now
            },
    {
        let duration_ms: u64 = if params.off {
            0
        } else if params.duration_ms <= u64::MAX - now {
            params.duration_ms
        } else {
            u64::MAX - now
        };
        Animation { start_ms: now, duration_ms }
    }

    /// The clock time at which the transition is over.
    pub fn end_time(&self) -> (r: MonotonicMillis)
        requires
            self.wf(),
        ensures
            r == self.spec_end_time(),
    {
        self.start_ms + self.duration_ms
    }

    /// Whether the transition is over at time `now`.
    pub fn is_done(&self, now: MonotonicMillis) -> (r: bool)
        requires
            self.wf(),
        ensures
            r == self.spec_is_done(now),
    {
        now >= self.start_ms + self.duration_ms
    }

    /// Progress at time `now` in thousandths, clamped to [0, 1000].
    pub fn progress(&self, now: MonotonicMillis) -> (r: Permille)
        requires
            self.wf(),
        ensures
            r == self.spec_progress(now),
            r <= 1000,
    {
        if self.duration_ms == 0 || now >= self.start_ms + self.duration_ms {
            1000
        } else if now <= self.start_ms {
            0
        } else {
            let elapsed: u64 = now - self.start_ms;
            let scaled: u128 = (elapsed as u128) * 1000;
            let p: u128 = scaled / (self.duration_ms as u128);
            assert(p <= 1000) by {
                assert(elapsed < self.duration_ms);
                assert((elapsed as int) * 1000 < (self.duration_ms as int) * 1000)
                    by (nonlinear_arith)
                    requires
                        elapsed < self.duration_ms,
                ;
                assert((self.duration_ms as int) * 1000 / (self.duration_ms as int) == 1000)
                    by (nonlinear_arith)
                    requires
                        self.duration_ms > 0,
                ;
                assert((elapsed as int) * 1000 / (self.duration_ms as int) <= (
                self.duration_ms as int) * 1000 / (self.duration_ms as int)) by (nonlinear_arith)
                    requires
                        (elapsed as int) * 1000 <= (self.duration_ms as int) * 1000,
                        self.duration_ms > 0,
                ;
            }
            p as u16
        }
    }
}

} // verus!
