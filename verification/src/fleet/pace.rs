//! The pace of polling: each unanswered round waits longer than the one
//! before, and no round is asked for past the deadline.

use vstd::prelude::*;

verus! {

/// Seconds to wait before the first round.
pub const FIRST_DELAY: u64 = 1;

/// Most seconds to wait before any round.
pub const LONGEST_DELAY: u64 = 60;

/// How far a polling phase has come, in seconds.
#[derive(Clone, Copy, PartialEq, Eq, Debug, Structural)]
pub struct Pace {
    /// The deadline, counted from the phase's beginning.
    pub budget: u64,
    /// The seconds that were gone when the pending round was asked for.
    pub gone: u64,
    /// The wait before the pending round.
    pub delay: u64,
}

impl Pace {
    /// The pending round is over its wait by the deadline, waits no longer
    /// than the longest wait, and waits at all while there is time.
    pub open spec fn wf(self) -> bool {
        &&& self.gone + self.delay <= self.budget
        &&& self.delay <= LONGEST_DELAY
        &&& self.gone < self.budget ==> self.delay >= 1
    }

    /// The pace of a phase's first round.
    pub open spec fn begun(budget: u64) -> Pace {
        Pace {
            budget,
            gone: 0,
            delay: if budget < FIRST_DELAY {
                budget
            } else {
                FIRST_DELAY
            },
        }
    }

    /// The seconds gone once the pending round has reported, `took` seconds
    /// after it was asked for. A round takes its wait at the least.
    pub open spec fn gone_after(self, took: u64) -> u64 {
        self.gone.saturating_add(
            if took > self.delay {
                took
            } else {
                self.delay
            },
        )
    }

    /// The deadline is reached once the pending round has reported: it was
    /// the last.
    pub open spec fn late(self, took: u64) -> bool {
        self.gone_after(took) >= self.budget
    }

    /// The wait that follows a wait of `delay` seconds while the deadline is
    /// far: twice as long, up to the longest.
    pub open spec fn doubled(delay: u64) -> u64 {
        if delay == 0 {
            FIRST_DELAY
        } else if delay > LONGEST_DELAY / 2 {
            LONGEST_DELAY
        } else {
            (2 * delay) as u64
        }
    }

    /// The pace of the round after one that took `took` seconds and brought
    /// no answer: the wait doubles, but never passes the longest wait nor the
    /// deadline. Once the deadline is reached nothing changes.
    pub open spec fn slowed(self, took: u64) -> Pace {
        if self.late(took) {
            self
        } else {
            let gone = self.gone_after(took);
            let left = (self.budget - gone) as u64;
            Pace {
                budget: self.budget,
                gone,
                delay: if Self::doubled(self.delay) < left {
                    Self::doubled(self.delay)
                } else {
                    left
                },
            }
        }
    }

    pub fn begin(budget: u64) -> (out: Pace)
        ensures
            out == Self::begun(budget),
            out.wf(),
    {
        let delay = if budget < FIRST_DELAY {
            budget
        } else {
            FIRST_DELAY
        };
        Pace { budget, gone: 0, delay }
    }

    pub fn is_late(&self, took: u64) -> (out: bool)
        ensures
            out == self.late(took),
    {
        self.seconds_after(took) >= self.budget
    }

    pub fn slow_down(&self, took: u64) -> (out: Pace)
        ensures
            out == self.slowed(took),
    {
        let gone = self.seconds_after(took);
        if gone >= self.budget {
            *self
        } else {
            let left = self.budget - gone;
            let doubled = if self.delay == 0 {
                FIRST_DELAY
            } else if self.delay > LONGEST_DELAY / 2 {
                LONGEST_DELAY
            } else {
                2 * self.delay
            };
            let delay = if doubled < left {
                doubled
            } else {
                left
            };
            Pace { budget: self.budget, gone, delay }
        }
    }

    fn seconds_after(&self, took: u64) -> (out: u64)
        ensures
            out == self.gone_after(took),
    {
        self.gone.saturating_add(
            if took > self.delay {
                took
            } else {
                self.delay
            },
        )
    }
}

/// An unanswered round before the deadline brings the deadline nearer by at
/// least a second, and the round after it waits at least a second, at most
/// the longest wait, at most twice as long as the one before, and not past
/// the deadline.
pub proof fn lemma_slowing_nears_deadline(pace: Pace, took: u64)
    requires
        pace.wf(),
        !pace.late(took),
    ensures
        pace.slowed(took).wf(),
        pace.slowed(took).budget == pace.budget,
        pace.slowed(took).gone > pace.gone,
        pace.slowed(took).gone >= pace.gone + took,
        1 <= pace.slowed(took).delay <= LONGEST_DELAY,
        pace.slowed(took).delay <= 2 * pace.delay,
{
}

} // verus!
