//! Model of the monotonic clock source: a free-running 64-bit tick counter
//! that never decreases, plus a single one-shot compare-match alarm.
//!
//! The hardware counter free-runs; here the passage of time is made explicit:
//! the driver that owns the timer peripheral advances the model by the ticks
//! that elapsed and checks whether the armed compare value has been reached.
//! With 64-bit ticks at microsecond resolution the counter does not wrap
//! within any realistic operating lifetime, so wraparound is excluded by
//! precondition rather than handled.

use vstd::prelude::*;

verus! {

/// The monotonic clock: current tick count and the pending compare alarm.
pub struct Clock {
    ticks: u64,
    alarm: Option<u64>,
}

impl Clock {
    /// The current tick count.
    pub closed spec fn spec_ticks(self) -> u64 {
        self.ticks
    }

    /// The armed compare-match deadline, if any.
    pub closed spec fn spec_alarm(self) -> Option<u64> {
        self.alarm
    }

    /// The compare interrupt is due: an alarm is armed and its deadline has
    /// been reached or passed. A deadline armed in the past is due at once,
    /// so a missed deadline is never silently dropped.
    pub open spec fn spec_alarm_due(self) -> bool {
        match self.spec_alarm() {
            Some(d) => d <= self.spec_ticks(),
            None => false,
        }
    }

    /// A fresh clock: counting starts at zero at power-on, nothing armed.
    pub fn new() -> (c: Clock)
        ensures
            c.spec_ticks() == 0,
            c.spec_alarm() === None::<u64>,
    {
        Clock { ticks: 0, alarm: None }
    }

    /// Read the current tick count. Safe at any priority level: reading
    /// neither changes the counter nor the alarm.
    pub fn now(&self) -> (t: u64)
        ensures
            t == self.spec_ticks(),
    {
        self.ticks
    }

    /// Time passes: the counter moves forward by `elapsed` ticks. The counter
    /// never decreases, which is the monotonicity the rest of the system
    /// builds on.
    pub fn advance(&mut self, elapsed: u64)
        requires
            old(self).spec_ticks() + elapsed <= u64::MAX,
        ensures
            final(self).spec_ticks() == old(self).spec_ticks() + elapsed,
            final(self).spec_ticks() >= old(self).spec_ticks(),
            final(self).spec_alarm() === old(self).spec_alarm(),
    {
        self.ticks = self.ticks + elapsed;
    }

    /// Arm the one-shot compare-match alarm at an absolute deadline,
    /// replacing whatever was armed before. A deadline at or before the
    /// current tick is legal and is due immediately.
    pub fn arm(&mut self, deadline: u64)
        ensures
            final(self).spec_ticks() == old(self).spec_ticks(),
            final(self).spec_alarm() === Some(deadline),
    {
        self.alarm = Some(deadline);
    }

    /// Disarm the alarm (taken when the compare interrupt is serviced).
    pub fn disarm(&mut self)
        ensures
            final(self).spec_ticks() == old(self).spec_ticks(),
            final(self).spec_alarm() === None::<u64>,
    {
        self.alarm = None;
    }

    /// Whether the armed alarm is due at the current tick.
    pub fn alarm_due(&self) -> (r: bool)
        ensures
            r == self.spec_alarm_due(),
    {
        match self.alarm {
            Some(d) => d <= self.ticks,
            None => false,
        }
    }
}

/// The tick count reached after a run of non-negative time steps,
/// starting from `start`.
pub open spec fn elapsed_ticks(start: int, steps: Seq<int>) -> int
    decreases steps.len(),
{
    if steps.len() == 0 {
        start
    } else {
        elapsed_ticks(start, steps.drop_last()) + steps.last()
    }
}

/// Monotonicity of the clock: over any run of time steps, each of them
/// non-negative, every earlier reading is at most every later reading.
/// Two `now()` calls with the first before the second in real time see
/// `steps.take(i)` and `steps.take(j)` of the same run with `i <= j`.
pub proof fn lemma_now_monotonic(start: int, steps: Seq<int>, i: int, j: int)
    requires
        forall|k: int| 0 <= k < steps.len() ==> steps[k] >= 0,
        0 <= i <= j <= steps.len(),
    ensures
        elapsed_ticks(start, steps.take(i)) <= elapsed_ticks(start, steps.take(j)),
    decreases j - i,
{
    if i < j {
        lemma_now_monotonic(start, steps, i, j - 1);
        assert(steps.take(j).drop_last() =~= steps.take(j - 1));
        assert(steps.take(j).last() == steps[j - 1]);
    } else {
        assert(steps.take(i) =~= steps.take(j));
    }
}

} // verus!
