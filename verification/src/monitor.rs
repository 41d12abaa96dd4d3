//! The application tasks of the RF front-end monitor: the per-channel
//! LNA state machine and the periodic heartbeat/sense task body.
//!
//! Task bodies here are pure decisions from task-local state and the plain
//! values read from the hardware; the caller that owns the pins and the ADC
//! performs the reads beforehand and drives the decided output levels
//! afterwards. Every body is short and non-blocking: it runs to completion
//! and, for periodic work, hands back the absolute tick of its next
//! activation instead of recursing into the scheduler itself.

use vstd::prelude::*;

verus! {

/// A digital output level on an enable or indicator line.
#[derive(Clone, Copy, PartialEq, Eq, Structural, Debug)]
pub enum Level {
    Low,
    High,
}

/// The opposite output level.
pub open spec fn toggled(l: Level) -> Level {
    match l {
        Level::Low => Level::High,
        Level::High => Level::Low,
    }
}

/// Lifecycle state of one RF channel's front end.
#[derive(Clone, Copy, PartialEq, Eq, Structural, Debug)]
pub enum ChannelState {
    /// LNA disabled; the reset state before init runs.
    LnaDisabled,
    /// LNA enabled and the channel sampling normally.
    LnaEnabled,
    /// Reserved for future power-out-of-range detection; no transition
    /// reaches it yet, but the slot is part of the contract surface.
    Fault,
}

/// One RF channel: its lifecycle state, the levels it wants driven on its
/// LNA-enable and status-LED lines, and the last IF power sample it kept.
#[derive(Clone, Copy, PartialEq, Eq, Structural, Debug)]
pub struct RfChannel {
    pub state: ChannelState,
    pub lna_enable: Level,
    pub status_led: Level,
    pub last_power: Option<u16>,
}

impl RfChannel {
    /// The channel as it comes out of reset: LNA disabled, both lines low,
    /// no sample yet.
    pub fn new() -> (c: RfChannel)
        ensures
            c.state === ChannelState::LnaDisabled,
            c.lna_enable === Level::Low,
            c.status_led === Level::Low,
            c.last_power === None::<u16>,
    {
        RfChannel {
            state: ChannelState::LnaDisabled,
            lna_enable: Level::Low,
            status_led: Level::Low,
            last_power: None,
        }
    }

    /// The init transition, applied unconditionally to every channel: LNA
    /// default-on, status LED driven to its default (off) level.
    pub fn enable(&mut self)
        ensures
            final(self).state === ChannelState::LnaEnabled,
            final(self).lna_enable === Level::High,
            final(self).status_led === Level::Low,
            final(self).last_power === old(self).last_power,
    {
        self.state = ChannelState::LnaEnabled;
        self.lna_enable = Level::High;
        self.status_led = Level::Low;
    }

    /// Take one IF power reading, already sampled by the caller. A failed
    /// sample (`None`) is tolerated: the channel keeps its previous state
    /// and sample, and the cycle is otherwise a no-op — never a fault.
    pub fn record_power(&mut self, sample: Option<u16>)
        ensures
            final(self).state === old(self).state,
            final(self).lna_enable === old(self).lna_enable,
            final(self).status_led === old(self).status_led,
            match sample {
                Some(v) => final(self).last_power === Some(v),
                None => final(self).last_power === old(self).last_power,
            },
    {
        match sample {
            Some(v) => {
                self.last_power = Some(v);
            },
            None => {},
        }
    }
}

/// Task-local state of the periodic heartbeat/sense task: the indicator
/// level it owns and its fixed re-arm interval in ticks.
#[derive(Clone, Copy, PartialEq, Eq, Structural, Debug)]
pub struct Heartbeat {
    pub indicator: Level,
    pub interval: u64,
}

impl Heartbeat {
    /// A heartbeat with the given interval; the indicator starts low (off).
    pub fn new(interval: u64) -> (h: Heartbeat)
        requires
            interval >= 1,
        ensures
            h.indicator === Level::Low,
            h.interval == interval,
    {
        Heartbeat { indicator: Level::Low, interval }
    }

    /// One activation of the heartbeat body, dispatched at tick `now`:
    /// toggle the indicator and hand back the absolute tick of the next
    /// activation, exactly one interval later. Returning the re-arm instant
    /// keeps the scheduler's activation store the single source of truth
    /// for future work.
    pub fn step(&mut self, now: u64) -> (next: u64)
        requires
            now + old(self).interval <= u64::MAX,
        ensures
            final(self).indicator === toggled(old(self).indicator),
            final(self).interval == old(self).interval,
            next == now + old(self).interval,
            old(self).interval >= 1 ==> next > now,
    {
        self.indicator = match self.indicator {
            Level::Low => Level::High,
            Level::High => Level::Low,
        };
        now + self.interval
    }
}

/// The tick of the `n`-th dispatch of a periodic task first due at `start`
/// with interval `interval`, when every activation re-arms exactly one
/// interval after its own dispatch tick.
pub open spec fn nth_dispatch_tick(start: int, interval: int, n: nat) -> int {
    start + n * interval
}

/// Self-rearm liveness: a periodic task of interval at least one tick,
/// once started, produces an unbounded sequence of dispatches — consecutive
/// dispatch ticks lie exactly one interval apart, the sequence is strictly
/// increasing, and the `n`-th dispatch tick grows at least linearly in `n`,
/// so it exceeds every bound.
pub proof fn lemma_self_rearm_liveness(start: int, interval: int, n: nat)
    requires
        interval >= 1,
    ensures
        nth_dispatch_tick(start, interval, n + 1) - nth_dispatch_tick(start, interval, n)
            == interval,
        nth_dispatch_tick(start, interval, n + 1) > nth_dispatch_tick(start, interval, n),
        nth_dispatch_tick(start, interval, n) >= start + n,
{
    assert((n + 1) * interval == n * interval + interval) by (nonlinear_arith);
    assert(n * interval >= n) by (nonlinear_arith)
        requires
            interval >= 1,
    ;
}

/// The indicator after `n` heartbeat activations, starting from `l`:
/// toggled once per activation.
pub open spec fn indicator_after(l: Level, n: nat) -> Level
    decreases n,
{
    if n == 0 {
        l
    } else {
        toggled(indicator_after(l, (n - 1) as nat))
    }
}

/// The heartbeat indicator alternates: after every second activation it is
/// back where it was, and after an odd number of activations it is the
/// opposite of where it started — the on/off/on pattern of the periodic
/// blink.
pub proof fn lemma_indicator_alternates(l: Level, n: nat)
    ensures
        indicator_after(l, n + 2) === indicator_after(l, n),
        indicator_after(l, n + 1) !== indicator_after(l, n),
{
}

} // verus!
