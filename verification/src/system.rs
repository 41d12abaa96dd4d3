//! The assembled front end: clock, scheduler, interrupt mask, shared
//! readings and the application tasks, wired the way the firmware runs.
//!
//! `init` builds the system exactly as the board comes up: both LNAs
//! default-on, both status LEDs off, the heartbeat spawned for one interval
//! after tick zero and the hardware alarm armed for it. `on_timer_irq` is
//! the compare-interrupt handler: it dispatches the due activation, runs
//! the heartbeat body exactly once — toggle, sample, publish the readings
//! under a critical section — and re-arms the alarm for the activation the
//! body spawned one interval later. The caller owns the hardware: it reads
//! the detectors and the temperature channel before calling, hands the
//! plain sampled values in, and afterwards drives the decided levels out.

use vstd::prelude::*;
use vstd::multiset::Multiset;
use crate::clock::Clock;
use crate::monitor::ChannelState;
use crate::monitor::Heartbeat;
use crate::monitor::Level;
use crate::monitor::RfChannel;
use crate::monitor::toggled;
use crate::sched::Activation;
use crate::sched::Scheduler;
use crate::shared::IntMask;
use crate::shared::SharedCell;

verus! {

broadcast use vstd::seq_lib::group_to_multiset_ensures, vstd::multiset::group_multiset_axioms;

/// Task identifier of the periodic heartbeat/sense task.
pub const HEARTBEAT_TASK: u8 = 0;

/// Static priority of the heartbeat/sense task.
pub const HEARTBEAT_PRIORITY: u8 = 1;

/// Priority ceiling of the shared readings cell: the highest priority among
/// the tasks that touch it.
pub const READINGS_CEILING: u8 = 1;

/// The latest sensor readings, published by the heartbeat/sense task for
/// any other task to consume. A `None` field has never been sampled
/// successfully.
#[derive(Clone, Copy, PartialEq, Eq, Structural, Debug)]
pub struct Readings {
    pub rf1_power: Option<u16>,
    pub rf2_power: Option<u16>,
    pub temperature: Option<u16>,
}

/// A fresh sample if it succeeded, else the reading kept from before.
pub open spec fn kept(previous: Option<u16>, sample: Option<u16>) -> Option<u16> {
    match sample {
        Some(v) => Some(v),
        None => previous,
    }
}

/// The whole front end.
pub struct FrontEnd {
    pub clock: Clock,
    pub sched: Scheduler,
    pub mask: IntMask,
    pub rf1: RfChannel,
    pub rf2: RfChannel,
    pub heartbeat: Heartbeat,
    pub readings: SharedCell<Readings>,
}

impl FrontEnd {
    /// The single pending activation: the next heartbeat.
    pub open spec fn next_beat(self) -> Activation {
        self.sched.pending_ms().choose()
    }

    /// System invariant between interrupts: the scheduler is well formed
    /// and holds exactly one activation — the next heartbeat — the alarm is
    /// armed precisely for it (the single hardware alarm multiplexed over
    /// the pending deadlines, of which there is one), no critical section
    /// is open, and the readings cell carries the ceiling the sense task
    /// enters.
    pub open spec fn wf(self) -> bool {
        &&& self.sched.wf()
        &&& self.sched.spec_capacity() >= 1
        &&& self.sched.pending_ms() === Multiset::<Activation>::singleton(self.next_beat())
        &&& self.sched.spec_len() == 1
        &&& self.next_beat().task == HEARTBEAT_TASK
        &&& self.next_beat().priority == HEARTBEAT_PRIORITY
        &&& self.clock.spec_alarm() === Some(self.next_beat().deadline)
        &&& self.heartbeat.interval >= 1
        &&& self.mask.spec_level() == 0
        &&& self.mask.spec_saved().len() == 0
        &&& self.readings.spec_ceiling() == READINGS_CEILING
    }

    /// Bring the system up, as the board's init does before the scheduler
    /// starts: release nothing (no section is open), enable both LNAs and
    /// drive both status LEDs low, publish empty readings, spawn the first
    /// heartbeat one interval after tick zero, and arm the alarm for it.
    pub fn init(capacity: usize, interval: u64) -> (s: FrontEnd)
        requires
            capacity >= 1,
            interval >= 1,
        ensures
            s.wf(),
            s.clock.spec_ticks() == 0,
            s.rf1.state === ChannelState::LnaEnabled,
            s.rf1.lna_enable === Level::High,
            s.rf1.status_led === Level::Low,
            s.rf2.state === ChannelState::LnaEnabled,
            s.rf2.lna_enable === Level::High,
            s.rf2.status_led === Level::Low,
            s.heartbeat.indicator === Level::Low,
            s.heartbeat.interval == interval,
            s.next_beat().deadline == interval,
            s.sched.spec_capacity() == capacity,
            s.sched.spec_next_order() == 1,
            s.readings.spec_value() === (Readings {
                rf1_power: None,
                rf2_power: None,
                temperature: None,
            }),
    {
        let mut clock = Clock::new();
        let mut sched = Scheduler::new(capacity);
        let mask = IntMask::new();
        let mut rf1 = RfChannel::new();
        let mut rf2 = RfChannel::new();
        let heartbeat = Heartbeat::new(interval);
        let readings = SharedCell::new(
            READINGS_CEILING,
            Readings { rf1_power: None, rf2_power: None, temperature: None },
        );
        rf1.enable();
        rf2.enable();
        let spawned = sched.spawn_at(HEARTBEAT_TASK, HEARTBEAT_PRIORITY, interval);
        proof {
            // a full store at init would be a static-sizing bug; with
            // capacity at least one it cannot happen
            assert(spawned is Ok);
            let act = Activation {
                task: HEARTBEAT_TASK,
                priority: HEARTBEAT_PRIORITY,
                deadline: interval,
                order: 0,
            };
            assert(sched.pending_ms() =~= Multiset::<Activation>::singleton(act));
            lemma_choose_of_singleton(act);
        }
        clock.arm(interval);
        FrontEnd { clock, sched, mask, rf1, rf2, heartbeat, readings }
    }

    /// The compare-interrupt handler: dispatch what is due and run it.
    ///
    /// Under the system invariant exactly the pending heartbeat is due, so
    /// its body runs exactly once per activation: it toggles the indicator,
    /// records the samples the caller took (a failed sample keeps the
    /// previous value and is never fatal), publishes the merged readings
    /// into the shared cell inside a critical section that restores the
    /// mask it found, and re-arms itself exactly one interval after this
    /// dispatch's `now` — the sole ongoing activity of the system.
    pub fn on_timer_irq(
        &mut self,
        rf1_sample: Option<u16>,
        rf2_sample: Option<u16>,
        temperature: Option<u16>,
    )
        requires
            old(self).wf(),
            old(self).clock.spec_alarm_due(),
            old(self).clock.spec_ticks() + old(self).heartbeat.interval <= u64::MAX,
            old(self).sched.spec_next_order() < u64::MAX,
        ensures
            final(self).wf(),
            // the heartbeat body ran exactly once: one toggle
            final(self).heartbeat.indicator === toggled(old(self).heartbeat.indicator),
            final(self).heartbeat.interval == old(self).heartbeat.interval,
            // self-rearm: the next activation lies exactly one interval
            // after this dispatch, and the alarm is armed for it
            final(self).next_beat().deadline == old(self).clock.spec_ticks() + old(
                self,
            ).heartbeat.interval,
            final(self).clock.spec_ticks() == old(self).clock.spec_ticks(),
            final(self).sched.spec_capacity() == old(self).sched.spec_capacity(),
            final(self).sched.spec_next_order() == old(self).sched.spec_next_order() + 1,
            // channels keep their lifecycle state and output levels; a
            // successful sample is recorded, a failed one keeps the old
            final(self).rf1.state === old(self).rf1.state,
            final(self).rf1.lna_enable === old(self).rf1.lna_enable,
            final(self).rf1.status_led === old(self).rf1.status_led,
            final(self).rf1.last_power === kept(old(self).rf1.last_power, rf1_sample),
            final(self).rf2.state === old(self).rf2.state,
            final(self).rf2.lna_enable === old(self).rf2.lna_enable,
            final(self).rf2.status_led === old(self).rf2.status_led,
            final(self).rf2.last_power === kept(old(self).rf2.last_power, rf2_sample),
            // the published readings are merged whole, never torn
            final(self).readings.spec_value() === (Readings {
                rf1_power: kept(old(self).readings.spec_value().rf1_power, rf1_sample),
                rf2_power: kept(old(self).readings.spec_value().rf2_power, rf2_sample),
                temperature: kept(old(self).readings.spec_value().temperature, temperature),
            }),
    {
        let now = self.clock.now();
        self.clock.disarm();

        let ghost beat = self.next_beat();
        let due = self.sched.dispatch_due(now);
        proof {
            // the single pending activation was due, so exactly it came out
            assert(old(self).sched.pending_ms().count(beat) == 1);
            assert(beat.deadline <= now);
            assert(self.sched.pending_ms().count(beat) == 0);
            assert(due@.to_multiset().count(beat) == 1);
            assert(Multiset::<Activation>::singleton(beat).len() == 1);
            assert(due@.to_multiset().add(self.sched.pending_ms()).len() == due@.to_multiset().len()
                + self.sched.pending_ms().len());
            assert(due@.to_multiset().len() + self.sched.pending_ms().len() == 1);
            assert(due@.len() == 1);
            assert(due@.contains(beat));
            assert(due@[0] == beat);
            assert(self.sched.spec_len() == 0) by {
                crate::sched::lemma_pending_len(self.sched);
            }
        }

        // run the heartbeat body: toggle the indicator...
        let next = self.heartbeat.step(now);

        // ...record this cycle's samples into task-local channel state...
        self.rf1.record_power(rf1_sample);
        self.rf2.record_power(rf2_sample);

        // ...and publish the merged readings under a critical section
        let ghost mask0 = self.mask;
        self.mask.enter(READINGS_CEILING);
        let ghost mask1 = self.mask;
        let previous = *self.readings.read(&self.mask);
        let merged = Readings {
            rf1_power: match rf1_sample {
                Some(v) => Some(v),
                None => previous.rf1_power,
            },
            rf2_power: match rf2_sample {
                Some(v) => Some(v),
                None => previous.rf2_power,
            },
            temperature: match temperature {
                Some(v) => Some(v),
                None => previous.temperature,
            },
        };
        self.readings.write(&self.mask, merged);
        self.mask.exit();
        proof {
            crate::shared::lemma_section_reentrant(mask0, mask1, self.mask, READINGS_CEILING);
        }

        // self-rearm: spawn the next activation and keep the single
        // hardware alarm armed at the earliest (sole) pending deadline
        let spawned = self.sched.spawn_at(HEARTBEAT_TASK, HEARTBEAT_PRIORITY, next);
        proof {
            // the store was drained above and holds at least one slot, so
            // the self-rearm can never hit the capacity error
            assert(spawned is Ok);
            let act = Activation {
                task: HEARTBEAT_TASK,
                priority: HEARTBEAT_PRIORITY,
                deadline: next,
                order: old(self).sched.spec_next_order(),
            };
            assert(self.sched.pending_ms() =~= Multiset::<Activation>::singleton(act));
            lemma_choose_of_singleton(act);
        }
        self.clock.arm(next);
    }
}

/// The chosen representative of a one-element multiset is its element.
proof fn lemma_choose_of_singleton(a: Activation)
    ensures
        Multiset::<Activation>::singleton(a).choose() === a,
{
    let m = Multiset::<Activation>::singleton(a);
    assert(m.len() == 1);
    assert(m.count(m.choose()) > 0);
    if m.choose() !== a {
        assert(m.count(m.choose()) == 0);
    }
}

} // verus!
