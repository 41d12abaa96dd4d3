//! The task scheduler core: a bounded store of pending activations,
//! popped in dispatch order when the clock interrupt fires.
//!
//! An activation is a future dispatch of a task at an absolute tick. The
//! store has fixed capacity (no heap growth after init) and `spawn` fails
//! with a capacity error, leaving the store untouched, when it is full.
//! Dispatch order among due activations is: higher priority first, then
//! registration order within a priority, so ties at the same deadline are
//! deterministic. Each activation is dispatched exactly once: `dispatch_due`
//! splits the pending multiset into the dispatched part and the remainder.

use vstd::prelude::*;
use vstd::multiset::Multiset;
use crate::clock::Clock;

verus! {

broadcast use vstd::seq_lib::group_to_multiset_ensures;

/// A scheduled future dispatch of one task.
///
/// `order` is the registration stamp: strictly increasing over all spawns,
/// never reused, so no two live activations share one. It is what makes the
/// tie-break within a priority deterministic (FIFO by spawn time).
#[derive(Clone, Copy, PartialEq, Eq, Structural, Debug)]
pub struct Activation {
    /// Identifier of the bound task.
    pub task: u8,
    /// Static priority of the bound task; higher preempts lower.
    pub priority: u8,
    /// Absolute tick at which the task becomes runnable.
    pub deadline: u64,
    /// Registration stamp, unique per activation.
    pub order: u64,
}

/// `a` is dispatched before `b` when both are due: higher priority first,
/// then earlier registration within the same priority.
pub open spec fn dispatches_before(a: Activation, b: Activation) -> bool {
    a.priority > b.priority || (a.priority == b.priority && a.order < b.order)
}

/// Why a spawn request was rejected. Both are programmer/configuration
/// errors at the call site, never scheduler faults: the pending store is
/// left exactly as it was.
#[derive(Clone, Copy, PartialEq, Eq, Structural, Debug)]
pub enum SpawnError {
    /// The pending-activation store already holds `capacity` activations.
    CapacityFull,
    /// The requested instant is not representable: `now + delay` overflows
    /// the tick width.
    InvalidInstant,
}

/// The scheduler core: pending activations, bounded by a capacity fixed at
/// construction, plus the next registration stamp.
pub struct Scheduler {
    pending: Vec<Activation>,
    capacity: usize,
    next_order: u64,
}

impl Scheduler {
    /// The pending activations, as a multiset: dispatch order is decided by
    /// the `priority` and `order` fields, not by storage position.
    pub closed spec fn pending_ms(self) -> Multiset<Activation> {
        self.pending@.to_multiset()
    }

    /// Number of pending activations.
    pub closed spec fn spec_len(self) -> int {
        self.pending@.len() as int
    }

    /// Capacity fixed at construction.
    pub closed spec fn spec_capacity(self) -> int {
        self.capacity as int
    }

    /// The next registration stamp to hand out.
    pub closed spec fn spec_next_order(self) -> u64 {
        self.next_order
    }

    /// Structural invariant: the store respects its capacity, and every
    /// pending activation carries a stamp below `next_order`, all stamps
    /// distinct. Distinct stamps make dispatch order total over the pending
    /// set, which is what makes dispatch deterministic.
    pub closed spec fn wf(self) -> bool {
        &&& self.pending@.len() <= self.capacity
        &&& forall|i: int|
            0 <= i < self.pending@.len() ==> (#[trigger] self.pending@[i]).order
                < self.next_order
        &&& forall|i: int, j: int|
            0 <= i < self.pending@.len() && 0 <= j < self.pending@.len() && i != j
                ==> (#[trigger] self.pending@[i]).order != (#[trigger] self.pending@[j]).order
    }

    /// A fresh scheduler: nothing pending except what init later spawns
    /// explicitly.
    pub fn new(capacity: usize) -> (s: Scheduler)
        ensures
            s.wf(),
            s.spec_capacity() == capacity,
            s.spec_len() == 0,
            s.pending_ms() === Multiset::<Activation>::empty(),
            s.spec_next_order() == 0,
    {
        let s = Scheduler { pending: Vec::new(), capacity, next_order: 0 };
        proof {
            assert(s.pending@.to_multiset() =~= Multiset::<Activation>::empty());
        }
        s
    }

    /// Number of pending activations.
    pub fn len(&self) -> (n: usize)
        ensures
            n == self.spec_len(),
    {
        self.pending.len()
    }

    /// Capacity fixed at construction.
    pub fn capacity(&self) -> (c: usize)
        ensures
            c == self.spec_capacity(),
    {
        self.capacity
    }

    /// The next registration stamp to hand out. One stamp is consumed per
    /// successful spawn; at one spawn per microsecond the 64-bit supply
    /// outlives the hardware, but a caller can check it before spawning.
    pub fn next_order(&self) -> (r: u64)
        ensures
            r == self.spec_next_order(),
    {
        self.next_order
    }

    /// Register a future activation of `task` at the absolute tick
    /// `deadline`. Succeeds exactly when the store has room; on a full store
    /// it returns the capacity error and the pending set is unchanged.
    pub fn spawn_at(&mut self, task: u8, priority: u8, deadline: u64) -> (r: Result<
        (),
        SpawnError,
    >)
        requires
            old(self).wf(),
            old(self).spec_next_order() < u64::MAX,
        ensures
            final(self).wf(),
            final(self).spec_capacity() == old(self).spec_capacity(),
            r is Ok <==> old(self).spec_len() < old(self).spec_capacity(),
            r is Ok ==> {
                &&& final(self).pending_ms() === old(self).pending_ms().insert(
                    Activation {
                        task,
                        priority,
                        deadline,
                        order: old(self).spec_next_order(),
                    },
                )
                &&& final(self).spec_len() == old(self).spec_len() + 1
                &&& final(self).spec_next_order() == old(self).spec_next_order() + 1
            },
            r is Err ==> {
                &&& r == Result::<(), SpawnError>::Err(SpawnError::CapacityFull)
                &&& *final(self) == *old(self)
            },
    {
        if self.pending.len() < self.capacity {
            let a = Activation { task, priority, deadline, order: self.next_order };
            self.pending.push(a);
            self.next_order = self.next_order + 1;
            Ok(())
        } else {
            Err(SpawnError::CapacityFull)
        }
    }

    /// Register a future activation of `task` at `delay` ticks after the
    /// clock's current instant. Rejects a delay that lands beyond the tick
    /// width, and a full store, each with its own error; in both error cases
    /// the pending set is unchanged.
    pub fn spawn_after(&mut self, clock: &Clock, task: u8, priority: u8, delay: u64) -> (r: Result<
        (),
        SpawnError,
    >)
        requires
            old(self).wf(),
            old(self).spec_next_order() < u64::MAX,
        ensures
            final(self).wf(),
            final(self).spec_capacity() == old(self).spec_capacity(),
            r is Ok <==> (clock.spec_ticks() + delay <= u64::MAX && old(self).spec_len() < old(
                self,
            ).spec_capacity()),
            r is Ok ==> {
                &&& final(self).pending_ms() === old(self).pending_ms().insert(
                    Activation {
                        task,
                        priority,
                        deadline: (clock.spec_ticks() + delay) as u64,
                        order: old(self).spec_next_order(),
                    },
                )
                &&& final(self).spec_len() == old(self).spec_len() + 1
                &&& final(self).spec_next_order() == old(self).spec_next_order() + 1
            },
            clock.spec_ticks() + delay > u64::MAX ==> r == Result::<(), SpawnError>::Err(
                SpawnError::InvalidInstant,
            ),
            (clock.spec_ticks() + delay <= u64::MAX && old(self).spec_len() == old(
                self,
            ).spec_capacity()) ==> r == Result::<(), SpawnError>::Err(SpawnError::CapacityFull),
            r is Err ==> *final(self) == *old(self),
    {
        let now = clock.now();
        if delay > u64::MAX - now {
            Err(SpawnError::InvalidInstant)
        } else {
            self.spawn_at(task, priority, now + delay)
        }
    }

    /// The earliest pending deadline, for multiplexing the single hardware
    /// compare alarm over all pending wake requests: the alarm must be armed
    /// at this instant so that no pending deadline is lost.
    pub fn next_deadline(&self) -> (r: Option<u64>)
        ensures
            match r {
                Some(d) => {
                    &&& exists|a: Activation|
                        self.pending_ms().count(a) > 0 && a.deadline == d
                    &&& forall|a: Activation|
                        self.pending_ms().count(a) > 0 ==> d <= (#[trigger] a.deadline)
                },
                None => self.spec_len() == 0,
            },
    {
        let n = self.pending.len();
        if n == 0 {
            return None;
        }
        let mut best: u64 = self.pending[0].deadline;
        let mut i: usize = 1;
        while i < n
            invariant
                1 <= i <= n,
                n == self.pending@.len(),
                exists|k: int| 0 <= k < i && (#[trigger] self.pending@[k]).deadline == best,
                forall|k: int| 0 <= k < i ==> best <= (#[trigger] self.pending@[k]).deadline,
            decreases n - i,
        {
            if self.pending[i].deadline < best {
                best = self.pending[i].deadline;
            }
            i = i + 1;
        }
        proof {
            assert forall|a: Activation| self.pending_ms().count(a) > 0 implies best
                <= a.deadline by {
                assert(self.pending@.contains(a));
            }
            let k = choose|k: int| 0 <= k < n && (#[trigger] self.pending@[k]).deadline == best;
            assert(self.pending_ms().count(self.pending@[k]) > 0) by {
                assert(self.pending@.contains(self.pending@[k]));
            }
        }
        Some(best)
    }

    /// Pop the single next activation to dispatch among those due at `now`:
    /// the one every other due activation yields to under `dispatches_before`.
    /// Returns `None`, changing nothing, when nothing is due.
    pub fn pop_due(&mut self, now: u64) -> (r: Option<Activation>)
        requires
            old(self).wf(),
        ensures
            final(self).wf(),
            final(self).spec_capacity() == old(self).spec_capacity(),
            final(self).spec_next_order() == old(self).spec_next_order(),
            match r {
                None => {
                    &&& *final(self) == *old(self)
                    &&& forall|a: Activation|
                        old(self).pending_ms().count(a) > 0 ==> (#[trigger] a.deadline) > now
                },
                Some(a) => {
                    &&& a.deadline <= now
                    &&& old(self).pending_ms().count(a) > 0
                    &&& final(self).pending_ms() === old(self).pending_ms().remove(a)
                    &&& final(self).spec_len() == old(self).spec_len() - 1
                    &&& forall|b: Activation|
                        #[trigger] final(self).pending_ms().count(b) > 0 && b.deadline <= now
                            ==> dispatches_before(a, b)
                },
            },
    {
        let n = self.pending.len();
        let mut best: Option<usize> = None;
        let mut i: usize = 0;
        while i < n
            invariant
                self.wf(),
                0 <= i <= n,
                n == self.pending@.len(),
                match best {
                    None => forall|k: int|
                        0 <= k < i ==> (#[trigger] self.pending@[k]).deadline > now,
                    Some(j) => {
                        &&& j < i
                        &&& self.pending@[j as int].deadline <= now
                        &&& forall|k: int|
                            0 <= k < i && k != j && (#[trigger] self.pending@[k]).deadline <= now
                                ==> dispatches_before(
                                self.pending@[j as int],
                                self.pending@[k],
                            )
                    },
                },
            decreases n - i,
        {
            if self.pending[i].deadline <= now {
                match best {
                    None => {
                        best = Some(i);
                    },
                    Some(j) => {
                        if dispatch_order(&self.pending[i], &self.pending[j]) {
                            best = Some(i);
                        }
                    },
                }
            }
            i = i + 1;
        }
        match best {
            None => {
                proof {
                    assert forall|a: Activation|
                        self.pending_ms().count(a) > 0 implies (#[trigger] a.deadline)
                        > now by {
                        assert(self.pending@.contains(a));
                    }
                }
                None
            },
            Some(j) => {
                let ghost pre = self.pending@;
                let a = self.pending.remove(j);
                proof {
                    assert(self.pending@ =~= pre.remove(j as int));
                    assert forall|b: Activation|
                        #[trigger] self.pending_ms().count(b) > 0 && b.deadline <= now implies
                        dispatches_before(a, b) by {
                        assert(self.pending@.contains(b));
                        let k = choose|k: int|
                            0 <= k < self.pending@.len() && self.pending@[k] == b;
                        // the survivor at k sat at k or k + 1 before the removal
                        if k < j {
                            assert(pre[k] == b);
                        } else {
                            assert(pre[k + 1] == b);
                        }
                    }
                }
                Some(a)
            },
        }
    }

    /// Pop and return, in dispatch order, every activation due at `now`.
    ///
    /// The returned vector is the dispatch schedule for this clock
    /// interrupt: the pending multiset splits exactly into the returned
    /// activations and the remainder, so each activation is handed out
    /// exactly once — never dropped, never duplicated — and the remainder
    /// holds nothing due.
    pub fn dispatch_due(&mut self, now: u64) -> (r: Vec<Activation>)
        requires
            old(self).wf(),
        ensures
            final(self).wf(),
            final(self).spec_capacity() == old(self).spec_capacity(),
            final(self).spec_next_order() == old(self).spec_next_order(),
            old(self).pending_ms() === r@.to_multiset().add(final(self).pending_ms()),
            forall|i: int| 0 <= i < r@.len() ==> (#[trigger] r@[i]).deadline <= now,
            forall|a: Activation|
                final(self).pending_ms().count(a) > 0 ==> (#[trigger] a.deadline) > now,
            forall|i: int, j: int|
                0 <= i < j < r@.len() ==> dispatches_before(r@[i], r@[j]),
    {
        let ghost ms0 = self.pending_ms();
        let ghost cap0 = self.spec_capacity();
        let ghost ord0 = self.spec_next_order();
        let mut out: Vec<Activation> = Vec::new();
        proof {
            assert(out@.to_multiset() =~= Multiset::<Activation>::empty());
            assert(ms0 =~= out@.to_multiset().add(self.pending_ms()));
        }
        loop
            invariant
                self.wf(),
                self.spec_capacity() == cap0,
                self.spec_next_order() == ord0,
                ms0 === out@.to_multiset().add(self.pending_ms()),
                forall|i: int| 0 <= i < out@.len() ==> (#[trigger] out@[i]).deadline <= now,
                forall|i: int, j: int|
                    0 <= i < j < out@.len() ==> dispatches_before(out@[i], out@[j]),
                forall|i: int, b: Activation|
                    #![trigger out@[i], self.pending_ms().count(b)]
                    0 <= i < out@.len() && self.pending_ms().count(b) > 0 && b.deadline <= now
                        ==> dispatches_before(out@[i], b),
            ensures
                self.wf(),
                self.spec_capacity() == cap0,
                self.spec_next_order() == ord0,
                ms0 === out@.to_multiset().add(self.pending_ms()),
                forall|i: int| 0 <= i < out@.len() ==> (#[trigger] out@[i]).deadline <= now,
                forall|i: int, j: int|
                    0 <= i < j < out@.len() ==> dispatches_before(out@[i], out@[j]),
                forall|a: Activation|
                    self.pending_ms().count(a) > 0 ==> (#[trigger] a.deadline) > now,
            decreases self.spec_len(),
        {
            let ghost ms_pre = self.pending_ms();
            let ghost out_pre = out@;
            match self.pop_due(now) {
                None => {
                    break ;
                },
                Some(a) => {
                    out.push(a);
                    proof {
                        assert(out@.to_multiset() =~= out_pre.to_multiset().insert(a));
                        assert(ms0 =~= out@.to_multiset().add(self.pending_ms())) by {
                            assert(ms_pre.count(a) > 0);
                            assert(self.pending_ms() =~= ms_pre.remove(a));
                            assert(out_pre.to_multiset().insert(a).add(ms_pre.remove(a))
                                =~= out_pre.to_multiset().add(ms_pre));
                        }
                    }
                },
            }
        }
        out
    }
}

/// The interrupt vector table made explicit data: a mapping from
/// interrupt-source identifier to the task it dispatches, resolved once at
/// init, so dispatch involves no runtime reflection. Sources are bound at
/// most once.
pub struct DispatchTable {
    entries: Vec<(u8, u8)>,
}

impl DispatchTable {
    /// The bindings as a map from interrupt source to task.
    pub closed spec fn spec_bindings(self) -> Map<u8, u8> {
        Map::new(
            |irq: u8| exists|i: int| 0 <= i < self.entries@.len() && self.entries@[i].0 == irq,
            |irq: u8|
                {
                    let i = choose|i: int|
                        0 <= i < self.entries@.len() && self.entries@[i].0 == irq;
                    self.entries@[i].1
                },
    )
    }

    /// Each interrupt source is bound at most once.
    pub closed spec fn wf(self) -> bool {
        forall|i: int, j: int|
            0 <= i < self.entries@.len() && 0 <= j < self.entries@.len() && i != j
                ==> (#[trigger] self.entries@[i]).0 != (#[trigger] self.entries@[j]).0
    }

    /// An empty table: no source dispatches anything.
    pub fn new() -> (t: DispatchTable)
        ensures
            t.wf(),
            t.spec_bindings() === Map::<u8, u8>::empty(),
    {
        let t = DispatchTable { entries: Vec::new() };
        proof {
            assert(t.spec_bindings() =~= Map::<u8, u8>::empty());
        }
        t
    }

    /// Bind an interrupt source to a task. Succeeds exactly when the
    /// source is not bound yet; a second binding of the same source is
    /// rejected and the table is unchanged.
    pub fn bind(&mut self, irq: u8, task: u8) -> (r: bool)
        requires
            old(self).wf(),
        ensures
            final(self).wf(),
            r <==> !old(self).spec_bindings().dom().contains(irq),
            r ==> final(self).spec_bindings() === old(self).spec_bindings().insert(irq, task),
            !r ==> *final(self) == *old(self),
    {
        let n = self.entries.len();
        let mut i: usize = 0;
        while i < n
            invariant
                0 <= i <= n,
                n == self.entries@.len(),
                self.wf(),
                *self == *old(self),
                forall|k: int| 0 <= k < i ==> (#[trigger] self.entries@[k]).0 != irq,
            decreases n - i,
        {
            if self.entries[i].0 == irq {
                proof {
                    assert(self.spec_bindings().dom().contains(irq));
                }
                return false;
            }
            i = i + 1;
        }
        proof {
            assert(!self.spec_bindings().dom().contains(irq));
        }
        let ghost pre = *self;
        self.entries.push((irq, task));
        proof {
            assert forall|q: u8| #[trigger]
                self.spec_bindings().dom().contains(q) == pre.spec_bindings().insert(
                    irq,
                    task,
                ).dom().contains(q) && (self.spec_bindings().dom().contains(q)
                ==> self.spec_bindings()[q] == pre.spec_bindings().insert(irq, task)[q]) by {
                if q == irq {
                    assert(self.entries@[self.entries@.len() - 1].0 == irq);
                } else {
                    if pre.spec_bindings().dom().contains(q) {
                        let i = choose|i: int|
                            0 <= i < pre.entries@.len() && pre.entries@[i].0 == q;
                        assert(self.entries@[i].0 == q);
                    }
                    if self.spec_bindings().dom().contains(q) {
                        let i = choose|i: int|
                            0 <= i < self.entries@.len() && self.entries@[i].0 == q;
                        assert(i < pre.entries@.len());
                        assert(pre.entries@[i].0 == q);
                    }
                }
            }
            assert(self.spec_bindings() =~= pre.spec_bindings().insert(irq, task));
        }
        true
    }

    /// Resolve an interrupt source to the task it dispatches, if any.
    pub fn resolve(&self, irq: u8) -> (r: Option<u8>)
        requires
            self.wf(),
        ensures
            match r {
                Some(task) => self.spec_bindings().dom().contains(irq) && self.spec_bindings()[
                    irq
                ] == task,
                None => !self.spec_bindings().dom().contains(irq),
            },
    {
        let n = self.entries.len();
        let mut i: usize = 0;
        while i < n
            invariant
                0 <= i <= n,
                n == self.entries@.len(),
                self.wf(),
                forall|k: int| 0 <= k < i ==> (#[trigger] self.entries@[k]).0 != irq,
            decreases n - i,
        {
            if self.entries[i].0 == irq {
                return Some(self.entries[i].1);
            }
            i = i + 1;
        }
        None
    }
}

/// The multiset view and the pending store agree on size.
pub proof fn lemma_pending_len(s: Scheduler)
    ensures
        s.pending_ms().len() == s.spec_len(),
{
}

/// Executable test of the dispatch order between two activations.
pub fn dispatch_order(a: &Activation, b: &Activation) -> (r: bool)
    ensures
        r == dispatches_before(*a, *b),
{
    a.priority > b.priority || (a.priority == b.priority && a.order < b.order)
}

/// Priority ordering of dispatch: among the activations handed out by one
/// `dispatch_due` call — all due at the same instant — one with strictly
/// higher priority is always dispatched, and so runs to completion on this
/// single core, before a lower-priority one starts.
pub proof fn lemma_priority_ordering(r: Seq<Activation>, i: int, j: int)
    requires
        forall|p: int, q: int| 0 <= p < q < r.len() ==> dispatches_before(r[p], r[q]),
        0 <= i < r.len(),
        0 <= j < r.len(),
        r[i].priority > r[j].priority,
    ensures
        i < j,
{
    if i == j {
        assert(false);
    } else if j < i {
        assert(dispatches_before(r[j], r[i]));
        assert(false);
    }
}

/// FIFO within a priority: among the activations handed out by one
/// `dispatch_due` call, two of equal priority run in registration order.
pub proof fn lemma_fifo_within_priority(r: Seq<Activation>, i: int, j: int)
    requires
        forall|p: int, q: int| 0 <= p < q < r.len() ==> dispatches_before(r[p], r[q]),
        0 <= i < r.len(),
        0 <= j < r.len(),
        r[i].priority == r[j].priority,
        r[i].order < r[j].order,
    ensures
        i < j,
{
    if i == j {
        assert(false);
    } else if j < i {
        assert(dispatches_before(r[j], r[i]));
        assert(false);
    }
}

/// Single dispatch per activation: because one `dispatch_due` call splits
/// the pending multiset exactly into the dispatched part and the remainder,
/// every activation pending beforehand is accounted for exactly once —
/// dispatched now or still pending — and nothing else is ever dispatched.
pub proof fn lemma_single_dispatch(
    before: Multiset<Activation>,
    dispatched: Seq<Activation>,
    after: Multiset<Activation>,
    a: Activation,
)
    requires
        before === dispatched.to_multiset().add(after),
    ensures
        dispatched.to_multiset().count(a) + after.count(a) == before.count(a),
        before.count(a) == 0 ==> dispatched.to_multiset().count(a) == 0,
{
}

} // verus!
