//! The shared-state discipline: a critical section raises the processor's
//! interrupt priority mask, so every task whose priority lies at or below
//! the raised ceiling is blocked from dispatching while the section runs.
//!
//! Nesting is reentrant-safe: each entry saves the mask it found and each
//! exit restores exactly that saved mask, never a fixed unmasked level, so a
//! balanced enter/exit pair always restores the original state. A shared
//! cell is read and written only whole — never field by field from outside —
//! and only while the mask sits at or above the cell's ceiling, so no task
//! that could touch the cell can observe a torn value.

use vstd::prelude::*;

verus! {

/// The interrupt priority mask: tasks with priority at or below `level`
/// cannot be dispatched. `saved` stacks the levels found on entry to each
/// critical section still open, innermost last.
pub struct IntMask {
    level: u8,
    saved: Vec<u8>,
}

impl IntMask {
    /// The current mask ceiling.
    pub closed spec fn spec_level(self) -> u8 {
        self.level
    }

    /// The stack of mask levels saved by the critical sections still open.
    pub closed spec fn spec_saved(self) -> Seq<u8> {
        self.saved@
    }

    /// A task of priority `priority` cannot be dispatched under this mask.
    pub open spec fn spec_blocks(self, priority: u8) -> bool {
        priority <= self.spec_level()
    }

    /// The mask at rest: base level, no critical section open.
    pub fn new() -> (m: IntMask)
        ensures
            m.spec_level() == 0,
            m.spec_saved() === Seq::<u8>::empty(),
    {
        let m = IntMask { level: 0, saved: Vec::new() };
        proof {
            assert(m.saved@ =~= Seq::<u8>::empty());
        }
        m
    }

    /// The current mask ceiling.
    pub fn level(&self) -> (l: u8)
        ensures
            l == self.spec_level(),
    {
        self.level
    }

    /// How many critical sections are open.
    pub fn depth(&self) -> (d: usize)
        ensures
            d == self.spec_saved().len(),
    {
        self.saved.len()
    }

    /// Enter a critical section with the given ceiling: save the mask that
    /// was in force and raise the mask to at least the ceiling. The mask
    /// never drops on entry, so an outer section's protection is kept by an
    /// inner one.
    pub fn enter(&mut self, ceiling: u8)
        ensures
            final(self).spec_saved() === old(self).spec_saved().push(old(self).spec_level()),
            final(self).spec_level() == if ceiling > old(self).spec_level() {
                ceiling
            } else {
                old(self).spec_level()
            },
            final(self).spec_level() >= old(self).spec_level(),
            final(self).spec_blocks(ceiling),
    {
        self.saved.push(self.level);
        if ceiling > self.level {
            self.level = ceiling;
        }
    }

    /// Leave the innermost critical section: restore exactly the mask that
    /// was in force when it was entered.
    pub fn exit(&mut self)
        requires
            old(self).spec_saved().len() > 0,
        ensures
            final(self).spec_level() == old(self).spec_saved().last(),
            final(self).spec_saved() === old(self).spec_saved().drop_last(),
    {
        let prior = self.saved.pop().unwrap();
        self.level = prior;
    }

    /// Whether a task of priority `priority` is blocked under this mask.
    pub fn blocks(&self, priority: u8) -> (r: bool)
        ensures
            r == self.spec_blocks(priority),
    {
        priority <= self.level
    }
}

/// Critical-section exclusivity, one half: while a section with ceiling `c`
/// is open, no task of priority at or below `c` can be dispatched — in
/// particular none of the tasks that share the state the section guards,
/// provided their priorities lie at or below the ceiling.
pub proof fn lemma_section_blocks_sharers(m0: IntMask, m1: IntMask, ceiling: u8, priority: u8)
    requires
        m1.spec_level() == if ceiling > m0.spec_level() {
            ceiling
        } else {
            m0.spec_level()
        },
        priority <= ceiling,
    ensures
        m1.spec_blocks(priority),
{
}

/// Critical-section exclusivity, other half: a balanced enter/exit pair is
/// reentrant-safe. If `m1` is `m0` after entering a section (any ceiling)
/// and `m2` is `m1` after leaving it, then `m2` is exactly `m0` again: the
/// original mask level, not a fixed unmasked level, and the same stack of
/// open sections.
pub proof fn lemma_section_reentrant(m0: IntMask, m1: IntMask, m2: IntMask, ceiling: u8)
    requires
        m1.spec_saved() === m0.spec_saved().push(m0.spec_level()),
        m1.spec_level() == if ceiling > m0.spec_level() {
            ceiling
        } else {
            m0.spec_level()
        },
        m2.spec_level() == m1.spec_saved().last(),
        m2.spec_saved() === m1.spec_saved().drop_last(),
    ensures
        m2.spec_level() == m0.spec_level(),
        m2.spec_saved() === m0.spec_saved(),
{
    assert(m1.spec_saved().last() == m0.spec_level());
    assert(m1.spec_saved().drop_last() =~= m0.spec_saved());
}

/// A statically-allocated cell of state shared by more than one task.
///
/// The cell fixes at construction the priority ceiling of the tasks that
/// share it. Reads and writes demand a mask at or above that ceiling, and
/// they move the value only as a whole: a reader always sees a complete
/// configuration, never a torn one.
pub struct SharedCell<T> {
    ceiling: u8,
    value: T,
}

impl<T> SharedCell<T> {
    /// The ceiling fixed at construction.
    pub closed spec fn spec_ceiling(self) -> u8 {
        self.ceiling
    }

    /// The current contents.
    pub closed spec fn spec_value(self) -> T {
        self.value
    }

    /// Allocate the cell with its ceiling and initial contents.
    pub fn new(ceiling: u8, value: T) -> (c: SharedCell<T>)
        ensures
            c.spec_ceiling() == ceiling,
            c.spec_value() === value,
    {
        SharedCell { ceiling, value }
    }

    /// Read the whole value. Legal only inside a critical section whose
    /// mask has reached the cell's ceiling.
    pub fn read(&self, mask: &IntMask) -> (r: &T)
        requires
            mask.spec_level() >= self.spec_ceiling(),
        ensures
            *r === self.spec_value(),
    {
        &self.value
    }

    /// Overwrite the whole value. Legal only inside a critical section
    /// whose mask has reached the cell's ceiling.
    pub fn write(&mut self, mask: &IntMask, value: T)
        requires
            mask.spec_level() >= old(self).spec_ceiling(),
        ensures
            final(self).spec_ceiling() == old(self).spec_ceiling(),
            final(self).spec_value() === value,
    {
        self.value = value;
    }
}

} // verus!
