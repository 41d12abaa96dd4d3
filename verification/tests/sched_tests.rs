use rf_sched::clock::Clock;
use rf_sched::sched::{Activation, DispatchTable, Scheduler, SpawnError};

#[test]
fn fresh_scheduler_is_empty() {
    let mut s = Scheduler::new(4);
    assert_eq!(s.len(), 0);
    assert_eq!(s.capacity(), 4);
    assert_eq!(s.next_deadline(), None);
    assert_eq!(s.pop_due(u64::MAX), None);
    assert!(s.dispatch_due(u64::MAX).is_empty());
}

#[test]
fn priority_five_dispatches_before_priority_two_at_same_tick() {
    // task A at priority 5 and task B at priority 2, both due at tick 70:
    // A runs to completion before B starts, whatever the spawn order was
    let mut s = Scheduler::new(4);
    s.spawn_at(2, 2, 70).unwrap();
    s.spawn_at(1, 5, 70).unwrap();
    let due = s.dispatch_due(70);
    assert_eq!(due.len(), 2);
    assert_eq!(due[0].task, 1);
    assert_eq!(due[0].priority, 5);
    assert_eq!(due[1].task, 2);
    assert_eq!(due[1].priority, 2);
}

#[test]
fn equal_priority_dispatches_in_registration_order() {
    let mut s = Scheduler::new(4);
    s.spawn_at(7, 3, 50).unwrap();
    s.spawn_at(8, 3, 50).unwrap();
    s.spawn_at(9, 3, 10).unwrap();
    let due = s.dispatch_due(50);
    assert_eq!(due.iter().map(|a| a.task).collect::<Vec<u8>>(), vec![7, 8, 9]);
}

#[test]
fn each_activation_dispatches_exactly_once() {
    let mut s = Scheduler::new(8);
    s.spawn_at(1, 1, 10).unwrap();
    s.spawn_at(2, 2, 20).unwrap();
    s.spawn_at(3, 3, 30).unwrap();
    let first = s.dispatch_due(25);
    let first_tasks: Vec<u8> = first.iter().map(|a| a.task).collect();
    assert_eq!(first_tasks, vec![2, 1]);
    // nothing due is left behind, nothing is handed out twice
    assert!(s.dispatch_due(25).is_empty());
    let second = s.dispatch_due(30);
    assert_eq!(second.iter().map(|a| a.task).collect::<Vec<u8>>(), vec![3]);
    assert_eq!(s.len(), 0);
}

#[test]
fn nothing_due_before_its_deadline() {
    let mut s = Scheduler::new(2);
    s.spawn_at(1, 1, 100).unwrap();
    assert_eq!(s.pop_due(99), None);
    assert_eq!(s.len(), 1);
    let a = s.pop_due(100).unwrap();
    assert_eq!(a.task, 1);
    assert_eq!(a.deadline, 100);
}

#[test]
fn spawn_beyond_capacity_errs_and_keeps_pending_intact() {
    let mut s = Scheduler::new(2);
    s.spawn_at(1, 5, 10).unwrap();
    s.spawn_at(2, 3, 20).unwrap();
    assert_eq!(s.spawn_at(3, 9, 5), Err(SpawnError::CapacityFull));
    assert_eq!(s.len(), 2);
    // the already-pending activations are uncorrupted
    let due = s.dispatch_due(20);
    let tasks: Vec<u8> = due.iter().map(|a| a.task).collect();
    assert_eq!(tasks, vec![1, 2]);
    assert_eq!(due[0].deadline, 10);
    assert_eq!(due[1].deadline, 20);
}

#[test]
fn zero_capacity_rejects_every_spawn() {
    let mut s = Scheduler::new(0);
    assert_eq!(s.spawn_at(1, 1, 1), Err(SpawnError::CapacityFull));
    assert_eq!(s.len(), 0);
}

#[test]
fn spawn_after_resolves_against_the_clock_now() {
    let mut c = Clock::new();
    c.advance(1_000);
    let mut s = Scheduler::new(2);
    s.spawn_after(&c, 4, 1, 500).unwrap();
    assert_eq!(s.next_deadline(), Some(1_500));
}

#[test]
fn spawn_after_rejects_an_unrepresentable_instant() {
    let mut c = Clock::new();
    c.advance(u64::MAX - 10);
    let mut s = Scheduler::new(2);
    assert_eq!(s.spawn_after(&c, 1, 1, 11), Err(SpawnError::InvalidInstant));
    assert_eq!(s.len(), 0);
    assert!(s.spawn_after(&c, 1, 1, 10).is_ok());
    assert_eq!(s.next_deadline(), Some(u64::MAX));
}

#[test]
fn next_deadline_is_the_earliest_pending() {
    let mut s = Scheduler::new(4);
    s.spawn_at(1, 1, 300).unwrap();
    s.spawn_at(2, 9, 100).unwrap();
    s.spawn_at(3, 5, 200).unwrap();
    assert_eq!(s.next_deadline(), Some(100));
    let a = s.pop_due(100).unwrap();
    assert_eq!(a.task, 2);
    assert_eq!(s.next_deadline(), Some(200));
}

#[test]
fn past_deadline_still_dispatches_as_soon_as_possible() {
    // a deadline armed in the past is never silently dropped
    let mut s = Scheduler::new(2);
    s.spawn_at(6, 1, 5).unwrap();
    let due = s.dispatch_due(1_000_000);
    assert_eq!(due.len(), 1);
    assert_eq!(due[0].task, 6);
}

#[test]
fn activation_fields_carry_through() {
    let mut s = Scheduler::new(1);
    s.spawn_at(42, 7, 99).unwrap();
    let a: Activation = s.pop_due(99).unwrap();
    assert_eq!(a.task, 42);
    assert_eq!(a.priority, 7);
    assert_eq!(a.deadline, 99);
    assert_eq!(a.order, 0);
}

#[test]
fn dispatch_table_binds_each_source_once() {
    let mut t = DispatchTable::new();
    assert!(t.bind(3, 10));
    assert!(t.bind(4, 11));
    assert!(!t.bind(3, 12));
    assert_eq!(t.resolve(3), Some(10));
    assert_eq!(t.resolve(4), Some(11));
    assert_eq!(t.resolve(5), None);
}
