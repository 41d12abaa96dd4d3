use rf_sched::monitor::{ChannelState, Level};
use rf_sched::system::FrontEnd;

const SECOND: u64 = 1_000_000;

#[test]
fn init_drives_both_lnas_high_and_both_leds_low() {
    // the exact state before any periodic task has fired
    let sys = FrontEnd::init(4, SECOND);
    assert_eq!(sys.rf1.state, ChannelState::LnaEnabled);
    assert_eq!(sys.rf2.state, ChannelState::LnaEnabled);
    assert_eq!(sys.rf1.lna_enable, Level::High);
    assert_eq!(sys.rf2.lna_enable, Level::High);
    assert_eq!(sys.rf1.status_led, Level::Low);
    assert_eq!(sys.rf2.status_led, Level::Low);
    assert_eq!(sys.heartbeat.indicator, Level::Low);
    assert_eq!(sys.clock.now(), 0);
    assert_eq!(sys.sched.len(), 1);
    assert_eq!(sys.sched.next_deadline(), Some(SECOND));
}

#[test]
fn heartbeat_dispatches_every_second_and_toggles() {
    // spawned with interval one second at tick 0: dispatches at 1s, 2s,
    // 3s, ..., the indicator toggling on -> off -> on each time
    let mut sys = FrontEnd::init(4, SECOND);
    let mut expected = Level::Low;
    for k in 1..=5u64 {
        assert_eq!(sys.sched.next_deadline(), Some(k * SECOND));
        assert!(!sys.clock.alarm_due());
        sys.clock.advance(SECOND);
        assert!(sys.clock.alarm_due());
        sys.on_timer_irq(None, None, None);
        expected = match expected {
            Level::Low => Level::High,
            Level::High => Level::Low,
        };
        assert_eq!(sys.heartbeat.indicator, expected);
        assert_eq!(sys.clock.now(), k * SECOND);
        // exactly one activation pending again: the next beat
        assert_eq!(sys.sched.len(), 1);
    }
    assert_eq!(sys.sched.next_deadline(), Some(6 * SECOND));
}

#[test]
fn late_service_rearms_relative_to_the_actual_dispatch() {
    // the interrupt is serviced 3 ticks late: the next activation lies one
    // interval after the dispatch that actually ran
    let mut sys = FrontEnd::init(4, 100);
    sys.clock.advance(103);
    assert!(sys.clock.alarm_due());
    sys.on_timer_irq(None, None, None);
    assert_eq!(sys.sched.next_deadline(), Some(203));
}

#[test]
fn failed_samples_keep_previous_readings() {
    let mut sys = FrontEnd::init(4, 100);
    sys.clock.advance(100);
    sys.on_timer_irq(Some(11), Some(22), Some(33));
    assert_eq!(sys.rf1.last_power, Some(11));
    assert_eq!(sys.rf2.last_power, Some(22));
    sys.clock.advance(100);
    sys.on_timer_irq(None, Some(44), None);
    // a failed sample is skipped for the cycle, never fatal
    assert_eq!(sys.rf1.last_power, Some(11));
    assert_eq!(sys.rf2.last_power, Some(44));
    assert_eq!(sys.rf1.state, ChannelState::LnaEnabled);
    assert_eq!(sys.rf2.state, ChannelState::LnaEnabled);
    // and the heartbeat went on regardless
    assert_eq!(sys.sched.next_deadline(), Some(300));

    // the published shared readings merged the same way, read whole under
    // a critical section
    sys.mask.enter(1);
    let published = *sys.readings.read(&sys.mask);
    sys.mask.exit();
    assert_eq!(published.rf1_power, Some(11));
    assert_eq!(published.rf2_power, Some(44));
    assert_eq!(published.temperature, Some(33));
}

#[test]
fn mask_is_back_at_base_between_interrupts() {
    let mut sys = FrontEnd::init(4, 10);
    for _ in 0..3 {
        sys.clock.advance(10);
        sys.on_timer_irq(Some(1), None, Some(2));
        assert_eq!(sys.mask.level(), 0);
        assert_eq!(sys.mask.depth(), 0);
    }
}
