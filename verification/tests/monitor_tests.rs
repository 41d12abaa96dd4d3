use rf_sched::monitor::{ChannelState, Heartbeat, Level, RfChannel};

#[test]
fn channel_out_of_reset_is_disabled_and_low() {
    let c = RfChannel::new();
    assert_eq!(c.state, ChannelState::LnaDisabled);
    assert_eq!(c.lna_enable, Level::Low);
    assert_eq!(c.status_led, Level::Low);
    assert_eq!(c.last_power, None);
}

#[test]
fn enable_turns_the_lna_on_and_the_led_off() {
    let mut c = RfChannel::new();
    c.enable();
    assert_eq!(c.state, ChannelState::LnaEnabled);
    assert_eq!(c.lna_enable, Level::High);
    assert_eq!(c.status_led, Level::Low);
}

#[test]
fn a_failed_sample_keeps_the_previous_reading() {
    let mut c = RfChannel::new();
    c.enable();
    c.record_power(Some(321));
    assert_eq!(c.last_power, Some(321));
    c.record_power(None);
    assert_eq!(c.last_power, Some(321));
    assert_eq!(c.state, ChannelState::LnaEnabled);
    assert_eq!(c.lna_enable, Level::High);
    c.record_power(Some(654));
    assert_eq!(c.last_power, Some(654));
}

#[test]
fn heartbeat_toggles_and_rearms_one_interval_later() {
    let mut h = Heartbeat::new(1_000_000);
    assert_eq!(h.indicator, Level::Low);
    let next = h.step(0);
    assert_eq!(h.indicator, Level::High);
    assert_eq!(next, 1_000_000);
    let next = h.step(next);
    assert_eq!(h.indicator, Level::Low);
    assert_eq!(next, 2_000_000);
}

#[test]
fn heartbeat_spacing_is_exactly_the_interval() {
    let mut h = Heartbeat::new(250);
    let mut now: u64 = 0;
    let mut dispatches: Vec<u64> = vec![now];
    for _ in 0..20 {
        now = h.step(now);
        dispatches.push(now);
    }
    for w in dispatches.windows(2) {
        assert_eq!(w[1] - w[0], 250);
    }
}

#[test]
fn indicator_alternates_on_off_on() {
    let mut h = Heartbeat::new(1);
    let mut now: u64 = 0;
    let mut seen: Vec<Level> = Vec::new();
    for _ in 0..6 {
        now = h.step(now);
        seen.push(h.indicator);
    }
    assert_eq!(
        seen,
        vec![Level::High, Level::Low, Level::High, Level::Low, Level::High, Level::Low]
    );
}
