use penguin::time::Clock;

#[test]
fn clock_ticks() {
    let mut clock = Clock::start();
    assert_eq!(clock.start_time, clock.previous_tick);
    assert_eq!(clock.last_delta_time, std::time::Duration::from_secs(1));
    let start = clock.start_time;
    let dt = clock.tick();
    assert_eq!(dt, clock.last_delta_time);
    assert!(dt < std::time::Duration::from_secs(1));
    assert_eq!(clock.start_time, start);
    assert!(clock.previous_tick >= start);
}
