use penguin::events::{EventId, Events, State};

#[test]
fn test_events() {
    let mut events: Events<&str> = Events::default();
    assert_eq!(events.state, State::A);
    events.send("first");
    events.send("second");
    assert_eq!(events.event_count, 2);
    assert_eq!(events.events_a.len(), 2);
    assert!(events.events_b.is_empty());
    assert_eq!(events.events_a[1].event_id, EventId(1));
    assert_eq!(events.events_a[1].event, "second");
}

#[test]
fn events_go_to_the_active_buffer() {
    let mut events: Events<u8> = Events::default();
    events.state = State::B;
    events.send(9);
    assert!(events.events_a.is_empty());
    assert_eq!(events.events_b[0].event_id, EventId(0));
    assert_eq!(events.events_b[0].event, 9);
}

#[test]
fn state_swaps_between_buffers() {
    let mut state = State::A;
    state.swap();
    assert_eq!(state, State::B);
    state.swap();
    assert_eq!(state, State::A);
}
