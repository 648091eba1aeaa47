use pixel_invaders::debounce::BtnState;
use pixel_invaders::debounce::Debouncer;
use pixel_invaders::input::ev_for_btn_state;
use pixel_invaders::input::handle_debounce_timer;
use pixel_invaders::input::read_debounced_button;
use pixel_invaders::input::BtnIds;
use pixel_invaders::input::InputEvent;
use pixel_invaders::input::INPUTQ_CAPACITY;
use rtic_sync::channel::Channel;
use rtic_sync::channel::ReceiveError;

#[test]
fn every_transition_has_its_event() {
    assert_eq!(
        ev_for_btn_state(BtnIds::BtnA, Some(BtnState::Pressed)),
        Some(InputEvent::BtnAPressed)
    );
    assert_eq!(
        ev_for_btn_state(BtnIds::BtnB, Some(BtnState::Pressed)),
        Some(InputEvent::BtnBPressed)
    );
    assert_eq!(
        ev_for_btn_state(BtnIds::BtnA, Some(BtnState::NotPressed)),
        Some(InputEvent::BtnAReleased)
    );
    assert_eq!(
        ev_for_btn_state(BtnIds::BtnB, Some(BtnState::NotPressed)),
        Some(InputEvent::BtnBReleased)
    );
}

#[test]
fn no_transition_gives_no_event() {
    assert_eq!(ev_for_btn_state(BtnIds::BtnA, None), None);
    assert_eq!(ev_for_btn_state(BtnIds::BtnB, None), None);
}

#[test]
fn low_level_reads_as_pressed() {
    let mut d = Debouncer::new(1, 1);
    assert_eq!(read_debounced_button(true, &mut d), None);
    assert_eq!(read_debounced_button(false, &mut d), Some(BtnState::Pressed));
    assert_eq!(read_debounced_button(false, &mut d), None);
    assert_eq!(read_debounced_button(true, &mut d), Some(BtnState::NotPressed));
}

#[test]
fn queue_capacity_is_sixteen() {
    assert_eq!(INPUTQ_CAPACITY, 16);
}

#[test]
fn confirmed_events_reach_the_queue() {
    let mut channel: Channel<InputEvent, 16> = Channel::new();
    let (mut sender, mut receiver) = channel.split();
    let mut a = Debouncer::new(2, 20);
    let mut b = Debouncer::new(2, 20);

    let events = handle_debounce_timer(false, true, &mut a, &mut b, &mut sender);
    assert_eq!(events, [None, None]);
    assert!(matches!(receiver.try_recv(), Err(ReceiveError::Empty)));

    let events = handle_debounce_timer(false, true, &mut a, &mut b, &mut sender);
    assert_eq!(events, [Some(InputEvent::BtnAPressed), None]);
    assert!(matches!(receiver.try_recv(), Ok(InputEvent::BtnAPressed)));
    assert!(matches!(receiver.try_recv(), Err(ReceiveError::Empty)));
    assert_eq!(a.btn_state(), BtnState::Pressed);
    assert_eq!(b.btn_state(), BtnState::NotPressed);
}

#[test]
fn simultaneous_transitions_are_queued_button_a_first() {
    let mut channel: Channel<InputEvent, 16> = Channel::new();
    let (mut sender, mut receiver) = channel.split();
    let mut a = Debouncer::new(1, 1);
    let mut b = Debouncer::new(1, 1);

    let events = handle_debounce_timer(false, false, &mut a, &mut b, &mut sender);
    assert_eq!(events, [Some(InputEvent::BtnAPressed), Some(InputEvent::BtnBPressed)]);
    let events = handle_debounce_timer(true, true, &mut a, &mut b, &mut sender);
    assert_eq!(events, [Some(InputEvent::BtnAReleased), Some(InputEvent::BtnBReleased)]);

    assert!(matches!(receiver.try_recv(), Ok(InputEvent::BtnAPressed)));
    assert!(matches!(receiver.try_recv(), Ok(InputEvent::BtnBPressed)));
    assert!(matches!(receiver.try_recv(), Ok(InputEvent::BtnAReleased)));
    assert!(matches!(receiver.try_recv(), Ok(InputEvent::BtnBReleased)));
    assert!(matches!(receiver.try_recv(), Err(ReceiveError::Empty)));
}

#[test]
fn full_queue_drops_new_events_and_keeps_its_contents() {
    let mut channel: Channel<InputEvent, 16> = Channel::new();
    let (mut sender, mut receiver) = channel.split();
    let mut a = Debouncer::new(1, 1);
    let mut b = Debouncer::new(1, 1);

    // Button A toggles on every sample: sixteen events fill the queue.
    for i in 0..16 {
        let events = handle_debounce_timer(i % 2 != 0, true, &mut a, &mut b, &mut sender);
        assert!(events[0].is_some());
        assert_eq!(events[1], None);
    }
    assert!(receiver.is_full());

    // Four more are offered and dropped; sampling goes on regardless.
    for i in 16..20 {
        let events = handle_debounce_timer(i % 2 != 0, true, &mut a, &mut b, &mut sender);
        assert!(events[0].is_some());
    }
    assert_eq!(a.btn_state(), BtnState::NotPressed);

    for i in 0..16 {
        let expected = if i % 2 == 0 {
            InputEvent::BtnAPressed
        } else {
            InputEvent::BtnAReleased
        };
        assert_eq!(receiver.try_recv().ok(), Some(expected));
    }
    assert!(matches!(receiver.try_recv(), Err(ReceiveError::Empty)));

    // Once there is room, events are taken again.
    let events = handle_debounce_timer(false, true, &mut a, &mut b, &mut sender);
    assert_eq!(events, [Some(InputEvent::BtnAPressed), None]);
    assert!(matches!(receiver.try_recv(), Ok(InputEvent::BtnAPressed)));
}
