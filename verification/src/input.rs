//! Classification of debounced button transitions into input events, and their
//! hand-off to the event queue.

use vstd::prelude::*;
use crate::debounce::BtnState;
use crate::debounce::Debouncer;

verus! {

/// Identity of a monitored button.
#[derive(PartialEq, Eq, Structural, Clone, Copy, Debug)]
pub enum BtnIds {
    BtnA,
    BtnB,
}

/// A qualified button transition.
#[derive(PartialEq, Eq, Structural, Clone, Copy, Debug)]
pub enum InputEvent {
    BtnAPressed,
    BtnAReleased,
    BtnBPressed,
    BtnBReleased,
}

/// Capacity of the input event queue.
pub const INPUTQ_CAPACITY: usize = 16;

/// `rtic_sync::channel::Sender`, the sending end of a channel with room for
/// `N` items of type `T`. Nothing inside it is visible to verified code.
#[verifier::external_type_specification]
#[verifier::external_body]
#[verifier::reject_recursive_types(T)]
pub struct ExSender<'a, T, const N: usize>(rtic_sync::channel::Sender<'a, T, N>);

/// The event that a confirmed transition of a button stands for.
pub open spec fn event_of(btn_id: BtnIds, btn_state: Option<BtnState>) -> Option<InputEvent> {
    match (btn_id, btn_state) {
        (BtnIds::BtnA, Some(BtnState::Pressed)) => Some(InputEvent::BtnAPressed),
        (BtnIds::BtnB, Some(BtnState::Pressed)) => Some(InputEvent::BtnBPressed),
        (BtnIds::BtnA, Some(BtnState::NotPressed)) => Some(InputEvent::BtnAReleased),
        (BtnIds::BtnB, Some(BtnState::NotPressed)) => Some(InputEvent::BtnBReleased),
        (_, None) => None,
    }
}

/// Maps a button and its debounce outcome to an input event; no transition, no event.
pub fn ev_for_btn_state(btn_id: BtnIds, btn_state: Option<BtnState>) -> (event: Option<InputEvent>)
    ensures
        event == event_of(btn_id, btn_state),
{
    match (btn_id, btn_state) {
        (BtnIds::BtnA, Some(BtnState::Pressed)) => Some(InputEvent::BtnAPressed),
        (BtnIds::BtnB, Some(BtnState::Pressed)) => Some(InputEvent::BtnBPressed),
        (BtnIds::BtnA, Some(BtnState::NotPressed)) => Some(InputEvent::BtnAReleased),
        (BtnIds::BtnB, Some(BtnState::NotPressed)) => Some(InputEvent::BtnBReleased),
        (_, None) => None,
    }
}

/// `rtic_sync::channel::Sender::try_send`: offers one event to the queue without
/// waiting and says whether the queue took it. Whether it does depends on what
/// the receiving side has taken out so far, so nothing is claimed of the answer.
#[verifier::external_body]
fn try_send(inputq: &mut rtic_sync::channel::Sender<'_, InputEvent, 16>, ev: InputEvent) -> (accepted: bool)
{
    inputq.try_send(ev).is_ok()
}

/// The button state that a raw input level stands for: the line is low while
/// the button is held down.
pub open spec fn raw_state_of(is_high: bool) -> BtnState {
    if is_high {
        BtnState::NotPressed
    } else {
        BtnState::Pressed
    }
}

/// Feeds the sampled level of a button to its debouncer and reports the newly
/// confirmed state, if any.
pub fn read_debounced_button(is_high: bool, debouncer: &mut Debouncer) -> (confirmed: Option<
    BtnState,
>)
    ensures
        final(debouncer)@ == old(debouncer)@.next(raw_state_of(is_high)),
        confirmed == old(debouncer)@.emitted(raw_state_of(is_high)),
        final(debouncer)@.wf(),
{
    let raw_state = if is_high {
        BtnState::NotPressed
    } else {
        BtnState::Pressed
    };
    debouncer.update(raw_state)
}

/// One debounce period: both buttons are sampled, each transition that is
/// confirmed becomes an event, and the events are offered to the queue, that
/// of button A first. An event that the queue does not take is dropped.
/// Returns the events in the order in which they were offered.
pub fn handle_debounce_timer(
    a_is_high: bool,
    b_is_high: bool,
    debouncer_a: &mut Debouncer,
    debouncer_b: &mut Debouncer,
    inputq: &mut rtic_sync::channel::Sender<'_, InputEvent, 16>,
) -> (events: [Option<InputEvent>; 2])
    ensures
        final(debouncer_a)@ == old(debouncer_a)@.next(raw_state_of(a_is_high)),
        final(debouncer_b)@ == old(debouncer_b)@.next(raw_state_of(b_is_high)),
        final(debouncer_a)@.wf(),
        final(debouncer_b)@.wf(),
        events@ == seq![
            event_of(BtnIds::BtnA, old(debouncer_a)@.emitted(raw_state_of(a_is_high))),
            event_of(BtnIds::BtnB, old(debouncer_b)@.emitted(raw_state_of(b_is_high))),
        ],
{
    let events = [
        ev_for_btn_state(BtnIds::BtnA, read_debounced_button(a_is_high, debouncer_a)),
        ev_for_btn_state(BtnIds::BtnB, read_debounced_button(b_is_high, debouncer_b)),
    ];
    let mut i: usize = 0;
    while i < 2
        invariant
            i <= 2,
        decreases 2 - i,
    {
        if let Some(ev) = events[i] {
            let _ = try_send(inputq, ev);
        }
        i += 1;
    }
    assert(events@ =~= seq![
        event_of(BtnIds::BtnA, old(debouncer_a)@.emitted(raw_state_of(a_is_high))),
        event_of(BtnIds::BtnB, old(debouncer_b)@.emitted(raw_state_of(b_is_high))),
    ]);
    events
}

} // verus!
