//! The fixed-capacity, allocation-free buffer that holds the shots in flight.
//!
//! The buffer is a `heapless::Vec`. What is known of it here is stated, not
//! proved: the items of this module are the library's assumptions about that
//! crate.

use vstd::prelude::*;
use crate::shots::advance_shot;
use crate::shots::sweep;

verus! {

/// `heapless::Vec`, a vector with room for `N` items of type `T` that lives
/// where it is declared. Nothing inside it is visible to verified code.
#[verifier::external_type_specification]
#[verifier::external_body]
#[verifier::reject_recursive_types(T)]
pub struct ExHeaplessVec<T, const N: usize>(heapless::Vec<T, N>);

/// The shots that a buffer holds, oldest first: what `heapless::Vec::as_slice`
/// hands out. The wrappers below say how each call changes it.
pub uninterp spec fn shot_list(buffer: heapless::Vec<(usize, usize), 25>) -> Seq<(usize, usize)>;

/// `heapless::Vec::new`: a buffer that holds nothing.
#[verifier::external_body]
pub(crate) fn new_buffer() -> (buffer: heapless::Vec<(usize, usize), 25>)
    ensures
        shot_list(buffer) == Seq::<(usize, usize)>::empty(),
{
    heapless::Vec::new()
}

/// `heapless::Vec::push`: appends `shot` if fewer shots are held than the
/// buffer has places, and says whether it did; a full buffer is left as it is.
/// The call does not panic.
#[verifier::external_body]
pub(crate) fn push_shot(buffer: &mut heapless::Vec<(usize, usize), 25>, shot: (usize, usize)) -> (stored: bool)
    ensures
        stored == (shot_list(*old(buffer)).len() < 25),
        stored ==> shot_list(*final(buffer)) == shot_list(*old(buffer)).push(shot),
        !stored ==> shot_list(*final(buffer)) == shot_list(*old(buffer)),
    no_unwind
{
    buffer.push(shot).is_ok()
}

/// `contains` of the slice that a `heapless::Vec` dereferences to: whether
/// some shot held equals `shot`.
#[verifier::external_body]
pub(crate) fn holds_shot(buffer: &heapless::Vec<(usize, usize), 25>, shot: &(usize, usize)) -> (found: bool)
    ensures
        found == shot_list(*buffer).contains(*shot),
{
    buffer.contains(shot)
}

/// `heapless::Vec::as_slice`: the shots held, oldest first.
#[verifier::external_body]
pub(crate) fn held_shots(buffer: &heapless::Vec<(usize, usize), 25>) -> (shots: &[(usize, usize)])
    ensures
        shots@ == shot_list(*buffer),
{
    buffer.as_slice()
}

/// `heapless::Vec::retain_mut` with [`advance_shot`] as the test: every shot
/// held is handed to it once, oldest first, together with the enemies as the
/// calls before have left them; the shots for which it answers `true` stay,
/// as it has changed them and in their old order. [`sweep`] is that walk
/// written out. Every column handed over has to be inside the field, as
/// [`advance_shot`] asks; the call then does not panic.
#[verifier::external_body]
pub(crate) fn retain_advanced(buffer: &mut heapless::Vec<(usize, usize), 25>, enemies: &mut [bool; 5])
    requires
        forall|i: int|
            0 <= i < shot_list(*old(buffer)).len() ==> (#[trigger] shot_list(*old(buffer))[i]).0 < 5,
    ensures
        shot_list(*final(buffer)) == sweep(shot_list(*old(buffer)), old(enemies)@).0,
        final(enemies)@ == sweep(shot_list(*old(buffer)), old(enemies)@).1,
    no_unwind
{
    buffer.retain_mut(|shot| advance_shot(shot, enemies));
}

} // verus!
