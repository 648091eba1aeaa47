//! Shots in flight: how one shot moves in a physics tick, and the
//! fixed-capacity buffer that holds them.

use vstd::prelude::*;

verus! {

/// A shot in flight: `(column, row)`. Row 0 is the enemy row.
pub type Shot = (usize, usize);

/// Number of columns, and of rows, of the playing field.
pub const FIELD_SIZE: usize = 5;

/// Number of shots that the buffer can hold.
pub const SHOT_CAPACITY: usize = 25;

/// Row in which a shot is fired.
pub const SHOT_ROW: usize = 3;

/// Whether `shot`, as it moves up one row, hits a living enemy.
pub open spec fn shot_hits(shot: Shot, enemies: Seq<bool>) -> bool {
    shot.1 == 1 && enemies[shot.0 as int]
}

/// Whether `shot` is still in flight after moving up one row: it is not if it
/// leaves the field or hits a living enemy.
pub open spec fn shot_survives(shot: Shot, enemies: Seq<bool>) -> bool {
    shot.1 > 0 && !shot_hits(shot, enemies)
}

/// `shot` one row further up.
pub open spec fn shot_moved(shot: Shot) -> Shot {
    (shot.0, (shot.1 - 1) as usize)
}

/// The enemies that are left once `shot` has moved.
pub open spec fn enemies_after_shot(shot: Shot, enemies: Seq<bool>) -> Seq<bool> {
    if shot_hits(shot, enemies) {
        enemies.update(shot.0 as int, false)
    } else {
        enemies
    }
}

/// Moves one shot up by a row. A shot that was in the enemy row leaves the
/// field; a shot that reaches the enemy row in the column of a living enemy
/// removes that enemy and itself. Returns whether the shot stays in flight.
pub fn advance_shot(shot: &mut Shot, enemies: &mut [bool; 5]) -> (keep: bool)
    requires
        old(shot).0 < 5,
    ensures
        keep == shot_survives(*old(shot), old(enemies)@),
        keep ==> *final(shot) == shot_moved(*old(shot)),
        final(enemies)@ == enemies_after_shot(*old(shot), old(enemies)@),
{
    if shot.1 == 0 {
        // off the screen
        false
    } else {
        shot.1 = shot.1 - 1;
        if shot.1 == 0 && enemies[shot.0] {
            // hit an alien
            enemies[shot.0] = false;
            false
        } else {
            true
        }
    }
}

} // verus!

verus! {

/// Whether `shot` lies where a shot in flight can be: inside the field, no
/// lower than the row in which shots are fired.
pub open spec fn in_flight(shot: Shot) -> bool {
    shot.0 < FIELD_SIZE && shot.1 <= SHOT_ROW
}

/// What holds of the shots of every game: each lies where a shot can be, and
/// no position is taken twice.
pub open spec fn shots_valid(shots: Seq<Shot>) -> bool {
    &&& shots.no_duplicates()
    &&& forall|i: int| 0 <= i < shots.len() ==> in_flight(#[trigger] shots[i])
}

/// The test "stays in flight" against the enemies `enemies`.
pub open spec fn survivor(enemies: Seq<bool>) -> spec_fn(Shot) -> bool {
    |shot: Shot| shot_survives(shot, enemies)
}

/// The step "one row further up".
pub open spec fn mover() -> spec_fn(Shot) -> Shot {
    |shot: Shot| shot_moved(shot)
}

/// The shots in flight after a physics tick: those that stay in flight,
/// judged by where they were and which enemies lived before the tick, in
/// their old order, each one row further up.
pub open spec fn shots_after_tick(shots: Seq<Shot>, enemies: Seq<bool>) -> Seq<Shot> {
    shots.filter(survivor(enemies)).map_values(mover())
}

/// The enemies alive after a physics tick: an enemy lives on unless a shot
/// reaches the enemy row in its column.
pub open spec fn enemies_after_tick(shots: Seq<Shot>, enemies: Seq<bool>) -> Seq<bool> {
    Seq::new(enemies.len(), |c: int| enemies[c] && !shots.contains((c as usize, 1usize)))
}

/// The shots and enemies that are left when the shots are moved one after
/// another, oldest first, each against the enemies that the shots before it
/// have left alive.
pub open spec fn sweep(shots: Seq<Shot>, enemies: Seq<bool>) -> (Seq<Shot>, Seq<bool>)
    decreases shots.len(),
{
    if shots.len() == 0 {
        (Seq::empty(), enemies)
    } else {
        let (kept, alive) = sweep(shots.drop_last(), enemies);
        let shot = shots.last();
        (
            if shot_survives(shot, alive) {
                kept.push(shot_moved(shot))
            } else {
                kept
            },
            enemies_after_shot(shot, alive),
        )
    }
}

/// How a tick treats the shots when one more shot is appended.
pub proof fn lemma_tick_push(head: Seq<Shot>, shot: Shot, enemies: Seq<bool>)
    ensures
        shots_after_tick(head.push(shot), enemies) == if shot_survives(shot, enemies) {
            shots_after_tick(head, enemies).push(shot_moved(shot))
        } else {
            shots_after_tick(head, enemies)
        },
{
    let keep = survivor(enemies);
    head.lemma_filter_push(shot, keep);
    assert(head.filter(keep).push(shot).map_values(mover()) =~= head.filter(keep).map_values(
        mover(),
    ).push(shot_moved(shot)));
}

/// With no shots in flight a tick leaves none.
pub proof fn lemma_tick_empty(enemies: Seq<bool>)
    ensures
        shots_after_tick(Seq::<Shot>::empty(), enemies) == Seq::<Shot>::empty(),
{
    Seq::<Shot>::empty().lemma_filter_len(survivor(enemies));
    assert(shots_after_tick(Seq::<Shot>::empty(), enemies) =~= Seq::<Shot>::empty());
}

/// A position holds a shot after a tick exactly if a shot that stays in flight
/// moves there.
pub proof fn lemma_after_tick_contains(shots: Seq<Shot>, enemies: Seq<bool>, place: Shot)
    ensures
        shots_after_tick(shots, enemies).contains(place) <==> exists|from: Shot|
            #[trigger] shots.contains(from) && shot_survives(from, enemies) && shot_moved(from)
                == place,
    decreases shots.len(),
{
    let after = shots_after_tick(shots, enemies);
    if shots.len() == 0 {
        lemma_tick_empty(enemies);
        assert(shots =~= Seq::<Shot>::empty());
    } else {
        let head = shots.drop_last();
        let last = shots.last();
        let before = shots_after_tick(head, enemies);
        assert(shots =~= head.push(last));
        lemma_tick_push(head, last, enemies);
        lemma_after_tick_contains(head, enemies, place);
        if after.contains(place) {
            let i = choose|i: int| 0 <= i < after.len() && after[i] == place;
            if i < before.len() {
                assert(before[i] == place);
                assert(before.contains(place));
                let from = choose|from: Shot|
                    #[trigger] head.contains(from) && shot_survives(from, enemies) && shot_moved(
                        from,
                    ) == place;
                let j = choose|j: int| 0 <= j < head.len() && head[j] == from;
                assert(shots[j] == from);
                assert(shots.contains(from));
            } else {
                assert(shots[shots.len() - 1] == last);
                assert(shots.contains(last));
            }
        }
        if exists|from: Shot|
            #[trigger] shots.contains(from) && shot_survives(from, enemies) && shot_moved(from)
                == place {
            let from = choose|from: Shot|
                #[trigger] shots.contains(from) && shot_survives(from, enemies) && shot_moved(from)
                    == place;
            let j = choose|j: int| 0 <= j < shots.len() && shots[j] == from;
            if j < head.len() {
                assert(head[j] == from);
                assert(head.contains(from));
                let i = choose|i: int| 0 <= i < before.len() && before[i] == place;
                assert(after[i] == place);
            } else {
                assert(after[after.len() - 1] == place);
            }
        }
    }
}

/// A tick keeps the shots valid.
pub proof fn lemma_tick_keeps_valid(shots: Seq<Shot>, enemies: Seq<bool>)
    requires
        shots_valid(shots),
    ensures
        shots_valid(shots_after_tick(shots, enemies)),
        shots_after_tick(shots, enemies).len() <= shots.len(),
    decreases shots.len(),
{
    let after = shots_after_tick(shots, enemies);
    if shots.len() == 0 {
        lemma_tick_empty(enemies);
        assert(shots =~= Seq::<Shot>::empty());
    } else {
        let head = shots.drop_last();
        let last = shots.last();
        let before = shots_after_tick(head, enemies);
        assert(shots =~= head.push(last));
        lemma_tick_push(head, last, enemies);
        assert(shots_valid(head)) by {
            assert forall|i: int| 0 <= i < head.len() implies in_flight(#[trigger] head[i]) by {
                assert(head[i] == shots[i]);
            }
        }
        lemma_tick_keeps_valid(head, enemies);
        if shot_survives(last, enemies) {
            let moved = shot_moved(last);
            assert(in_flight(shots[shots.len() - 1]));
            if before.contains(moved) {
                lemma_after_tick_contains(head, enemies, moved);
                let from = choose|from: Shot|
                    #[trigger] head.contains(from) && shot_survives(from, enemies) && shot_moved(
                        from,
                    ) == moved;
                assert(from == last);
                let j = choose|j: int| 0 <= j < head.len() && head[j] == from;
                assert(shots[j] == shots[shots.len() - 1]);
            }
            assert forall|i: int, j: int| 0 <= i < j < after.len() implies after[i] != after[j] by {
                if j == before.len() {
                    assert(before[i] == after[i]);
                    assert(before.contains(after[i]));
                } else {
                    assert(before[i] != before[j]);
                }
            }
            assert forall|i: int| 0 <= i < after.len() implies in_flight(#[trigger] after[i]) by {
                if i < before.len() {
                    assert(after[i] == before[i]);
                }
            }
        }
    }
}

/// Moving the shots one after another gives what a tick asks for: where no
/// position is taken twice, it makes no difference that each shot meets the
/// enemies as the shots before it have left them.
pub proof fn lemma_sweep_is_tick(shots: Seq<Shot>, enemies: Seq<bool>)
    requires
        shots.no_duplicates(),
        enemies.len() == FIELD_SIZE,
        forall|i: int| 0 <= i < shots.len() ==> (#[trigger] shots[i]).0 < FIELD_SIZE,
    ensures
        sweep(shots, enemies).0 == shots_after_tick(shots, enemies),
        sweep(shots, enemies).1 == enemies_after_tick(shots, enemies),
    decreases shots.len(),
{
    if shots.len() == 0 {
        lemma_tick_empty(enemies);
        assert(shots =~= Seq::<Shot>::empty());
        assert(enemies_after_tick(shots, enemies) =~= enemies);
    } else {
        let head = shots.drop_last();
        let last = shots.last();
        assert(shots =~= head.push(last));
        lemma_tick_push(head, last, enemies);
        lemma_sweep_is_tick(head, enemies);
        let alive = enemies_after_tick(head, enemies);
        let column = last.0 as int;
        assert(shots[shots.len() - 1] == last);
        if last.1 == 1 {
            if head.contains(last) {
                let j = choose|j: int| 0 <= j < head.len() && head[j] == last;
                assert(shots[j] == shots[shots.len() - 1]);
            }
            assert(alive[column] == enemies[column]);
        }
        assert(shot_survives(last, alive) == shot_survives(last, enemies));
        assert(enemies_after_shot(last, alive) =~= enemies_after_tick(shots, enemies)) by {
            assert forall|c: int| 0 <= c < enemies.len() implies enemies_after_shot(last, alive)[c]
                == enemies_after_tick(shots, enemies)[c] by {
                let target = (c as usize, 1usize);
                if head.contains(target) {
                    let j = choose|j: int| 0 <= j < head.len() && head[j] == target;
                    assert(shots[j] == target);
                }
                if shots.contains(target) {
                    let j = choose|j: int| 0 <= j < shots.len() && shots[j] == target;
                    if j < head.len() {
                        assert(head[j] == target);
                    }
                }
                if last == target {
                    assert(shots.contains(target));
                }
                assert(shots.contains(target) <==> head.contains(target) || last == target);
            }
        }
    }
}

} // verus!

verus! {

/// Number of positions in which a shot can be.
pub const FLIGHT_CELLS: usize = 20;

/// The number of a position among the positions in which a shot can be.
pub open spec fn cell_of(shot: Shot) -> int {
    shot.0 * (SHOT_ROW + 1) + shot.1
}

/// Valid shots never fill the buffer: there are fewer positions in which a
/// shot can be than the buffer has places.
pub proof fn lemma_valid_shots_fit(shots: Seq<Shot>)
    requires
        shots_valid(shots),
    ensures
        shots.len() <= FLIGHT_CELLS,
        shots.len() < SHOT_CAPACITY,
{
    let cells = shots.map_values(|shot: Shot| cell_of(shot));
    assert forall|i: int, j: int| 0 <= i < j < cells.len() implies cells[i] != cells[j] by {
        assert(in_flight(shots[i]) && in_flight(shots[j]));
        assert(shots[i] != shots[j]);
    }
    cells.unique_seq_to_set();
    vstd::set_lib::lemma_int_range(0, FLIGHT_CELLS as int);
    let all = vstd::set_lib::set_int_range(0, FLIGHT_CELLS as int);
    assert forall|c: int| cells.to_set().contains(c) implies all.contains(c) by {
        let i = choose|i: int| 0 <= i < cells.len() && cells[i] == c;
        assert(in_flight(shots[i]));
    }
    vstd::set_lib::lemma_len_subset(cells.to_set(), all);
}

} // verus!

verus! {

/// A tick that takes a shot out of flight leaves fewer shots than it found.
pub proof fn lemma_tick_drops(shots: Seq<Shot>, enemies: Seq<bool>, gone: Shot)
    requires
        shots.contains(gone),
        !shot_survives(gone, enemies),
    ensures
        shots_after_tick(shots, enemies).len() < shots.len(),
    decreases shots.len(),
{
    let head = shots.drop_last();
    let last = shots.last();
    assert(shots =~= head.push(last));
    lemma_tick_push(head, last, enemies);
    head.lemma_filter_len(survivor(enemies));
    if last != gone {
        let j = choose|j: int| 0 <= j < shots.len() && shots[j] == gone;
        assert(head[j] == gone);
        lemma_tick_drops(head, enemies, gone);
    }
}

} // verus!
