//! The display multiplexer: one of five rows is driven at a time, and the
//! active window of a row is cut into sixteen sub-steps during which each
//! column is switched on or off to dim its cell.

use vstd::prelude::*;
use crate::game::GameState;
use crate::game::GameView;

verus! {

/// Number of rows, and of columns, of the display.
pub const DISPLAY_SIZE: u8 = 5;

/// Number of sub-steps in the active window of a row.
pub const SUBSTEPS: u8 = 16;

/// Whether a cell of brightness `brightness` is lit in sub-step `substep`:
/// a dark cell never is; any other cell is until the sub-step has passed its
/// brightness.
pub open spec fn column_lit(brightness: u8, substep: u8) -> bool {
    brightness > 0 && brightness >= substep
}

/// The row that follows `row`, wrapping round after the last.
pub open spec fn row_after(row: u8) -> u8 {
    if row + 1 >= DISPLAY_SIZE {
        0
    } else {
        (row + 1) as u8
    }
}

/// The sub-step that follows `substep`, wrapping round after the last.
pub open spec fn substep_after(substep: u8) -> u8 {
    if substep + 1 >= SUBSTEPS {
        0
    } else {
        (substep + 1) as u8
    }
}

/// Mathematical model of a [`DisplayMux`].
pub struct MuxView {
    /// The row whose window is running, or has just run out.
    pub active_row: u8,
    /// The sub-step that the next refresh shows.
    pub substep: u8,
    /// The brightness of each cell of the active row, as read when its window began.
    pub levels: Seq<u8>,
}

impl MuxView {
    /// What holds of every multiplexer: row and sub-step are in range and
    /// there is one brightness per column.
    pub open spec fn wf(self) -> bool {
        &&& self.active_row < DISPLAY_SIZE
        &&& self.substep < SUBSTEPS
        &&& self.levels.len() == DISPLAY_SIZE
    }

    /// The row that the next refresh drives: a new one where a window begins.
    pub open spec fn shown_row(self) -> u8 {
        if self.substep == 0 {
            row_after(self.active_row)
        } else {
            self.active_row
        }
    }

    /// The brightness of each cell of the row that the next refresh drives:
    /// read from the game where a window begins, kept for the rest of it.
    pub open spec fn shown_levels(self, game: GameView) -> Seq<u8> {
        if self.substep == 0 {
            Seq::new(DISPLAY_SIZE as nat, |col: int| game.brightness(self.shown_row() as int, col))
        } else {
            self.levels
        }
    }

    /// For each column, whether the next refresh switches it on.
    pub open spec fn lit(self, game: GameView) -> Seq<bool> {
        Seq::new(
            DISPLAY_SIZE as nat,
            |col: int| column_lit(self.shown_levels(game)[col], self.substep),
        )
    }

    /// The row that the next refresh switches off first, if any.
    pub open spec fn deactivated(self) -> Option<u8> {
        if self.substep == 0 {
            Some(self.active_row)
        } else {
            None
        }
    }

    /// The row that the next refresh switches on last, if any.
    pub open spec fn activated(self) -> Option<u8> {
        if self.substep == 0 {
            Some(self.shown_row())
        } else {
            None
        }
    }

    /// The state after the next refresh.
    pub open spec fn next(self, game: GameView) -> MuxView {
        MuxView {
            active_row: self.shown_row(),
            substep: substep_after(self.substep),
            levels: self.shown_levels(game),
        }
    }
}

/// What one refresh asks of the output lines, in the order in which it is to
/// be done.
#[derive(Clone, Copy, Debug, PartialEq, Eq)]
pub struct DisplayStep {
    /// The row line to switch off first, if any.
    pub deactivate_row: Option<u8>,
    /// For each column, whether its cell is to be lit.
    pub columns_lit: [bool; 5],
    /// The row line to switch on last, if any.
    pub activate_row: Option<u8>,
}

/// Row and sub-step counters of the display, with the brightness of the
/// active row.
pub struct DisplayMux {
    active_row: u8,
    display_ticks: u8,
    levels: [u8; 5],
}

impl View for DisplayMux {
    type V = MuxView;

    closed spec fn view(&self) -> MuxView {
        MuxView { active_row: self.active_row, substep: self.display_ticks, levels: self.levels@ }
    }
}

impl DisplayMux {
    #[verifier::type_invariant]
    closed spec fn inv(&self) -> bool {
        self@.wf()
    }

    /// A multiplexer at the start of a window, with nothing to show yet.
    pub fn new() -> (mux: Self)
        ensures
            mux@ == (MuxView { active_row: 0, substep: 0, levels: Seq::new(5, |col: int| 0u8) }),
            mux@.wf(),
    {
        let mux = DisplayMux { active_row: 0, display_ticks: 0, levels: [0; 5] };
        assert(mux@.levels =~= Seq::new(5, |col: int| 0u8));
        mux
    }

    /// One display refresh. Where the window of a row begins, the row driven
    /// so far is to be switched off, the next row becomes the active one, and
    /// the brightness of its cells is read from the game. Each column of the
    /// active row is lit if its cell is not dark and is at least as bright as
    /// the sub-step counts. Where a window begins, the new row is then to be
    /// switched on. Last, the sub-step moves on.
    pub fn handle_display_timer(&mut self, game: &GameState) -> (step: DisplayStep)
        ensures
            final(self)@ == old(self)@.next(game@),
            final(self)@.wf(),
            step.deactivate_row == old(self)@.deactivated(),
            step.columns_lit@ == old(self)@.lit(game@),
            step.activate_row == old(self)@.activated(),
    {
        proof {
            use_type_invariant(&*self);
        }
        let substep = self.display_ticks;
        let mut deactivate_row: Option<u8> = None;
        let mut activate_row: Option<u8> = None;
        if substep == 0 {
            // clear the previous row
            deactivate_row = Some(self.active_row);
            let row: u8 = if self.active_row + 1 >= 5 {
                0
            } else {
                self.active_row + 1
            };
            let buf = game.frame();
            let levels = buf[row as usize];
            assert(levels@ =~= old(self)@.shown_levels(game@)) by {
                assert forall|col: int| 0 <= col < 5 implies levels@[col] == game@.brightness(
                    row as int,
                    col,
                ) by {
                    assert(buf[row as int][col] == game@.brightness(row as int, col));
                }
            }
            self.levels = levels;
            self.active_row = row;
            // activate the new row
            activate_row = Some(row);
        }
        // set column values for the active row
        let mut columns_lit = [false; 5];
        let mut col: usize = 0;
        while col < 5
            invariant
                col <= 5,
                forall|c: int|
                    0 <= c < col ==> columns_lit@[c] == column_lit(self.levels@[c], substep),
            decreases 5 - col,
        {
            let brightness = self.levels[col];
            columns_lit[col] = brightness > 0 && brightness >= substep;
            col += 1;
        }
        assert(columns_lit@ =~= old(self)@.lit(game@));
        self.display_ticks = if substep + 1 >= 16 {
            0
        } else {
            substep + 1
        };
        DisplayStep { deactivate_row, columns_lit, activate_row }
    }

    /// The row whose window is running.
    pub fn active_row(&self) -> (row: u8)
        ensures
            row == self@.active_row,
            row < DISPLAY_SIZE,
    {
        proof {
            use_type_invariant(self);
        }
        self.active_row
    }

    /// The sub-step that the next refresh shows.
    pub fn substep(&self) -> (substep: u8)
        ensures
            substep == self@.substep,
            substep < SUBSTEPS,
    {
        proof {
            use_type_invariant(self);
        }
        self.display_ticks
    }
}

/// The level to drive an output line to so that it changes: high if it is
/// low, low if it is high.
pub fn toggle(is_set_high: bool) -> (drive_high: bool)
    ensures
        drive_high == !is_set_high,
{
    if is_set_high {
        false
    } else {
        true
    }
}

} // verus!

verus! {

/// In how many of the first `upto` sub-steps a cell of brightness
/// `brightness` is lit.
pub open spec fn lit_substeps(brightness: u8, upto: nat) -> nat
    decreases upto,
{
    if upto == 0 {
        0
    } else {
        lit_substeps(brightness, (upto - 1) as nat) + if column_lit(
            brightness,
            (upto - 1) as u8,
        ) {
            1nat
        } else {
            0nat
        }
    }
}

impl MuxView {
    /// The state after one refresh for each of `games`, the game as it was
    /// at that refresh.
    pub open spec fn run(self, games: Seq<GameView>) -> MuxView
        decreases games.len(),
    {
        if games.len() == 0 {
            self
        } else {
            self.run(games.drop_last()).next(games.last())
        }
    }

    /// In how many of those refreshes column `col` is lit.
    pub open spec fn lit_refreshes(self, games: Seq<GameView>, col: int) -> nat
        decreases games.len(),
    {
        if games.len() == 0 {
            0
        } else {
            self.lit_refreshes(games.drop_last(), col) + if self.run(games.drop_last()).lit(
                games.last(),
            )[col] {
                1nat
            } else {
                0nat
            }
        }
    }
}

/// A dark cell is lit in none of the sub-steps counted; any other cell is
/// lit from sub-step 0 up to and including the sub-step that equals its
/// brightness.
pub proof fn lemma_lit_substeps(brightness: u8, upto: nat)
    requires
        upto <= SUBSTEPS,
    ensures
        lit_substeps(brightness, upto) == (if brightness == 0 {
            0
        } else if brightness + 1 <= upto {
            brightness + 1
        } else {
            upto as int
        }),
    decreases upto,
{
    if upto > 0 {
        lemma_lit_substeps(brightness, (upto - 1) as nat);
    }
}

/// Over the sixteen sub-steps of a window a dark cell is never lit, and a
/// cell of brightness `b` from 1 to 15 is lit in `b + 1` of them.
pub proof fn lemma_duty(brightness: u8)
    requires
        brightness < SUBSTEPS,
    ensures
        lit_substeps(brightness, SUBSTEPS as nat) == (if brightness == 0 {
            0
        } else {
            brightness + 1
        }),
        brightness == 0 ==> forall|substep: u8| !column_lit(brightness, substep),
{
    lemma_lit_substeps(brightness, SUBSTEPS as nat);
}

/// Through the window of a row the multiplexer stays on that row and shows
/// what it read from the game when the window began, whatever the game does
/// meanwhile: after `n` refreshes from the start of a window, each column has
/// been lit in as many of them as its cell, as it was at the first refresh,
/// is lit in the first `n` sub-steps.
pub proof fn lemma_window(mux: MuxView, games: Seq<GameView>, col: int)
    requires
        mux.wf(),
        mux.substep == 0,
        1 <= games.len() <= SUBSTEPS,
        0 <= col < DISPLAY_SIZE,
    ensures
        mux.run(games) == (MuxView {
            active_row: row_after(mux.active_row),
            substep: if games.len() == SUBSTEPS {
                0
            } else {
                games.len() as u8
            },
            levels: mux.shown_levels(games[0]),
        }),
        mux.lit_refreshes(games, col) == lit_substeps(
            games[0].brightness(row_after(mux.active_row) as int, col),
            games.len(),
        ),
    decreases games.len(),
{
    let head = games.drop_last();
    if head.len() == 0 {
        assert(mux.run(head) == mux);
        assert(mux.lit_refreshes(head, col) == 0);
        assert(games.last() == games[0]);
        assert(lit_substeps(games[0].brightness(row_after(mux.active_row) as int, col), 0) == 0);
    } else {
        lemma_window(mux, head, col);
        assert(head[0] == games[0]);
    }
}

/// Over the whole window of a row a column is lit in none of the sixteen
/// refreshes if its cell was dark when the window began, and in `b + 1` of
/// them if its cell had a brightness `b` from 1 to 15; the next window then
/// begins.
pub proof fn lemma_window_duty(mux: MuxView, games: Seq<GameView>, col: int)
    requires
        mux.wf(),
        mux.substep == 0,
        games.len() == SUBSTEPS,
        0 <= col < DISPLAY_SIZE,
        games[0].brightness(row_after(mux.active_row) as int, col) < SUBSTEPS,
    ensures
        mux.run(games).substep == 0,
        mux.run(games).active_row == row_after(mux.active_row),
        mux.lit_refreshes(games, col) == (if games[0].brightness(
            row_after(mux.active_row) as int,
            col,
        ) == 0 {
            0
        } else {
            games[0].brightness(row_after(mux.active_row) as int, col) + 1
        }),
{
    lemma_window(mux, games, col);
    lemma_duty(games[0].brightness(row_after(mux.active_row) as int, col));
}

} // verus!
