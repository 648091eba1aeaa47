//! The game state machine: a ship in the bottom row, a row of enemies at the
//! top, and the shots in between. Input events move the ship and fire; a
//! fixed-period physics tick moves the shots and detects hits and victory.

use vstd::prelude::*;
use crate::input::InputEvent;
use crate::shot_buffer::held_shots;
use crate::shot_buffer::holds_shot;
use crate::shot_buffer::new_buffer;
use crate::shot_buffer::push_shot;
use crate::shot_buffer::retain_advanced;
use crate::shot_buffer::shot_list;
use crate::shots::enemies_after_tick;
use crate::shots::lemma_sweep_is_tick;
use crate::shots::lemma_tick_keeps_valid;
use crate::shots::lemma_valid_shots_fit;
use crate::shots::shots_after_tick;
use crate::shots::shots_valid;
use crate::shots::Shot;
use crate::shots::FIELD_SIZE;
use crate::shots::SHOT_ROW;

verus! {

/// Whether the game is being played or has been won.
#[derive(PartialEq, Eq, Structural, Clone, Copy, Debug)]
pub enum RunState {
    Running,
    Victory,
}

/// Column in which the ship starts.
pub const START_COLUMN: usize = 2;

/// Brightness of the ship, and of every cell once the game is won.
pub const FULL_BRIGHTNESS: u8 = 15;

/// Brightness of a living enemy.
pub const ENEMY_BRIGHTNESS: u8 = 7;

/// Brightness of a shot.
pub const SHOT_BRIGHTNESS: u8 = 3;

/// Whether `ev` is the press of a button.
pub open spec fn is_press(ev: InputEvent) -> bool {
    ev == InputEvent::BtnAPressed || ev == InputEvent::BtnBPressed
}

/// Whether no enemy of `enemies` is alive.
pub open spec fn none_alive(enemies: Seq<bool>) -> bool {
    forall|c: int| 0 <= c < enemies.len() ==> !enemies[c]
}

/// The shot that would show in row `row` and column `col`.
pub open spec fn shot_at(row: int, col: int) -> Shot {
    (col as usize, row as usize)
}

/// Mathematical model of a [`GameState`].
pub struct GameView {
    pub run_state: RunState,
    /// Column of the ship.
    pub ship_x: usize,
    /// For each column, whether its enemy is alive.
    pub enemies: Seq<bool>,
    /// The shots in flight, oldest first.
    pub shots: Seq<Shot>,
}

impl GameView {
    /// The state in which every game starts.
    pub open spec fn initial() -> GameView {
        GameView {
            run_state: RunState::Running,
            ship_x: START_COLUMN,
            enemies: Seq::new(FIELD_SIZE as nat, |c: int| true),
            shots: Seq::empty(),
        }
    }

    /// What holds of every game: the ship is inside the field, there is one
    /// enemy slot per column, and the shots are valid.
    pub open spec fn wf(self) -> bool {
        &&& self.ship_x < FIELD_SIZE
        &&& self.enemies.len() == FIELD_SIZE
        &&& shots_valid(self.shots)
    }

    /// The shot that the ship fires from where it is.
    pub open spec fn new_shot(self) -> Shot {
        (self.ship_x, SHOT_ROW)
    }

    /// The state after the input event `ev`.
    pub open spec fn after_event(self, ev: InputEvent) -> GameView {
        if self.run_state == RunState::Victory {
            if is_press(ev) {
                GameView::initial()
            } else {
                self
            }
        } else {
            match ev {
                InputEvent::BtnAPressed => GameView {
                    ship_x: if self.ship_x > 0 {
                        (self.ship_x - 1) as usize
                    } else {
                        self.ship_x
                    },
                    ..self
                },
                InputEvent::BtnAReleased => self,
                InputEvent::BtnBPressed => GameView {
                    ship_x: if self.ship_x + 1 < FIELD_SIZE {
                        (self.ship_x + 1) as usize
                    } else {
                        self.ship_x
                    },
                    ..self
                },
                InputEvent::BtnBReleased => if self.shots.contains(self.new_shot()) {
                    self
                } else {
                    GameView { shots: self.shots.push(self.new_shot()), ..self }
                },
            }
        }
    }

    /// The state after a physics tick. A game that has been won stands still.
    pub open spec fn after_tick(self) -> GameView {
        if self.run_state == RunState::Victory {
            self
        } else {
            let enemies = enemies_after_tick(self.shots, self.enemies);
            GameView {
                run_state: if none_alive(enemies) {
                    RunState::Victory
                } else {
                    RunState::Running
                },
                enemies,
                shots: shots_after_tick(self.shots, self.enemies),
                ..self
            }
        }
    }

    /// The brightness of the cell in row `row` and column `col`.
    pub open spec fn brightness(self, row: int, col: int) -> u8 {
        if self.run_state == RunState::Victory {
            FULL_BRIGHTNESS
        } else if self.shots.contains(shot_at(row, col)) {
            SHOT_BRIGHTNESS
        } else if row == 0 && self.enemies[col] {
            ENEMY_BRIGHTNESS
        } else if row == FIELD_SIZE - 1 && col == self.ship_x {
            FULL_BRIGHTNESS
        } else {
            0
        }
    }
}

/// The state of one game.
pub struct GameState {
    run_state: RunState,
    spaceship_x: usize,
    enemies: [bool; 5],
    shots: heapless::Vec<(usize, usize), 25>,
}

impl View for GameState {
    type V = GameView;

    closed spec fn view(&self) -> GameView {
        GameView {
            run_state: self.run_state,
            ship_x: self.spaceship_x,
            enemies: self.enemies@,
            shots: shot_list(self.shots),
        }
    }
}

/// Whether no enemy is alive.
fn all_dead(enemies: &[bool; 5]) -> (dead: bool)
    ensures
        dead == none_alive(enemies@),
{
    let mut c: usize = 0;
    while c < 5
        invariant
            c <= 5,
            forall|k: int| 0 <= k < c ==> !enemies@[k],
        decreases 5 - c,
    {
        if enemies[c] {
            return false;
        }
        c += 1;
    }
    true
}

impl GameState {
    #[verifier::type_invariant]
    closed spec fn inv(&self) -> bool {
        self@.wf()
    }

    /// A new game: running, the ship in the middle, every enemy alive, no shot
    /// in flight.
    pub fn new() -> (game: Self)
        ensures
            game@ == GameView::initial(),
            game@.wf(),
    {
        let game = GameState {
            run_state: RunState::Running,
            spaceship_x: 2,
            enemies: [true; 5],
            shots: new_buffer(),
        };
        assert(game@.enemies =~= GameView::initial().enemies);
        game
    }

    /// Applies one input event. While the game is won, a press starts a new
    /// game and a release is ignored. Otherwise button A moves the ship one
    /// column to the left when pressed, button B moves it one column to the
    /// right when pressed and fires when released; the ship stays inside the
    /// field, and no shot is fired into a position that already holds one.
    pub fn handle_input_event(&mut self, ev: InputEvent)
        ensures
            final(self)@ == old(self)@.after_event(ev),
            final(self)@.wf(),
    {
        proof {
            use_type_invariant(&*self);
        }
        if self.run_state == RunState::Victory {
            if ev == InputEvent::BtnAPressed || ev == InputEvent::BtnBPressed {
                *self = GameState::new();
            }
            return;
        }
        match ev {
            InputEvent::BtnAPressed => {
                if self.spaceship_x > 0 {
                    self.spaceship_x -= 1;
                }
            },
            InputEvent::BtnAReleased => (),
            InputEvent::BtnBPressed => {
                if self.spaceship_x + 1 < 5 {
                    self.spaceship_x += 1;
                }
            },
            InputEvent::BtnBReleased => {
                let new_shot = (self.spaceship_x, 3);
                if !holds_shot(&self.shots, &new_shot) {
                    proof {
                        lemma_valid_shots_fit(shot_list(self.shots));
                        lemma_fired_shot_valid(self@);
                    }
                    let stored = push_shot(&mut self.shots, new_shot);
                    assert(stored);
                }
            },
        }
    }

    /// Advances the game by one physics tick: every shot moves up one row; a
    /// shot that was in the enemy row leaves the field; a shot that reaches
    /// the enemy row in the column of a living enemy removes that enemy and
    /// itself; and the game is won once no enemy is left. A game that has
    /// been won stands still.
    pub fn game_tick(&mut self)
        ensures
            final(self)@ == old(self)@.after_tick(),
            final(self)@.wf(),
    {
        proof {
            use_type_invariant(&*self);
            lemma_sweep_is_tick(shot_list(self.shots), self.enemies@);
            lemma_tick_keeps_valid(shot_list(self.shots), self.enemies@);
        }
        if self.run_state == RunState::Victory {
            return;
        }
        retain_advanced(&mut self.shots, &mut self.enemies);
        if all_dead(&self.enemies) {
            self.run_state = RunState::Victory;
        }
    }

    /// The brightness of every cell, row by row: all cells are fully lit once
    /// the game is won; otherwise a cell shows a shot, else a living enemy in
    /// the top row, else the ship in the bottom row, else nothing.
    pub fn frame(&self) -> (buf: [[u8; 5]; 5])
        ensures
            forall|row: int, col: int|
                0 <= row < FIELD_SIZE && 0 <= col < FIELD_SIZE ==> #[trigger] buf[row][col]
                    == self@.brightness(row, col),
    {
        proof {
            use_type_invariant(self);
        }
        if self.run_state == RunState::Victory {
            return [[15; 5]; 5];
        }
        let mut buf: [[u8; 5]; 5] = [[0; 5]; 5];
        buf[4][self.spaceship_x] = 15;
        let mut col: usize = 0;
        while col < 5
            invariant
                col <= 5,
                self.spaceship_x < 5,
                forall|r: int, c: int|
                    0 <= r < 5 && 0 <= c < 5 ==> #[trigger] buf[r][c] == (if r == 0 && c < col
                        && self.enemies@[c] {
                        ENEMY_BRIGHTNESS
                    } else if r == 4 && c == self.spaceship_x {
                        FULL_BRIGHTNESS
                    } else {
                        0
                    }),
            decreases 5 - col,
        {
            if self.enemies[col] {
                buf[0][col] = 7;
            }
            col += 1;
        }
        let held = held_shots(&self.shots);
        let mut i: usize = 0;
        while i < held.len()
            invariant
                i <= held.len(),
                held@ == self@.shots,
                self@.wf(),
                self@.run_state == RunState::Running,
                forall|r: int, c: int|
                    0 <= r < 5 && 0 <= c < 5 ==> #[trigger] buf[r][c] == (if held@.take(
                        i as int,
                    ).contains(shot_at(r, c)) {
                        SHOT_BRIGHTNESS
                    } else {
                        (GameView { shots: Seq::empty(), ..self@ }).brightness(r, c)
                    }),
            decreases held.len() - i,
        {
            let (x, y) = held[i];
            assert(crate::shots::in_flight(held@[i as int]));
            let ghost seen = held@.take(i as int);
            let ghost grown = held@.take(i + 1);
            buf[y][x] = 3;
            proof {
                assert(grown =~= seen.push((x, y)));
                assert forall|r: int, c: int| 0 <= r < 5 && 0 <= c < 5 implies (grown.contains(
                    #[trigger] shot_at(r, c),
                ) <==> seen.contains(shot_at(r, c)) || (c == x && r == y)) by {
                    let place = shot_at(r, c);
                    if seen.contains(place) {
                        let k = choose|k: int| 0 <= k < seen.len() && seen[k] == place;
                        assert(grown[k] == place);
                    }
                    if c == x && r == y {
                        assert(grown[i as int] == place);
                    }
                }
            }
            i += 1;
        }
        assert(held@.take(held.len() as int) =~= held@);
        buf
    }

    /// Whether the game is being played or has been won.
    pub fn run_state(&self) -> (state: RunState)
        ensures
            state == self@.run_state,
    {
        self.run_state
    }

    /// The column of the ship.
    pub fn spaceship_x(&self) -> (x: usize)
        ensures
            x == self@.ship_x,
            x < FIELD_SIZE,
    {
        proof {
            use_type_invariant(self);
        }
        self.spaceship_x
    }

    /// For each column, whether its enemy is alive.
    pub fn enemies(&self) -> (alive: [bool; 5])
        ensures
            alive@ == self@.enemies,
    {
        self.enemies
    }

    /// The shots in flight, oldest first.
    pub fn shots(&self) -> (shots: Vec<Shot>)
        ensures
            shots@ == self@.shots,
            self@.wf(),
    {
        proof {
            use_type_invariant(self);
        }
        let held = held_shots(&self.shots);
        let mut shots: Vec<Shot> = Vec::new();
        let mut i: usize = 0;
        while i < held.len()
            invariant
                i <= held.len(),
                shots@ == held@.take(i as int),
            decreases held.len() - i,
        {
            shots.push(held[i]);
            assert(held@.take(i as int).push(held@[i as int]) =~= held@.take(i + 1));
            i += 1;
        }
        assert(held@.take(held.len() as int) =~= held@);
        shots
    }
}

/// A shot fired into a free position leaves the shots valid.
pub proof fn lemma_fired_shot_valid(game: GameView)
    requires
        game.wf(),
        !game.shots.contains(game.new_shot()),
    ensures
        shots_valid(game.shots.push(game.new_shot())),
{
    let shots = game.shots;
    let fired = shots.push(game.new_shot());
    assert forall|i: int, j: int| 0 <= i < j < fired.len() implies fired[i] != fired[j] by {
        if j == shots.len() {
            assert(shots[i] == fired[i]);
            assert(shots.contains(fired[i]));
        } else {
            assert(shots[i] != shots[j]);
        }
    }
    assert forall|i: int| 0 <= i < fired.len() implies crate::shots::in_flight(#[trigger] fired[i]) by {
        if i < shots.len() {
            assert(fired[i] == shots[i]);
        }
    }
}

} // verus!

verus! {

/// One thing that happens to a game: a physics tick or an input event.
pub enum Step {
    Tick,
    Input(InputEvent),
}

impl GameView {
    /// The state after the step `step`.
    pub open spec fn after(self, step: Step) -> GameView {
        match step {
            Step::Tick => self.after_tick(),
            Step::Input(ev) => self.after_event(ev),
        }
    }

    /// The state after the steps `steps`, taken in order.
    pub open spec fn run(self, steps: Seq<Step>) -> GameView
        decreases steps.len(),
    {
        if steps.len() == 0 {
            self
        } else {
            self.run(steps.drop_last()).after(steps.last())
        }
    }
}

/// Whether `step` is the press of a button.
pub open spec fn is_press_step(step: Step) -> bool {
    step matches Step::Input(ev) && is_press(ev)
}

/// Every game starts in a valid state.
pub proof fn lemma_initial_wf()
    ensures
        GameView::initial().wf(),
{
}

/// An input event keeps the game valid.
pub proof fn lemma_event_keeps_wf(game: GameView, ev: InputEvent)
    requires
        game.wf(),
    ensures
        game.after_event(ev).wf(),
{
    if game.run_state == RunState::Running && ev == InputEvent::BtnBReleased
        && !game.shots.contains(game.new_shot()) {
        lemma_fired_shot_valid(game);
    }
}

/// A physics tick keeps the game valid, and adds no shot.
pub proof fn lemma_tick_keeps_wf(game: GameView)
    requires
        game.wf(),
    ensures
        game.after_tick().wf(),
        game.after_tick().shots.len() <= game.shots.len(),
        game.after_tick().ship_x == game.ship_x,
{
    lemma_tick_keeps_valid(game.shots, game.enemies);
}

/// A shot that reaches the enemy row in the column of a living enemy removes
/// the enemy and itself in that tick.
pub proof fn lemma_hit_removes_both(game: GameView, col: usize)
    requires
        game.wf(),
        game.run_state == RunState::Running,
        col < FIELD_SIZE,
        game.shots.contains((col, 1usize)),
        game.enemies[col as int],
    ensures
        !game.after_tick().enemies[col as int],
        !game.after_tick().shots.contains((col, 0usize)),
{
    crate::shots::lemma_after_tick_contains(game.shots, game.enemies, (col, 0usize));
}

/// A shot that reaches the enemy row where no enemy lives stays in flight in
/// that row, and no enemy changes on its account.
pub proof fn lemma_miss_flies_on(game: GameView, col: usize)
    requires
        game.wf(),
        game.run_state == RunState::Running,
        col < FIELD_SIZE,
        game.shots.contains((col, 1usize)),
        !game.enemies[col as int],
    ensures
        !game.after_tick().enemies[col as int],
        game.after_tick().shots.contains((col, 0usize)),
{
    crate::shots::lemma_after_tick_contains(game.shots, game.enemies, (col, 0usize));
    assert(crate::shots::shot_moved((col, 1usize)) == (col, 0usize));
}

/// A shot in the enemy row leaves the field in the next tick and takes no
/// enemy with it: the enemy of its column lives on unless another shot
/// reaches the row there, and the row holds a shot there afterwards only if
/// another shot has moved up into it.
pub proof fn lemma_top_row_shot_leaves(game: GameView, col: usize)
    requires
        game.wf(),
        game.run_state == RunState::Running,
        col < FIELD_SIZE,
        game.shots.contains((col, 0usize)),
    ensures
        !crate::shots::shot_survives((col, 0usize), game.enemies),
        game.after_tick().enemies[col as int] == (game.enemies[col as int] && !game.shots.contains(
            (col, 1usize),
        )),
        game.after_tick().shots.contains((col, 0usize)) <==> game.shots.contains((col, 1usize))
            && !game.enemies[col as int],
        game.after_tick().shots.len() < game.shots.len(),
{
    let place = (col, 0usize);
    crate::shots::lemma_after_tick_contains(game.shots, game.enemies, place);
    if game.shots.contains((col, 1usize)) && !game.enemies[col as int] {
        assert(crate::shots::shot_moved((col, 1usize)) == place);
    }
    crate::shots::lemma_tick_drops(game.shots, game.enemies, place);
}

/// Every enemy, and every shot, that a tick leaves was there before it.
pub proof fn lemma_tick_revives_nothing(game: GameView, col: int)
    requires
        game.wf(),
        0 <= col < FIELD_SIZE,
    ensures
        game.after_tick().enemies[col] ==> game.enemies[col],
        game.run_state == RunState::Running ==> (game.after_tick().enemies[col] <==> game.enemies[col]
            && !game.shots.contains((col as usize, 1usize))),
{
}

/// A running game is won by the tick that leaves no enemy alive, and by no
/// other.
pub proof fn lemma_victory_detected(game: GameView)
    requires
        game.wf(),
        game.run_state == RunState::Running,
    ensures
        game.after_tick().run_state == RunState::Victory <==> none_alive(
            game.after_tick().enemies,
        ),
        game.after_tick().run_state == RunState::Victory <==> forall|col: int|
            0 <= col < FIELD_SIZE ==> !game.enemies[col] || game.shots.contains(
                #[trigger] shot_at(1, col),
            ),
{
    let after = game.after_tick().enemies;
    if none_alive(after) {
        assert forall|col: int| 0 <= col < FIELD_SIZE implies !game.enemies[col]
            || game.shots.contains(#[trigger] shot_at(1, col)) by {
            assert(!after[col]);
        }
    }
    if forall|col: int|
        0 <= col < FIELD_SIZE ==> !game.enemies[col] || game.shots.contains(
            #[trigger] shot_at(1, col),
        ) {
        assert forall|col: int| 0 <= col < after.len() implies !after[col] by {
            assert(shot_at(1, col) == (col as usize, 1usize));
        }
    }
}

/// An input event neither wins a running game nor touches its enemies.
pub proof fn lemma_event_wins_nothing(game: GameView, ev: InputEvent)
    requires
        game.run_state == RunState::Running,
    ensures
        game.after_event(ev).run_state == RunState::Running,
        game.after_event(ev).enemies == game.enemies,
{
}

/// A game that has been won stays as it is through ticks and releases, and
/// the press of either button starts a new game.
pub proof fn lemma_victory_step(game: GameView, step: Step)
    requires
        game.run_state == RunState::Victory,
    ensures
        is_press_step(step) ==> game.after(step) == GameView::initial(),
        !is_press_step(step) ==> game.after(step) == game,
{
}

/// A game that has been won stays won, and unchanged, until a button is
/// pressed.
pub proof fn lemma_victory_holds(game: GameView, steps: Seq<Step>)
    requires
        game.run_state == RunState::Victory,
        forall|i: int| 0 <= i < steps.len() ==> !is_press_step(#[trigger] steps[i]),
    ensures
        game.run(steps) == game,
    decreases steps.len(),
{
    if steps.len() > 0 {
        let head = steps.drop_last();
        assert forall|i: int| 0 <= i < head.len() implies !is_press_step(#[trigger] head[i]) by {
            assert(head[i] == steps[i]);
        }
        lemma_victory_holds(game, head);
        lemma_victory_step(game, steps.last());
    }
}

/// Whatever happens to a valid game leaves it valid.
pub proof fn lemma_run_keeps_wf(game: GameView, steps: Seq<Step>)
    requires
        game.wf(),
    ensures
        game.run(steps).wf(),
    decreases steps.len(),
{
    if steps.len() > 0 {
        lemma_run_keeps_wf(game, steps.drop_last());
        let before = game.run(steps.drop_last());
        match steps.last() {
            Step::Tick => lemma_tick_keeps_wf(before),
            Step::Input(ev) => lemma_event_keeps_wf(before, ev),
        }
    }
}

} // verus!
