use pixel_invaders::game::GameState;
use pixel_invaders::game::RunState;
use pixel_invaders::input::InputEvent;

fn ticks(game: &mut GameState, n: usize) {
    for _ in 0..n {
        game.game_tick();
    }
}

fn move_ship_to(game: &mut GameState, column: usize) {
    while game.spaceship_x() > column {
        game.handle_input_event(InputEvent::BtnAPressed);
    }
    while game.spaceship_x() < column {
        game.handle_input_event(InputEvent::BtnBPressed);
    }
}

fn shoot_column(game: &mut GameState, column: usize) {
    move_ship_to(game, column);
    game.handle_input_event(InputEvent::BtnBReleased);
    ticks(game, 3);
}

fn assert_initial(game: &GameState) {
    assert_eq!(game.run_state(), RunState::Running);
    assert_eq!(game.spaceship_x(), 2);
    assert_eq!(game.enemies(), [true; 5]);
    assert_eq!(game.shots(), Vec::<(usize, usize)>::new());
}

#[test]
fn new_game_is_running_with_ship_in_the_middle() {
    let game = GameState::new();
    assert_initial(&game);
}

#[test]
fn button_a_moves_left_down_to_column_zero() {
    let mut game = GameState::new();
    game.handle_input_event(InputEvent::BtnAPressed);
    assert_eq!(game.spaceship_x(), 1);
    game.handle_input_event(InputEvent::BtnAPressed);
    assert_eq!(game.spaceship_x(), 0);
    game.handle_input_event(InputEvent::BtnAPressed);
    assert_eq!(game.spaceship_x(), 0);
}

#[test]
fn button_b_moves_right_up_to_column_four() {
    let mut game = GameState::new();
    game.handle_input_event(InputEvent::BtnBPressed);
    assert_eq!(game.spaceship_x(), 3);
    game.handle_input_event(InputEvent::BtnBPressed);
    assert_eq!(game.spaceship_x(), 4);
    game.handle_input_event(InputEvent::BtnBPressed);
    assert_eq!(game.spaceship_x(), 4);
}

#[test]
fn releasing_button_a_changes_nothing() {
    let mut game = GameState::new();
    game.handle_input_event(InputEvent::BtnAReleased);
    assert_initial(&game);
}

#[test]
fn releasing_button_b_fires_from_the_ship_column() {
    let mut game = GameState::new();
    game.handle_input_event(InputEvent::BtnBPressed);
    game.handle_input_event(InputEvent::BtnBReleased);
    assert_eq!(game.shots(), vec![(3, 3)]);
    assert_eq!(game.spaceship_x(), 3);
}

#[test]
fn no_second_shot_into_a_taken_position() {
    let mut game = GameState::new();
    game.handle_input_event(InputEvent::BtnBReleased);
    game.handle_input_event(InputEvent::BtnBReleased);
    assert_eq!(game.shots(), vec![(2, 3)]);
    game.game_tick();
    game.handle_input_event(InputEvent::BtnBReleased);
    assert_eq!(game.shots(), vec![(2, 2), (2, 3)]);
}

#[test]
fn shots_keep_their_order() {
    let mut game = GameState::new();
    game.handle_input_event(InputEvent::BtnBReleased);
    game.handle_input_event(InputEvent::BtnAPressed);
    game.handle_input_event(InputEvent::BtnBReleased);
    game.handle_input_event(InputEvent::BtnBPressed);
    game.handle_input_event(InputEvent::BtnBPressed);
    game.handle_input_event(InputEvent::BtnBReleased);
    assert_eq!(game.shots(), vec![(2, 3), (1, 3), (3, 3)]);
    game.game_tick();
    assert_eq!(game.shots(), vec![(2, 2), (1, 2), (3, 2)]);
}

#[test]
fn tick_moves_every_shot_up_one_row() {
    let mut game = GameState::new();
    game.handle_input_event(InputEvent::BtnBReleased);
    game.game_tick();
    assert_eq!(game.shots(), vec![(2, 2)]);
    game.game_tick();
    assert_eq!(game.shots(), vec![(2, 1)]);
    assert_eq!(game.enemies(), [true; 5]);
}

#[test]
fn shot_reaching_a_living_enemy_removes_both() {
    let mut game = GameState::new();
    game.handle_input_event(InputEvent::BtnBReleased);
    ticks(&mut game, 2);
    assert_eq!(game.shots(), vec![(2, 1)]);
    game.game_tick();
    assert_eq!(game.shots(), Vec::<(usize, usize)>::new());
    assert_eq!(game.enemies(), [true, true, false, true, true]);
}

#[test]
fn shot_reaching_an_empty_column_flies_on_and_then_leaves() {
    let mut game = GameState::new();
    shoot_column(&mut game, 2);
    assert_eq!(game.enemies(), [true, true, false, true, true]);
    game.handle_input_event(InputEvent::BtnBReleased);
    ticks(&mut game, 3);
    assert_eq!(game.shots(), vec![(2, 0)]);
    assert_eq!(game.enemies(), [true, true, false, true, true]);
    game.game_tick();
    assert_eq!(game.shots(), Vec::<(usize, usize)>::new());
    assert_eq!(game.enemies(), [true, true, false, true, true]);
    assert_eq!(game.run_state(), RunState::Running);
}

#[test]
fn shot_in_the_top_row_leaves_while_another_moves_into_it() {
    let mut game = GameState::new();
    shoot_column(&mut game, 2);
    game.handle_input_event(InputEvent::BtnBReleased);
    game.game_tick();
    game.handle_input_event(InputEvent::BtnBReleased);
    ticks(&mut game, 2);
    assert_eq!(game.shots(), vec![(2, 0), (2, 1)]);
    game.game_tick();
    assert_eq!(game.shots(), vec![(2, 0)]);
    game.game_tick();
    assert_eq!(game.shots(), Vec::<(usize, usize)>::new());
}

#[test]
fn one_aimed_shot_removes_one_enemy() {
    let mut game = GameState::new();
    assert_initial(&game);
    game.handle_input_event(InputEvent::BtnBReleased);
    assert_eq!(game.shots(), vec![(2, 3)]);
    ticks(&mut game, 3);
    assert_eq!(game.enemies(), [true, true, false, true, true]);
    assert_eq!(game.shots(), Vec::<(usize, usize)>::new());
    assert_eq!(game.enemies().iter().filter(|alive| **alive).count(), 4);
    assert_eq!(game.run_state(), RunState::Running);
}

#[test]
fn five_aimed_shots_win_and_a_press_starts_over() {
    let mut game = GameState::new();
    for column in 0..5 {
        assert_eq!(game.run_state(), RunState::Running);
        shoot_column(&mut game, column);
    }
    assert_eq!(game.enemies(), [false; 5]);
    assert_eq!(game.run_state(), RunState::Victory);
    game.handle_input_event(InputEvent::BtnAPressed);
    assert_initial(&game);
}

#[test]
fn victory_comes_with_the_tick_that_removes_the_last_enemy() {
    let mut game = GameState::new();
    for column in 0..4 {
        shoot_column(&mut game, column);
    }
    move_ship_to(&mut game, 4);
    game.handle_input_event(InputEvent::BtnBReleased);
    ticks(&mut game, 2);
    assert_eq!(game.run_state(), RunState::Running);
    assert_eq!(game.enemies(), [false, false, false, false, true]);
    game.game_tick();
    assert_eq!(game.run_state(), RunState::Victory);
    assert_eq!(game.enemies(), [false; 5]);
}

#[test]
fn won_game_stands_still_until_a_press() {
    let mut game = GameState::new();
    for column in 0..4 {
        shoot_column(&mut game, column);
    }
    move_ship_to(&mut game, 4);
    game.handle_input_event(InputEvent::BtnBReleased);
    game.game_tick();
    game.handle_input_event(InputEvent::BtnBReleased);
    ticks(&mut game, 2);
    assert_eq!(game.run_state(), RunState::Victory);
    assert_eq!(game.shots(), vec![(4, 1)]);

    ticks(&mut game, 3);
    game.handle_input_event(InputEvent::BtnAReleased);
    game.handle_input_event(InputEvent::BtnBReleased);
    assert_eq!(game.run_state(), RunState::Victory);
    assert_eq!(game.spaceship_x(), 4);
    assert_eq!(game.shots(), vec![(4, 1)]);
    assert_eq!(game.enemies(), [false; 5]);

    game.handle_input_event(InputEvent::BtnBPressed);
    assert_initial(&game);
}

#[test]
fn either_press_restarts_a_won_game() {
    for press in [InputEvent::BtnAPressed, InputEvent::BtnBPressed] {
        let mut game = GameState::new();
        for column in 0..5 {
            shoot_column(&mut game, column);
        }
        assert_eq!(game.run_state(), RunState::Victory);
        game.handle_input_event(press);
        assert_initial(&game);
    }
}

#[test]
fn a_field_full_of_shots_fits_the_buffer() {
    let mut game = GameState::new();
    for column in 0..4 {
        shoot_column(&mut game, column);
    }
    assert_eq!(game.enemies(), [false, false, false, false, true]);
    for round in 0..5 {
        let columns = if round < 2 { 4 } else { 5 };
        for column in 0..columns {
            move_ship_to(&mut game, column);
            game.handle_input_event(InputEvent::BtnBReleased);
        }
        if round < 4 {
            game.game_tick();
        }
    }
    assert_eq!(game.run_state(), RunState::Running);
    let mut shots = game.shots();
    assert_eq!(shots.len(), 19);
    shots.sort();
    let mut expected = Vec::new();
    for column in 0..5 {
        for row in 0..4 {
            if (column, row) != (4, 0) {
                expected.push((column, row));
            }
        }
    }
    assert_eq!(shots, expected);
    // Every position is taken: releasing once more fires nothing.
    for column in 0..5 {
        move_ship_to(&mut game, column);
        game.handle_input_event(InputEvent::BtnBReleased);
    }
    assert_eq!(game.shots().len(), 19);
}

#[test]
fn frame_of_a_new_game() {
    let game = GameState::new();
    assert_eq!(
        game.frame(),
        [
            [7, 7, 7, 7, 7],
            [0, 0, 0, 0, 0],
            [0, 0, 0, 0, 0],
            [0, 0, 0, 0, 0],
            [0, 0, 15, 0, 0],
        ]
    );
}

#[test]
fn frame_shows_shots_over_enemies() {
    let mut game = GameState::new();
    shoot_column(&mut game, 1);
    game.handle_input_event(InputEvent::BtnBReleased);
    ticks(&mut game, 3);
    move_ship_to(&mut game, 4);
    game.handle_input_event(InputEvent::BtnBReleased);
    assert_eq!(game.shots(), vec![(1, 0), (4, 3)]);
    assert_eq!(
        game.frame(),
        [
            [7, 3, 7, 7, 7],
            [0, 0, 0, 0, 0],
            [0, 0, 0, 0, 0],
            [0, 0, 0, 0, 3],
            [0, 0, 0, 0, 15],
        ]
    );
}

#[test]
fn frame_of_a_won_game_is_fully_lit() {
    let mut game = GameState::new();
    for column in 0..5 {
        shoot_column(&mut game, column);
    }
    assert_eq!(game.frame(), [[15; 5]; 5]);
}
