use pixel_invaders::shots::advance_shot;
use pixel_invaders::shots::FIELD_SIZE;
use pixel_invaders::shots::SHOT_CAPACITY;
use pixel_invaders::shots::SHOT_ROW;

#[test]
fn field_and_buffer_sizes() {
    assert_eq!(FIELD_SIZE, 5);
    assert_eq!(SHOT_ROW, 3);
    assert_eq!(SHOT_CAPACITY, 25);
}

#[test]
fn shot_below_the_enemy_row_moves_up() {
    let mut enemies = [true; 5];
    let mut shot = (1, 3);
    assert!(advance_shot(&mut shot, &mut enemies));
    assert_eq!(shot, (1, 2));
    assert!(advance_shot(&mut shot, &mut enemies));
    assert_eq!(shot, (1, 1));
    assert_eq!(enemies, [true; 5]);
}

#[test]
fn shot_reaching_a_living_enemy_is_spent() {
    let mut enemies = [true; 5];
    let mut shot = (4, 1);
    assert!(!advance_shot(&mut shot, &mut enemies));
    assert_eq!(enemies, [true, true, true, true, false]);
}

#[test]
fn shot_reaching_a_dead_enemy_stays() {
    let mut enemies = [true, false, true, true, true];
    let mut shot = (1, 1);
    assert!(advance_shot(&mut shot, &mut enemies));
    assert_eq!(shot, (1, 0));
    assert_eq!(enemies, [true, false, true, true, true]);
}

#[test]
fn shot_in_the_enemy_row_leaves_without_effect() {
    let mut enemies = [true; 5];
    let mut shot = (0, 0);
    assert!(!advance_shot(&mut shot, &mut enemies));
    assert_eq!(enemies, [true; 5]);
}
