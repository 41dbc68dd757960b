use cycles::components::{copy_path, path_contains, Journey, Position};
use cycles::inputs::{
    first_pressed, journey_finished, just_reached_target, keyboard_direction, PressedKeys,
};
use cycles::components::Direction;
use cycles::tutorial::{validate_first_tutorial, TutorialStep};

fn cell(x: i32, y: i32) -> Position {
    Position { x, y }
}

fn journey(start: Position, target: Position, path: Vec<Position>) -> Journey {
    Journey { start_pos: start, target_pos: target, path, bot_index: None, color: 0, scale: 700 }
}

#[test]
fn a_new_journey_is_empty() {
    let j = Journey::new(cell(0, 3), cell(5, 2), 4, 650);
    assert_eq!(j.start_pos, cell(0, 3));
    assert_eq!(j.target_pos, cell(5, 2));
    assert!(j.path.is_empty());
    assert_eq!(j.bot_index, None);
    assert_eq!(j.color, 4);
    assert_eq!(j.scale, 650);
}

#[test]
fn path_contains_finds_cells() {
    let path = vec![cell(0, 3), cell(1, 3), cell(1, 2)];
    assert!(path_contains(&path, cell(0, 3)));
    assert!(path_contains(&path, cell(1, 2)));
    assert!(!path_contains(&path, cell(2, 1)));
    assert!(!path_contains(&Vec::new(), cell(0, 0)));
}

#[test]
fn copy_path_copies() {
    let path = vec![cell(0, 3), cell(1, 3), cell(1, 2)];
    assert_eq!(copy_path(&path), path);
    assert_eq!(copy_path(&Vec::new()), Vec::<Position>::new());
}

#[test]
fn record_appends() {
    let mut j = Journey::new(cell(0, 3), cell(5, 2), 0, 700);
    j.record(cell(0, 3));
    j.record(cell(1, 3));
    j.record(cell(0, 3));
    assert_eq!(j.path, vec![cell(0, 3), cell(1, 3), cell(0, 3)]);
    assert_eq!(j.bot_index, None);
}

#[test]
fn journey_is_finished_back_at_start_after_target() {
    let j = journey(cell(0, 3), cell(5, 2), vec![cell(0, 3), cell(5, 3), cell(5, 2), cell(5, 3)]);
    assert!(journey_finished(&j, &cell(0, 3)));
    assert!(!journey_finished(&j, &cell(1, 3)));
    assert!(!journey_finished(&j, &cell(5, 2)));
}

#[test]
fn journey_is_not_finished_without_the_target() {
    let j = journey(cell(0, 3), cell(5, 2), vec![cell(0, 3), cell(1, 3), cell(0, 3), cell(1, 3)]);
    assert!(!journey_finished(&j, &cell(0, 3)));
    assert!(!journey_finished(&j, &cell(5, 2)));
    let empty = journey(cell(0, 3), cell(5, 2), Vec::new());
    assert!(!journey_finished(&empty, &cell(0, 3)));
    for x in 0..6 {
        for y in 0..6 {
            assert!(!journey_finished(&j, &cell(x, y)));
        }
    }
}

#[test]
fn the_order_of_earlier_visits_does_not_matter() {
    // back on the start before the target was reached, then on to the target
    let j = journey(
        cell(0, 3),
        cell(1, 2),
        vec![cell(0, 3), cell(1, 3), cell(0, 3), cell(0, 2), cell(1, 2), cell(0, 2)],
    );
    assert!(journey_finished(&j, &cell(0, 3)));
}

#[test]
fn target_is_reached_once() {
    let before = journey(cell(0, 3), cell(1, 3), vec![cell(0, 3)]);
    assert!(just_reached_target(&before, &cell(1, 3)));
    assert!(!just_reached_target(&before, &cell(0, 3)));
    let after = journey(cell(0, 3), cell(1, 3), vec![cell(0, 3), cell(1, 3), cell(1, 4)]);
    assert!(!just_reached_target(&after, &cell(1, 3)));
}

#[test]
fn replay_from_the_last_cell_wraps_to_the_first() {
    let mut j = journey(cell(1, 1), cell(1, 3), vec![cell(1, 1), cell(1, 2), cell(1, 3)]);
    j.bot_index = Some(2);
    let dest = j.replay_step();
    assert_eq!(j.bot_index, Some(0));
    assert_eq!(dest, Some(cell(1, 1)));
    assert_eq!(j.path, vec![cell(1, 1), cell(1, 2), cell(1, 3)]);
}

#[test]
fn replay_follows_the_path() {
    let mut j = journey(cell(1, 1), cell(1, 3), vec![cell(1, 1), cell(1, 2), cell(1, 3)]);
    j.restart();
    assert_eq!(j.bot_index, Some(0));
    assert_eq!(j.replay_step(), Some(cell(1, 2)));
    assert_eq!(j.bot_index, Some(1));
    assert_eq!(j.replay_step(), Some(cell(1, 3)));
    assert_eq!(j.bot_index, Some(2));
    assert_eq!(j.replay_step(), Some(cell(1, 1)));
    assert_eq!(j.bot_index, Some(0));
}

#[test]
fn replaying_the_whole_path_returns_to_its_first_cell() {
    let path = vec![cell(0, 3), cell(1, 3), cell(1, 2), cell(0, 2), cell(0, 1)];
    let mut j = journey(cell(0, 3), cell(1, 2), path.clone());
    j.restart();
    let mut last = None;
    for _ in 0..path.len() {
        last = j.replay_step();
    }
    assert_eq!(last, Some(path[0]));
    assert_eq!(j.bot_index, Some(0));
    assert_eq!(j.path, path);
}

#[test]
fn replay_is_periodic_from_any_cursor() {
    let path = vec![cell(0, 3), cell(1, 3), cell(1, 2), cell(0, 2)];
    for start in 0..path.len() {
        let mut j = journey(cell(0, 3), cell(1, 2), path.clone());
        j.bot_index = Some(start);
        for _ in 0..path.len() {
            j.replay_step();
        }
        assert_eq!(j.bot_index, Some(start));
    }
}

#[test]
fn replay_on_a_path_of_one_cell_stays_there() {
    let mut j = journey(cell(2, 0), cell(5, 2), vec![cell(2, 0)]);
    j.restart();
    assert_eq!(j.replay_step(), Some(cell(2, 0)));
    assert_eq!(j.bot_index, Some(0));
    assert_eq!(j.replay_step(), Some(cell(2, 0)));
    assert_eq!(j.bot_index, Some(0));
}

#[test]
fn replay_on_an_empty_path_does_nothing() {
    let mut j = journey(cell(2, 0), cell(5, 2), Vec::new());
    j.restart();
    assert_eq!(j.replay_step(), None);
    assert_eq!(j.bot_index, Some(0));
    assert!(j.path.is_empty());
}

#[test]
fn replay_with_an_unset_cursor_starts_at_the_first_cell() {
    let mut j = journey(cell(1, 1), cell(1, 3), vec![cell(1, 1), cell(1, 2)]);
    assert_eq!(j.replay_step(), Some(cell(1, 1)));
    assert_eq!(j.bot_index, Some(0));
}

#[test]
fn replay_with_a_cursor_past_the_path_wraps() {
    let mut j = journey(cell(1, 1), cell(1, 3), vec![cell(1, 1), cell(1, 2), cell(1, 3)]);
    j.bot_index = Some(usize::MAX);
    // usize::MAX is 0 modulo 3
    assert_eq!(j.replay_step(), Some(cell(1, 2)));
    assert_eq!(j.bot_index, Some(1));
}

#[test]
fn replica_restarts_the_same_journey() {
    let mut j = journey(cell(1, 1), cell(1, 3), vec![cell(1, 1), cell(1, 2), cell(1, 3)]);
    j.bot_index = Some(2);
    j.color = 3;
    j.scale = 812;
    let copy = j.replica();
    assert_eq!(copy.bot_index, Some(0));
    assert_eq!(copy.path, j.path);
    assert_eq!(copy.start_pos, j.start_pos);
    assert_eq!(copy.target_pos, j.target_pos);
    assert_eq!(copy.color, 3);
    assert_eq!(copy.scale, 812);
}

#[test]
fn arrows_come_before_letters() {
    let none = PressedKeys {
        arrow_up: false,
        arrow_down: false,
        arrow_left: false,
        arrow_right: false,
        key_w: false,
        key_s: false,
        key_a: false,
        key_d: false,
    };
    assert_eq!(keyboard_direction(&none), None);
    assert_eq!(keyboard_direction(&PressedKeys { arrow_up: true, ..none }), Some(Direction::Up));
    assert_eq!(
        keyboard_direction(&PressedKeys { arrow_down: true, ..none }),
        Some(Direction::Down)
    );
    assert_eq!(
        keyboard_direction(&PressedKeys { arrow_left: true, ..none }),
        Some(Direction::Left)
    );
    assert_eq!(
        keyboard_direction(&PressedKeys { arrow_right: true, ..none }),
        Some(Direction::Right)
    );
    assert_eq!(keyboard_direction(&PressedKeys { key_w: true, ..none }), Some(Direction::Up));
    assert_eq!(keyboard_direction(&PressedKeys { key_s: true, ..none }), Some(Direction::Down));
    assert_eq!(keyboard_direction(&PressedKeys { key_a: true, ..none }), Some(Direction::Left));
    assert_eq!(keyboard_direction(&PressedKeys { key_d: true, ..none }), Some(Direction::Right));
    assert_eq!(
        keyboard_direction(&PressedKeys { arrow_right: true, key_w: true, ..none }),
        Some(Direction::Right)
    );
    assert_eq!(
        keyboard_direction(&PressedKeys { arrow_up: true, arrow_down: true, ..none }),
        Some(Direction::Up)
    );
    assert_eq!(
        keyboard_direction(&PressedKeys { key_s: true, key_d: true, ..none }),
        Some(Direction::Down)
    );
}

#[test]
fn first_pressed_goes_up_down_left_right() {
    assert_eq!(first_pressed(&[false, false, false, false]), None);
    assert_eq!(first_pressed(&[true, true, true, true]), Some(Direction::Up));
    assert_eq!(first_pressed(&[false, true, true, true]), Some(Direction::Down));
    assert_eq!(first_pressed(&[false, false, true, true]), Some(Direction::Left));
    assert_eq!(first_pressed(&[false, false, false, true]), Some(Direction::Right));
}

#[test]
fn the_hint_follows_the_journey() {
    let out = journey(cell(0, 3), cell(1, 3), vec![cell(0, 3)]);
    assert_eq!(validate_first_tutorial(&out, &cell(0, 3)), TutorialStep::Keep);
    assert_eq!(validate_first_tutorial(&out, &cell(1, 3)), TutorialStep::GoBack);
    let back = journey(cell(0, 3), cell(1, 3), vec![cell(0, 3), cell(1, 3)]);
    assert_eq!(validate_first_tutorial(&back, &cell(1, 3)), TutorialStep::GoBack);
    assert_eq!(validate_first_tutorial(&back, &cell(1, 4)), TutorialStep::Keep);
    assert_eq!(validate_first_tutorial(&back, &cell(0, 3)), TutorialStep::Dismiss);
}
