use cycles::characters::{
    candidate_accepted, character_bundle, draw_character, grid_cell, rand_journey_target,
    rand_position_fallback, start_candidate, Characters, Side, FALLBACK_ATTEMPTS, MAX_ATTEMPTS,
    MAX_SCALE, MIN_SCALE, NB_COLORS,
};
use cycles::components::Position;
use cycles::game::Game;

fn cell(x: i32, y: i32) -> Position {
    Position { x, y }
}

fn on_border(pos: Position) -> bool {
    ((pos.x == 0 || pos.x == 5) && (1..5).contains(&pos.y))
        || ((pos.y == 0 || pos.y == 5) && (1..5).contains(&pos.x))
}

fn side_of(pos: Position) -> Side {
    if pos.y == 5 {
        Side::Top
    } else if pos.y == 0 {
        Side::Down
    } else if pos.x == 0 {
        Side::Left
    } else {
        Side::Right
    }
}

fn border() -> Vec<Position> {
    let mut cells = Vec::new();
    for k in 1..5 {
        cells.push(cell(k, 0));
        cells.push(cell(k, 5));
        cells.push(cell(0, k));
        cells.push(cell(5, k));
    }
    cells
}

#[test]
fn limits_of_the_search() {
    assert_eq!(FALLBACK_ATTEMPTS, 1_000);
    assert_eq!(MAX_ATTEMPTS, 1_000_000);
    assert_eq!(NB_COLORS, 5);
}

#[test]
fn cells_of_the_sides() {
    assert_eq!(Side::Top.cell(2), cell(2, 5));
    assert_eq!(Side::Down.cell(2), cell(2, 0));
    assert_eq!(Side::Left.cell(4), cell(0, 4));
    assert_eq!(Side::Right.cell(1), cell(5, 1));
    assert_eq!(Side::Top.length(), 6);
    assert_eq!(Side::Left.length(), 6);
}

#[test]
fn random_cells_of_a_side_are_on_it_and_no_corners() {
    for side in [Side::Top, Side::Down, Side::Left, Side::Right] {
        for _ in 0..200 {
            let pos = side.rand_position();
            assert!(on_border(pos), "{:?}", pos);
            assert_eq!(side_of(pos), side);
        }
    }
}

#[test]
fn random_cells_of_a_side_vary() {
    let first = Side::Top.rand_position();
    let mut varied = false;
    for _ in 0..1_000 {
        if Side::Top.rand_position() != first {
            varied = true;
        }
    }
    assert!(varied);
}

#[test]
fn random_cells_of_a_side_reach_both_ends() {
    let mut lowest = 5;
    let mut highest = 0;
    for _ in 0..2_000 {
        let pos = Side::Left.rand_position();
        lowest = lowest.min(pos.y);
        highest = highest.max(pos.y);
    }
    assert_eq!(lowest, 1);
    assert_eq!(highest, 4);
}

#[test]
fn fallback_cells_are_on_the_grid() {
    let mut interior = false;
    for _ in 0..2_000 {
        let pos = rand_position_fallback();
        assert!((0..6).contains(&pos.x) && (0..6).contains(&pos.y));
        if !on_border(pos) {
            interior = true;
        }
    }
    assert!(interior);
}

#[test]
fn candidates_are_judged_by_start_alone_and_by_equality() {
    let avoid = vec![cell(0, 1), cell(3, 3)];
    assert!(candidate_accepted(&avoid, cell(0, 2), cell(5, 2)));
    assert!(!candidate_accepted(&avoid, cell(0, 1), cell(5, 2)));
    assert!(!candidate_accepted(&avoid, cell(3, 3), cell(5, 2)));
    assert!(!candidate_accepted(&avoid, cell(0, 2), cell(0, 2)));
    // the target may be a cell to avoid
    assert!(candidate_accepted(&avoid, cell(0, 2), cell(0, 1)));
    assert!(!candidate_accepted(&Vec::new(), cell(1, 0), cell(1, 0)));
}

#[test]
fn placement_on_an_empty_grid_takes_two_sides() {
    for _ in 0..500 {
        let (start, target) = rand_journey_target(&Vec::new()).expect("room on an empty grid");
        assert!(on_border(start));
        assert!(on_border(target));
        assert_ne!(start, target);
        assert_ne!(side_of(start), side_of(target));
    }
}

#[test]
fn placement_draws_every_side() {
    let mut starts = [false; 4];
    for _ in 0..2_000 {
        let (start, _) = rand_journey_target(&Vec::new()).expect("room on an empty grid");
        match side_of(start) {
            Side::Top => starts[0] = true,
            Side::Down => starts[1] = true,
            Side::Left => starts[2] = true,
            Side::Right => starts[3] = true,
        }
    }
    assert_eq!(starts, [true; 4]);
}

#[test]
fn placement_never_starts_on_a_cell_to_avoid() {
    let avoid = vec![
        cell(0, 1), cell(0, 2), cell(0, 3), cell(1, 0), cell(2, 0), cell(3, 0), cell(4, 0),
        cell(5, 1), cell(5, 2), cell(1, 5), cell(2, 5), cell(3, 3),
    ];
    for _ in 0..500 {
        let (start, target) = rand_journey_target(&avoid).expect("room is left");
        assert!(!avoid.contains(&start));
        assert_ne!(start, target);
        assert!(on_border(target));
        assert!(on_border(start));
    }
}

#[test]
fn placement_falls_back_to_the_whole_grid() {
    let avoid = border();
    for _ in 0..20 {
        let (start, target) = rand_journey_target(&avoid).expect("room off the border");
        assert!(!avoid.contains(&start));
        assert!(!on_border(start));
        assert!((0..6).contains(&start.x) && (0..6).contains(&start.y));
        assert!(on_border(target));
        assert_ne!(start, target);
    }
}

#[test]
fn placement_gives_up_on_a_full_grid() {
    let mut avoid = Vec::new();
    for x in 0..6 {
        for y in 0..6 {
            avoid.push(cell(x, y));
        }
    }
    assert_eq!(rand_journey_target(&avoid), None);
}

#[test]
fn colours_go_round_the_palette() {
    let mut characters = Characters::default();
    assert_eq!(characters.color_index, 0);
    let mut colours = Vec::new();
    for _ in 0..7 {
        colours.push(characters.next_color());
    }
    assert_eq!(colours, vec![0, 1, 2, 3, 4, 0, 1]);
    assert_eq!(characters.color_index, 7);
}

#[test]
fn the_colour_count_starts_again_at_its_limit() {
    let mut characters = Characters { color_index: usize::MAX };
    assert_eq!(characters.next_color(), usize::MAX % 5);
    assert_eq!(characters.color_index, 0);
}

#[test]
fn a_character_for_an_empty_game() {
    let game = Game::new();
    for _ in 0..200 {
        let character = character_bundle(&game).expect("room in an empty game");
        assert!(on_border(character.start_pos));
        assert!(on_border(character.target_pos));
        assert_ne!(character.start_pos, character.target_pos);
        assert!(MIN_SCALE <= character.scale && character.scale < MAX_SCALE);
    }
}

#[test]
fn scales_vary() {
    let game = Game::new();
    let first = character_bundle(&game).expect("room in an empty game").scale;
    let mut varied = false;
    for _ in 0..1_000 {
        if character_bundle(&game).expect("room in an empty game").scale != first {
            varied = true;
        }
    }
    assert!(varied);
}

#[test]
fn grid_cells_by_column_and_row() {
    assert_eq!(grid_cell(0, 0), cell(0, 0));
    assert_eq!(grid_cell(5, 3), cell(5, 3));
    assert_eq!(grid_cell(2, 4), cell(2, 4));
    assert_eq!(grid_cell(6, 9), cell(6, 9));
    assert_eq!(grid_cell(i32::MAX as u32, 0), cell(i32::MAX, 0));
}

#[test]
fn fallback_cells_reach_every_column_and_row() {
    let mut columns = [false; 6];
    let mut rows = [false; 6];
    for _ in 0..5_000 {
        let pos = rand_position_fallback();
        columns[pos.x as usize] = true;
        rows[pos.y as usize] = true;
    }
    assert_eq!(columns, [true; 6]);
    assert_eq!(rows, [true; 6]);
}

#[test]
fn the_start_comes_from_the_border_first_and_from_the_grid_later() {
    let on_border = cell(0, 2);
    let anywhere = cell(3, 3);
    assert_eq!(start_candidate(0, on_border, anywhere), on_border);
    assert_eq!(start_candidate(999, on_border, anywhere), on_border);
    assert_eq!(start_candidate(1_000, on_border, anywhere), anywhere);
    assert_eq!(start_candidate(1_001, on_border, anywhere), anywhere);
    assert_eq!(start_candidate(999_999, on_border, anywhere), anywhere);
    assert_eq!(start_candidate(u32::MAX, on_border, anywhere), anywhere);
}

#[test]
fn a_character_among_cells_to_avoid() {
    let avoid = vec![cell(0, 1), cell(0, 2), cell(0, 3), cell(0, 4), cell(1, 0), cell(2, 0)];
    for _ in 0..200 {
        let character = draw_character(&avoid).expect("room is left");
        assert!(!avoid.contains(&character.start_pos));
        assert!(on_border(character.start_pos));
        assert!(on_border(character.target_pos));
        assert_ne!(character.start_pos, character.target_pos);
        assert!(MIN_SCALE <= character.scale && character.scale < MAX_SCALE);
    }
    let mut full = Vec::new();
    for x in 0..6 {
        for y in 0..6 {
            full.push(cell(x, y));
        }
    }
    assert_eq!(draw_character(&full), None);
}
