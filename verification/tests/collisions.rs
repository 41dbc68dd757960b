use cycles::characters::NewCharacter;
use cycles::components::{Actor, Journey, Point, Position, Role, Transition};
use cycles::game::{Game, Signal};
use cycles::game_state::GameState;
use cycles::movements::{
    collision_verdict, collision_victims, detect_collisions, index_listed,
    sprite_position_translation, Verdict,
};
use cycles::scores::NB_ATTEMPTS;
use cycles::{CELL_SIZE, UNIT};

fn cell(x: i32, y: i32) -> Position {
    Position { x, y }
}

fn actor(role: Role, position: Position, translation: Point) -> Actor {
    Actor {
        role,
        position,
        transition: None,
        just_spawned: false,
        journey: Journey {
            start_pos: position,
            target_pos: cell(5, 2),
            path: vec![position, cell(1, 1)],
            bot_index: if role == Role::Automated { Some(1) } else { None },
            color: 2,
            scale: 700,
        },
        translation,
    }
}

fn at(x: i64, y: i64) -> Point {
    Point { x, y }
}

fn game_of(actors: Vec<Actor>) -> Game {
    let mut game = Game::new();
    game.actors = actors;
    game
}

const QUARTER: i64 = CELL_SIZE * UNIT / 4;

#[test]
fn player_and_bot_a_quarter_cell_apart() {
    let mut game = game_of(vec![
        actor(Role::Player, cell(0, 3), at(0, 0)),
        actor(Role::Automated, cell(1, 0), at(QUARTER, 0)),
    ]);
    let bot = game.actors[1].clone();
    let signals = detect_collisions(&mut game);
    assert_eq!(signals, vec![Signal::Hurt]);
    assert_eq!(game.actors[0].role, Role::Destroyed);
    assert_eq!(game.actors[1], bot);
    assert_eq!(game.score.remaining_attempts, NB_ATTEMPTS - 1);
    assert_eq!(game.state, GameState::InGame);
    // a new player has taken over
    assert_eq!(game.actors.len(), 3);
    assert_eq!(game.actors[2].role, Role::Player);
    assert!(game.actors[2].just_spawned);
    assert!(game.actors[2].journey.path.is_empty());
}

#[test]
fn bot_and_player_a_quarter_cell_apart() {
    let mut game = game_of(vec![
        actor(Role::Automated, cell(1, 0), at(0, QUARTER)),
        actor(Role::Player, cell(0, 3), at(0, 0)),
    ]);
    let signals = detect_collisions(&mut game);
    assert_eq!(signals, vec![Signal::Hurt]);
    assert_eq!(game.actors[0].role, Role::Automated);
    assert_eq!(game.actors[1].role, Role::Destroyed);
}

#[test]
fn verdict_prefers_the_player() {
    let player = actor(Role::Player, cell(0, 3), at(0, 0));
    let bot = actor(Role::Automated, cell(1, 0), at(QUARTER, 0));
    assert_eq!(collision_verdict(&player, &bot), Verdict::First);
    assert_eq!(collision_verdict(&bot, &player), Verdict::Second);
}

#[test]
fn verdict_of_two_bots_is_the_second() {
    let a = actor(Role::Automated, cell(1, 0), at(0, 0));
    let b = actor(Role::Automated, cell(2, 0), at(QUARTER, 0));
    assert_eq!(collision_verdict(&a, &b), Verdict::Second);
    assert_eq!(collision_verdict(&b, &a), Verdict::Second);
}

#[test]
fn verdict_of_two_players_is_the_first() {
    let a = actor(Role::Player, cell(1, 0), at(0, 0));
    let b = actor(Role::Player, cell(2, 0), at(QUARTER, 0));
    assert_eq!(collision_verdict(&a, &b), Verdict::First);
}

#[test]
fn verdict_needs_a_collision() {
    let player = actor(Role::Player, cell(0, 3), at(0, 0));
    let bot = actor(Role::Automated, cell(1, 0), at(2 * QUARTER + 1, 0));
    assert_eq!(collision_verdict(&player, &bot), Verdict::Neither);
    let near = actor(Role::Automated, cell(1, 0), at(2 * QUARTER, 0));
    assert_eq!(collision_verdict(&player, &near), Verdict::First);
}

#[test]
fn verdict_spares_two_that_were_just_spawned() {
    let mut a = actor(Role::Player, cell(0, 3), at(0, 0));
    let mut b = actor(Role::Automated, cell(1, 0), at(0, 0));
    a.just_spawned = true;
    b.just_spawned = true;
    assert_eq!(collision_verdict(&a, &b), Verdict::Neither);
    assert_eq!(collision_verdict(&b, &a), Verdict::Neither);
}

#[test]
fn verdict_destroys_the_one_that_was_not_just_spawned() {
    let mut player = actor(Role::Player, cell(0, 3), at(0, 0));
    let bot = actor(Role::Automated, cell(1, 0), at(0, 0));
    player.just_spawned = true;
    assert_eq!(collision_verdict(&player, &bot), Verdict::Second);
    assert_eq!(collision_verdict(&bot, &player), Verdict::First);
    let mut new_bot = actor(Role::Automated, cell(1, 0), at(0, 0));
    new_bot.just_spawned = true;
    let old_player = actor(Role::Player, cell(0, 3), at(0, 0));
    assert_eq!(collision_verdict(&old_player, &new_bot), Verdict::First);
    assert_eq!(collision_verdict(&new_bot, &old_player), Verdict::Second);
}

#[test]
fn verdict_leaves_destroyed_actors_out() {
    let wreck = actor(Role::Destroyed, cell(0, 3), at(0, 0));
    let bot = actor(Role::Automated, cell(1, 0), at(0, 0));
    assert_eq!(collision_verdict(&wreck, &bot), Verdict::Neither);
    assert_eq!(collision_verdict(&bot, &wreck), Verdict::Neither);
}

#[test]
fn two_just_spawned_actors_that_overlap_survive() {
    let mut a = actor(Role::Player, cell(0, 3), at(0, 0));
    let mut b = actor(Role::Automated, cell(1, 0), at(0, 0));
    a.just_spawned = true;
    b.just_spawned = true;
    let mut game = game_of(vec![a, b]);
    let before = game.clone();
    let signals = detect_collisions(&mut game);
    assert!(signals.is_empty());
    assert_eq!(game, before);
}

#[test]
fn a_just_spawned_actor_is_never_a_victim() {
    let mut fresh = actor(Role::Player, cell(0, 3), at(0, 0));
    fresh.just_spawned = true;
    let actors = vec![
        actor(Role::Automated, cell(1, 0), at(0, 0)),
        fresh,
        actor(Role::Automated, cell(2, 0), at(QUARTER, 0)),
    ];
    // (0, 1): 0 falls; (0, 2): 2 falls; (1, 2): 2 again
    assert_eq!(collision_victims(&actors), vec![0, 2]);
}

#[test]
fn every_victim_is_listed_once() {
    let actors = vec![
        actor(Role::Player, cell(0, 3), at(0, 0)),
        actor(Role::Automated, cell(1, 0), at(QUARTER, 0)),
        actor(Role::Automated, cell(2, 0), at(0, QUARTER)),
    ];
    // (0, 1): the player; (0, 2): the player again; (1, 2): the second bot
    assert_eq!(collision_victims(&actors), vec![0, 2]);
}

#[test]
fn victims_come_in_the_order_of_the_pairs() {
    let actors = vec![
        actor(Role::Automated, cell(1, 0), at(0, 0)),
        actor(Role::Automated, cell(2, 0), at(100 * UNIT, 0)),
        actor(Role::Automated, cell(3, 0), at(0, QUARTER)),
        actor(Role::Automated, cell(4, 0), at(100 * UNIT, QUARTER)),
        actor(Role::Player, cell(0, 3), at(0, -QUARTER)),
    ];
    // (0, 2): 2; (0, 4): 4; (1, 3): 3; (2, 4) is too far
    assert_eq!(collision_victims(&actors), vec![2, 4, 3]);
}

#[test]
fn no_victims_without_actors_or_collisions() {
    assert_eq!(collision_victims(&Vec::new()), Vec::<usize>::new());
    let actors = vec![
        actor(Role::Player, cell(0, 3), sprite_position_translation(cell(0, 3).as_point())),
        actor(Role::Automated, cell(1, 3), sprite_position_translation(cell(1, 3).as_point())),
    ];
    assert_eq!(collision_victims(&actors), Vec::<usize>::new());
    let alone = vec![actor(Role::Player, cell(0, 3), at(0, 0))];
    assert_eq!(collision_victims(&alone), Vec::<usize>::new());
}

#[test]
fn index_listed_finds_indices() {
    assert!(index_listed(&vec![3, 1, 2], 1));
    assert!(!index_listed(&vec![3, 1, 2], 0));
    assert!(!index_listed(&Vec::new(), 0));
}

#[test]
fn last_attempt_ends_the_game() {
    let mut game = game_of(vec![
        actor(Role::Player, cell(0, 3), at(0, 0)),
        actor(Role::Automated, cell(1, 0), at(QUARTER, 0)),
    ]);
    game.score.remaining_attempts = 1;
    let signals = detect_collisions(&mut game);
    assert_eq!(signals, vec![Signal::Hurt]);
    assert_eq!(game.score.remaining_attempts, 0);
    assert_eq!(game.state, GameState::EndGame);
    assert_eq!(game.actors.len(), 2);
    assert_eq!(game.actors[0].role, Role::Destroyed);
    assert_eq!(game.actors[1].role, Role::Automated);
    assert!(game.actors.iter().all(|a| a.role != Role::Player));
}

#[test]
fn the_end_of_the_game_stops_the_destructions() {
    let mut game = game_of(vec![
        actor(Role::Player, cell(0, 3), at(0, 0)),
        actor(Role::Automated, cell(1, 0), at(100 * UNIT, 0)),
        actor(Role::Automated, cell(2, 0), at(QUARTER, 0)),
        actor(Role::Automated, cell(3, 0), at(100 * UNIT, QUARTER)),
    ]);
    game.score.remaining_attempts = 1;
    assert_eq!(collision_victims(&game.actors), vec![0, 3]);
    detect_collisions(&mut game);
    assert_eq!(game.state, GameState::EndGame);
    assert_eq!(game.actors.len(), 4);
    assert_eq!(game.actors[3].role, Role::Automated);
}

#[test]
fn a_destroyed_bot_is_replaced_on_its_start() {
    let mut game = game_of(vec![
        actor(Role::Automated, cell(1, 0), at(0, 0)),
        actor(Role::Automated, cell(2, 0), at(QUARTER, 0)),
    ]);
    game.actors[1].position = cell(3, 3);
    game.actors[1].transition = Some(Transition::new(cell(3, 3), cell(3, 4)));
    let fallen = game.actors[1].clone();
    let signals = detect_collisions(&mut game);
    assert!(signals.is_empty());
    assert_eq!(game.score.remaining_attempts, NB_ATTEMPTS);
    assert_eq!(game.actors.len(), 3);
    assert_eq!(game.actors[0].role, Role::Automated);
    assert_eq!(game.actors[1], Actor { role: Role::Destroyed, ..fallen.clone() });
    let replacement = &game.actors[2];
    assert_eq!(replacement.role, Role::Automated);
    assert_eq!(replacement.position, cell(2, 0));
    assert_eq!(replacement.transition, None);
    assert!(replacement.just_spawned);
    assert_eq!(replacement.journey.path, fallen.journey.path);
    assert_eq!(replacement.journey.bot_index, Some(0));
    assert_eq!(replacement.journey.start_pos, fallen.journey.start_pos);
    assert_eq!(replacement.journey.target_pos, fallen.journey.target_pos);
    assert_eq!(replacement.journey.color, fallen.journey.color);
    assert_eq!(replacement.journey.scale, fallen.journey.scale);
    assert_eq!(replacement.translation, sprite_position_translation(cell(2, 0).as_point()));
}

#[test]
fn bots_go_on_colliding_after_the_end() {
    let mut game = game_of(vec![
        actor(Role::Automated, cell(1, 0), at(0, 0)),
        actor(Role::Automated, cell(2, 0), at(QUARTER, 0)),
    ]);
    game.state = GameState::EndGame;
    detect_collisions(&mut game);
    assert_eq!(game.actors[1].role, Role::Destroyed);
    assert_eq!(game.actors.len(), 3);
    assert_eq!(game.state, GameState::EndGame);
}

#[test]
fn the_new_player_keeps_off_the_others() {
    for _ in 0..50 {
        let mut game = game_of(vec![
            actor(Role::Player, cell(0, 3), at(0, 0)),
            actor(Role::Automated, cell(1, 0), at(QUARTER, 0)),
            actor(Role::Automated, cell(0, 2), at(100 * UNIT, 0)),
        ]);
        detect_collisions(&mut game);
        let player = &game.actors[3];
        assert_eq!(player.role, Role::Player);
        assert_eq!(player.position, player.journey.start_pos);
        assert_ne!(player.journey.start_pos, player.journey.target_pos);
        assert_ne!(player.position, cell(1, 0));
        assert_ne!(player.position, cell(0, 2));
        // the start of the player that was destroyed stays reserved
        assert_ne!(player.position, cell(0, 3));
        assert_eq!(player.journey.color, 0);
        assert_eq!(game.characters.color_index, 1);
    }
}

#[test]
fn destroy_with_a_given_draw() {
    let mut game = game_of(vec![
        actor(Role::Player, cell(0, 3), at(0, 0)),
        actor(Role::Automated, cell(1, 0), at(QUARTER, 0)),
    ]);
    game.characters.color_index = 7;
    let draw = NewCharacter { start_pos: cell(4, 5), target_pos: cell(0, 1), scale: 888 };
    assert!(!game.destroy(0, Some(draw)));
    assert_eq!(game.actors[0].role, Role::Destroyed);
    assert_eq!(game.score.remaining_attempts, NB_ATTEMPTS - 1);
    assert_eq!(
        game.actors[2],
        Actor {
            role: Role::Player,
            position: cell(4, 5),
            transition: None,
            just_spawned: true,
            journey: Journey {
                start_pos: cell(4, 5),
                target_pos: cell(0, 1),
                path: Vec::new(),
                bot_index: None,
                color: 2,
                scale: 888,
            },
            translation: Point { x: 90_000_000, y: 150_000_000 },
        }
    );
    assert_eq!(game.characters.color_index, 8);
}

#[test]
fn destroy_without_room_ends_the_game() {
    let mut game = game_of(vec![actor(Role::Player, cell(0, 3), at(0, 0))]);
    assert!(game.destroy(0, None));
    assert_eq!(game.state, GameState::EndGame);
    assert_eq!(game.score.remaining_attempts, NB_ATTEMPTS - 1);
    assert_eq!(game.actors.len(), 1);
}

#[test]
fn destroy_of_a_destroyed_actor_changes_nothing() {
    let mut game = game_of(vec![actor(Role::Destroyed, cell(0, 3), at(0, 0))]);
    let before = game.clone();
    assert!(!game.destroy(0, None));
    assert_eq!(game, before);
}

#[test]
fn a_player_without_attempts_cannot_lose_one() {
    let mut game = game_of(vec![actor(Role::Player, cell(0, 3), at(0, 0))]);
    game.score.remaining_attempts = 0;
    let draw = NewCharacter { start_pos: cell(4, 5), target_pos: cell(0, 1), scale: 888 };
    assert!(game.destroy(0, Some(draw)));
    assert_eq!(game.score.remaining_attempts, 0);
    assert_eq!(game.state, GameState::EndGame);
    assert_eq!(game.actors.len(), 1);
}
