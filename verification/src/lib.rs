//! Simulation core of a grid game of cycles: every actor walks a square grid,
//! has to reach its target cell and come back to the cell it started from, and
//! then replays that journey forever while a new player actor takes over.
//!
//! Continuous quantities are fixed point numbers: a whole unit (one cell in
//! grid space, one length unit in world space) is [`UNIT`] sub-units, and time
//! is counted in microseconds.

use vstd::prelude::*;

use crate::components::Direction;
use crate::game::{Game, GameView, Signal};
use crate::game_state::{handle_restart_input, restart_outcome, GameState};
use crate::inputs::{handle_input_movement, move_outcome};
use crate::movements::{
    collisions_outcome, detect_collisions, move_transit_entities, position_to_transform,
};

pub mod characters;
pub mod components;
pub mod game;
pub mod game_state;
pub mod geometry;
pub mod inputs;
pub mod movements;
mod random;
pub mod scores;
pub mod tutorial;

verus! {

/// Side of the square window, in world units.
pub const WINDOW_SIZE: i64 = 600;

/// Number of cells along the horizontal axis of the grid.
pub const GRID_WIDTH: i32 = 6;

/// Number of cells along the vertical axis of the grid.
pub const GRID_HEIGHT: i32 = 6;

/// Side of one cell, in world units: a tenth of the window.
pub const CELL_SIZE: i64 = 60;

/// Sub-units in one whole unit of a fixed point coordinate.
pub const UNIT: i64 = 1_000_000;

/// Largest magnitude of a fixed point coordinate that the geometry accepts:
/// every point between two cells with `i32` coordinates lies within it.
pub const COORD_LIMIT: i64 = 2_147_483_649_000_000;

/// What the inputs of one tick have made of the game `before`: while the
/// game is on, a direction moves the player; once it is at its end, only the
/// input that asks for another game counts.
pub open spec fn input_outcome(
    before: GameView,
    direction: Option<Direction>,
    restart: bool,
    after: GameView,
    signals: Seq<Signal>,
) -> bool {
    match before.state {
        GameState::InGame => match direction {
            Some(direction) => move_outcome(before, direction, after, signals),
            None => after == before && signals == Seq::<Signal>::empty(),
        },
        GameState::EndGame => restart_outcome(before, restart, after) && signals == Seq::<
            Signal,
        >::empty(),
    }
}

/// The first stages of a tick lead from the game `before` to the game
/// `collided`: the inputs give `moved`, and the collisions among the actors of
/// `moved` after `dt_micros` microseconds give `collided`.
pub open spec fn tick_stages(
    before: GameView,
    direction: Option<Direction>,
    restart: bool,
    dt_micros: u32,
    moved: GameView,
    moved_signals: Seq<Signal>,
    collided: GameView,
    collision_signals: Seq<Signal>,
) -> bool {
    &&& input_outcome(before, direction, restart, moved, moved_signals)
    &&& collisions_outcome(moved.transited(dt_micros), collided, collision_signals)
}

/// What one tick has made of the game `before`. Its stages come in a fixed
/// order: the inputs are taken, the moves in progress go on for `dt_micros`
/// microseconds, the actors that collide are destroyed, and at last every
/// actor is drawn where it now is.
pub open spec fn tick_outcome(
    before: GameView,
    direction: Option<Direction>,
    restart: bool,
    dt_micros: u32,
    after: GameView,
    signals: Seq<Signal>,
) -> bool {
    exists|
        moved: GameView,
        moved_signals: Seq<Signal>,
        collided: GameView,
        collision_signals: Seq<Signal>,
    |
        #[trigger] tick_stages(
            before,
            direction,
            restart,
            dt_micros,
            moved,
            moved_signals,
            collided,
            collision_signals,
        ) && after == collided.reconciled() && signals == moved_signals + collision_signals
}

/// Runs one tick of the game, `dt_micros` microseconds after the one before:
/// `direction` is where the player was told to move, if it was, and `restart`
/// says whether another game was asked for. Returns what the tick signals, in
/// the order in which it happened.
pub fn tick(
    game: &mut Game,
    direction: Option<Direction>,
    restart: bool,
    dt_micros: u32,
) -> (signals: Vec<Signal>)
    ensures
        tick_outcome(old(game)@, direction, restart, dt_micros, final(game)@, signals@),
        old(game)@.wf() ==> final(game)@.wf(),
        old(game)@.steady() ==> final(game)@.steady(),
        old(game)@.state == GameState::InGame ==> final(game)@.score.nb_journeys >= old(
            game,
        )@.score.nb_journeys,
{
    let mut signals: Vec<Signal> = match game.state {
        GameState::InGame => match direction {
            Some(direction) => handle_input_movement(game, direction),
            None => Vec::new(),
        },
        GameState::EndGame => {
            handle_restart_input(game, restart);
            Vec::new()
        },
    };
    let ghost moved = game@;
    let ghost moved_signals = signals@;
    move_transit_entities(game, dt_micros);
    let mut collision_signals = detect_collisions(game);
    let ghost collided = game@;
    let ghost heard = collision_signals@;
    signals.append(&mut collision_signals);
    position_to_transform(game);
    proof {
        assert(tick_stages(
            old(game)@,
            direction,
            restart,
            dt_micros,
            moved,
            moved_signals,
            collided,
            heard,
        ));
    }
    signals
}

} // verus!
