//! The two modes of a game, and the way back from its end.

use vstd::prelude::*;

use crate::characters::{on_two_sides, spawn_first_player, Characters};
use crate::game::{Game, GameView};
use crate::scores::Score;

verus! {

/// The mode a game is in.
#[derive(Debug, Clone, Copy, PartialEq, Eq, Hash, Structural)]
pub enum GameState {
    /// The player moves and the actors collide.
    InGame,
    /// The game is over and waits for a restart.
    EndGame,
}

impl Default for GameState {
    fn default() -> (state: GameState)
        ensures
            state == GameState::InGame,
    {
        GameState::InGame
    }
}

/// Takes every actor out of the game and puts the counters and the palette
/// back to their first values. The mode stays as it is.
pub fn clear_up_game_entities(game: &mut Game)
    ensures
        final(game)@ == (GameView { state: old(game)@.state, ..GameView::fresh() }),
{
    game.actors.clear();
    game.characters = Characters::default();
    game.score = Score::default();
    assert(game@.actors =~= Seq::empty());
}

/// What the input that asks for another game has made of the game `before`.
///
/// Nothing, unless it was given and the game was at its end. The game is then
/// a new one, in which nothing has been counted yet: it is on, and it holds
/// one actor, a player that was just spawned on a start and with a target
/// that a game without any actor has room for, on two different sides of the
/// grid.
pub open spec fn restart_outcome(before: GameView, pressed: bool, after: GameView) -> bool {
    if pressed && before.state == GameState::EndGame {
        &&& GameView::fresh().admits(after.last_character())
        &&& after == GameView::fresh().with_player(after.last_character())
        &&& after.last_character().start_pos.on_border()
        &&& on_two_sides(after.last_character().start_pos, after.last_character().target_pos)
    } else {
        after == before
    }
}

/// Takes the input that asks for another game. It counts only once the game
/// is at its end: the game is then cleared, is on again, and its first player
/// is spawned on a start and with a target drawn at random. Says whether a
/// game was started.
pub fn handle_restart_input(game: &mut Game, pressed: bool) -> (restarted: bool)
    ensures
        restarted == (pressed && old(game)@.state == GameState::EndGame),
        restart_outcome(old(game)@, pressed, final(game)@),
        restarted ==> final(game)@.steady(),
{
    if !pressed || game.state != GameState::EndGame {
        return false;
    }
    clear_up_game_entities(game);
    game.state = GameState::InGame;
    spawn_first_player(game);
    true
}

} // verus!
