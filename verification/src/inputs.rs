//! The moves of the player: the keys that ask for one, the two questions
//! that every move asks of the journey, the replay that the bots make of
//! their finished journeys, and what a move makes of the game.

use vstd::prelude::*;

use crate::characters::{add_new_character_on_finished_journey, journey_outcome, turned};
use crate::components::{
    next_bot_index, path_contains, Direction, Journey, JourneyView, Position,
};
use crate::game::{
    lemma_avoided_by_actors, lemma_stepped_wf, lemma_views_update, Game, GameView, Signal,
};
use crate::game_state::GameState;
use crate::scores::score_nb_journeys;

verus! {

/// The cycle is complete: the target has been visited at some point of the
/// path and the actor is on its start cell.
pub open spec fn spec_journey_finished(journey: JourneyView, current_pos: Position) -> bool {
    journey.path.contains(journey.target_pos) && current_pos == journey.start_pos
}

/// The actor stands on its target and the path has never held it before. In
/// a move this is asked of the path as it was before the move.
pub open spec fn spec_just_reached_target(journey: JourneyView, current_pos: Position) -> bool {
    current_pos == journey.target_pos && !journey.path.contains(journey.target_pos)
}

/// Whether an actor on `current_pos` has completed its cycle: it has visited
/// its target since it set out and is back on its start cell. The order of the
/// visits before that does not matter.
pub fn journey_finished(journey: &Journey, current_pos: &Position) -> (finished: bool)
    ensures
        finished == spec_journey_finished(journey@, *current_pos),
        !journey.path@.contains(journey.target_pos) ==> !finished,
{
    let has_reached_target = path_contains(&journey.path, journey.target_pos);
    let back_to_start = *current_pos == journey.start_pos;
    has_reached_target && back_to_start
}

/// Whether an actor on `current_pos` stands on its target for the first time.
pub fn just_reached_target(journey: &Journey, current_pos: &Position) -> (reached: bool)
    ensures
        reached == spec_just_reached_target(journey@, *current_pos),
{
    let at_target = *current_pos == journey.target_pos;
    let never_before = !path_contains(&journey.path, journey.target_pos);
    at_target && never_before
}

/// After `steps` replay steps from the cursor `i`, the cursor of a journey with
/// a path of `len` cells is `(i + steps) % len`, and nothing else has changed.
pub proof fn lemma_replayed_times(journey: JourneyView, steps: nat)
    requires
        0 < journey.path.len() <= usize::MAX,
        journey.cursor_in_path(),
        journey.bot_index is Some,
    ensures
        journey.replayed_times(steps) == (JourneyView {
            bot_index: Some(
                ((journey.bot_index->Some_0 + steps) % (journey.path.len() as int)) as usize,
            ),
            ..journey
        }),
    decreases steps,
{
    let len = journey.path.len() as int;
    let i = journey.bot_index->Some_0 as int;
    if steps == 0 {
        vstd::arithmetic::div_mod::lemma_small_mod(i as nat, len as nat);
    } else {
        lemma_replayed_times(journey, (steps - 1) as nat);
        let before = (i + steps - 1) % len;
        vstd::arithmetic::div_mod::lemma_mod_pos_bound(i + steps - 1, len);
        vstd::arithmetic::div_mod::lemma_add_mod_noop_right(1, i + steps - 1, len);
        assert((before + 1) % len == (i + steps) % len);
        assert(next_bot_index(Some(before as usize), len as nat) == (i + steps) % len);
    }
}

/// Replay is a loop over the path: a bot that is about to start its replay and
/// takes as many replay steps as its path has cells has set out for the first
/// cell of the path with its last step, and its journey is what it was.
pub proof fn lemma_replay_returns_to_first_cell(journey: JourneyView)
    requires
        0 < journey.path.len() <= usize::MAX,
        journey.bot_index == Some(0usize),
    ensures
        journey.replayed_times(journey.path.len()) == journey,
        journey.replayed_times(journey.path.len()).destination() == Some(journey.path[0]),
{
    let len = journey.path.len() as int;
    lemma_replayed_times(journey, journey.path.len());
    vstd::arithmetic::div_mod::lemma_mod_self_0(len);
}

/// Replay is a loop over the path wherever it starts: after as many replay
/// steps as the path has cells, the cursor is back where it was.
pub proof fn lemma_replay_is_periodic(journey: JourneyView)
    requires
        0 < journey.path.len() <= usize::MAX,
        journey.cursor_in_path(),
        journey.bot_index is Some,
    ensures
        journey.replayed_times(journey.path.len()) == journey,
{
    let len = journey.path.len() as int;
    let i = journey.bot_index->Some_0 as int;
    lemma_replayed_times(journey, journey.path.len());
    vstd::arithmetic::div_mod::lemma_mod_add_multiples_vanish(i, len);
    vstd::arithmetic::div_mod::lemma_small_mod(i as nat, len as nat);
}

/// The keys that have been pressed since the last tick, of those that move
/// the player.
#[derive(Debug, Clone, Copy, PartialEq, Eq, Structural)]
pub struct PressedKeys {
    pub arrow_up: bool,
    pub arrow_down: bool,
    pub arrow_left: bool,
    pub arrow_right: bool,
    pub key_w: bool,
    pub key_s: bool,
    pub key_a: bool,
    pub key_d: bool,
}

/// The direction that `keys` ask for: that of the first key pressed among the
/// arrows up, down, left and right, and after them W, S, A and D for the same
/// directions.
pub open spec fn spec_keyboard_direction(keys: PressedKeys) -> Option<Direction> {
    if keys.arrow_up {
        Some(Direction::Up)
    } else if keys.arrow_down {
        Some(Direction::Down)
    } else if keys.arrow_left {
        Some(Direction::Left)
    } else if keys.arrow_right {
        Some(Direction::Right)
    } else if keys.key_w {
        Some(Direction::Up)
    } else if keys.key_s {
        Some(Direction::Down)
    } else if keys.key_a {
        Some(Direction::Left)
    } else if keys.key_d {
        Some(Direction::Right)
    } else {
        None
    }
}

/// The one direction that `keys` ask for, if they ask for any.
pub fn keyboard_direction(keys: &PressedKeys) -> (direction: Option<Direction>)
    ensures
        direction == spec_keyboard_direction(*keys),
{
    let arrows = [keys.arrow_up, keys.arrow_down, keys.arrow_left, keys.arrow_right];
    let letters = [keys.key_w, keys.key_s, keys.key_a, keys.key_d];
    match first_pressed(&arrows) {
        Some(direction) => Some(direction),
        None => first_pressed(&letters),
    }
}

/// The direction of the first key that is pressed among four keys for up,
/// down, left and right, in that order.
pub fn first_pressed(keys: &[bool; 4]) -> (direction: Option<Direction>)
    ensures
        direction == if keys[0] {
            Some(Direction::Up)
        } else if keys[1] {
            Some(Direction::Down)
        } else if keys[2] {
            Some(Direction::Left)
        } else if keys[3] {
            Some(Direction::Right)
        } else {
            None::<Direction>
        },
{
    if keys[0] {
        Some(Direction::Up)
    } else if keys[1] {
        Some(Direction::Down)
    } else if keys[2] {
        Some(Direction::Left)
    } else if keys[3] {
        Some(Direction::Right)
    } else {
        None
    }
}

/// What the input `direction` has made of the game `before`.
///
/// Nothing, unless the game is on and one of its players can take a move. The
/// first such player then makes the move, see [`move_outcome_of`].
pub open spec fn move_outcome(
    before: GameView,
    direction: Direction,
    after: GameView,
    signals: Seq<Signal>,
) -> bool {
    if before.state != GameState::InGame || before.no_idle_player() {
        after == before && signals == Seq::<Signal>::empty()
    } else {
        forall|index: int| #[trigger]
            before.is_first_idle_player(index) ==> move_outcome_of(
                before,
                index,
                direction,
                after,
                signals,
            )
    }
}

/// What the move of the player `index` in `direction` has made of the game
/// `before`.
///
/// Nothing, where the move would leave the grid. Otherwise the player sets
/// out for the next cell; that cell is recorded in its path, and every bot
/// takes one replay step. Then the two questions are asked of the journey.
/// Whether it is complete is asked of the path with the cell that was just
/// recorded; whether the target is reached for the first time is asked of the
/// path as it was before. If the journey is complete, it is counted, the
/// player becomes a bot and a new player is searched for as by
/// [`journey_outcome`]: the game is still on exactly if one was spawned, and
/// one was spawned if no cell of the border had to be avoided.
pub open spec fn move_outcome_of(
    before: GameView,
    index: int,
    direction: Direction,
    after: GameView,
    signals: Seq<Signal>,
) -> bool {
    let here = before.actors[index].position;
    let next = here.moved(direction);
    if next == here {
        after == before && signals == Seq::<Signal>::empty()
    } else {
        let stepped = before.stepped(index, next);
        if spec_journey_finished(stepped.actors[index].journey, next) {
            &&& signals == seq![Signal::Move, Signal::JourneyFinished]
            &&& journey_outcome(
                stepped.with_journey_counted(),
                index,
                after.state == GameState::InGame,
                after,
            )
            &&& turned(stepped, index).border_is_free() ==> after.state == GameState::InGame
        } else if spec_just_reached_target(before.actors[index].journey, next) {
            after == stepped && signals == seq![Signal::Move, Signal::GoalReached]
        } else {
            after == stepped && signals == seq![Signal::Move]
        }
    }
}

/// Takes the input `direction`: the player moves one cell that way if it can,
/// and every bot takes one replay step with it. See [`move_outcome`].
pub fn handle_input_movement(game: &mut Game, direction: Direction) -> (signals: Vec<Signal>)
    ensures
        move_outcome(old(game)@, direction, final(game)@, signals@),
        old(game)@.wf() ==> final(game)@.wf(),
        old(game)@.steady() ==> final(game)@.steady(),
        final(game)@.score.nb_journeys >= old(game)@.score.nb_journeys,
{
    let mut signals: Vec<Signal> = Vec::new();
    if game.state != GameState::InGame {
        return signals;
    }
    let index: usize = match game.idle_player() {
        Some(index) => index,
        None => {
            return signals;
        },
    };
    assert forall|other: int| old(game)@.is_first_idle_player(other) implies other == index by {
        if other < index {
            assert(!old(game)@.actors[other].is_idle_player());
        }
        if index < other {
            assert(!old(game)@.actors[index as int].is_idle_player());
        }
    }
    let here = game.actors[index].position;
    let next = here.moved(direction);
    if next == here {
        return signals;
    }
    let reached = just_reached_target(&game.actors[index].journey, &next);
    game.actors[index].set_out(next);
    proof {
        lemma_views_update(old(game).actors@, index as int, game.actors@[index as int]);
    }
    signals.push(Signal::Move);
    let finished = journey_finished(&game.actors[index].journey, &next);
    if finished {
        signals.push(Signal::JourneyFinished);
    } else if reached {
        signals.push(Signal::GoalReached);
    }
    game.replay_bots();
    assert(game@ == old(game)@.stepped(index as int, next));
    proof {
        if old(game)@.wf() {
            lemma_stepped_wf(old(game)@, index as int, next);
        }
    }
    if finished {
        score_nb_journeys(&mut game.score);
        proof {
            lemma_avoided_by_actors(
                turned(game@, index as int),
                turned(old(game)@.stepped(index as int, next), index as int),
            );
        }
        let spawned = add_new_character_on_finished_journey(game, index);
        assert(spawned == (game.state == GameState::InGame));
        assert(signals@ =~= seq![Signal::Move, Signal::JourneyFinished]);
    } else {
        assert(signals@ =~= seq![Signal::Move, Signal::GoalReached] || signals@ =~= seq![
            Signal::Move,
        ]);
    }
    signals
}

} // verus!
