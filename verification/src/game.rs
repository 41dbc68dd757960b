//! The game as one value: its actors, its counters and its mode.

use vstd::prelude::*;

use crate::characters::{Characters, NewCharacter, MAX_SCALE, MIN_SCALE};
use crate::components::{Actor, ActorView, Position, Role};
use crate::game_state::GameState;
use crate::scores::{Score, NB_ATTEMPTS};

verus! {

/// Something that happened in the game and that its surroundings may want to
/// play a sound for.
#[derive(Debug, Clone, Copy, PartialEq, Eq, Structural)]
pub enum Signal {
    /// The player has set out for the next cell.
    Move,
    /// The player has set out for its target for the first time.
    GoalReached,
    /// The player has set out for its start with the target behind it: its
    /// journey is complete.
    JourneyFinished,
    /// The player has been destroyed.
    Hurt,
}

/// A game. Actors are never taken out of `actors` while a game lasts, so the
/// index of an actor is its identity.
#[derive(Debug, Clone, PartialEq, Eq)]
pub struct Game {
    /// Every actor spawned since the game started, in the order of spawning.
    pub actors: Vec<Actor>,
    /// Where the colours of new players come from.
    pub characters: Characters,
    /// The counters.
    pub score: Score,
    /// The mode.
    pub state: GameState,
}

/// The mathematical value of a [`Game`].
pub struct GameView {
    pub actors: Seq<ActorView>,
    pub characters: Characters,
    pub score: Score,
    pub state: GameState,
}

/// The values of the actors of `actors`, in the same order.
pub open spec fn views(actors: Seq<Actor>) -> Seq<ActorView> {
    Seq::new(actors.len(), |i: int| actors[i]@)
}

impl View for Game {
    type V = GameView;

    open spec fn view(&self) -> GameView {
        GameView {
            actors: views(self.actors@),
            characters: self.characters,
            score: self.score,
            state: self.state,
        }
    }
}

impl GameView {
    /// A game with no actor in it and everything else at its first value.
    pub open spec fn fresh() -> GameView {
        GameView {
            actors: Seq::empty(),
            characters: Characters { color_index: 0 },
            score: Score::initial(),
            state: GameState::InGame,
        }
    }

    /// What holds of a game at all times: each actor is well formed, and
    /// there is one player at most.
    pub open spec fn wf(self) -> bool {
        &&& forall|i: int| 0 <= i < self.actors.len() ==> (#[trigger] self.actors[i]).wf()
        &&& forall|i: int, j: int|
            0 <= i < self.actors.len() && 0 <= j < self.actors.len() && (
            #[trigger] self.actors[i]).role == Role::Player && (#[trigger] self.actors[j]).role
                == Role::Player ==> i == j
    }

    /// One of the actors of the game is a player.
    pub open spec fn has_player(self) -> bool {
        exists|i: int|
            0 <= i < self.actors.len() && (#[trigger] self.actors[i]).role == Role::Player
    }

    /// The game is well formed, no more attempts are left than a game starts
    /// with, and while the game is on it has its player, exactly one, and at
    /// least one attempt. This holds from the spawning of the first player
    /// on.
    pub open spec fn steady(self) -> bool {
        &&& self.wf()
        &&& self.score.remaining_attempts <= NB_ATTEMPTS
        &&& self.state == GameState::InGame ==> self.has_player() && !self.score.exhausted()
    }

    /// No actor of the game is a player.
    pub open spec fn no_player(self) -> bool {
        forall|i: int|
            0 <= i < self.actors.len() ==> (#[trigger] self.actors[i]).role != Role::Player
    }

    /// The actor `i` keeps a new actor off `pos`: it is live and stands on
    /// `pos`, or its journey starts on `pos`. The start of a journey stays
    /// reserved when its actor is destroyed.
    pub open spec fn keeps_off(self, i: int, pos: Position) -> bool {
        ||| self.actors[i].is_live() && self.actors[i].position == pos
        ||| self.actors[i].journey.start_pos == pos
    }

    /// A new actor has to keep off `pos`: a live actor stands on it, or some
    /// actor has it as the start of its journey.
    pub open spec fn must_avoid(self, pos: Position) -> bool {
        self.must_avoid_among(self.actors.len() as int, pos)
    }

    /// One of the first `count` actors keeps a new actor off `pos`.
    pub open spec fn must_avoid_among(self, count: int, pos: Position) -> bool {
        exists|i: int| 0 <= i < count && i < self.actors.len() && #[trigger] self.keeps_off(i, pos)
    }

    /// The game with the actor `lost` counted as destroyed, if there is such
    /// an actor.
    pub open spec fn without(self, lost: Option<usize>) -> GameView {
        match lost {
            Some(index) => if index < self.actors.len() {
                self.with_actor(index as int, self.actors[index as int].destroyed())
            } else {
                self
            },
            None => self,
        }
    }

    /// `character` can be spawned in this game: its start is free, its target
    /// is another cell, on the border, and its scale is in range.
    pub open spec fn admits(self, character: NewCharacter) -> bool {
        &&& !self.must_avoid(character.start_pos)
        &&& character.start_pos != character.target_pos
        &&& character.start_pos.in_grid()
        &&& character.target_pos.on_border()
        &&& MIN_SCALE <= character.scale < MAX_SCALE
    }

    /// The game with the player that `character` describes spawned in it, in
    /// the next colour of the palette.
    pub open spec fn with_player(self, character: NewCharacter) -> GameView {
        GameView {
            actors: self.actors.push(
                ActorView::new_player(character, self.characters.spec_color()),
            ),
            characters: self.characters.advanced(),
            ..self
        }
    }

    /// The game brought to its end.
    pub open spec fn ended(self) -> GameView {
        GameView { state: GameState::EndGame, ..self }
    }

    /// The game after the search for a new player's start and target: with
    /// the player spawned if the search found them, at its end if not.
    pub open spec fn with_spawn(self, draw: Option<NewCharacter>) -> GameView {
        match draw {
            Some(character) => self.with_player(character),
            None => self.ended(),
        }
    }

    /// No cell of the border other than the corners has to be avoided.
    pub open spec fn border_is_free(self) -> bool {
        forall|pos: Position| pos.on_border() ==> !self.must_avoid(pos)
    }

    /// The game after the journey of the actor `index` has been found
    /// complete. The actor is a bot from now on, and a new player takes over:
    /// with `draw` it is spawned, without the game is at its end. The attempts
    /// stay as they are.
    pub open spec fn after_journey(self, index: int, draw: Option<NewCharacter>) -> GameView {
        let turned = self.with_actor(index, self.actors[index].automated());
        match draw {
            Some(character) => turned.with_player(character),
            None => turned.ended(),
        }
    }

    /// The game `dt_micros` microseconds later: each actor has gone on with
    /// the move it is making.
    pub open spec fn transited(self, dt_micros: u32) -> GameView {
        GameView {
            actors: Seq::new(self.actors.len(), |i: int| self.actors[i].transited(dt_micros)),
            ..self
        }
    }

    /// The game with each live actor drawn where it is now.
    pub open spec fn reconciled(self) -> GameView {
        GameView {
            actors: Seq::new(self.actors.len(), |i: int| self.actors[i].reconciled()),
            ..self
        }
    }

    /// The game with the actor `victim` taken out by a collision: it is
    /// destroyed, and if it was the player, one attempt is gone.
    pub open spec fn wrecked(self, victim: int) -> GameView {
        let gone = self.with_actor(victim, self.actors[victim].destroyed());
        if self.actors[victim].role == Role::Player {
            GameView { score: gone.score.with_loss(), ..gone }
        } else {
            gone
        }
    }

    /// The destruction of the actor `victim` calls for a new player: it is
    /// the player, and this is not its last attempt.
    pub open spec fn needs_player(self, victim: int) -> bool {
        self.actors[victim].role == Role::Player && !self.score.with_loss().exhausted()
    }

    /// The game after the actor `victim` has been destroyed by a collision.
    ///
    /// A player loses one attempt. If none is left, the game is at its end
    /// and nobody takes the player's place. Otherwise a new player is searched
    /// a start and a target among the actors that remain: with `draw` it is
    /// spawned, without the game is at its end. A bot is replaced by a bot
    /// with the same journey, just spawned on the start of that journey.
    pub open spec fn after_destruction(self, victim: int, draw: Option<NewCharacter>) -> GameView {
        let wrecked = self.wrecked(victim);
        match self.actors[victim].role {
            Role::Player => if wrecked.score.exhausted() {
                wrecked.ended()
            } else {
                wrecked.with_spawn(draw)
            },
            Role::Automated => GameView {
                actors: wrecked.actors.push(self.actors[victim].replacement()),
                ..wrecked
            },
            Role::Destroyed => self,
        }
    }

    /// The destruction of the actor `victim` ends the game: it is the player,
    /// and either this was its last attempt or there is no room for another.
    pub open spec fn over_after_destruction(self, victim: int, draw: Option<NewCharacter>) -> bool {
        self.actors[victim].role == Role::Player && (self.score.with_loss().exhausted()
            || draw is None)
    }

    /// What the destruction of the actor `victim` signals.
    pub open spec fn destruction_signals(self, victim: int) -> Seq<Signal> {
        if self.actors[victim].role == Role::Player {
            seq![Signal::Hurt]
        } else {
            Seq::empty()
        }
    }

    /// The actor `index` is the first player of the game that can take a
    /// move.
    pub open spec fn is_first_idle_player(self, index: int) -> bool {
        &&& 0 <= index < self.actors.len()
        &&& self.actors[index].is_idle_player()
        &&& forall|k: int| 0 <= k < index ==> !(#[trigger] self.actors[k]).is_idle_player()
    }

    /// No player of the game can take a move.
    pub open spec fn no_idle_player(self) -> bool {
        forall|k: int| 0 <= k < self.actors.len() ==> !(#[trigger] self.actors[k]).is_idle_player()
    }

    /// The game with every bot one replay step further.
    pub open spec fn with_bots_replaying(self) -> GameView {
        GameView {
            actors: Seq::new(
                self.actors.len(),
                |i: int|
                    if self.actors[i].role == Role::Automated {
                        self.actors[i].replaying()
                    } else {
                        self.actors[i]
                    },
            ),
            ..self
        }
    }

    /// The game after the player `index` has set out for the cell `next`:
    /// every bot has taken one replay step with it.
    pub open spec fn stepped(self, index: int, next: Position) -> GameView {
        self.with_actor(index, self.actors[index].setting_out(next)).with_bots_replaying()
    }

    /// The game with one more completed journey counted.
    pub open spec fn with_journey_counted(self) -> GameView {
        GameView { score: self.score.with_journey(), ..self }
    }

    /// The game with the actor `index` replaced by `actor`.
    pub open spec fn with_actor(self, index: int, actor: ActorView) -> GameView {
        GameView { actors: self.actors.update(index, actor), ..self }
    }

    /// What was drawn for the actor spawned last, read back from it.
    pub open spec fn last_character(self) -> NewCharacter {
        self.actors.last().character()
    }
}

impl ActorView {
    /// What was drawn for this actor when it was spawned as a player.
    pub open spec fn character(self) -> NewCharacter {
        NewCharacter {
            start_pos: self.journey.start_pos,
            target_pos: self.journey.target_pos,
            scale: self.journey.scale,
        }
    }
}

/// Replacing an actor replaces its value among the values.
pub proof fn lemma_views_update(actors: Seq<Actor>, index: int, actor: Actor)
    requires
        0 <= index < actors.len(),
    ensures
        views(actors.update(index, actor)) == views(actors).update(index, actor@),
{
    assert(views(actors.update(index, actor)) =~= views(actors).update(index, actor@));
}

/// Adding an actor adds its value to the values.
pub proof fn lemma_views_push(actors: Seq<Actor>, actor: Actor)
    ensures
        views(actors.push(actor)) == views(actors).push(actor@),
{
    assert(views(actors.push(actor)) =~= views(actors).push(actor@));
}

/// What has to be avoided depends on the actors alone.
pub proof fn lemma_avoided_by_actors(game: GameView, other: GameView)
    requires
        game.actors == other.actors,
    ensures
        forall|pos: Position| game.must_avoid(pos) == other.must_avoid(pos),
        game.border_is_free() == other.border_is_free(),
        forall|character: NewCharacter| game.admits(character) == other.admits(character),
{
    assert forall|pos: Position| game.must_avoid(pos) == other.must_avoid(pos) by {
        if game.must_avoid(pos) {
            let k = choose|k: int|
                0 <= k < game.actors.len() && k < game.actors.len() && #[trigger] game.keeps_off(
                    k,
                    pos,
                );
            assert(other.keeps_off(k, pos));
        }
        if other.must_avoid(pos) {
            let k = choose|k: int|
                0 <= k < other.actors.len() && k < other.actors.len()
                    && #[trigger] other.keeps_off(k, pos);
            assert(game.keeps_off(k, pos));
        }
    }
}

/// What a game admits lies on the grid.
pub proof fn lemma_admitted_on_grid(game: GameView, character: NewCharacter)
    requires
        game.admits(character),
    ensures
        character.on_grid(),
{
}

/// Spawning a player on the grid keeps a game without a player well formed,
/// and gives it its player.
pub proof fn lemma_with_player_wf(game: GameView, character: NewCharacter)
    requires
        game.wf(),
        game.no_player(),
        character.on_grid(),
    ensures
        game.with_player(character).wf(),
        game.with_player(character).has_player(),
        0 < game.score.remaining_attempts <= NB_ATTEMPTS ==> game.with_player(character).steady(),
{
    let after = game.with_player(character);
    assert(after.actors[game.actors.len() as int].role == Role::Player);
    assert forall|i: int| 0 <= i < after.actors.len() implies (#[trigger] after.actors[i]).wf() by {
        if i < game.actors.len() {
            assert(after.actors[i] == game.actors[i]);
        }
    }
    assert forall|i: int, j: int|
        0 <= i < after.actors.len() && 0 <= j < after.actors.len() && (
        #[trigger] after.actors[i]).role == Role::Player && (#[trigger] after.actors[j]).role
            == Role::Player implies i == j by {
        if i < game.actors.len() {
            assert(after.actors[i] == game.actors[i]);
        }
        if j < game.actors.len() {
            assert(after.actors[j] == game.actors[j]);
        }
    }
}

/// A move of the player keeps the game well formed.
pub proof fn lemma_stepped_wf(game: GameView, index: int, next: Position)
    requires
        game.wf(),
        0 <= index < game.actors.len(),
        game.actors[index].role == Role::Player,
        next.in_grid(),
    ensures
        game.stepped(index, next).wf(),
        game.stepped(index, next).actors.len() == game.actors.len(),
        forall|i: int|
            0 <= i < game.actors.len() ==> (#[trigger] game.stepped(index, next).actors[i]).role
                == game.actors[i].role,
        game.stepped(index, next).actors[index].journey.path.len() > 0,
        game.steady() ==> game.stepped(index, next).steady(),
{
    let after = game.stepped(index, next);
    assert forall|i: int| 0 <= i < after.actors.len() implies (#[trigger] after.actors[i]).wf()
        && after.actors[i].role == game.actors[i].role by {
        assert(game.actors[i].wf());
    }
    assert(after.actors[index].role == Role::Player);
}

/// The change of players after a completed journey keeps the game well
/// formed.
pub proof fn lemma_after_journey_wf(game: GameView, index: int, draw: Option<NewCharacter>)
    requires
        game.wf(),
        0 <= index < game.actors.len(),
        game.actors[index].role == Role::Player,
        game.actors[index].journey.path.len() > 0,
        draw matches Some(character) ==> character.on_grid(),
    ensures
        game.after_journey(index, draw).wf(),
        game.after_journey(index, draw).state == GameState::InGame ==> game.after_journey(
            index,
            draw,
        ).has_player(),
{
    let turned = game.with_actor(index, game.actors[index].automated());
    assert forall|i: int| 0 <= i < turned.actors.len() implies (#[trigger] turned.actors[i]).wf()
        && turned.actors[i].role != Role::Player by {
        assert(game.actors[i].wf());
        if i != index && game.actors[i].role == Role::Player {
            assert(game.actors[index].role == Role::Player);
        }
    }
    assert(turned.wf());
    match draw {
        Some(character) => {
            lemma_with_player_wf(turned, character);
            let spawned = turned.with_player(character);
            let after = game.after_journey(index, draw);
            let witness = choose|i: int|
                0 <= i < spawned.actors.len() && (#[trigger] spawned.actors[i]).role
                    == Role::Player;
            assert(after.actors[witness].role == Role::Player);
        },
        None => {},
    }
}

/// The destruction of an actor keeps the game well formed.
pub proof fn lemma_after_destruction_wf(game: GameView, victim: int, draw: Option<NewCharacter>)
    requires
        game.wf(),
        0 <= victim < game.actors.len(),
        draw matches Some(character) ==> character.on_grid(),
    ensures
        game.after_destruction(victim, draw).wf(),
        game.steady() ==> game.after_destruction(victim, draw).steady(),
{
    let wrecked = game.wrecked(victim);
    assert forall|i: int| 0 <= i < wrecked.actors.len() implies (#[trigger] wrecked.actors[i]).wf()
        && (wrecked.actors[i].role == Role::Player ==> game.actors[i].role == Role::Player && i
        != victim) by {
        assert(game.actors[i].wf());
    }
    assert(wrecked.wf());
    match game.actors[victim].role {
        Role::Player => {
            assert forall|i: int| 0 <= i < wrecked.actors.len() implies (
            #[trigger] wrecked.actors[i]).role != Role::Player by {
                if wrecked.actors[i].role == Role::Player {
                    assert(game.actors[i].role == Role::Player);
                    assert(game.actors[victim].role == Role::Player);
                }
            }
            if let Some(character) = draw {
                lemma_with_player_wf(wrecked, character);
            }
        },
        Role::Automated => {
            let after = game.after_destruction(victim, draw);
            assert(game.actors[victim].wf());
            assert forall|i: int| 0 <= i < after.actors.len() implies (
            #[trigger] after.actors[i]).wf() by {
                if i < wrecked.actors.len() {
                    assert(after.actors[i] == wrecked.actors[i]);
                }
            }
            assert forall|i: int, j: int|
                0 <= i < after.actors.len() && 0 <= j < after.actors.len() && (
                #[trigger] after.actors[i]).role == Role::Player && (
                #[trigger] after.actors[j]).role == Role::Player implies i == j by {
                if i < wrecked.actors.len() {
                    assert(after.actors[i] == wrecked.actors[i]);
                }
                if j < wrecked.actors.len() {
                    assert(after.actors[j] == wrecked.actors[j]);
                }
            }
            if game.has_player() {
                let witness = choose|i: int|
                    0 <= i < game.actors.len() && (#[trigger] game.actors[i]).role
                        == Role::Player;
                assert(after.actors[witness] == wrecked.actors[witness]);
                assert(after.actors[witness].role == Role::Player);
            }
        },
        Role::Destroyed => {},
    }
}

/// The passing of time keeps the game steady.
pub proof fn lemma_transited_steady(game: GameView, dt_micros: u32)
    requires
        game.steady(),
    ensures
        game.transited(dt_micros).steady(),
{
    let after = game.transited(dt_micros);
    assert forall|i: int| 0 <= i < after.actors.len() implies (#[trigger] after.actors[i]).wf()
        && after.actors[i].role == game.actors[i].role by {
        assert(game.actors[i].wf());
    }
    if game.has_player() {
        let witness = choose|i: int|
            0 <= i < game.actors.len() && (#[trigger] game.actors[i]).role == Role::Player;
        assert(after.actors[witness].role == Role::Player);
    }
}

/// Drawing the actors keeps the game steady.
pub proof fn lemma_reconciled_steady(game: GameView)
    requires
        game.steady(),
    ensures
        game.reconciled().steady(),
{
    let after = game.reconciled();
    assert forall|i: int| 0 <= i < after.actors.len() implies (#[trigger] after.actors[i]).wf()
        && after.actors[i].role == game.actors[i].role by {
        assert(game.actors[i].wf());
    }
    if game.has_player() {
        let witness = choose|i: int|
            0 <= i < game.actors.len() && (#[trigger] game.actors[i]).role == Role::Player;
        assert(after.actors[witness].role == Role::Player);
    }
}

impl Game {
    /// A game with no actor in it and everything else at its first value.
    pub fn new() -> (game: Game)
        ensures
            game@ == GameView::fresh(),
            game@.wf(),
    {
        let game = Game {
            actors: Vec::new(),
            characters: Characters::default(),
            score: Score::default(),
            state: GameState::default(),
        };
        assert(game@.actors =~= Seq::empty());
        game
    }

    /// The cells that a new actor has to keep off: the cell that each live
    /// actor stands on, and the start of every actor's journey.
    pub fn avoid_positions(&self) -> (avoid: Vec<Position>)
        ensures
            forall|pos: Position| avoid@.contains(pos) <==> self@.must_avoid(pos),
    {
        self.avoid_positions_without(None)
    }

    /// The cells that a new actor has to keep off once the actor `lost` is
    /// destroyed.
    pub fn avoid_positions_without(&self, lost: Option<usize>) -> (avoid: Vec<Position>)
        ensures
            forall|pos: Position| avoid@.contains(pos) <==> self@.without(lost).must_avoid(pos),
    {
        let ghost rest = self@.without(lost);
        let mut avoid: Vec<Position> = Vec::new();
        let mut i: usize = 0;
        while i < self.actors.len()
            invariant
                i <= self.actors@.len(),
                rest == self@.without(lost),
                rest.actors.len() == self.actors@.len(),
                forall|pos: Position|
                    avoid@.contains(pos) <==> rest.must_avoid_among(i as int, pos),
            decreases self.actors@.len() - i,
        {
            let ghost before = avoid@;
            let is_lost = match lost {
                Some(index) => index == i,
                None => false,
            };
            let stands = self.actors[i].role != Role::Destroyed && !is_lost;
            if stands {
                avoid.push(self.actors[i].position);
            }
            let ghost mid = avoid@;
            avoid.push(self.actors[i].journey.start_pos);
            assert forall|pos: Position| avoid@.contains(pos) <==> rest.must_avoid_among(
                i + 1,
                pos,
            ) by {
                let actor = rest.actors[i as int];
                assert(self@.actors[i as int] == self.actors@[i as int]@);
                assert(actor.position == self.actors@[i as int].position);
                assert(actor.journey.start_pos == self.actors@[i as int].journey.start_pos);
                assert(actor.is_live() == stands);
                if stands {
                    vstd::seq_lib::lemma_seq_contains_after_push(before, actor.position, pos);
                }
                vstd::seq_lib::lemma_seq_contains_after_push(mid, actor.journey.start_pos, pos);
                assert(avoid@.contains(pos) <==> before.contains(pos) || rest.keeps_off(
                    i as int,
                    pos,
                ));
                if rest.must_avoid_among(i + 1, pos) {
                    let k = choose|k: int|
                        0 <= k < i + 1 && k < rest.actors.len() && #[trigger] rest.keeps_off(
                            k,
                            pos,
                        );
                    if k < i {
                        assert(rest.must_avoid_among(i as int, pos));
                    }
                }
                if before.contains(pos) {
                    assert(rest.must_avoid_among(i as int, pos));
                    let k = choose|k: int|
                        0 <= k < i && k < rest.actors.len() && #[trigger] rest.keeps_off(k, pos);
                    assert(rest.keeps_off(k, pos));
                }
                if rest.keeps_off(i as int, pos) {
                    assert(rest.must_avoid_among(i + 1, pos));
                }
            }
            i += 1;
        }
        avoid
    }

    /// Whether the destruction of the actor `victim` calls for a new player.
    pub fn needs_player(&self, victim: usize) -> (needed: bool)
        requires
            victim < self@.actors.len(),
        ensures
            needed == self@.needs_player(victim as int),
    {
        self.actors[victim].role == Role::Player && self.score.remaining_attempts > 1
    }

    /// Makes a bot of the actor `index`, whose journey is complete, and lets
    /// the player that `draw` describes take over. Where `draw` holds none,
    /// the game is at its end. The attempts stay as they are.
    pub fn finish_journey(&mut self, index: usize, draw: Option<NewCharacter>) -> (spawned: bool)
        requires
            index < old(self)@.actors.len(),
        ensures
            final(self)@ == old(self)@.after_journey(index as int, draw),
            spawned == draw is Some,
            old(self)@.wf() && old(self)@.actors[index as int].role == Role::Player && old(
                self,
            )@.actors[index as int].journey.path.len() > 0 && (draw matches Some(character)
                ==> character.on_grid()) ==> final(self)@.wf(),
            old(self)@.steady() && old(self)@.actors[index as int].role == Role::Player && old(
                self,
            )@.actors[index as int].journey.path.len() > 0 && (draw matches Some(character)
                ==> character.on_grid()) ==> final(self)@.steady(),
    {
        proof {
            if old(self)@.wf() && old(self)@.actors[index as int].role == Role::Player && old(
                self,
            )@.actors[index as int].journey.path.len() > 0 && (draw matches Some(character)
                ==> character.on_grid()) {
                lemma_after_journey_wf(old(self)@, index as int, draw);
            }
        }
        self.turn_into_bot(index);
        self.spawn(draw)
    }

    /// Makes a bot of the actor `index`.
    pub fn turn_into_bot(&mut self, index: usize)
        requires
            index < old(self)@.actors.len(),
        ensures
            final(self)@ == old(self)@.with_actor(
                index as int,
                old(self)@.actors[index as int].automated(),
            ),
    {
        self.actors[index].automate();
        proof {
            lemma_views_update(old(self).actors@, index as int, self.actors@[index as int]);
        }
    }

    /// The first player of the game that can take a move, if there is one.
    pub fn idle_player(&self) -> (found: Option<usize>)
        ensures
            match found {
                Some(index) => self@.is_first_idle_player(index as int),
                None => self@.no_idle_player(),
            },
    {
        let mut i: usize = 0;
        while i < self.actors.len()
            invariant
                i <= self.actors@.len(),
                forall|k: int| 0 <= k < i ==> !(#[trigger] self@.actors[k]).is_idle_player(),
            decreases self.actors@.len() - i,
        {
            if self.actors[i].role == Role::Player && self.actors[i].transition.is_none() {
                return Some(i);
            }
            i += 1;
        }
        None
    }

    /// Lets every bot take one replay step.
    pub fn replay_bots(&mut self)
        ensures
            final(self)@ == old(self)@.with_bots_replaying(),
    {
        let count: usize = self.actors.len();
        let mut i: usize = 0;
        while i < count
            invariant
                i <= count,
                count == old(self)@.actors.len(),
                self@.actors.len() == count,
                self.characters == old(self).characters,
                self.score == old(self).score,
                self.state == old(self).state,
                forall|k: int|
                    0 <= k < i ==> self@.actors[k] == old(self)@.with_bots_replaying().actors[k],
                forall|k: int| i <= k < count ==> self@.actors[k] == old(self)@.actors[k],
            decreases count - i,
        {
            if self.actors[i].role == Role::Automated {
                let ghost before = self.actors@;
                self.actors[i].replay();
                proof {
                    lemma_views_update(before, i as int, self.actors@[i as int]);
                }
            }
            i += 1;
        }
        assert(self@.actors =~= old(self)@.with_bots_replaying().actors);
    }

    /// Takes the actor `victim` out of the game: it is destroyed, and if it
    /// was the player, one attempt is gone. Says whether a new player is
    /// called for.
    pub fn wreck(&mut self, victim: usize) -> (needs_player: bool)
        requires
            victim < old(self)@.actors.len(),
        ensures
            final(self)@ == old(self)@.wrecked(victim as int),
            needs_player == old(self)@.needs_player(victim as int),
    {
        let was_player = self.actors[victim].role == Role::Player;
        self.actors[victim].role = Role::Destroyed;
        proof {
            lemma_views_update(old(self).actors@, victim as int, self.actors@[victim as int]);
        }
        if was_player {
            !self.score.lose_attempt()
        } else {
            false
        }
    }

    /// Puts in the place of the bot `victim` a bot with the same journey, just
    /// spawned on the start of that journey.
    pub fn replace_bot(&mut self, victim: usize)
        requires
            victim < old(self)@.actors.len(),
        ensures
            final(self)@ == (GameView {
                actors: old(self)@.actors.push(old(self)@.actors[victim as int].replacement()),
                ..old(self)@
            }),
    {
        let actor = self.actors[victim].replacement();
        proof {
            lemma_views_push(self.actors@, actor);
        }
        self.actors.push(actor);
    }

    /// Destroys the actor `victim` and does what follows from it, with `draw`
    /// as the outcome of the search for a new player where one is called for.
    /// Says whether the game has come to its end by it.
    pub fn destroy(&mut self, victim: usize, draw: Option<NewCharacter>) -> (over: bool)
        requires
            victim < old(self)@.actors.len(),
        ensures
            final(self)@ == old(self)@.after_destruction(victim as int, draw),
            over == old(self)@.over_after_destruction(victim as int, draw),
            (draw matches Some(character) ==> character.on_grid()) ==> {
                &&& old(self)@.wf() ==> final(self)@.wf()
                &&& old(self)@.steady() ==> final(self)@.steady()
            },
    {
        proof {
            if old(self)@.wf() && (draw matches Some(character) ==> character.on_grid()) {
                lemma_after_destruction_wf(old(self)@, victim as int, draw);
            }
        }
        match self.actors[victim].role {
            Role::Player => {
                if self.wreck(victim) {
                    !self.spawn(draw)
                } else {
                    self.state = GameState::EndGame;
                    true
                }
            },
            Role::Automated => {
                self.wreck(victim);
                self.replace_bot(victim);
                false
            },
            Role::Destroyed => false,
        }
    }

    /// Spawns the player that `draw` describes, or brings the game to its end
    /// where there is none. Says whether a player was spawned.
    pub fn spawn(&mut self, draw: Option<NewCharacter>) -> (spawned: bool)
        ensures
            final(self)@ == old(self)@.with_spawn(draw),
            spawned == draw is Some,
            old(self)@.wf() && old(self)@.no_player() && (draw matches Some(character)
                ==> character.on_grid()) ==> final(self)@.wf(),
            old(self)@.wf() && old(self)@.no_player() && (draw matches Some(character)
                ==> character.on_grid()) && 0 < old(self)@.score.remaining_attempts
                <= NB_ATTEMPTS ==> final(self)@.steady(),
    {
        proof {
            if old(self)@.wf() && old(self)@.no_player() && (draw matches Some(character)
                ==> character.on_grid()) {
                if let Some(character) = draw {
                    lemma_with_player_wf(old(self)@, character);
                }
            }
        }
        match draw {
            Some(character) => {
                let color = self.characters.next_color();
                let actor = Actor::new_player(character, color);
                proof {
                    lemma_views_push(self.actors@, actor);
                }
                self.actors.push(actor);
                true
            },
            None => {
                self.state = GameState::EndGame;
                false
            },
        }
    }
}

} // verus!
