//! Motion: from grid space to world space, moves in progress, and what
//! happens to actors that run into each other.

use vstd::prelude::*;

use crate::characters::{draw_character, drawn_for, lemma_drawn_for, NewCharacter};
use crate::components::{Actor, ActorView, Point, Position, Role};
use crate::game::{
    lemma_admitted_on_grid, lemma_avoided_by_actors, lemma_reconciled_steady,
    lemma_transited_steady, lemma_views_update, views, Game, GameView, Signal,
};
use crate::game_state::GameState;
use crate::{CELL_SIZE, GRID_HEIGHT, GRID_WIDTH, UNIT};

verus! {

/// Speed of a moving actor, in cells per second: a sixth of [`CELL_SIZE`].
pub const SPEED: i64 = 10;

/// The world point of a point of grid space, with the grid centred on the
/// origin of the world: the lower left corner of the cell for a cell's own
/// coordinates.
pub open spec fn spec_grid_pos_translation(pos: Point) -> Point {
    Point {
        x: (pos.x * CELL_SIZE - GRID_WIDTH * CELL_SIZE * UNIT / 2) as i64,
        y: (pos.y * CELL_SIZE - GRID_HEIGHT * CELL_SIZE * UNIT / 2) as i64,
    }
}

/// The world point at which something standing on the point `pos` of grid
/// space is drawn: half a cell up and to the right of its translation, which
/// is the centre of the cell for a cell's own coordinates.
pub open spec fn spec_sprite_position_translation(pos: Point) -> Point {
    Point {
        x: (spec_grid_pos_translation(pos).x + CELL_SIZE * UNIT / 2) as i64,
        y: (spec_grid_pos_translation(pos).y + CELL_SIZE * UNIT / 2) as i64,
    }
}

/// The world point of the lower left corner of the cell `pos`.
pub fn position_translation(pos: &Position) -> (p: Point)
    ensures
        p == spec_grid_pos_translation(pos.as_point()),
        p.x == (pos.x * CELL_SIZE - GRID_WIDTH * CELL_SIZE / 2) * UNIT,
        p.y == (pos.y * CELL_SIZE - GRID_HEIGHT * CELL_SIZE / 2) * UNIT,
{
    grid_pos_translation(pos.as_point())
}

/// The world point at which something on the point `pos` of grid space is
/// drawn.
pub fn sprite_position_translation(pos: Point) -> (p: Point)
    requires
        pos.in_range(),
    ensures
        p == spec_sprite_position_translation(pos),
        p.x == pos.x * CELL_SIZE - GRID_WIDTH * CELL_SIZE * UNIT / 2 + CELL_SIZE * UNIT / 2,
        p.y == pos.y * CELL_SIZE - GRID_HEIGHT * CELL_SIZE * UNIT / 2 + CELL_SIZE * UNIT / 2,
{
    let corner = grid_pos_translation(pos);
    Point { x: corner.x + CELL_SIZE * UNIT / 2, y: corner.y + CELL_SIZE * UNIT / 2 }
}

/// The world point of the point `pos` of grid space.
pub fn grid_pos_translation(pos: Point) -> (p: Point)
    requires
        pos.in_range(),
    ensures
        p == spec_grid_pos_translation(pos),
        p.x == pos.x * CELL_SIZE - GRID_WIDTH * CELL_SIZE * UNIT / 2,
        p.y == pos.y * CELL_SIZE - GRID_HEIGHT * CELL_SIZE * UNIT / 2,
{
    Point {
        x: pos.x * CELL_SIZE - GRID_WIDTH as i64 * CELL_SIZE * UNIT / 2,
        y: pos.y * CELL_SIZE - GRID_HEIGHT as i64 * CELL_SIZE * UNIT / 2,
    }
}

/// Two actors drawn at `a` and `b` are close enough to collide: no more than
/// half a cell apart in a straight line.
pub open spec fn spec_colliding(a: Point, b: Point) -> bool {
    (a.x - b.x) * (a.x - b.x) + (a.y - b.y) * (a.y - b.y) <= (CELL_SIZE * UNIT / 2) * (CELL_SIZE
        * UNIT / 2)
}

/// Whether two actors drawn at `a` and `b` are close enough to collide.
pub fn colliding(a: Point, b: Point) -> (hit: bool)
    ensures
        hit == spec_colliding(a, b),
{
    let reach: i128 = (CELL_SIZE * UNIT / 2) as i128;
    let dx: i128 = a.x as i128 - b.x as i128;
    let dy: i128 = a.y as i128 - b.y as i128;
    if dx > reach || dx < -reach || dy > reach || dy < -reach {
        assert(dx * dx + dy * dy > reach * reach) by (nonlinear_arith)
            requires
                dx > reach || dx < -reach || dy > reach || dy < -reach,
                reach >= 0,
        ;
        return false;
    }
    assert(dx * dx <= reach * reach && dy * dy <= reach * reach && 0 <= dx * dx && 0 <= dy * dy)
        by (nonlinear_arith)
        requires
            -reach <= dx <= reach,
            -reach <= dy <= reach,
    ;
    assert(reach * reach == 900_000_000_000_000) by (nonlinear_arith)
        requires
            reach == 30_000_000,
    ;
    dx * dx + dy * dy <= reach * reach
}

/// Lets `dt_micros` microseconds pass for every live actor that is making a
/// move. An actor that has covered one cell by now stands on the cell it was
/// moving to: its move is over, and so is the time after its spawning in which
/// it could not be destroyed.
pub fn move_transit_entities(game: &mut Game, dt_micros: u32)
    ensures
        final(game)@ == old(game)@.transited(dt_micros),
        old(game)@.wf() ==> final(game)@.wf(),
        old(game)@.steady() ==> final(game)@.steady(),
{
    proof {
        if old(game)@.steady() {
            lemma_transited_steady(old(game)@, dt_micros);
        }
    }
    let count: usize = game.actors.len();
    let mut i: usize = 0;
    while i < count
        invariant
            i <= count,
            count == old(game)@.actors.len(),
            game@.actors.len() == count,
            game.characters == old(game).characters,
            game.score == old(game).score,
            game.state == old(game).state,
            forall|k: int|
                0 <= k < i ==> game@.actors[k] == old(game)@.actors[k].transited(dt_micros),
            forall|k: int| i <= k < count ==> game@.actors[k] == old(game)@.actors[k],
        decreases count - i,
    {
        let ghost before = game.actors@;
        game.actors[i].transit(dt_micros);
        proof {
            lemma_views_update(before, i as int, game.actors@[i as int]);
        }
        i += 1;
    }
    assert(game@.actors =~= old(game)@.transited(dt_micros).actors);
}

/// Draws every live actor where it is now: on its way if it is making a move,
/// else in the middle of its cell.
pub fn position_to_transform(game: &mut Game)
    ensures
        final(game)@ == old(game)@.reconciled(),
        old(game)@.wf() ==> final(game)@.wf(),
        old(game)@.steady() ==> final(game)@.steady(),
{
    proof {
        if old(game)@.steady() {
            lemma_reconciled_steady(old(game)@);
        }
    }
    let count: usize = game.actors.len();
    let mut i: usize = 0;
    while i < count
        invariant
            i <= count,
            count == old(game)@.actors.len(),
            game@.actors.len() == count,
            game.characters == old(game).characters,
            game.score == old(game).score,
            game.state == old(game).state,
            forall|k: int| 0 <= k < i ==> game@.actors[k] == old(game)@.actors[k].reconciled(),
            forall|k: int| i <= k < count ==> game@.actors[k] == old(game)@.actors[k],
        decreases count - i,
    {
        let ghost before = game.actors@;
        game.actors[i].reconcile();
        proof {
            lemma_views_update(before, i as int, game.actors@[i as int]);
        }
        i += 1;
    }
    assert(game@.actors =~= old(game)@.reconciled().actors);
}

/// Which of two actors a collision between them destroys.
#[derive(Debug, Clone, Copy, PartialEq, Eq, Structural)]
pub enum Verdict {
    /// Neither: they do not collide, or both have just been spawned.
    Neither,
    /// The first of the two.
    First,
    /// The second of the two.
    Second,
}

/// Which of the actors `a` and `b` is destroyed where they meet.
///
/// Only live actors collide, and only when they are drawn no more than half
/// a cell apart. An actor that has just been spawned is not destroyed: if both
/// have, neither is; if one has, the other is destroyed. Otherwise the first
/// is destroyed if it is the player, and the second if not: of a player and a
/// bot, the player.
pub open spec fn spec_collision_verdict(a: ActorView, b: ActorView) -> Verdict {
    if !a.is_live() || !b.is_live() || !spec_colliding(a.translation, b.translation) {
        Verdict::Neither
    } else if a.just_spawned && b.just_spawned {
        Verdict::Neither
    } else if a.just_spawned {
        Verdict::Second
    } else if b.just_spawned {
        Verdict::First
    } else if a.role == Role::Player {
        Verdict::First
    } else {
        Verdict::Second
    }
}

/// Which of the actors `a` and `b` is destroyed where they meet.
pub fn collision_verdict(a: &Actor, b: &Actor) -> (verdict: Verdict)
    ensures
        verdict == spec_collision_verdict(a@, b@),
{
    if a.role == Role::Destroyed || b.role == Role::Destroyed || !colliding(
        a.translation,
        b.translation,
    ) {
        Verdict::Neither
    } else if a.just_spawned && b.just_spawned {
        Verdict::Neither
    } else if a.just_spawned {
        Verdict::Second
    } else if b.just_spawned {
        Verdict::First
    } else if a.role == Role::Player {
        Verdict::First
    } else {
        Verdict::Second
    }
}

/// Two actors that have both just been spawned do not destroy each other,
/// wherever they are drawn.
pub proof fn lemma_grace_period(a: ActorView, b: ActorView)
    requires
        a.just_spawned,
        b.just_spawned,
    ensures
        spec_collision_verdict(a, b) == Verdict::Neither,
{
}

/// No collision destroys an actor that has just been spawned, whoever it
/// meets.
pub proof fn lemma_just_spawned_is_spared(actors: Seq<ActorView>, index: usize)
    requires
        index < actors.len() <= usize::MAX,
        actors[index as int].just_spawned,
    ensures
        !falls(actors, index),
        !spec_collision_victims(actors).contains(index),
{
    assert forall|i: int, j: int| 0 <= i < j < actors.len() implies #[trigger] victim_of_pair(
        actors,
        i,
        j,
    ) != Some(index) by {
        if victim_of_pair(actors, i, j) == Some(index) {
            assert(i == index || j == index);
        }
    }
    if spec_collision_victims(actors).contains(index) {
        lemma_victims_fall(actors, actors.len() as int, index);
    }
}

/// An actor among the victims of the pairs whose first actor comes before
/// `rows` is destroyed by one of those pairs.
pub proof fn lemma_victims_fall(actors: Seq<ActorView>, rows: int, victim: usize)
    requires
        0 <= rows <= actors.len(),
        victims_of_rows(actors, rows).contains(victim),
    ensures
        falls(actors, victim),
    decreases rows,
{
    if rows > 0 {
        lemma_row_victims_fall(
            actors,
            rows - 1,
            actors.len() as int,
            victims_of_rows(actors, rows - 1),
            victim,
        );
        if victims_of_rows(actors, rows - 1).contains(victim) {
            lemma_victims_fall(actors, rows - 1, victim);
        }
    }
}

/// An actor among the victims of a row was among those found before, or is
/// destroyed by a pair of that row.
pub proof fn lemma_row_victims_fall(
    actors: Seq<ActorView>,
    i: int,
    upto: int,
    found: Seq<usize>,
    victim: usize,
)
    requires
        0 <= i < actors.len(),
        upto <= actors.len(),
        victims_of_row(actors, i, upto, found).contains(victim),
    ensures
        found.contains(victim) || falls(actors, victim),
    decreases upto - i,
{
    if upto > i + 1 {
        let before = victims_of_row(actors, i, upto - 1, found);
        let pair = victim_of_pair(actors, i, upto - 1);
        if before.contains(victim) {
            lemma_row_victims_fall(actors, i, upto - 1, found, victim);
        } else {
            vstd::seq_lib::lemma_seq_contains_after_push(before, pair->Some_0, victim);
            assert(pair == Some(victim));
        }
    }
}

/// The actor that the pair of the actors `i` and `j` has destroyed, if any.
pub open spec fn victim_of_pair(actors: Seq<ActorView>, i: int, j: int) -> Option<usize> {
    match spec_collision_verdict(actors[i], actors[j]) {
        Verdict::Neither => None,
        Verdict::First => Some(i as usize),
        Verdict::Second => Some(j as usize),
    }
}

/// The list `found` with `victim` at its end, unless it holds it already or
/// there is none.
pub open spec fn with_victim(found: Seq<usize>, victim: Option<usize>) -> Seq<usize> {
    match victim {
        Some(v) => if found.contains(v) {
            found
        } else {
            found.push(v)
        },
        None => found,
    }
}

/// The list `found` with the victims of the pairs of the actor `i` and each
/// actor after it and before `upto`, in that order.
pub open spec fn victims_of_row(
    actors: Seq<ActorView>,
    i: int,
    upto: int,
    found: Seq<usize>,
) -> Seq<usize>
    decreases upto - i,
{
    if upto <= i + 1 {
        found
    } else {
        with_victim(
            victims_of_row(actors, i, upto - 1, found),
            victim_of_pair(actors, i, upto - 1),
        )
    }
}

/// The victims of all pairs whose first actor comes before `rows`.
pub open spec fn victims_of_rows(actors: Seq<ActorView>, rows: int) -> Seq<usize>
    decreases rows,
{
    if rows <= 0 {
        Seq::empty()
    } else {
        victims_of_row(actors, rows - 1, actors.len() as int, victims_of_rows(actors, rows - 1))
    }
}

/// The actors that collisions destroy, each once, in the order in which the
/// pairs find them: every actor is paired with each actor after it.
pub open spec fn spec_collision_victims(actors: Seq<ActorView>) -> Seq<usize> {
    victims_of_rows(actors, actors.len() as int)
}

/// `victim` can be destroyed by a collision among `actors`: it is one of
/// them, it is live, and it has not just been spawned.
pub open spec fn can_fall(actors: Seq<ActorView>, victim: usize) -> bool {
    &&& victim < actors.len()
    &&& actors[victim as int].is_live()
    &&& !actors[victim as int].just_spawned
}

/// Some pair of `actors` destroys `victim`.
pub open spec fn falls(actors: Seq<ActorView>, victim: usize) -> bool {
    exists|i: int, j: int|
        0 <= i < j < actors.len() && #[trigger] victim_of_pair(actors, i, j) == Some(victim)
}

/// Some pair of `actors` that comes before the pair of `i` and `j` destroys
/// `victim`. The pairs come in the order of their first actor, then of their
/// second.
pub open spec fn falls_before(actors: Seq<ActorView>, i: int, j: int, victim: usize) -> bool {
    exists|a: int, b: int|
        0 <= a < b < actors.len() && (a < i || (a == i && b < j)) && #[trigger] victim_of_pair(
            actors,
            a,
            b,
        ) == Some(victim)
}

/// The actors that collisions destroy in this tick, each once, in the order
/// in which the pairs find them.
///
/// No actor that has just been spawned is among them, and an actor is among
/// them exactly if some pair destroys it.
pub fn collision_victims(actors: &Vec<Actor>) -> (victims: Vec<usize>)
    ensures
        victims@ == spec_collision_victims(views(actors@)),
        victims@.no_duplicates(),
        forall|k: int| 0 <= k < victims@.len() ==> can_fall(views(actors@), #[trigger] victims@[k]),
        forall|v: usize| victims@.contains(v) <==> falls(views(actors@), v),
{
    let ghost all = views(actors@);
    let count: usize = actors.len();
    let mut victims: Vec<usize> = Vec::new();
    let mut i: usize = 0;
    while i < count
        invariant
            i <= count,
            count == actors@.len(),
            all == views(actors@),
            victims@ == victims_of_rows(all, i as int),
            victims@.no_duplicates(),
            forall|k: int| 0 <= k < victims@.len() ==> can_fall(all, #[trigger] victims@[k]),
            forall|v: usize| victims@.contains(v) <==> falls_before(all, i as int, 0, v),
        decreases count - i,
    {
        let ghost row_start = victims@;
        let mut j: usize = i + 1;
        assert forall|v: usize| victims@.contains(v) <==> falls_before(
            all,
            i as int,
            i + 1,
            v,
        ) by {
            if falls_before(all, i as int, i + 1, v) {
                let (a, b) = choose|a: int, b: int|
                    0 <= a < b < all.len() && (a < i || (a == i && b < i + 1))
                        && #[trigger] victim_of_pair(all, a, b) == Some(v);
                assert(falls_before(all, i as int, 0, v));
            }
            if falls_before(all, i as int, 0, v) {
                let (a, b) = choose|a: int, b: int|
                    0 <= a < b < all.len() && (a < i || (a == i && b < 0))
                        && #[trigger] victim_of_pair(all, a, b) == Some(v);
                assert(falls_before(all, i as int, i + 1, v));
            }
        }
        while j < count
            invariant
                i < j <= count || (j == i + 1 && i + 1 > count),
                i < count,
                count == actors@.len(),
                all == views(actors@),
                victims@ == victims_of_row(all, i as int, j as int, row_start),
                row_start == victims_of_rows(all, i as int),
                victims@.no_duplicates(),
                forall|k: int| 0 <= k < victims@.len() ==> can_fall(all, #[trigger] victims@[k]),
                forall|v: usize| victims@.contains(v) <==> falls_before(all, i as int, j as int, v),
            decreases count - j,
        {
            let ghost found = victims@;
            let verdict = collision_verdict(&actors[i], &actors[j]);
            let victim: Option<usize> = match verdict {
                Verdict::Neither => None,
                Verdict::First => Some(i),
                Verdict::Second => Some(j),
            };
            assert(victim == victim_of_pair(all, i as int, j as int));
            if let Some(v) = victim {
                if !index_listed(&victims, v) {
                    victims.push(v);
                }
            }
            assert(victims@ == with_victim(found, victim));
            assert forall|v: usize| victims@.contains(v) <==> falls_before(
                all,
                i as int,
                j + 1,
                v,
            ) by {
                if victim is Some {
                    vstd::seq_lib::lemma_seq_contains_after_push(found, victim->Some_0, v);
                }
                if falls_before(all, i as int, j + 1, v) {
                    let (a, b) = choose|a: int, b: int|
                        0 <= a < b < all.len() && (a < i || (a == i && b < j + 1))
                            && #[trigger] victim_of_pair(all, a, b) == Some(v);
                    if a == i && b == j {
                        assert(victim == Some(v));
                    } else {
                        assert(falls_before(all, i as int, j as int, v));
                    }
                }
                if found.contains(v) {
                    let (a, b) = choose|a: int, b: int|
                        0 <= a < b < all.len() && (a < i || (a == i && b < j))
                            && #[trigger] victim_of_pair(all, a, b) == Some(v);
                    assert(falls_before(all, i as int, j + 1, v));
                }
                if victim == Some(v) {
                    assert(victim_of_pair(all, i as int, j as int) == Some(v));
                    assert(falls_before(all, i as int, j + 1, v));
                }
            }
            j += 1;
        }
        assert forall|v: usize| victims@.contains(v) <==> falls_before(all, i + 1, 0, v) by {
            if falls_before(all, i + 1, 0, v) {
                let (a, b) = choose|a: int, b: int|
                    0 <= a < b < all.len() && (a < i + 1 || (a == i + 1 && b < 0))
                        && #[trigger] victim_of_pair(all, a, b) == Some(v);
                assert(falls_before(all, i as int, j as int, v));
            }
            if falls_before(all, i as int, j as int, v) {
                let (a, b) = choose|a: int, b: int|
                    0 <= a < b < all.len() && (a < i || (a == i && b < j))
                        && #[trigger] victim_of_pair(all, a, b) == Some(v);
                assert(falls_before(all, i + 1, 0, v));
            }
        }
        i += 1;
    }
    assert forall|v: usize| victims@.contains(v) <==> falls(all, v) by {
        if falls(all, v) {
            let (a, b) = choose|a: int, b: int|
                0 <= a < b < all.len() && #[trigger] victim_of_pair(all, a, b) == Some(v);
            assert(falls_before(all, count as int, 0, v));
        }
        if falls_before(all, count as int, 0, v) {
            let (a, b) = choose|a: int, b: int|
                0 <= a < b < all.len() && (a < count || (a == count && b < 0))
                    && #[trigger] victim_of_pair(all, a, b) == Some(v);
            assert(falls(all, v));
        }
    }
    victims
}

/// Whether the list `indices` holds `index`.
pub fn index_listed(indices: &Vec<usize>, index: usize) -> (listed: bool)
    ensures
        listed == indices@.contains(index),
{
    let mut k: usize = 0;
    while k < indices.len()
        invariant
            k <= indices@.len(),
            forall|m: int| 0 <= m < k ==> indices@[m] != index,
        decreases indices@.len() - k,
    {
        if indices[k] == index {
            return true;
        }
        k += 1;
    }
    false
}

/// What a run of destructions has come to.
pub struct Aftermath {
    /// The game after the destructions.
    pub game: GameView,
    /// What the destructions have signalled, in their order.
    pub signals: Seq<Signal>,
    /// One of the destructions has ended the game, and none came after it.
    pub over: bool,
    /// Every new player that was spawned had room in the game it came to.
    pub fair: bool,
}

/// What the destruction of the first `count` actors of `victims` comes to in
/// the game `before`, one after the other, with `draws[k]` as the outcome of
/// the search for a new player after the destruction of `victims[k]`. A
/// destruction that ends the game is the last one.
pub open spec fn aftermath(
    before: GameView,
    victims: Seq<usize>,
    draws: Seq<Option<NewCharacter>>,
    count: nat,
) -> Aftermath
    decreases count,
{
    if count == 0 {
        Aftermath { game: before, signals: Seq::empty(), over: false, fair: true }
    } else {
        let so_far = aftermath(before, victims, draws, (count - 1) as nat);
        let victim = victims[count - 1] as int;
        let draw = draws[count - 1];
        if so_far.over {
            so_far
        } else {
            Aftermath {
                game: so_far.game.after_destruction(victim, draw),
                signals: so_far.signals + so_far.game.destruction_signals(victim),
                over: so_far.game.over_after_destruction(victim, draw),
                fair: so_far.fair && (so_far.game.needs_player(victim) ==> drawn_for(
                    so_far.game.wrecked(victim),
                    draw,
                )),
            }
        }
    }
}

/// Only the draws for the victims that are counted matter.
pub proof fn lemma_aftermath_draws(
    before: GameView,
    victims: Seq<usize>,
    draws: Seq<Option<NewCharacter>>,
    others: Seq<Option<NewCharacter>>,
    count: nat,
)
    requires
        forall|k: int| 0 <= k < count ==> draws[k] == others[k],
    ensures
        aftermath(before, victims, draws, count) == aftermath(before, victims, others, count),
    decreases count,
{
    if count > 0 {
        lemma_aftermath_draws(before, victims, draws, others, (count - 1) as nat);
    }
}

/// Once the game is over, no further victim is destroyed.
pub proof fn lemma_aftermath_over(
    before: GameView,
    victims: Seq<usize>,
    draws: Seq<Option<NewCharacter>>,
    count: nat,
    later: nat,
)
    requires
        count <= later,
        aftermath(before, victims, draws, count).over,
    ensures
        aftermath(before, victims, draws, later) == aftermath(before, victims, draws, count),
    decreases later,
{
    if count < later {
        lemma_aftermath_over(before, victims, draws, count, (later - 1) as nat);
    }
}

/// What the collisions of one tick have made of the game `before`: the
/// actors of [`spec_collision_victims`] were destroyed in their order, up to
/// the one whose destruction ended the game. Every search for a new player
/// was made among the actors that were left, had some outcome that the game
/// had room for, and found a player while no cell of the border had to be
/// avoided.
pub open spec fn collisions_outcome(
    before: GameView,
    after: GameView,
    signals: Seq<Signal>,
) -> bool {
    exists|draws: Seq<Option<NewCharacter>>| #[trigger]
        collisions_outcome_with(before, draws, after, signals)
}

/// [`collisions_outcome`] with `draws` as the outcomes of the searches.
pub open spec fn collisions_outcome_with(
    before: GameView,
    draws: Seq<Option<NewCharacter>>,
    after: GameView,
    signals: Seq<Signal>,
) -> bool {
    let victims = spec_collision_victims(before.actors);
    let result = aftermath(before, victims, draws, victims.len());
    result.fair && result.game == after && result.signals == signals
}

/// Where no pair of actors destroys anybody, the collisions of a tick change
/// nothing and signal nothing.
pub proof fn lemma_no_victim_no_change(before: GameView, after: GameView, signals: Seq<Signal>)
    requires
        before.actors.len() <= usize::MAX,
        forall|i: int, j: int|
            0 <= i < j < before.actors.len() ==> #[trigger] victim_of_pair(before.actors, i, j)
                is None,
        collisions_outcome(before, after, signals),
    ensures
        spec_collision_victims(before.actors).len() == 0,
        after == before,
        signals == Seq::<Signal>::empty(),
{
    let victims = spec_collision_victims(before.actors);
    if victims.len() > 0 {
        assert(victims.contains(victims[0]));
        lemma_victims_fall(before.actors, before.actors.len() as int, victims[0]);
    }
    let draws = choose|draws: Seq<Option<NewCharacter>>| #[trigger]
        collisions_outcome_with(before, draws, after, signals);
    assert(aftermath(before, victims, draws, 0).game == before);
}

/// Two actors that have both just been spawned and are drawn on top of each
/// other are left as they are by the collisions of a tick, and where no other
/// two actors are drawn close enough to collide, so is the whole game:
/// nothing is spawned, nothing is counted, nothing is signalled.
pub proof fn lemma_grace_period_changes_nothing(
    before: GameView,
    after: GameView,
    signals: Seq<Signal>,
    a: int,
    b: int,
)
    requires
        0 <= a < b < before.actors.len() <= usize::MAX,
        before.actors[a].just_spawned,
        before.actors[b].just_spawned,
        forall|i: int, j: int|
            0 <= i < j < before.actors.len() && !(i == a && j == b) ==> !#[trigger] spec_colliding(
                before.actors[i].translation,
                before.actors[j].translation,
            ),
        collisions_outcome(before, after, signals),
    ensures
        after == before,
        signals == Seq::<Signal>::empty(),
{
    assert forall|i: int, j: int|
        0 <= i < j < before.actors.len() implies #[trigger] victim_of_pair(
        before.actors,
        i,
        j,
    ) is None by {
        if i == a && j == b {
            lemma_grace_period(before.actors[a], before.actors[b]);
        } else {
            assert(!spec_colliding(before.actors[i].translation, before.actors[j].translation));
        }
    }
    lemma_no_victim_no_change(before, after, signals);
}

/// Destroys the actors that collide in this tick and does what follows from
/// each destruction: see [`spec_collision_verdict`] for who is destroyed and
/// [`GameView::after_destruction`] for what follows.
///
/// The collisions are judged by where the actors were drawn last, before any
/// of them is destroyed. No actor that has just been spawned is touched, and
/// nor is any other actor that no pair destroys. Every actor that some pair
/// destroys is destroyed, unless the destruction of a player before it has
/// ended the game. Journeys are not counted here, and attempts are only lost.
pub fn detect_collisions(game: &mut Game) -> (signals: Vec<Signal>)
    ensures
        collisions_outcome(old(game)@, final(game)@, signals@),
        old(game)@.wf() ==> final(game)@.wf(),
        old(game)@.steady() ==> final(game)@.steady(),
        final(game)@.score.nb_journeys == old(game)@.score.nb_journeys,
        final(game)@.score.remaining_attempts <= old(game)@.score.remaining_attempts,
        final(game)@.actors.len() >= old(game)@.actors.len(),
        forall|i: int|
            0 <= i < old(game)@.actors.len() && (old(game)@.actors[i].just_spawned || !falls(
                old(game)@.actors,
                i as usize,
            )) ==> final(game)@.actors[i] == old(game)@.actors[i],
        forall|i: int|
            0 <= i < old(game)@.actors.len() ==> final(game)@.actors[i] == old(game)@.actors[i]
                || final(game)@.actors[i] == old(game)@.actors[i].destroyed(),
        final(game)@.state == GameState::InGame || old(game)@.no_player() ==> forall|i: int|
            0 <= i < old(game)@.actors.len() && falls(old(game)@.actors, i as usize)
                ==> final(game)@.actors[i] == old(game)@.actors[i].destroyed(),
        final(game)@.state != old(game)@.state ==> final(game)@.state == GameState::EndGame,
        spec_collision_victims(old(game)@.actors).len() == 0 ==> final(game)@ == old(game)@
            && signals@.len() == 0,
{
    let victims = collision_victims(&game.actors);
    let mut signals: Vec<Signal> = Vec::new();
    let ghost mut draws: Seq<Option<NewCharacter>> = Seq::empty();
    let mut k: usize = 0;
    while k < victims.len()
        invariant
            k <= victims@.len(),
            draws.len() == k,
            victims@ == spec_collision_victims(old(game)@.actors),
            forall|m: int|
                0 <= m < victims@.len() ==> can_fall(old(game)@.actors, #[trigger] victims@[m]),
            forall|v: usize| victims@.contains(v) <==> falls(old(game)@.actors, v),
            victims@.no_duplicates(),
            forall|m: int|
                k <= m < victims@.len() ==> game@.actors[(#[trigger] victims@[m]) as int] == old(
                    game,
                )@.actors[victims@[m] as int],
            game@.actors.len() >= old(game)@.actors.len(),
            old(game)@.wf() ==> game@.wf(),
            old(game)@.steady() ==> game@.steady(),
            game@.score.nb_journeys == old(game)@.score.nb_journeys,
            game@.score.remaining_attempts <= old(game)@.score.remaining_attempts,
            aftermath(old(game)@, victims@, draws, k as nat) == (Aftermath {
                game: game@,
                signals: signals@,
                over: false,
                fair: true,
            }),
            forall|i: int|
                0 <= i < old(game)@.actors.len() && (old(game)@.actors[i].just_spawned || !falls(
                    old(game)@.actors,
                    i as usize,
                )) ==> game@.actors[i] == old(game)@.actors[i],
            forall|i: int|
                0 <= i < old(game)@.actors.len() ==> game@.actors[i] == old(game)@.actors[i]
                    || game@.actors[i] == old(game)@.actors[i].destroyed(),
            forall|m: int|
                0 <= m < k ==> game@.actors[(#[trigger] victims@[m]) as int] == old(
                    game,
                )@.actors[victims@[m] as int].destroyed(),
            game@.state == old(game)@.state,
        decreases victims@.len() - k,
    {
        let victim: usize = victims[k];
        let ghost so_far = game@;
        let ghost signals_so_far = signals@;
        assert(can_fall(old(game)@.actors, victims@[k as int]));
        assert(victims@.contains(victim));
        assert(so_far.actors[victim as int].is_live());
        let draw: Option<NewCharacter> = if game.needs_player(victim) {
            let avoid_positions = game.avoid_positions_without(Some(victim));
            let bundle = draw_character(&avoid_positions);
            proof {
                let wrecked = so_far.wrecked(victim as int);
                lemma_avoided_by_actors(so_far.without(Some(victim)), wrecked);
                lemma_drawn_for(wrecked, avoid_positions@, bundle);
                if let Some(character) = bundle {
                    lemma_admitted_on_grid(wrecked, character);
                }
            }
            bundle
        } else {
            None
        };
        if game.actors[victim].role == Role::Player {
            signals.push(Signal::Hurt);
        }
        let over = game.destroy(victim, draw);
        proof {
            let longer = draws.push(draw);
            lemma_aftermath_draws(old(game)@, victims@, draws, longer, k as nat);
            draws = longer;
            assert(game@ == so_far.after_destruction(victim as int, draw));
            assert(signals@ =~= signals_so_far + so_far.destruction_signals(victim as int));
            assert(over == so_far.over_after_destruction(victim as int, draw));
        }
        if over {
            proof {
                assert(old(game)@.actors[victim as int].role == Role::Player);
                lemma_aftermath_over(
                    old(game)@,
                    victims@,
                    draws,
                    (k + 1) as nat,
                    victims@.len(),
                );
                assert(collisions_outcome_with(old(game)@, draws, game@, signals@));
            }
            return signals;
        }
        k += 1;
    }
    proof {
        assert(collisions_outcome_with(old(game)@, draws, game@, signals@));
        assert(old(game).actors.len() == old(game).actors@.len());
        assert forall|i: int|
            0 <= i < old(game)@.actors.len() && falls(
                old(game)@.actors,
                i as usize,
            ) implies game@.actors[i] == old(game)@.actors[i].destroyed() by {
            assert(victims@.contains(i as usize));
            let m = choose|m: int| 0 <= m < victims@.len() && victims@[m] == i as usize;
            assert(game@.actors[victims@[m] as int] == old(game)@.actors[victims@[m] as int]
                .destroyed());
        }
    }
    signals
}

} // verus!
