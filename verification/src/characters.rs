//! Where new actors come from: the search for a free start cell and a target
//! on the border of the grid.

use vstd::prelude::*;

use crate::components::{path_contains, Position, Role};
use crate::game::{lemma_admitted_on_grid, Game, GameView};
use crate::random::{choose_two, gen_range};
use crate::scores::NB_ATTEMPTS;
use crate::{GRID_HEIGHT, GRID_WIDTH};

verus! {

/// Number of colours in the palette that new players take their colour from.
pub const NB_COLORS: usize = 5;

/// Failed attempts after which the search takes the start from the whole grid.
pub const FALLBACK_ATTEMPTS: u32 = 1_000;

/// Failed attempts after which the search gives up.
pub const MAX_ATTEMPTS: u32 = 1_000_000;

/// Smallest size of an actor's trail marks, in thousandths of a cell.
pub const MIN_SCALE: u32 = 600;

/// Bound that the size of an actor's trail marks stays under, in thousandths
/// of a cell.
pub const MAX_SCALE: u32 = 900;

/// What is drawn at random for a new player: where it starts, where it has to
/// go, and how large its trail marks are.
#[derive(Debug, Clone, Copy, PartialEq, Eq, Structural)]
pub struct NewCharacter {
    pub start_pos: Position,
    pub target_pos: Position,
    pub scale: u32,
}

impl NewCharacter {
    /// The start and the target are cells of the grid.
    pub open spec fn on_grid(self) -> bool {
        self.start_pos.in_grid() && self.target_pos.in_grid()
    }
}

/// The palette index that new players take their colour from next.
#[derive(Debug, Clone, Copy, PartialEq, Eq, Structural)]
pub struct Characters {
    /// Number of players spawned so far.
    pub color_index: usize,
}

impl Characters {
    /// Index in the palette of the colour that the next player gets.
    pub open spec fn spec_color(self) -> usize {
        self.color_index % NB_COLORS
    }

    /// The state after one more player has taken its colour. The count starts
    /// again from zero past the largest number it can hold.
    pub open spec fn advanced(self) -> Characters {
        Characters {
            color_index: if self.color_index < usize::MAX {
                (self.color_index + 1) as usize
            } else {
                0
            },
        }
    }

    /// Hands out the index of the next player's colour in the palette and
    /// moves on to the colour after it.
    pub fn next_color(&mut self) -> (color: usize)
        ensures
            color == old(self).spec_color(),
            color < NB_COLORS,
            *final(self) == old(self).advanced(),
    {
        let color: usize = self.color_index % NB_COLORS;
        if self.color_index < usize::MAX {
            self.color_index = self.color_index + 1;
        } else {
            self.color_index = 0;
        }
        color
    }
}

impl Default for Characters {
    fn default() -> (characters: Characters)
        ensures
            characters == (Characters { color_index: 0 }),
    {
        Characters { color_index: 0 }
    }
}

/// One of the four sides of the grid.
#[derive(Debug, Clone, Copy, PartialEq, Eq, Structural)]
pub enum Side {
    Top,
    Down,
    Left,
    Right,
}

impl Side {
    /// Number of cells along this side, corners included.
    pub open spec fn spec_length(self) -> int {
        match self {
            Side::Top | Side::Down => GRID_WIDTH as int,
            Side::Left | Side::Right => GRID_HEIGHT as int,
        }
    }

    /// The cell of this side that is `along` cells from its lower or left end.
    pub open spec fn spec_cell(self, along: int) -> Position {
        match self {
            Side::Top => Position { x: along as i32, y: (GRID_HEIGHT - 1) as i32 },
            Side::Down => Position { x: along as i32, y: 0 },
            Side::Left => Position { x: 0, y: along as i32 },
            Side::Right => Position { x: (GRID_WIDTH - 1) as i32, y: along as i32 },
        }
    }

    /// `pos` is a cell of this side and not a corner.
    pub open spec fn holds(self, pos: Position) -> bool {
        exists|along: int|
            1 <= along < self.spec_length() - 1 && pos == #[trigger] self.spec_cell(along)
    }

    /// Number of cells along this side, corners included.
    pub fn length(self) -> (n: u32)
        ensures
            n == self.spec_length(),
            n >= 3,
    {
        match self {
            Side::Top | Side::Down => GRID_WIDTH as u32,
            Side::Left | Side::Right => GRID_HEIGHT as u32,
        }
    }

    /// The cell of this side that is `along` cells from its lower or left end.
    pub fn cell(self, along: u32) -> (pos: Position)
        requires
            along < self.spec_length(),
        ensures
            pos == self.spec_cell(along as int),
            pos.in_grid(),
            1 <= along < self.spec_length() - 1 ==> pos.on_border() && self.holds(pos),
    {
        let pos = match self {
            Side::Top => Position { x: along as i32, y: GRID_HEIGHT - 1 },
            Side::Down => Position { x: along as i32, y: 0 },
            Side::Left => Position { x: 0, y: along as i32 },
            Side::Right => Position { x: GRID_WIDTH - 1, y: along as i32 },
        };
        assert(pos == self.spec_cell(along as int));
        pos
    }

    /// A cell of this side drawn at random, never a corner.
    pub fn rand_position(self) -> (pos: Position)
        ensures
            self.holds(pos),
            pos.on_border(),
    {
        let along: u32 = gen_range(1, self.length() - 1);
        self.cell(along)
    }
}

/// Cells of two different sides are different cells, as long as neither is a
/// corner.
pub proof fn lemma_sides_apart(first: Side, second: Side, a: Position, b: Position)
    requires
        first != second,
        first.holds(a),
        second.holds(b),
    ensures
        a != b,
{
}

/// A cell of the grid drawn at random, border or not.
pub fn rand_position_fallback() -> (pos: Position)
    ensures
        pos.in_grid(),
{
    let x: u32 = gen_range(0, GRID_WIDTH as u32);
    let y: u32 = gen_range(0, GRID_HEIGHT as u32);
    grid_cell(x, y)
}

/// The cell in the column `x` and the row `y`, both counted from the lower
/// left corner of the grid. It lies on the grid exactly if the grid has that
/// column and that row.
pub fn grid_cell(x: u32, y: u32) -> (pos: Position)
    requires
        x <= i32::MAX,
        y <= i32::MAX,
    ensures
        pos == (Position { x: x as i32, y: y as i32 }),
        pos.in_grid() <==> x < GRID_WIDTH && y < GRID_HEIGHT,
{
    Position { x: x as i32, y: y as i32 }
}

/// A start and a target can be given to a new actor: the start is none of the
/// cells to avoid, and the target is another cell than the start.
pub open spec fn acceptable(avoid: Seq<Position>, start: Position, target: Position) -> bool {
    !avoid.contains(start) && start != target
}

/// Whether `start` and `target` can be given to a new actor that has to keep
/// off the cells of `avoid_positions`.
pub fn candidate_accepted(
    avoid_positions: &Vec<Position>,
    start: Position,
    target: Position,
) -> (ok: bool)
    ensures
        ok == acceptable(avoid_positions@, start, target),
{
    !(path_contains(avoid_positions, start) || start == target)
}

/// No cell of the border other than the corners is among `avoid`.
pub open spec fn border_is_free(avoid: Seq<Position>) -> bool {
    forall|pos: Position| pos.on_border() ==> !avoid.contains(pos)
}

/// `start` and `target` lie on two different sides of the grid, and neither is
/// a corner.
pub open spec fn on_two_sides(start: Position, target: Position) -> bool {
    exists|first: Side, second: Side|
        first != second && #[trigger] first.holds(start) && #[trigger] second.holds(target)
}

/// Cells on two different sides are two different cells of the border.
pub proof fn lemma_on_two_sides(start: Position, target: Position)
    requires
        on_two_sides(start, target),
    ensures
        start.on_border(),
        target.on_border(),
        start != target,
{
    let (first, second) = choose|first: Side, second: Side|
        first != second && #[trigger] first.holds(start) && #[trigger] second.holds(target);
    lemma_sides_apart(first, second, start, target);
}

/// The start that an attempt of the search tries: the cell drawn on the
/// border, `on_border`, as long as fewer than [`FALLBACK_ATTEMPTS`] attempts
/// have failed, and the cell drawn from the whole grid, `anywhere`, from then
/// on.
pub open spec fn spec_start_candidate(
    attempts: u32,
    on_border: Position,
    anywhere: Position,
) -> Position {
    if attempts >= FALLBACK_ATTEMPTS {
        anywhere
    } else {
        on_border
    }
}

/// The start that the attempt after `attempts` failed ones tries, of the cell
/// `on_border` drawn on the border and the cell `anywhere` drawn from the
/// whole grid.
pub fn start_candidate(attempts: u32, on_border: Position, anywhere: Position) -> (start: Position)
    ensures
        start == spec_start_candidate(attempts, on_border, anywhere),
{
    if attempts >= FALLBACK_ATTEMPTS {
        anywhere
    } else {
        on_border
    }
}

/// Searches a start and a target for a new actor that has to keep off the
/// cells of `avoid_positions`.
///
/// Every attempt draws two different sides of the grid and a cell on each that
/// is not a corner: the first is the start, the second the target. Once
/// [`FALLBACK_ATTEMPTS`] attempts have failed, the start is a cell drawn from
/// the whole grid instead, see [`start_candidate`]. An attempt fails when the
/// start is one of the cells to avoid or the target itself. After
/// [`MAX_ATTEMPTS`] failed attempts the search gives up: there is no room
/// left.
///
/// What a search returns depends on the draws. Whatever they are, a pair that
/// is returned is acceptable, and when no cell of the border is to be avoided
/// the first attempt succeeds, with start and target on two different sides.
pub fn rand_journey_target(avoid_positions: &Vec<Position>) -> (found: Option<(Position, Position)>)
    ensures
        found matches Some((start, target)) ==> {
            &&& acceptable(avoid_positions@, start, target)
            &&& start.in_grid()
            &&& target.on_border()
        },
        border_is_free(avoid_positions@) ==> (found matches Some((start, target))
            && start.on_border() && on_two_sides(start, target)),
{
    let sides: Vec<Side> = vec![Side::Top, Side::Down, Side::Left, Side::Right];
    let mut attempts: u32 = 0;
    while attempts < MAX_ATTEMPTS
        invariant
            sides@ == seq![Side::Top, Side::Down, Side::Left, Side::Right],
            border_is_free(avoid_positions@) ==> attempts == 0,
        decreases MAX_ATTEMPTS - attempts,
    {
        let (first, second) = choose_two(&sides);
        let on_border = first.rand_position();
        let anywhere = rand_position_fallback();
        let start_pos = start_candidate(attempts, on_border, anywhere);
        let target_pos = second.rand_position();
        proof {
            if attempts < FALLBACK_ATTEMPTS {
                assert(first.holds(start_pos) && second.holds(target_pos));
                assert(on_two_sides(start_pos, target_pos));
                lemma_sides_apart(first, second, start_pos, target_pos);
            }
        }
        if candidate_accepted(avoid_positions, start_pos, target_pos) {
            return Some((start_pos, target_pos));
        }
        attempts += 1;
    }
    None
}

/// What holds of whatever [`draw_character`] returns for the cells `avoid`:
/// a character that is returned starts on none of them, on the grid, has
/// another cell as its target, on the border, and a scale in range; and one
/// is returned, with start and target on two different sides of the grid,
/// when no cell of the border is among `avoid`.
pub open spec fn drawn_among(avoid: Seq<Position>, bundle: Option<NewCharacter>) -> bool {
    &&& bundle matches Some(character) ==> {
        &&& acceptable(avoid, character.start_pos, character.target_pos)
        &&& character.start_pos.in_grid()
        &&& character.target_pos.on_border()
        &&& MIN_SCALE <= character.scale < MAX_SCALE
    }
    &&& border_is_free(avoid) ==> {
        &&& bundle matches Some(character)
        &&& character.start_pos.on_border()
        &&& on_two_sides(character.start_pos, character.target_pos)
    }
}

/// Draws what a new player is made of, for a player that has to keep off the
/// cells of `avoid_positions`: a start and a target, and a scale. Holds
/// nothing where the search for the start and the target gave up.
pub fn draw_character(avoid_positions: &Vec<Position>) -> (bundle: Option<NewCharacter>)
    ensures
        drawn_among(avoid_positions@, bundle),
{
    match rand_journey_target(avoid_positions) {
        Some((start_pos, target_pos)) => Some(
            NewCharacter { start_pos, target_pos, scale: gen_range(MIN_SCALE, MAX_SCALE) },
        ),
        None => None,
    }
}

/// What holds of whatever is drawn for a new player of the game `game`: a
/// character that is returned can be spawned in it, and one is returned,
/// with start and target on two different sides of the grid, when no cell of
/// the border has to be avoided.
pub open spec fn drawn_for(game: GameView, bundle: Option<NewCharacter>) -> bool {
    &&& bundle matches Some(character) ==> game.admits(character)
    &&& game.border_is_free() ==> {
        &&& bundle matches Some(character)
        &&& character.start_pos.on_border()
        &&& on_two_sides(character.start_pos, character.target_pos)
    }
}

/// A draw among the cells that a game says to avoid is a draw for that game.
pub proof fn lemma_drawn_for(game: GameView, avoid: Seq<Position>, bundle: Option<NewCharacter>)
    requires
        forall|pos: Position| avoid.contains(pos) <==> game.must_avoid(pos),
        drawn_among(avoid, bundle),
    ensures
        drawn_for(game, bundle),
{
    if game.border_is_free() {
        assert(border_is_free(avoid));
    }
}

/// Draws what a new player is made of: a start and a target that the actors
/// of `game` leave room for, and a scale. Holds nothing where the search for
/// the start and the target gave up.
///
/// What comes back depends on the draws. Whatever they are, a character that
/// is returned can be spawned in `game`, and one is returned when no cell of
/// the border has to be avoided.
pub fn character_bundle(game: &Game) -> (bundle: Option<NewCharacter>)
    ensures
        drawn_for(game@, bundle),
        bundle matches Some(character) ==> game@.admits(character),
        game@.border_is_free() ==> bundle is Some,
{
    let avoid_positions = game.avoid_positions();
    let bundle = draw_character(&avoid_positions);
    proof {
        lemma_drawn_for(game@, avoid_positions@, bundle);
    }
    bundle
}

/// What a search for a new player has made of the game `before`: with
/// `spawned`, the player spawned last in `after` is one that `before` had
/// room for, and `after` is `before` with that player; without, `after` is
/// `before` at its end. While no cell of the border had to be avoided, the
/// player was spawned, with start and target on two different sides of the
/// grid.
pub open spec fn spawn_outcome(before: GameView, spawned: bool, after: GameView) -> bool {
    &&& drawn_for(
        before,
        if spawned {
            Some(after.last_character())
        } else {
            None
        },
    )
    &&& after == before.with_spawn(
        if spawned {
            Some(after.last_character())
        } else {
            None
        },
    )
}

/// Spawns the first player of a game, on a start and with a target drawn at
/// random. Where the search for them gives up, the game is at its end.
///
/// In a game without any actor the player is spawned, whatever is drawn.
pub fn spawn_first_player(game: &mut Game) -> (spawned: bool)
    ensures
        spawn_outcome(old(game)@, spawned, final(game)@),
        old(game)@.border_is_free() ==> spawned,
        old(game)@.actors.len() == 0 ==> spawned,
        old(game)@.wf() && old(game)@.no_player() ==> final(game)@.wf(),
        old(game)@.wf() && old(game)@.no_player() && 0 < old(game)@.score.remaining_attempts
            <= NB_ATTEMPTS ==> final(game)@.steady(),
{
    let draw = character_bundle(game);
    proof {
        if let Some(character) = draw {
            lemma_admitted_on_grid(game@, character);
        }
    }
    game.spawn(draw)
}

/// What the completed journey of the actor `index` has made of the game
/// `before`: a player was searched for among the actors of `before`, and
/// the actor is a bot. With `spawned`, the player spawned last in `after` is
/// one that `before` had room for, and it has taken over; without, the game
/// is at its end. While no cell of the border had to be avoided, the player
/// was spawned, with start and target on two different sides of the grid.
pub open spec fn journey_outcome(
    before: GameView,
    index: int,
    spawned: bool,
    after: GameView,
) -> bool {
    &&& drawn_for(
        before,
        if spawned {
            Some(after.last_character())
        } else {
            None
        },
    )
    &&& after == before.after_journey(
        index,
        if spawned {
            Some(after.last_character())
        } else {
            None
        },
    )
}

/// The game `game` with the actor `index` turned into a bot.
pub open spec fn turned(game: GameView, index: int) -> GameView {
    game.with_actor(index, game.actors[index].automated())
}

/// Turning an actor into a bot frees no cell.
pub proof fn lemma_turned_avoids_more(game: GameView, index: int)
    requires
        0 <= index < game.actors.len(),
    ensures
        forall|pos: Position| game.must_avoid(pos) ==> turned(game, index).must_avoid(pos),
        turned(game, index).border_is_free() ==> game.border_is_free(),
{
    let after = turned(game, index);
    assert forall|pos: Position| game.must_avoid(pos) implies after.must_avoid(pos) by {
        let k = choose|k: int|
            0 <= k < game.actors.len() && k < game.actors.len() && #[trigger] game.keeps_off(
                k,
                pos,
            );
        assert(after.keeps_off(k, pos));
    }
}

/// Lets a new player take over from the actor `index`, whose journey is
/// complete: a new player is drawn a start and a target among the actors as
/// they are, the actor becomes a bot that replays its path from the first
/// cell, and the new player is spawned. Where the search for start and target
/// gives up, the game is at its end. It does not give up while the border is
/// free.
pub fn add_new_character_on_finished_journey(game: &mut Game, index: usize) -> (spawned: bool)
    requires
        index < old(game)@.actors.len(),
    ensures
        journey_outcome(old(game)@, index as int, spawned, final(game)@),
        old(game)@.border_is_free() ==> spawned,
        turned(old(game)@, index as int).border_is_free() ==> spawned,
        old(game)@.wf() && old(game)@.actors[index as int].role == Role::Player && old(
            game,
        )@.actors[index as int].journey.path.len() > 0 ==> final(game)@.wf(),
        old(game)@.steady() && old(game)@.actors[index as int].role == Role::Player && old(
            game,
        )@.actors[index as int].journey.path.len() > 0 ==> final(game)@.steady(),
{
    let draw = character_bundle(game);
    proof {
        if let Some(character) = draw {
            lemma_admitted_on_grid(game@, character);
        }
        lemma_turned_avoids_more(game@, index as int);
    }
    game.finish_journey(index, draw)
}

} // verus!
