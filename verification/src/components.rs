//! The values that actors are made of: cells, points, moves in progress,
//! journeys and lifecycle roles.

use vstd::prelude::*;

use crate::characters::NewCharacter;
use crate::geometry::{is_isqrt, isqrt, lemma_isqrt_of_square, lemma_square_monotonic, spec_isqrt};
use crate::movements::{spec_sprite_position_translation, sprite_position_translation, SPEED};
use crate::{COORD_LIMIT, GRID_HEIGHT, GRID_WIDTH, UNIT};

verus! {

/// `v` brought into the closed interval from `lo` to `hi`.
pub open spec fn clamp(v: int, lo: int, hi: int) -> int {
    if v < lo {
        lo
    } else if v > hi {
        hi
    } else {
        v
    }
}

/// One of the four directions an actor can be told to move in.
#[derive(Debug, Clone, Copy, PartialEq, Eq, Structural)]
pub enum Direction {
    Up,
    Down,
    Left,
    Right,
}

impl Direction {
    /// Horizontal component of the unit step in this direction.
    pub open spec fn dx(self) -> int {
        match self {
            Direction::Left => -1,
            Direction::Right => 1,
            _ => 0,
        }
    }

    /// Vertical component of the unit step in this direction.
    pub open spec fn dy(self) -> int {
        match self {
            Direction::Up => 1,
            Direction::Down => -1,
            _ => 0,
        }
    }
}

/// A point with fixed point coordinates, [`UNIT`] sub-units to the whole unit.
#[derive(Debug, Clone, Copy, PartialEq, Eq, Structural)]
pub struct Point {
    pub x: i64,
    pub y: i64,
}

impl Point {
    /// Both coordinates are small enough for the geometry to scale them.
    pub open spec fn in_range(self) -> bool {
        &&& -COORD_LIMIT <= self.x <= COORD_LIMIT
        &&& -COORD_LIMIT <= self.y <= COORD_LIMIT
    }
}

/// A cell of the grid.
#[derive(Debug, Clone, Copy, PartialEq, Eq, Structural)]
pub struct Position {
    pub x: i32,
    pub y: i32,
}

impl Position {
    /// The cell lies on the grid.
    pub open spec fn in_grid(self) -> bool {
        0 <= self.x < GRID_WIDTH && 0 <= self.y < GRID_HEIGHT
    }

    /// The cell lies on the outer ring of the grid and is not a corner.
    pub open spec fn on_border(self) -> bool {
        ||| (self.x == 0 || self.x == GRID_WIDTH - 1) && 1 <= self.y < GRID_HEIGHT - 1
        ||| (self.y == 0 || self.y == GRID_HEIGHT - 1) && 1 <= self.x < GRID_WIDTH - 1
    }

    /// The cell's own coordinates as a point of grid space.
    pub open spec fn spec_as_point(self) -> Point {
        Point { x: (self.x * UNIT) as i64, y: (self.y * UNIT) as i64 }
    }

    /// The cell's own coordinates as a point of grid space.
    #[verifier::when_used_as_spec(spec_as_point)]
    pub fn as_point(self) -> (p: Point)
        ensures
            p == self.spec_as_point(),
            p.x == self.x * UNIT,
            p.y == self.y * UNIT,
            p.in_range(),
    {
        Point { x: self.x as i64 * UNIT, y: self.y as i64 * UNIT }
    }

    /// The cell one step from this one in direction `d`, or this cell itself
    /// where that step would leave the grid.
    pub open spec fn spec_moved(self, d: Direction) -> Position {
        Position {
            x: clamp(self.x + d.dx(), 0, GRID_WIDTH - 1) as i32,
            y: clamp(self.y + d.dy(), 0, GRID_HEIGHT - 1) as i32,
        }
    }

    /// The cell one step from this one in direction `d`, kept on the grid.
    #[verifier::when_used_as_spec(spec_moved)]
    pub fn moved(self, d: Direction) -> (next: Position)
        ensures
            next == self.spec_moved(d),
            next.in_grid(),
    {
        let (dx, dy): (i64, i64) = match d {
            Direction::Up => (0, 1),
            Direction::Down => (0, -1),
            Direction::Left => (-1, 0),
            Direction::Right => (1, 0),
        };
        let x: i64 = self.x as i64 + dx;
        let y: i64 = self.y as i64 + dy;
        let x: i64 = if x < 0 {
            0
        } else if x > GRID_WIDTH as i64 - 1 {
            GRID_WIDTH as i64 - 1
        } else {
            x
        };
        let y: i64 = if y < 0 {
            0
        } else if y > GRID_HEIGHT as i64 - 1 {
            GRID_HEIGHT as i64 - 1
        } else {
            y
        };
        Position { x: x as i32, y: y as i32 }
    }
}

/// The length `len` laid out in the direction of `d`: forwards where `d` is
/// positive, backwards where it is negative, not at all where it is zero.
pub open spec fn directed(d: int, len: int) -> int {
    if d < 0 {
        -len
    } else if d > 0 {
        len
    } else {
        0
    }
}

/// How far along one axis a point has come that has covered the distance `t`
/// on a straight line whose direction has the component `d` on that axis and
/// the squared length `d2`: `t * d / sqrt(d2)`, rounded towards zero.
pub open spec fn displacement(d: int, d2: int, t: int) -> int
    recommends
        d2 > 0,
{
    directed(d, spec_isqrt(((d * t) * (d * t)) / d2))
}

/// A displacement along one axis is never longer than the distance covered.
pub proof fn lemma_displacement_bound(a: int, d2: int, t: int, q: int)
    requires
        0 <= a,
        a * a <= d2,
        0 < d2,
        0 <= t,
        is_isqrt(((a * t) * (a * t)) / d2, q),
    ensures
        q <= t,
{
    if a == 0 {
        assert((a * t) * (a * t) == 0) by (nonlinear_arith)
            requires
                a == 0,
        ;
        assert(0int / d2 == 0) by (nonlinear_arith)
            requires
                d2 > 0,
        ;
        if q > 0 {
            lemma_square_monotonic(1, q);
        }
    } else {
        let n = (a * t) * (a * t);
        assert(n <= d2 * (t * t)) by (nonlinear_arith)
            requires
                n == (a * t) * (a * t),
                0 <= a,
                a * a <= d2,
                0 <= t,
        ;
        assert(n / d2 <= t * t) by (nonlinear_arith)
            requires
                n <= d2 * (t * t),
                d2 > 0,
        ;
        if q > t {
            lemma_square_monotonic(t + 1, q);
            assert((t + 1) * (t + 1) > t * t) by (nonlinear_arith)
                requires
                    0 <= t,
            ;
        }
    }
}

/// Along a line that follows one axis, the displacement on that axis is the
/// whole distance covered.
pub proof fn lemma_displacement_on_axis(a: int, t: int)
    requires
        0 < a,
        0 <= t,
    ensures
        spec_isqrt(((a * t) * (a * t)) / (a * a)) == t,
{
    let n = (a * t) * (a * t);
    let d2 = a * a;
    assert(n == (t * t) * d2) by (nonlinear_arith)
        requires
            n == (a * t) * (a * t),
            d2 == a * a,
    ;
    assert(d2 > 0) by (nonlinear_arith)
        requires
            d2 == a * a,
            0 < a,
    ;
    assert(((t * t) * d2) / d2 == t * t) by (nonlinear_arith)
        requires
            d2 > 0,
    ;
    lemma_isqrt_of_square(t);
}

/// A move in progress: the actor has left `start` for `end` and has covered
/// `travelled` sub-units of the way so far.
#[derive(Debug, Clone, Copy, PartialEq, Eq, Structural)]
pub struct Transition {
    /// The cell the actor has left.
    pub start: Position,
    /// The cell the actor is moving to.
    pub end: Position,
    /// Distance covered since `start`, in sub-units of a cell.
    pub travelled: u32,
}

impl Transition {
    /// The distance covered is no more than the one cell a move is worth.
    pub open spec fn wf(self) -> bool {
        self.travelled <= UNIT
    }

    /// The actor has covered one cell's length and snaps to `end`.
    pub open spec fn arrived(self) -> bool {
        self.travelled >= UNIT
    }

    /// The distance covered that counts: no more than one cell's length.
    pub open spec fn covered(self) -> int {
        if self.travelled <= UNIT {
            self.travelled as int
        } else {
            UNIT as int
        }
    }

    /// Where the actor is, in grid space: `start` displaced by the distance
    /// covered along the straight line to `end`.
    pub open spec fn spec_current(self) -> Point {
        let dx = self.end.x - self.start.x;
        let dy = self.end.y - self.start.y;
        let d2 = dx * dx + dy * dy;
        if d2 == 0 {
            self.start.as_point()
        } else {
            Point {
                x: (self.start.x * UNIT + displacement(dx, d2, self.covered())) as i64,
                y: (self.start.y * UNIT + displacement(dy, d2, self.covered())) as i64,
            }
        }
    }

    /// The move after `dt_micros` more microseconds at [`SPEED`]. A move
    /// between a cell and itself has no direction and covers no distance.
    pub open spec fn spec_advanced(self, dt_micros: u32) -> Transition {
        if self.start == self.end {
            self
        } else if self.travelled + SPEED * dt_micros >= UNIT {
            Transition { travelled: UNIT as u32, ..self }
        } else {
            Transition { travelled: (self.travelled + SPEED * dt_micros) as u32, ..self }
        }
    }

    /// A move from `start` to `end` that has not covered any distance yet.
    pub fn new(start: Position, end: Position) -> (transition: Transition)
        ensures
            transition == (Transition { start, end, travelled: 0 }),
            transition.wf(),
            !transition.arrived(),
    {
        Transition { start, end, travelled: 0 }
    }

    /// Moves on for `dt_micros` microseconds at [`SPEED`] along the straight
    /// line from `start` to `end`, and says whether the actor has now covered
    /// one cell's length. The distance covered stops growing there.
    pub fn advance(&mut self, dt_micros: u32) -> (arrived: bool)
        ensures
            *final(self) == old(self).spec_advanced(dt_micros),
            arrived == final(self).arrived(),
            old(self).wf() ==> final(self).wf(),
    {
        if self.start != self.end {
            assert(SPEED * dt_micros <= 10 * u32::MAX) by (nonlinear_arith)
                requires
                    SPEED == 10,
                    dt_micros <= u32::MAX,
            ;
            let reach: u64 = self.travelled as u64 + SPEED as u64 * dt_micros as u64;
            if reach >= UNIT as u64 {
                self.travelled = UNIT as u32;
            } else {
                self.travelled = reach as u32;
            }
        }
        self.travelled >= UNIT as u32
    }

    /// Where the actor is, in grid space. Along an axis of the grid this is
    /// exact; on any other line each coordinate is rounded towards `start`.
    pub fn current(&self) -> (p: Point)
        ensures
            p == self.spec_current(),
            p.in_range(),
            self.start.y == self.end.y ==> p.y == self.start.y * UNIT && p.x == self.start.x * UNIT
                + directed(self.end.x - self.start.x, self.covered()),
            self.start.x == self.end.x ==> p.x == self.start.x * UNIT && p.y == self.start.y * UNIT
                + directed(self.end.y - self.start.y, self.covered()),
    {
        let dx: i64 = self.end.x as i64 - self.start.x as i64;
        let dy: i64 = self.end.y as i64 - self.start.y as i64;
        if dx == 0 && dy == 0 {
            return self.start.as_point();
        }
        assert(0 <= dx * dx <= 0x1_0000_0000_0000_0000 && 0 <= dy * dy <= 0x1_0000_0000_0000_0000
            && dx * dx + dy * dy > 0) by (nonlinear_arith)
            requires
                -0x1_0000_0000 < dx < 0x1_0000_0000,
                -0x1_0000_0000 < dy < 0x1_0000_0000,
                dx != 0 || dy != 0,
        ;
        let d2: u128 = (dx as i128 * dx as i128 + dy as i128 * dy as i128) as u128;
        let covered: u32 = if self.travelled as i64 <= UNIT {
            self.travelled
        } else {
            UNIT as u32
        };
        let ox: i64 = displaced(dx, d2, covered);
        let oy: i64 = displaced(dy, d2, covered);
        Point { x: self.start.x as i64 * UNIT + ox, y: self.start.y as i64 * UNIT + oy }
    }
}

/// How far along one axis a point has come that has covered the distance `t`
/// on a straight line whose direction has the component `d` on that axis and
/// the squared length `d2`.
pub fn displaced(d: i64, d2: u128, t: u32) -> (offset: i64)
    requires
        -0x1_0000_0000 < d < 0x1_0000_0000,
        0 < d2,
        d * d <= d2,
        t <= UNIT,
    ensures
        offset == displacement(d as int, d2 as int, t as int),
        -t <= offset <= t,
        d2 == d * d ==> offset == directed(d as int, t as int),
        d == 0 ==> offset == 0,
{
    let a: u128 = (if d < 0 {
        -d
    } else {
        d
    }) as u128;
    assert(a * t <= 0x1_0000_0000 * 1_000_000) by (nonlinear_arith)
        requires
            0 <= a <= 0x1_0000_0000,
            0 <= t <= 1_000_000,
    ;
    let product: u128 = a * t as u128;
    assert(product * product <= u128::MAX) by (nonlinear_arith)
        requires
            0 <= product <= 0x1_0000_0000 * 1_000_000,
    ;
    let length: u64 = isqrt((product * product) / d2);
    proof {
        assert(a * a == d * d && (a * t) * (a * t) == (d * t) * (d * t)) by (nonlinear_arith)
            requires
                a == d || a == -d,
        ;
        lemma_displacement_bound(a as int, d2 as int, t as int, length as int);
        if d2 == d * d {
            lemma_displacement_on_axis(a as int, t as int);
        }
    }
    if d < 0 {
        -(length as i64)
    } else if d > 0 {
        length as i64
    } else {
        0
    }
}

/// Whether `path` holds the cell `pos`.
pub fn path_contains(path: &Vec<Position>, pos: Position) -> (found: bool)
    ensures
        found == path@.contains(pos),
{
    let mut i: usize = 0;
    while i < path.len()
        invariant
            i <= path@.len(),
            forall|k: int| 0 <= k < i ==> path@[k] != pos,
        decreases path@.len() - i,
    {
        if path[i] == pos {
            return true;
        }
        i += 1;
    }
    false
}

/// A copy of `path`, cell by cell.
pub fn copy_path(path: &Vec<Position>) -> (copy: Vec<Position>)
    ensures
        copy@ == path@,
{
    let mut copy: Vec<Position> = Vec::new();
    let mut i: usize = 0;
    while i < path.len()
        invariant
            i <= path@.len(),
            copy@ == path@.subrange(0, i as int),
        decreases path@.len() - i,
    {
        copy.push(path[i]);
        assert(copy@ =~= path@.subrange(0, i + 1));
        i += 1;
    }
    assert(path@.subrange(0, i as int) =~= path@);
    copy
}

/// The replay cursor that follows `bot_index` on a path of `len` cells. An
/// unset cursor counts as the one before the first cell.
pub open spec fn next_bot_index(bot_index: Option<usize>, len: nat) -> int
    recommends
        len > 0,
{
    match bot_index {
        Some(i) => (i + 1) % (len as int),
        None => 0,
    }
}

/// What an actor has to do and what it has done so far: where it started,
/// where it has to go, and the cells it has been on since it set out.
#[derive(Debug, Clone, PartialEq, Eq)]
pub struct Journey {
    /// The cell the actor was spawned on and has to come back to.
    pub start_pos: Position,
    /// The cell the actor has to reach before it comes back.
    pub target_pos: Position,
    /// The cells the actor has entered since it was spawned, oldest first. A
    /// cell is recorded when the actor sets out for it, and nothing is
    /// recorded any more once the actor is a bot.
    pub path: Vec<Position>,
    /// Index in `path` of the cell a bot last set out for; unset for a player.
    pub bot_index: Option<usize>,
    /// Index of the actor's colour in the palette. Display only.
    pub color: usize,
    /// Size of the actor's trail marks, in thousandths of a cell. Display only.
    pub scale: u32,
}

/// The mathematical value of a [`Journey`].
pub struct JourneyView {
    pub start_pos: Position,
    pub target_pos: Position,
    pub path: Seq<Position>,
    pub bot_index: Option<usize>,
    pub color: usize,
    pub scale: u32,
}

impl View for Journey {
    type V = JourneyView;

    open spec fn view(&self) -> JourneyView {
        JourneyView {
            start_pos: self.start_pos,
            target_pos: self.target_pos,
            path: self.path@,
            bot_index: self.bot_index,
            color: self.color,
            scale: self.scale,
        }
    }
}

impl JourneyView {
    /// The journey with `pos` recorded as the latest cell of its path.
    pub open spec fn recorded(self, pos: Position) -> JourneyView {
        JourneyView { path: self.path.push(pos), ..self }
    }

    /// The journey of a bot that is about to start its replay.
    pub open spec fn restarted(self) -> JourneyView {
        JourneyView { bot_index: Some(0usize), ..self }
    }

    /// The journey after one replay step: the cursor moves on by one cell and
    /// wraps at the end of the path. Nothing changes on an empty path.
    pub open spec fn replayed(self) -> JourneyView {
        if self.path.len() == 0 {
            self
        } else {
            JourneyView {
                bot_index: Some(next_bot_index(self.bot_index, self.path.len()) as usize),
                ..self
            }
        }
    }

    /// The journey after `steps` replay steps.
    pub open spec fn replayed_times(self, steps: nat) -> JourneyView
        decreases steps,
    {
        if steps == 0 {
            self
        } else {
            self.replayed_times((steps - 1) as nat).replayed()
        }
    }

    /// The cell a bot with this journey last set out for, if it has set out.
    pub open spec fn destination(self) -> Option<Position> {
        match self.bot_index {
            Some(i) => if i < self.path.len() {
                Some(self.path[i as int])
            } else {
                None
            },
            None => None,
        }
    }

    /// The start, the target and every cell of the path are cells of the
    /// grid.
    pub open spec fn on_grid(self) -> bool {
        &&& self.start_pos.in_grid()
        &&& self.target_pos.in_grid()
        &&& forall|k: int| 0 <= k < self.path.len() ==> (#[trigger] self.path[k]).in_grid()
    }

    /// The replay cursor, where it is set, points into the path.
    pub open spec fn cursor_in_path(self) -> bool {
        self.bot_index matches Some(i) ==> i < self.path.len()
    }
}

impl Journey {
    /// The journey of an actor that was just spawned on `start_pos`: nothing
    /// recorded yet, no replay cursor.
    pub fn new(start_pos: Position, target_pos: Position, color: usize, scale: u32) -> (journey:
        Journey)
        ensures
            journey@ == (JourneyView {
                start_pos,
                target_pos,
                path: Seq::empty(),
                bot_index: None,
                color,
                scale,
            }),
    {
        Journey { start_pos, target_pos, path: Vec::new(), bot_index: None, color, scale }
    }

    /// Records `pos` as the latest cell of the path.
    pub fn record(&mut self, pos: Position)
        ensures
            final(self)@ == old(self)@.recorded(pos),
    {
        self.path.push(pos);
    }

    /// Turns the journey into that of a bot: the path is kept as it is and the
    /// replay starts from its first cell.
    pub fn restart(&mut self)
        ensures
            final(self)@ == old(self)@.restarted(),
    {
        self.bot_index = Some(0);
    }

    /// A journey of its own with the same cells and display attributes, ready
    /// to be replayed from the first cell of the path.
    pub fn replica(&self) -> (copy: Journey)
        ensures
            copy@ == self@.restarted(),
    {
        Journey {
            start_pos: self.start_pos,
            target_pos: self.target_pos,
            path: copy_path(&self.path),
            bot_index: Some(0),
            color: self.color,
            scale: self.scale,
        }
    }

    /// One replay step. Moves the cursor on by one cell, wrapping at the end
    /// of the path, and returns the cell it then points at. On an empty path
    /// there is nothing to replay: the journey is left alone and no cell is
    /// returned.
    pub fn replay_step(&mut self) -> (dest: Option<Position>)
        ensures
            final(self)@ == old(self)@.replayed(),
            old(self).path@.len() == 0 ==> dest is None,
            old(self).path@.len() > 0 ==> dest == Some(
                old(self).path@[next_bot_index(old(self).bot_index, old(self).path@.len())],
            ),
            old(self).path@.len() > 0 ==> dest == final(self)@.destination(),
            old(self).path@.len() > 0 ==> final(self)@.cursor_in_path(),
    {
        let len: usize = self.path.len();
        if len == 0 {
            return None;
        }
        let next: usize = match self.bot_index {
            Some(i) => {
                let r: usize = i % len;
                proof {
                    vstd::arithmetic::div_mod::lemma_add_mod_noop_right(1, i as int, len as int);
                    if r + 1 == len {
                        vstd::arithmetic::div_mod::lemma_mod_self_0(len as int);
                    } else {
                        vstd::arithmetic::div_mod::lemma_small_mod((r + 1) as nat, len as nat);
                    }
                }
                if r + 1 == len {
                    0
                } else {
                    r + 1
                }
            },
            None => 0,
        };
        self.bot_index = Some(next);
        Some(self.path[next])
    }
}

/// The role an actor plays at a given time. An actor has one role, never two.
#[derive(Debug, Clone, Copy, PartialEq, Eq, Structural)]
pub enum Role {
    /// Moved by the player's input.
    Player,
    /// A bot that replays the path of its finished journey.
    Automated,
    /// Taken out by a collision: no longer moves, collides or holds a cell.
    Destroyed,
}

/// Something that moves on the grid.
#[derive(Debug, Clone, PartialEq, Eq)]
pub struct Actor {
    /// The role the actor plays.
    pub role: Role,
    /// The cell the actor stands on, or has last left while it moves.
    pub position: Position,
    /// The move the actor is making, if it is making one.
    pub transition: Option<Transition>,
    /// The actor has been spawned and has not completed a move since: it
    /// cannot be destroyed.
    pub just_spawned: bool,
    /// What the actor has to do and has done so far.
    pub journey: Journey,
    /// The world point at which the actor was last drawn.
    pub translation: Point,
}

/// The mathematical value of an [`Actor`].
pub struct ActorView {
    pub role: Role,
    pub position: Position,
    pub transition: Option<Transition>,
    pub just_spawned: bool,
    pub journey: JourneyView,
    pub translation: Point,
}

impl View for Actor {
    type V = ActorView;

    open spec fn view(&self) -> ActorView {
        ActorView {
            role: self.role,
            position: self.position,
            transition: self.transition,
            just_spawned: self.just_spawned,
            journey: self.journey@,
            translation: self.translation,
        }
    }
}

impl ActorView {
    /// The actor moves and collides: it is a player or a bot.
    pub open spec fn is_live(self) -> bool {
        self.role != Role::Destroyed
    }

    /// The actor is a player that can take a move: it is not making one.
    pub open spec fn is_idle_player(self) -> bool {
        self.role == Role::Player && self.transition is None
    }

    /// What holds of every actor of a game: it stands on the grid, and so do
    /// the cells of its journey; a bot has a path and a replay cursor inside
    /// it, and a player has no cursor; a move that is still attached has not
    /// arrived, and it leads from one cell of the grid to another.
    pub open spec fn wf(self) -> bool {
        &&& self.position.in_grid()
        &&& self.journey.on_grid()
        &&& self.role == Role::Automated ==> {
            &&& self.journey.path.len() > 0
            &&& self.journey.bot_index is Some
            &&& self.journey.cursor_in_path()
        }
        &&& self.role == Role::Player ==> self.journey.bot_index is None
        &&& self.transition matches Some(t) ==> !t.arrived() && t.start.in_grid()
            && t.end.in_grid()
    }

    /// The player that `character` describes, just spawned on its start cell
    /// with the colour `color`.
    pub open spec fn new_player(character: NewCharacter, color: usize) -> ActorView {
        ActorView {
            role: Role::Player,
            position: character.start_pos,
            transition: None,
            just_spawned: true,
            journey: JourneyView {
                start_pos: character.start_pos,
                target_pos: character.target_pos,
                path: Seq::empty(),
                bot_index: None,
                color,
                scale: character.scale,
            },
            translation: spec_sprite_position_translation(character.start_pos.as_point()),
        }
    }

    /// The bot that takes the place of this one: just spawned on the start
    /// cell, with the same journey, about to replay it from the first cell.
    pub open spec fn replacement(self) -> ActorView {
        ActorView {
            role: Role::Automated,
            position: self.journey.start_pos,
            transition: None,
            just_spawned: true,
            journey: self.journey.restarted(),
            translation: spec_sprite_position_translation(self.journey.start_pos.as_point()),
        }
    }

    /// The actor turned into a bot that is about to replay its path.
    pub open spec fn automated(self) -> ActorView {
        ActorView { role: Role::Automated, journey: self.journey.restarted(), ..self }
    }

    /// The actor taken out of the game.
    pub open spec fn destroyed(self) -> ActorView {
        ActorView { role: Role::Destroyed, ..self }
    }

    /// The actor setting out for the cell `next`: the cell it enters is
    /// recorded in its path.
    pub open spec fn setting_out(self, next: Position) -> ActorView {
        ActorView {
            transition: Some(Transition { start: self.position, end: next, travelled: 0 }),
            journey: self.journey.recorded(next),
            ..self
        }
    }

    /// The actor after one replay step: it sets out from the cell it stands
    /// on for the next cell of its path. Nothing happens on an empty path.
    pub open spec fn replaying(self) -> ActorView {
        if self.journey.path.len() == 0 {
            self
        } else {
            ActorView {
                transition: Some(
                    Transition {
                        start: self.position,
                        end: self.journey.replayed().destination()->Some_0,
                        travelled: 0,
                    },
                ),
                journey: self.journey.replayed(),
                ..self
            }
        }
    }

    /// The actor `dt_micros` microseconds later. A live actor that is making
    /// a move goes on with it; when it has covered one cell, it stands on the
    /// cell it was moving to, the move is over and so is the time in which it
    /// could not be destroyed.
    pub open spec fn transited(self, dt_micros: u32) -> ActorView {
        if !self.is_live() {
            self
        } else {
            match self.transition {
                None => self,
                Some(t) => if t.spec_advanced(dt_micros).arrived() {
                    ActorView { position: t.end, transition: None, just_spawned: false, ..self }
                } else {
                    ActorView { transition: Some(t.spec_advanced(dt_micros)), ..self }
                },
            }
        }
    }

    /// Where the actor is, in grid space: on its way if it is making a move,
    /// else on its cell.
    pub open spec fn place(self) -> Point {
        match self.transition {
            Some(t) => t.spec_current(),
            None => self.position.as_point(),
        }
    }

    /// The actor drawn where it is now. A destroyed actor stays where it was
    /// last drawn.
    pub open spec fn reconciled(self) -> ActorView {
        if self.is_live() {
            ActorView { translation: spec_sprite_position_translation(self.place()), ..self }
        } else {
            self
        }
    }
}

/// An actor holds one role and no other.
pub proof fn lemma_one_role(actor: ActorView)
    ensures
        actor.role == Role::Player || actor.role == Role::Automated || actor.role
            == Role::Destroyed,
        !(actor.role == Role::Player && actor.role == Role::Automated),
        !(actor.role == Role::Player && actor.role == Role::Destroyed),
        !(actor.role == Role::Automated && actor.role == Role::Destroyed),
{
}

impl Actor {
    /// The player that `character` describes, just spawned on its start cell
    /// with the colour `color`.
    pub fn new_player(character: NewCharacter, color: usize) -> (actor: Actor)
        ensures
            actor@ == ActorView::new_player(character, color),
            character.on_grid() ==> actor@.wf(),
    {
        Actor {
            role: Role::Player,
            position: character.start_pos,
            transition: None,
            just_spawned: true,
            journey: Journey::new(
                character.start_pos,
                character.target_pos,
                color,
                character.scale,
            ),
            translation: sprite_position_translation(character.start_pos.as_point()),
        }
    }

    /// The bot that takes the place of this one.
    pub fn replacement(&self) -> (actor: Actor)
        ensures
            actor@ == self@.replacement(),
    {
        Actor {
            role: Role::Automated,
            position: self.journey.start_pos,
            transition: None,
            just_spawned: true,
            journey: self.journey.replica(),
            translation: sprite_position_translation(self.journey.start_pos.as_point()),
        }
    }

    /// Turns the actor into a bot that is about to replay its path.
    pub fn automate(&mut self)
        ensures
            final(self)@ == old(self)@.automated(),
    {
        self.role = Role::Automated;
        self.journey.restart();
    }

    /// Sets out for the cell `next`.
    pub fn set_out(&mut self, next: Position)
        ensures
            final(self)@ == old(self)@.setting_out(next),
    {
        self.transition = Some(Transition::new(self.position, next));
        self.journey.record(next);
    }

    /// Takes one replay step.
    pub fn replay(&mut self)
        ensures
            final(self)@ == old(self)@.replaying(),
    {
        if let Some(dest) = self.journey.replay_step() {
            self.transition = Some(Transition::new(self.position, dest));
        }
    }

    /// Lets `dt_micros` microseconds pass.
    pub fn transit(&mut self, dt_micros: u32)
        ensures
            final(self)@ == old(self)@.transited(dt_micros),
    {
        if self.role != Role::Destroyed {
            if let Some(mut transition) = self.transition {
                if transition.advance(dt_micros) {
                    self.position = transition.end;
                    self.transition = None;
                    self.just_spawned = false;
                } else {
                    self.transition = Some(transition);
                }
            }
        }
    }

    /// Where the actor is, in grid space.
    pub fn place(&self) -> (p: Point)
        ensures
            p == self@.place(),
            p.in_range(),
    {
        match self.transition {
            Some(transition) => transition.current(),
            None => self.position.as_point(),
        }
    }

    /// Draws the actor where it is now.
    pub fn reconcile(&mut self)
        ensures
            final(self)@ == old(self)@.reconciled(),
    {
        if self.role != Role::Destroyed {
            self.translation = sprite_position_translation(self.place());
        }
    }
}

} // verus!
