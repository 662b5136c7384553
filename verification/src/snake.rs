//! Snake: a head that moves one cell per tick, a body that follows it, food
//! that makes it grow, and walls and its own body that end the game.
use vstd::prelude::*;
use crate::common::{be_bytes_i32, be_bytes_u32, be_i32_at, be_u32_at, lemma_be_i32_roundtrip,
    lemma_be_u32_roundtrip, push_be_i32, push_be_u32, read_be_i32, read_be_u32};

verus! {

/// Grid side used by `init_game`.
pub const DEFAULT_GRID_SIZE: i32 = 10;

/// A cell of the grid.
#[derive(Clone, Copy, Debug, PartialEq, Eq, Structural)]
pub struct Position {
    pub x: i32,
    pub y: i32,
}

impl Position {
    pub fn new(x: i32, y: i32) -> (p: Position)
        ensures
            p == (Position { x, y }),
    {
        Position { x, y }
    }
}

/// The four directions of travel.
#[derive(Clone, Copy, Debug, PartialEq, Eq, Structural)]
pub enum Direction {
    Up,
    Down,
    Left,
    Right,
}

impl Direction {
    /// The wire code of a direction.
    pub open spec fn code(self) -> u8 {
        match self {
            Direction::Up => 0,
            Direction::Down => 1,
            Direction::Left => 2,
            Direction::Right => 3,
        }
    }

    /// One step in this direction; y grows downwards.
    pub open spec fn step(self) -> (i32, i32) {
        match self {
            Direction::Up => (0i32, -1i32),
            Direction::Down => (0i32, 1i32),
            Direction::Left => (-1i32, 0i32),
            Direction::Right => (1i32, 0i32),
        }
    }

    /// Up/Down and Left/Right are the opposite pairs.
    pub open spec fn opposes(self, other: Direction) -> bool {
        ||| (self == Direction::Up && other == Direction::Down)
        ||| (self == Direction::Down && other == Direction::Up)
        ||| (self == Direction::Left && other == Direction::Right)
        ||| (self == Direction::Right && other == Direction::Left)
    }

    pub fn to_u8(self) -> (r: u8)
        ensures
            r == self.code(),
    {
        match self {
            Direction::Up => 0,
            Direction::Down => 1,
            Direction::Left => 2,
            Direction::Right => 3,
        }
    }

    /// The direction with this code; codes above 3 name none.
    pub fn from_u8(value: u8) -> (r: Option<Direction>)
        ensures
            match r {
                Some(d) => value < 4 && d.code() == value,
                None => value >= 4,
            },
    {
        match value {
            0 => Some(Direction::Up),
            1 => Some(Direction::Down),
            2 => Some(Direction::Left),
            3 => Some(Direction::Right),
            _ => None,
        }
    }

    pub fn is_opposite(&self, other: &Direction) -> (r: bool)
        ensures
            r == self.opposes(*other),
    {
        match (*self, *other) {
            (Direction::Up, Direction::Down) => true,
            (Direction::Down, Direction::Up) => true,
            (Direction::Left, Direction::Right) => true,
            (Direction::Right, Direction::Left) => true,
            _ => false,
        }
    }

    pub fn delta(self) -> (r: (i32, i32))
        ensures
            r == self.step(),
    {
        match self {
            Direction::Up => (0, -1),
            Direction::Down => (0, 1),
            Direction::Left => (-1, 0),
            Direction::Right => (1, 0),
        }
    }
}

/// The head's direction of travel.
#[derive(Debug)]
pub struct DirectionComponent {
    pub direction: Direction,
}

impl DirectionComponent {
    pub fn new(direction: Direction) -> (c: DirectionComponent)
        ensures
            c.direction == direction,
    {
        DirectionComponent { direction }
    }
}

/// Marks the head.
#[derive(Debug)]
pub struct SnakeHead;

/// A body segment; index 0 is the one behind the head.
#[derive(Debug)]
pub struct SnakeSegment {
    pub index: u32,
}

impl SnakeSegment {
    pub fn new(index: u32) -> (s: SnakeSegment)
        ensures
            s.index == index,
    {
        SnakeSegment { index }
    }
}

/// Marks food.
#[derive(Debug)]
pub struct Food;

/// A position's bytes: x then y, big-endian.
pub open spec fn position_bytes(p: Position) -> Seq<u8> {
    be_bytes_i32(p.x) + be_bytes_i32(p.y)
}

/// A position read from exactly eight bytes.
pub open spec fn position_decoded(data: Seq<u8>) -> Option<Position> {
    if data.len() != 8 { None } else { Some(Position { x: be_i32_at(data, 0), y: be_i32_at(data, 4) }) }
}

/// The direction with a wire code.
pub open spec fn direction_with_code(code: u8) -> Option<Direction> {
    if code == 0 {
        Some(Direction::Up)
    } else if code == 1 {
        Some(Direction::Down)
    } else if code == 2 {
        Some(Direction::Left)
    } else if code == 3 {
        Some(Direction::Right)
    } else {
        None
    }
}

/// A direction read from exactly one byte holding its code.
pub open spec fn direction_decoded(data: Seq<u8>) -> Option<Direction> {
    if data.len() != 1 { None } else { direction_with_code(data[0]) }
}

impl Position {
    /// The component's bytes.
    pub fn serialize(&self) -> (r: Vec<u8>)
        ensures
            r@ == position_bytes(*self),
    {
        let mut out: Vec<u8> = Vec::new();
        push_be_i32(&mut out, self.x);
        push_be_i32(&mut out, self.y);
        out
    }

    /// The position held by `data`.
    pub fn deserialize(data: &Vec<u8>) -> (r: Option<Position>)
        ensures
            r == position_decoded(data@),
    {
        if data.len() != 8 {
            return None;
        }
        Some(Position { x: read_be_i32(data, 0), y: read_be_i32(data, 4) })
    }
}

impl DirectionComponent {
    /// The component's byte: the direction's code.
    pub fn serialize(&self) -> (r: Vec<u8>)
        ensures
            r@ == seq![self.direction.code()],
    {
        let mut out: Vec<u8> = Vec::new();
        out.push(self.direction.to_u8());
        assert(out@ =~= seq![self.direction.code()]);
        out
    }

    /// The component held by `data`: one byte with a known code.
    pub fn deserialize(data: &Vec<u8>) -> (r: Option<DirectionComponent>)
        ensures
            match r {
                Some(c) => direction_decoded(data@) == Some(c.direction),
                None => direction_decoded(data@) is None,
            },
    {
        if data.len() != 1 {
            return None;
        }
        match Direction::from_u8(data[0]) {
            Some(direction) => Some(DirectionComponent { direction }),
            None => None,
        }
    }
}

impl SnakeHead {
    /// The marker's byte.
    pub fn serialize(&self) -> (r: Vec<u8>)
        ensures
            r@ == seq![1u8],
    {
        let mut out: Vec<u8> = Vec::new();
        out.push(1u8);
        assert(out@ =~= seq![1u8]);
        out
    }

    /// The marker, from exactly one byte.
    pub fn deserialize(data: &Vec<u8>) -> (r: Option<SnakeHead>)
        ensures
            r is Some <==> data@.len() == 1,
    {
        if data.len() != 1 {
            return None;
        }
        Some(SnakeHead)
    }
}

impl SnakeSegment {
    /// The component's bytes: the index, big-endian.
    pub fn serialize(&self) -> (r: Vec<u8>)
        ensures
            r@ == be_bytes_u32(self.index),
    {
        let mut out: Vec<u8> = Vec::new();
        push_be_u32(&mut out, self.index);
        assert(out@ =~= be_bytes_u32(self.index));
        out
    }

    /// The segment held by exactly four bytes.
    pub fn deserialize(data: &Vec<u8>) -> (r: Option<SnakeSegment>)
        ensures
            match r {
                Some(g) => data@.len() == 4 && g.index == be_u32_at(data@, 0),
                None => data@.len() != 4,
            },
    {
        if data.len() != 4 {
            return None;
        }
        Some(SnakeSegment { index: read_be_u32(data, 0) })
    }
}

impl Food {
    /// The marker's byte.
    pub fn serialize(&self) -> (r: Vec<u8>)
        ensures
            r@ == seq![1u8],
    {
        let mut out: Vec<u8> = Vec::new();
        out.push(1u8);
        assert(out@ =~= seq![1u8]);
        out
    }

    /// The marker, from exactly one byte.
    pub fn deserialize(data: &Vec<u8>) -> (r: Option<Food>)
        ensures
            r is Some <==> data@.len() == 1,
    {
        if data.len() != 1 {
            return None;
        }
        Some(Food)
    }
}

/// Law: positions, directions and segment indices read back from their own
/// bytes.
pub proof fn lemma_component_bytes_roundtrip(p: Position, d: Direction, index: u32)
    ensures
        position_decoded(position_bytes(p)) == Some(p),
        direction_decoded(seq![d.code()]) == Some(d),
        be_u32_at(be_bytes_u32(index), 0) == index,
{
    let e = Seq::<u8>::empty();
    let x = be_bytes_i32(p.x);
    let y = be_bytes_i32(p.y);
    assert(position_bytes(p) =~= e + x + y);
    lemma_be_i32_roundtrip(e, p.x, y);
    assert(position_bytes(p) =~= x + y + e);
    lemma_be_i32_roundtrip(x, p.y, e);
    lemma_be_u32_roundtrip(e, index, e);
    assert(e + be_bytes_u32(index) + e =~= be_bytes_u32(index));
}

/// Score, end flag, tick counter, grid side and the head's entity id.
#[derive(Clone, Copy, Debug, PartialEq, Eq, Structural)]
pub struct GameState {
    pub score: u32,
    pub game_over: bool,
    pub tick_count: u32,
    pub grid_size: i32,
    pub snake_head_id: u32,
}

/// The entities of a game: the head with its direction, the body segments
/// in index order, and at most one food item with its entity id.
#[derive(Debug)]
pub struct SnakeWorld {
    pub next_entity_id: u32,
    pub head_id: u32,
    pub head: Position,
    pub direction: Direction,
    pub segments: Vec<Position>,
    pub food: Option<(u32, Position)>,
}

/// The world as a value.
pub struct SnakeWorldView {
    pub next_entity_id: u32,
    pub head_id: u32,
    pub head: Position,
    pub direction: Direction,
    pub segments: Seq<Position>,
    pub food: Option<(u32, Position)>,
}

impl View for SnakeWorld {
    type V = SnakeWorldView;

    open spec fn view(&self) -> SnakeWorldView {
        SnakeWorldView {
            next_entity_id: self.next_entity_id,
            head_id: self.head_id,
            head: self.head,
            direction: self.direction,
            segments: self.segments@,
            food: self.food,
        }
    }
}

/// A stored game: its state and its world.
#[derive(Debug)]
pub struct SnakeGame {
    pub state: GameState,
    pub world: SnakeWorld,
}

/// The head can take one more step and the body can be counted in a `u32`.
pub open spec fn world_wf(v: SnakeWorldView) -> bool {
    &&& i32::MIN < v.head.x < i32::MAX
    &&& i32::MIN < v.head.y < i32::MAX
    &&& v.segments.len() < u32::MAX
}

pub open spec fn in_grid(p: Position, grid_size: int) -> bool {
    0 <= p.x < grid_size && 0 <= p.y < grid_size
}

/// Where the head goes next.
pub open spec fn next_head(v: SnakeWorldView) -> Position {
    Position { x: (v.head.x + v.direction.step().0) as i32, y: (v.head.y + v.direction.step().1) as i32 }
}

/// Each segment takes the place of the one ahead of it; the first takes the
/// head's.
pub open spec fn followed(head: Position, segments: Seq<Position>) -> Seq<Position> {
    Seq::new(segments.len(), |i: int| if i == 0 { head } else { segments[i - 1] })
}

/// The world after the head moved to `nh`.
pub open spec fn moved(v: SnakeWorldView, nh: Position) -> SnakeWorldView {
    SnakeWorldView { head: nh, segments: followed(v.head, v.segments), ..v }
}

/// The last segment, or the head when there is none.
pub open spec fn tail(v: SnakeWorldView) -> Position {
    if v.segments.len() == 0 { v.head } else { v.segments.last() }
}

/// A new segment at the tail, with a fresh entity id.
pub open spec fn grown(v: SnakeWorldView) -> SnakeWorldView {
    SnakeWorldView {
        segments: v.segments.push(tail(v)),
        next_entity_id: (v.next_entity_id + 1) as u32,
        ..v
    }
}

pub open spec fn occupied(head: Position, segments: Seq<Position>, p: Position) -> bool {
    head == p || segments.contains(p)
}

/// The deterministic hash of a food attempt.
pub open spec fn food_hash(tick: u32, attempt: u32) -> i32 {
    (tick.wrapping_mul(17u32) ^ attempt.wrapping_mul(31u32)) as i32
}

pub open spec fn abs_int(v: int) -> int {
    if v < 0 { -v } else { v }
}

/// The cell tried by attempt `attempt`.
pub open spec fn candidate(tick: u32, attempt: u32, grid_size: i32) -> Position {
    let h = food_hash(tick, attempt);
    Position {
        x: (abs_int(h as int) % abs_int(grid_size as int)) as i32,
        y: (abs_int(h.wrapping_mul(13i32) as int) % abs_int(grid_size as int)) as i32,
    }
}

/// The number of cells of the grid, and of food attempts.
#[verifier::opaque]
pub open spec fn area(grid_size: i32) -> int {
    grid_size * grid_size
}

/// A grid whose area fits an `i32` has a side of at most 46340.
pub proof fn lemma_area_bounds(grid_size: i32)
    requires
        area(grid_size) <= i32::MAX,
    ensures
        -46341 < grid_size < 46341,
        0 <= area(grid_size),
        area(grid_size) > 0 ==> grid_size != 0,
{
    reveal(area);
    assert(-46341 < grid_size < 46341) by (nonlinear_arith)
        requires grid_size * grid_size <= i32::MAX;
    assert(0 <= grid_size * grid_size) by (nonlinear_arith);
    assert(grid_size == 0 ==> grid_size * grid_size == 0) by (nonlinear_arith);
}

/// The first free cell among the attempts from `attempt` on, if any.
pub open spec fn first_free(head: Position, segments: Seq<Position>, tick: u32, grid_size: i32, attempt: int) -> Option<Position>
    decreases area(grid_size) - attempt,
{
    if attempt < 0 || attempt >= area(grid_size) {
        None
    } else if !occupied(head, segments, candidate(tick, attempt as u32, grid_size)) {
        Some(candidate(tick, attempt as u32, grid_size))
    } else {
        first_free(head, segments, tick, grid_size, attempt + 1)
    }
}

/// The attempts from `attempt` on that the search reaches take absolute
/// values of numbers other than `i32::MIN`.
pub open spec fn attempts_fit(head: Position, segments: Seq<Position>, tick: u32, grid_size: i32, attempt: int) -> bool
    decreases area(grid_size) - attempt,
{
    if attempt < 0 || attempt >= area(grid_size) {
        true
    } else {
        &&& food_hash(tick, attempt as u32) != i32::MIN
        &&& food_hash(tick, attempt as u32).wrapping_mul(13i32) != i32::MIN
        &&& (occupied(head, segments, candidate(tick, attempt as u32, grid_size))
            ==> attempts_fit(head, segments, tick, grid_size, attempt + 1))
    }
}

/// Spawning food can run: the grid's area fits an `i32`, the hash values
/// reached have absolute values, and a new entity id is available.
pub open spec fn spawn_fits(v: SnakeWorldView, tick: u32, grid_size: i32) -> bool {
    &&& area(grid_size) <= i32::MAX
    &&& attempts_fit(v.head, v.segments, tick, grid_size, 0)
    &&& v.next_entity_id < u32::MAX
}

/// The world after old food is removed and new food is placed on the first
/// free cell found.
pub open spec fn with_food(v: SnakeWorldView, tick: u32, grid_size: i32) -> SnakeWorldView {
    match first_free(v.head, v.segments, tick, grid_size, 0) {
        Some(p) => SnakeWorldView { food: Some((v.next_entity_id, p)), next_entity_id: (v.next_entity_id + 1) as u32, ..v },
        None => SnakeWorldView { food: None, ..v },
    }
}

/// Whether the head at `nh` eats the food.
pub open spec fn eats(v: SnakeWorldView, nh: Position) -> bool {
    match v.food {
        Some((id, p)) => p == nh && id != 0,
        None => false,
    }
}

/// The integer operations of a tick stay in range.
pub open spec fn tick_fits(s: GameState, v: SnakeWorldView) -> bool {
    let nh = next_head(v);
    let m = moved(v, nh);
    &&& s.tick_count < u32::MAX
    &&& (in_grid(nh, s.grid_size as int) && !m.segments.contains(nh) && eats(m, nh)) ==> {
        &&& s.score < u32::MAX
        &&& v.segments.len() + 1 < u32::MAX
        &&& v.next_entity_id < u32::MAX
        &&& spawn_fits(grown(SnakeWorldView { food: None, ..m }), s.tick_count, s.grid_size)
    }
}

/// State and world after one tick of a running game.
pub open spec fn ticked(s: GameState, v: SnakeWorldView) -> (GameState, SnakeWorldView) {
    let nh = next_head(v);
    let m = moved(v, nh);
    let s1 = GameState { tick_count: (s.tick_count + 1) as u32, ..s };
    if !in_grid(nh, s.grid_size as int) {
        (GameState { game_over: true, ..s1 }, v)
    } else if m.segments.contains(nh) {
        (GameState { game_over: true, ..s1 }, m)
    } else if eats(m, nh) {
        (GameState { score: (s.score + 1) as u32, ..s1 },
         with_food(grown(SnakeWorldView { food: None, ..m }), s.tick_count, s.grid_size))
    } else {
        (s1, m)
    }
}

/// The direction whose code is `b` (0 to 3).
pub open spec fn direction_of(b: int) -> Direction {
    if b == 0 { Direction::Up } else if b == 1 { Direction::Down } else if b == 2 { Direction::Left } else { Direction::Right }
}

/// Integer half of `g`, rounded towards zero.
pub open spec fn half(g: int) -> int {
    if g >= 0 { g / 2 } else { -((-g) / 2) }
}

/// On the default grid the first food attempt of tick 0 lands on (0, 0),
/// away from the head, so a new game can always place its food.
proof fn lemma_default_start_fits()
    ensures
        spawn_fits(start_world(DEFAULT_GRID_SIZE), 0, DEFAULT_GRID_SIZE),
{
    reveal(area);
    assert(0u32 ^ 0u32 == 0u32) by (bit_vector);
    assert(food_hash(0, 0) == 0);
    assert(0i32.wrapping_mul(13i32) == 0i32);
    assert(DEFAULT_GRID_SIZE == 10);
    let h = food_hash(0, 0);
    assert(abs_int(h as int) == 0);
    assert(abs_int(h.wrapping_mul(13i32) as int) == 0);
    assert(abs_int(DEFAULT_GRID_SIZE as int) == 10);
    assert(0int % 10int == 0) by (nonlinear_arith);
    assert(candidate(0, 0, DEFAULT_GRID_SIZE) == Position { x: 0, y: 0 });
    assert(attempts_fit(start_world(DEFAULT_GRID_SIZE).head, Seq::empty(), 0, DEFAULT_GRID_SIZE, 0));
}

/// Law: a new game can place its food on every grid whose side is 2 to
/// 46340: tick 0's first attempt lands on (0, 0), away from the head in the
/// middle, and the grid's area fits an `i32`.
pub proof fn lemma_start_fits(grid_size: i32)
    requires
        2 <= grid_size <= 46340,
    ensures
        spawn_fits(start_world(grid_size), 0, grid_size),
{
    reveal(area);
    assert(grid_size * grid_size <= 46340 * 46340) by (nonlinear_arith)
        requires 2 <= grid_size <= 46340;
    assert(0u32 ^ 0u32 == 0u32) by (bit_vector);
    assert(food_hash(0, 0) == 0);
    assert(0i32.wrapping_mul(13i32) == 0i32);
    let h = food_hash(0, 0);
    assert(abs_int(h as int) == 0);
    assert(abs_int(h.wrapping_mul(13i32) as int) == 0);
    assert(0int % (grid_size as int) == 0);
    assert(candidate(0, 0, grid_size) == Position { x: 0, y: 0 });
    assert(half(grid_size as int) >= 1);
    assert(attempts_fit(start_world(grid_size).head, Seq::empty(), 0, grid_size, 0));
}

/// A fresh world: the head (entity 1) in the middle, heading right.
pub open spec fn start_world(grid_size: i32) -> SnakeWorldView {
    SnakeWorldView {
        next_entity_id: 2,
        head_id: 1,
        head: Position { x: half(grid_size as int) as i32, y: half(grid_size as int) as i32 },
        direction: Direction::Right,
        segments: Seq::empty(),
        food: None,
    }
}

/// Moves the head one step; the body follows. Returns the new head, or
/// `None` and leaves the world as it was when the step leaves the grid.
pub fn move_snake(world: &mut SnakeWorld, grid_size: i32) -> (r: Option<Position>)
    requires
        world_wf(old(world)@),
    ensures
        in_grid(next_head(old(world)@), grid_size as int) ==> r == Some(next_head(old(world)@))
            && final(world)@ == moved(old(world)@, next_head(old(world)@)),
        !in_grid(next_head(old(world)@), grid_size as int) ==> r.is_none() && final(world)@ == old(world)@,
{
    let (dx, dy) = world.direction.delta();
    let new_x = world.head.x + dx;
    let new_y = world.head.y + dy;
    if new_x < 0 || new_x >= grid_size || new_y < 0 || new_y >= grid_size {
        return None;
    }
    let new_head = Position::new(new_x, new_y);
    let old_head = world.head;
    move_body_segments(world, old_head);
    world.head = new_head;
    Some(new_head)
}

/// Each segment moves to where the one ahead of it was.
fn move_body_segments(world: &mut SnakeWorld, old_head: Position)
    ensures
        final(world)@ == (SnakeWorldView { segments: followed(old_head, old(world)@.segments), ..old(world)@ }),
{
    let n = world.segments.len();
    let mut result: Vec<Position> = Vec::new();
    let mut ahead = old_head;
    let mut i: usize = 0;
    while i < n
        invariant
            n == world.segments.len(),
            0 <= i <= n,
            result@ =~= followed(old_head, world.segments@).take(i as int),
            ahead == (if i == 0 { old_head } else { world.segments@[i - 1] }),
        decreases n - i,
    {
        result.push(ahead);
        ahead = world.segments[i];
        i += 1;
    }
    assert(result@ =~= followed(old_head, world.segments@));
    world.segments = result;
}

/// Whether the head shares its cell with a body segment.
pub fn check_self_collision(world: &SnakeWorld) -> (r: bool)
    ensures
        r == world.segments@.contains(world.head),
{
    let mut i: usize = 0;
    while i < world.segments.len()
        invariant
            0 <= i <= world.segments.len(),
            forall|j: int| 0 <= j < i ==> world.segments@[j] != world.head,
        decreases world.segments.len() - i,
    {
        if world.segments[i] == world.head {
            return true;
        }
        i += 1;
    }
    false
}

/// The food's entity id when the head is on it.
pub fn check_food_collision(world: &SnakeWorld) -> (r: Option<u32>)
    ensures
        r == (match world.food {
            Some((id, p)) => if p == world.head { Some(id) } else { None },
            None => None,
        }),
{
    match world.food {
        Some((id, p)) => {
            if p == world.head {
                Some(id)
            } else {
                None
            }
        },
        None => None,
    }
}

/// Adds a segment at the tail (at the head when there is no body yet); it
/// separates from the tail on the next move.
pub fn grow_snake(world: &mut SnakeWorld)
    requires
        old(world).segments.len() + 1 < u32::MAX,
        old(world).next_entity_id < u32::MAX,
    ensures
        final(world)@ == grown(old(world)@),
{
    let n = world.segments.len();
    let tail_pos = if n == 0 { world.head } else { world.segments[n - 1] };
    world.next_entity_id = world.next_entity_id + 1;
    world.segments.push(tail_pos);
}

/// Whether any part of the snake is on `p`.
fn is_occupied(world: &SnakeWorld, p: Position) -> (r: bool)
    ensures
        r == occupied(world.head, world.segments@, p),
{
    if world.head == p {
        return true;
    }
    let mut i: usize = 0;
    while i < world.segments.len()
        invariant
            0 <= i <= world.segments.len(),
            forall|j: int| 0 <= j < i ==> world.segments@[j] != p,
        decreases world.segments.len() - i,
    {
        if world.segments[i] == p {
            return true;
        }
        i += 1;
    }
    false
}

/// Absolute value of a number other than `i32::MIN`.
fn abs_i32(v: i32) -> (r: i32)
    requires
        v != i32::MIN,
    ensures
        r as int == abs_int(v as int),
{
    if v < 0 { -v } else { v }
}

/// The cell tried by attempt `attempt`.
fn food_candidate(tick: u32, attempt: u32, grid_size: i32) -> (p: Position)
    requires
        food_hash(tick, attempt) != i32::MIN,
        food_hash(tick, attempt).wrapping_mul(13i32) != i32::MIN,
        grid_size != 0,
        grid_size != i32::MIN,
    ensures
        p == candidate(tick, attempt, grid_size),
{
    let hash = (tick.wrapping_mul(17) ^ attempt.wrapping_mul(31)) as i32;
    let g = abs_i32(grid_size) as u32;
    let hx = abs_i32(hash) as u32;
    let hy = abs_i32(hash.wrapping_mul(13)) as u32;
    Position { x: (hx % g) as i32, y: (hy % g) as i32 }
}

/// Removes any food and places new food on the first free cell that the
/// tick-seeded attempts reach; none when every attempt hits the snake.
pub fn spawn_food(world: &mut SnakeWorld, tick: u32, grid_size: i32)
    requires
        spawn_fits(old(world)@, tick, grid_size),
    ensures
        final(world)@ == with_food(old(world)@, tick, grid_size),
{
    world.food = None;
    proof {
        lemma_area_bounds(grid_size);
        reveal(area);
    }
    let max_attempts = (grid_size * grid_size) as u32;
    let mut attempts: u32 = 0;
    while attempts < max_attempts
        invariant
            max_attempts as int == area(grid_size),
            area(grid_size) <= i32::MAX,
            -46341 < grid_size < 46341,
            world@ == (SnakeWorldView { food: None, ..old(world)@ }),
            world.next_entity_id < u32::MAX,
            attempts <= max_attempts,
            attempts_fit(world.head, world.segments@, tick, grid_size, attempts as int),
            first_free(world.head, world.segments@, tick, grid_size, 0)
                == first_free(world.head, world.segments@, tick, grid_size, attempts as int),
        decreases max_attempts - attempts,
    {
        proof {
            lemma_area_bounds(grid_size);
        }
        let p = food_candidate(tick, attempts, grid_size);
        if !is_occupied(world, p) {
            let id = world.next_entity_id;
            world.next_entity_id = id + 1;
            world.food = Some((id, p));
            return;
        }
        attempts += 1;
    }
}

/// A copy of a world.
fn copy_world(w: &SnakeWorld) -> (r: SnakeWorld)
    ensures
        r@ == w@,
{
    let mut segments: Vec<Position> = Vec::new();
    let mut i: usize = 0;
    while i < w.segments.len()
        invariant
            0 <= i <= w.segments.len(),
            segments@ == w.segments@.take(i as int),
        decreases w.segments.len() - i,
    {
        segments.push(w.segments[i]);
        i += 1;
        assert(segments@ =~= w.segments@.take(i as int));
    }
    assert(w.segments@.take(w.segments.len() as int) =~= w.segments@);
    SnakeWorld { next_entity_id: w.next_entity_id, head_id: w.head_id, head: w.head, direction: w.direction, segments, food: w.food }
}

/// Whether food can be spawned in this world at this tick without leaving
/// the machine integers.
pub fn food_spawn_fits(world: &SnakeWorld, tick: u32, grid_size: i32) -> (r: bool)
    ensures
        r == spawn_fits(world@, tick, grid_size),
{
    if world.next_entity_id == u32::MAX {
        return false;
    }
    let g = grid_size as i64;
    assert(0 <= g * g <= 0x4000_0000_0000_0000) by (nonlinear_arith)
        requires -0x8000_0000 <= g <= 0x7fff_ffff;
    if g * g > 0x7fff_ffff {
        proof {
            reveal(area);
        }
        return false;
    }
    proof {
        reveal(area);
        lemma_area_bounds(grid_size);
    }
    let max_attempts = (grid_size * grid_size) as u32;
    let mut attempts: u32 = 0;
    while attempts < max_attempts
        invariant
            max_attempts as int == area(grid_size),
            area(grid_size) <= i32::MAX,
            -46341 < grid_size < 46341,
            attempts <= max_attempts,
            world.next_entity_id < u32::MAX,
            attempts_fit(world.head, world.segments@, tick, grid_size, 0)
                == attempts_fit(world.head, world.segments@, tick, grid_size, attempts as int),
        decreases max_attempts - attempts,
    {
        proof {
            lemma_area_bounds(grid_size);
        }
        let hash = (tick.wrapping_mul(17) ^ attempts.wrapping_mul(31)) as i32;
        if hash == i32::MIN || hash.wrapping_mul(13) == i32::MIN {
            return false;
        }
        assert(hash == food_hash(tick, attempts));
        let p = food_candidate(tick, attempts, grid_size);
        if !is_occupied(world, p) {
            assert(attempts_fit(world.head, world.segments@, tick, grid_size, attempts as int));
            return true;
        }
        attempts += 1;
    }
    true
}

/// Whether a game can start on a `grid_size` square: its first food can be
/// spawned.
pub fn start_fits(grid_size: i32) -> (r: bool)
    ensures
        r == spawn_fits(start_world(grid_size), 0, grid_size),
{
    let g = grid_size as i64;
    assert(0 <= g * g <= 0x4000_0000_0000_0000) by (nonlinear_arith)
        requires -0x8000_0000 <= g <= 0x7fff_ffff;
    if g * g > 0x7fff_ffff {
        proof {
            reveal(area);
        }
        return false;
    }
    proof {
        reveal(area);
        lemma_area_bounds(grid_size);
    }
    let center = if grid_size >= 0 { grid_size / 2 } else { -((-grid_size) / 2) };
    let world = SnakeWorld {
        next_entity_id: 2,
        head_id: 1,
        head: Position::new(center, center),
        direction: Direction::Right,
        segments: Vec::new(),
        food: None,
    };
    assert(world@ == start_world(grid_size));
    food_spawn_fits(&world, 0, grid_size)
}

/// Whether the game meets what a tick needs: a head that can step, and, for
/// a running game, counters with room and food that can be spawned if the
/// step eats.
pub fn tick_fits_now(game: &SnakeGame) -> (r: bool)
    ensures
        r == (world_wf(game.world@) && (!game.state.game_over ==> tick_fits(game.state, game.world@))),
{
    let w = &game.world;
    if !(i32::MIN < w.head.x && w.head.x < i32::MAX && i32::MIN < w.head.y && w.head.y < i32::MAX
        && w.segments.len() < 0xffff_ffff) {
        return false;
    }
    if game.state.game_over {
        return true;
    }
    if game.state.tick_count == u32::MAX {
        return false;
    }
    let mut m = copy_world(w);
    let moved_to = move_snake(&mut m, game.state.grid_size);
    if moved_to.is_none() {
        return true;
    }
    if check_self_collision(&m) {
        return true;
    }
    let eaten = match check_food_collision(&m) {
        Some(id) => id != 0,
        None => false,
    };
    if !eaten {
        return true;
    }
    if game.state.score == u32::MAX || w.segments.len() + 1 >= 0xffff_ffff || w.next_entity_id == u32::MAX {
        return false;
    }
    m.food = None;
    grow_snake(&mut m);
    food_spawn_fits(&m, game.state.tick_count, game.state.grid_size)
}

/// Turns the head unless the new direction reverses it.
pub fn update_direction(world: &mut SnakeWorld, new_direction: Direction) -> (r: bool)
    ensures
        r == !old(world).direction.opposes(new_direction),
        r ==> final(world)@ == (SnakeWorldView { direction: new_direction, ..old(world)@ }),
        !r ==> final(world)@ == old(world)@,
{
    if world.direction.is_opposite(&new_direction) {
        return false;
    }
    world.direction = new_direction;
    true
}

/// The contract's operations over a stored game.
#[derive(Debug)]
pub struct SnakeContract;

impl SnakeContract {
    /// A game on the default grid.
    pub fn init_game() -> (g: SnakeGame)
        ensures
            g.state == (GameState { score: 0, game_over: false, tick_count: 0, grid_size: DEFAULT_GRID_SIZE, snake_head_id: 1 }),
            g.world@ == with_food(start_world(DEFAULT_GRID_SIZE), 0, DEFAULT_GRID_SIZE),
    {
        proof {
            lemma_default_start_fits();
        }
        Self::init_game_with_size(DEFAULT_GRID_SIZE)
    }

    /// A game on a `grid_size` square: the head in the middle heading
    /// right, food on the first free cell of tick 0, score 0.
    pub fn init_game_with_size(grid_size: i32) -> (g: SnakeGame)
        requires
            spawn_fits(start_world(grid_size), 0, grid_size),
        ensures
            g.state == (GameState { score: 0, game_over: false, tick_count: 0, grid_size, snake_head_id: 1 }),
            g.world@ == with_food(start_world(grid_size), 0, grid_size),
    {
        proof {
            lemma_area_bounds(grid_size);
        }
        let center = if grid_size >= 0 { grid_size / 2 } else { -((-grid_size) / 2) };
        let mut world = SnakeWorld {
            next_entity_id: 1,
            head_id: 0,
            head: Position::new(center, center),
            direction: Direction::Right,
            segments: Vec::new(),
            food: None,
        };
        let head_id = world.next_entity_id;
        world.next_entity_id = head_id + 1;
        world.head_id = head_id;
        assert(world@ == start_world(grid_size));
        spawn_food(&mut world, 0, grid_size);
        let state = GameState { score: 0, game_over: false, tick_count: 0, grid_size, snake_head_id: head_id };
        SnakeGame { state, world }
    }

    /// Turns the snake: `direction` is 0 up, 1 down, 2 left or 3 right.
    /// False, with nothing changed, once the game is over, for any other
    /// value, or for a reversal.
    pub fn change_direction(game: &mut SnakeGame, direction: u32) -> (r: bool)
        ensures
            final(game).state == old(game).state,
            r == (!old(game).state.game_over && direction < 4
                && !old(game).world.direction.opposes(direction_of(direction as int))),
            r ==> final(game).world@ == (SnakeWorldView { direction: direction_of(direction as int), ..old(game).world@ }),
            !r ==> final(game).world@ == old(game).world@,
    {
        if game.state.game_over || direction > 3 {
            return false;
        }
        let new_direction = match Direction::from_u8(direction as u8) {
            Some(d) => d,
            None => return false,
        };
        update_direction(&mut game.world, new_direction)
    }

    /// One tick: move, then wall, body and food checks. Nothing changes once
    /// the game is over.
    pub fn update_tick(game: &mut SnakeGame)
        requires
            !old(game).state.game_over ==> world_wf(old(game).world@) && tick_fits(old(game).state, old(game).world@),
        ensures
            old(game).state.game_over ==> final(game).state == old(game).state && final(game).world@ == old(game).world@,
            !old(game).state.game_over ==> (final(game).state, final(game).world@) == ticked(old(game).state, old(game).world@),
    {
        if game.state.game_over {
            return;
        }
        let grid_size = game.state.grid_size;
        let ghost v0 = game.world@;
        let moved_to = move_snake(&mut game.world, grid_size);
        let self_collision = check_self_collision(&game.world);
        let food_eaten = match check_food_collision(&game.world) {
            Some(id) => id,
            None => 0,
        };
        if moved_to.is_none() {
            game.state.game_over = true;
        } else if self_collision {
            game.state.game_over = true;
        } else if food_eaten != 0 {
            game.world.food = None;
            grow_snake(&mut game.world);
            game.state.score = game.state.score + 1;
            spawn_food(&mut game.world, game.state.tick_count, grid_size);
        }
        game.state.tick_count = game.state.tick_count + 1;
    }

    pub fn get_score(game: &SnakeGame) -> (r: u32)
        ensures
            r == game.state.score,
    {
        game.state.score
    }

    pub fn check_game_over(game: &SnakeGame) -> (r: bool)
        ensures
            r == game.state.game_over,
    {
        game.state.game_over
    }

    pub fn get_head_pos(game: &SnakeGame) -> (r: (i32, i32))
        ensures
            r == (game.world.head.x, game.world.head.y),
    {
        (game.world.head.x, game.world.head.y)
    }

    /// Head plus body segments.
    pub fn get_snake_length(game: &SnakeGame) -> (r: u32)
        requires
            game.world.segments.len() < u32::MAX,
        ensures
            r == game.world.segments.len() + 1,
    {
        (game.world.segments.len() + 1) as u32
    }

    /// The food's cell, or (-1, -1) when there is none.
    pub fn get_food_pos(game: &SnakeGame) -> (r: (i32, i32))
        ensures
            r == (match game.world.food {
                Some((_, p)) => (p.x, p.y),
                None => (-1i32, -1i32),
            }),
    {
        match game.world.food {
            Some((_, p)) => (p.x, p.y),
            None => (-1, -1),
        }
    }

    /// The head, then the segments in index order.
    pub fn get_snake_positions(game: &SnakeGame) -> (r: Vec<(i32, i32)>)
        ensures
            r@.len() == game.world.segments.len() + 1,
            r@[0] == (game.world.head.x, game.world.head.y),
            forall|i: int| 0 <= i < game.world.segments.len()
                ==> r@[i + 1] == (game.world.segments@[i].x, game.world.segments@[i].y),
    {
        let mut r: Vec<(i32, i32)> = Vec::new();
        r.push((game.world.head.x, game.world.head.y));
        let mut i: usize = 0;
        while i < game.world.segments.len()
            invariant
                0 <= i <= game.world.segments.len(),
                r@.len() == i + 1,
                r@[0] == (game.world.head.x, game.world.head.y),
                forall|j: int| 0 <= j < i ==> r@[j + 1] == (game.world.segments@[j].x, game.world.segments@[j].y),
            decreases game.world.segments.len() - i,
        {
            let p = game.world.segments[i];
            r.push((p.x, p.y));
            i += 1;
        }
        r
    }

    pub fn get_grid_size(game: &SnakeGame) -> (r: i32)
        ensures
            r == game.state.grid_size,
    {
        game.state.grid_size
    }
}

/// Law: food is only ever placed on a free cell of the grid.
pub proof fn lemma_food_lands_on_free_cell(head: Position, segments: Seq<Position>, tick: u32, grid_size: i32, attempt: int)
    requires
        area(grid_size) <= i32::MAX,
        first_free(head, segments, tick, grid_size, attempt) is Some,
    ensures
        !occupied(head, segments, first_free(head, segments, tick, grid_size, attempt)->0),
        0 <= first_free(head, segments, tick, grid_size, attempt)->0.x < abs_int(grid_size as int),
        0 <= first_free(head, segments, tick, grid_size, attempt)->0.y < abs_int(grid_size as int),
    decreases area(grid_size) - attempt,
{
    lemma_area_bounds(grid_size);
    if attempt < 0 || attempt >= area(grid_size) {
    } else if !occupied(head, segments, candidate(tick, attempt as u32, grid_size)) {
        assert(grid_size != 0);
    } else {
        lemma_food_lands_on_free_cell(head, segments, tick, grid_size, attempt + 1);
    }
}

/// Law: the body grows by exactly one segment per point scored, so a game
/// that starts with no body always has as many segments as points.
pub proof fn lemma_length_tracks_score(s: GameState, v: SnakeWorldView)
    requires
        v.segments.len() == s.score,
        !s.game_over,
        tick_fits(s, v),
    ensures
        ticked(s, v).1.segments.len() == ticked(s, v).0.score,
{
}

/// Law: while the game runs, the head is inside the grid after every tick.
pub proof fn lemma_head_stays_in_grid(s: GameState, v: SnakeWorldView)
    requires
        !s.game_over,
    ensures
        !ticked(s, v).0.game_over ==> in_grid(ticked(s, v).1.head, s.grid_size as int),
        ticked(s, v).0.grid_size == s.grid_size,
{
}

} // verus!
