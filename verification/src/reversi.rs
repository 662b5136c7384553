//! Reversi (Othello) on an 8x8 board: legal moves, flips, passes, scores.
use vstd::prelude::*;
use crate::common::{be_bytes_u32, be_u32_at, be_words, bytes_equal, clone_bytes,
    lemma_be_u32_roundtrip, lemma_be_words, push_be_u32, read_be_u32};

verus! {

pub const BOARD_SIZE: u32 = 8;
pub const EMPTY: u32 = 0;
pub const BLACK: u32 = 1;
pub const WHITE: u32 = 2;
pub const STATUS_ACTIVE: u32 = 0;
pub const STATUS_FINISHED: u32 = 1;
pub const WINNER_NONE: u32 = 0;
pub const WINNER_DRAW: u32 = 3;

/// The board cells, row-major.
#[derive(Debug)]
pub struct BoardComponent {
    pub cells: Vec<u32>,
    pub width: u32,
    pub height: u32,
}

/// Whose turn it is and how many players are currently unable to move
/// (0 = normal, 1 = the opponent was passed, 2 = nobody can move).
#[derive(Debug)]
pub struct TurnComponent {
    pub current_player: u32,
    pub pass_count: u32,
}

/// 0 = active, 1 = finished.
#[derive(Debug)]
pub struct GameStatusComponent {
    pub status: u32,
}

/// Piece counts.
#[derive(Debug)]
pub struct ScoreComponent {
    pub black_count: u32,
    pub white_count: u32,
}

/// Everything the contract keeps.
#[derive(Debug)]
pub struct ECSWorldState {
    pub board: BoardComponent,
    pub turn: TurnComponent,
    pub status: GameStatusComponent,
    pub score: ScoreComponent,
    /// Plays black.
    pub player_one: Vec<u8>,
    /// Plays white.
    pub player_two: Vec<u8>,
}

/// Public turn view.
#[derive(Debug)]
pub struct GameState {
    pub current_player: u32,
    pub pass_count: u32,
    pub status: u32,
}

/// Public board view.
#[derive(Debug)]
pub struct BoardState {
    pub cells: Vec<u32>,
    pub width: u32,
    pub height: u32,
}

/// Public score view; winner 0 = ongoing, 1 = black, 2 = white, 3 = draw.
#[derive(Debug)]
pub struct ScoreState {
    pub black_count: u32,
    pub white_count: u32,
    pub winner: u32,
}

/// Why a move was refused.
#[derive(Clone, Copy, Debug, PartialEq, Eq, Structural)]
pub enum ReversiError {
    GameFinished,
    UnknownPlayer,
    NotYourTurn,
    IllegalMove,
}

// ── specification ─────────────────────────────────────────────────────────────

pub open spec fn in_board(r: int, c: int) -> bool {
    0 <= r < 8 && 0 <= c < 8
}

/// Cell at (r, c); empty off the board or past the end of the cells.
pub open spec fn cell(cells: Seq<u32>, r: int, c: int) -> u32 {
    if in_board(r, c) && r * 8 + c < cells.len() { cells[r * 8 + c] } else { EMPTY }
}

/// The 64 cells a board component writes: its cells, empty past the end.
pub open spec fn padded_cells(cells: Seq<u32>) -> Seq<u32> {
    Seq::new(64, |i: int| if i < cells.len() { cells[i] } else { EMPTY })
}

/// A board component's bytes: width, height, then the 64 cells, all
/// big-endian (272 bytes).
pub open spec fn board_bytes(b: BoardComponent) -> Seq<u8> {
    be_bytes_u32(b.width) + be_bytes_u32(b.height) + be_words(padded_cells(b.cells@))
}

/// Width, height and cells read from exactly 272 bytes.
pub open spec fn board_decoded(data: Seq<u8>) -> Option<(u32, u32, Seq<u32>)> {
    if data.len() != 272 {
        None
    } else {
        Some((be_u32_at(data, 0), be_u32_at(data, 4), Seq::new(64, |i: int| be_u32_at(data, 8 + 4 * i))))
    }
}

/// Two big-endian words.
pub open spec fn pair_bytes(a: u32, b: u32) -> Seq<u8> {
    be_bytes_u32(a) + be_bytes_u32(b)
}

/// Two words read from exactly eight bytes.
pub open spec fn pair_decoded(data: Seq<u8>) -> Option<(u32, u32)> {
    if data.len() != 8 { None } else { Some((be_u32_at(data, 0), be_u32_at(data, 4))) }
}

impl BoardComponent {
    /// The component's bytes.
    pub fn serialize(&self) -> (r: Vec<u8>)
        ensures
            r@ == board_bytes(*self),
    {
        let mut out: Vec<u8> = Vec::new();
        push_be_u32(&mut out, self.width);
        push_be_u32(&mut out, self.height);
        let ghost cells = padded_cells(self.cells@);
        let mut i: usize = 0;
        while i < 64
            invariant
                0 <= i <= 64,
                cells == padded_cells(self.cells@),
                out@ == be_bytes_u32(self.width) + be_bytes_u32(self.height) + be_words(cells.take(i as int)),
            decreases 64 - i,
        {
            let cell = if i < self.cells.len() { self.cells[i] } else { EMPTY };
            push_be_u32(&mut out, cell);
            assert(cells.take(i + 1).drop_last() =~= cells.take(i as int));
            i += 1;
        }
        assert(cells.take(64) =~= cells);
        out
    }

    /// The component held by exactly 272 bytes.
    pub fn deserialize(data: &Vec<u8>) -> (r: Option<BoardComponent>)
        ensures
            match r {
                Some(b) => board_decoded(data@) == Some((b.width, b.height, b.cells@)),
                None => board_decoded(data@) is None,
            },
    {
        if data.len() != 272 {
            return None;
        }
        let width = read_be_u32(data, 0);
        let height = read_be_u32(data, 4);
        let mut cells: Vec<u32> = Vec::new();
        let mut i: usize = 0;
        while i < 64
            invariant
                0 <= i <= 64,
                data.len() == 272,
                cells@ == Seq::new(i as nat, |k: int| be_u32_at(data@, 8 + 4 * k)),
            decreases 64 - i,
        {
            cells.push(read_be_u32(data, 8 + 4 * i));
            i += 1;
            assert(cells@ =~= Seq::new(i as nat, |k: int| be_u32_at(data@, 8 + 4 * k)));
        }
        Some(BoardComponent { cells, width, height })
    }
}

impl TurnComponent {
    /// The component's bytes: current player, pass count.
    pub fn serialize(&self) -> (r: Vec<u8>)
        ensures
            r@ == pair_bytes(self.current_player, self.pass_count),
    {
        let mut out: Vec<u8> = Vec::new();
        push_be_u32(&mut out, self.current_player);
        push_be_u32(&mut out, self.pass_count);
        out
    }

    /// The component held by exactly eight bytes.
    pub fn deserialize(data: &Vec<u8>) -> (r: Option<TurnComponent>)
        ensures
            match r {
                Some(t) => pair_decoded(data@) == Some((t.current_player, t.pass_count)),
                None => pair_decoded(data@) is None,
            },
    {
        if data.len() != 8 {
            return None;
        }
        Some(TurnComponent { current_player: read_be_u32(data, 0), pass_count: read_be_u32(data, 4) })
    }
}

impl GameStatusComponent {
    /// The component's bytes: the status, big-endian.
    pub fn serialize(&self) -> (r: Vec<u8>)
        ensures
            r@ == be_bytes_u32(self.status),
    {
        let mut out: Vec<u8> = Vec::new();
        push_be_u32(&mut out, self.status);
        assert(out@ =~= be_bytes_u32(self.status));
        out
    }

    /// The component held by exactly four bytes.
    pub fn deserialize(data: &Vec<u8>) -> (r: Option<GameStatusComponent>)
        ensures
            match r {
                Some(g) => data@.len() == 4 && g.status == be_u32_at(data@, 0),
                None => data@.len() != 4,
            },
    {
        if data.len() != 4 {
            return None;
        }
        Some(GameStatusComponent { status: read_be_u32(data, 0) })
    }
}

impl ScoreComponent {
    /// The component's bytes: black count, white count.
    pub fn serialize(&self) -> (r: Vec<u8>)
        ensures
            r@ == pair_bytes(self.black_count, self.white_count),
    {
        let mut out: Vec<u8> = Vec::new();
        push_be_u32(&mut out, self.black_count);
        push_be_u32(&mut out, self.white_count);
        out
    }

    /// The component held by exactly eight bytes.
    pub fn deserialize(data: &Vec<u8>) -> (r: Option<ScoreComponent>)
        ensures
            match r {
                Some(s) => pair_decoded(data@) == Some((s.black_count, s.white_count)),
                None => pair_decoded(data@) is None,
            },
    {
        if data.len() != 8 {
            return None;
        }
        Some(ScoreComponent { black_count: read_be_u32(data, 0), white_count: read_be_u32(data, 4) })
    }
}

/// Law: the two-word components read back from their own bytes.
pub proof fn lemma_pair_bytes_roundtrip(a: u32, b: u32)
    ensures
        pair_decoded(pair_bytes(a, b)) == Some((a, b)),
{
    let e = Seq::<u8>::empty();
    let pa = be_bytes_u32(a);
    let pb = be_bytes_u32(b);
    assert(pair_bytes(a, b) =~= e + pa + pb);
    lemma_be_u32_roundtrip(e, a, pb);
    assert(pair_bytes(a, b) =~= pa + pb + e);
    lemma_be_u32_roundtrip(pa, b, e);
}

/// The board component writes 264 bytes (two words and 64 cells), while
/// its reader takes only 272-byte strings, so a written board is not read
/// back.
pub proof fn lemma_board_bytes_length(b: BoardComponent)
    ensures
        board_bytes(b).len() == 264,
        board_decoded(board_bytes(b)) is None,
{
    lemma_be_words(padded_cells(b.cells@));
}

/// Direction `d` of the eight compass directions, in scan order.
pub open spec fn dir(d: int) -> (int, int) {
    if d == 0 { (-1, -1) }
    else if d == 1 { (-1, 0) }
    else if d == 2 { (-1, 1) }
    else if d == 3 { (0, -1) }
    else if d == 4 { (0, 1) }
    else if d == 5 { (1, -1) }
    else if d == 6 { (1, 0) }
    else { (1, 1) }
}

/// `x` moved `k` steps by unit `dx`.
pub open spec fn step(x: int, dx: int, k: int) -> int {
    if dx == 1 { x + k } else if dx == -1 { x - k } else { x }
}

pub open spec fn unit_dir(dr: int, dc: int) -> bool {
    -1 <= dr <= 1 && -1 <= dc <= 1 && !(dr == 0 && dc == 0)
}

/// Walking from (row, col) in direction (dr, dc), starting at the `k`th square:
/// the number of opponent pieces bracketed by a piece of `player`, 0 if the
/// run ends on an empty square or the edge.
pub open spec fn ray(cells: Seq<u32>, row: int, col: int, dr: int, dc: int, player: u32, opp: u32, k: int) -> int
    decreases 9 - k,
{
    if k < 1 || k > 8 {
        0
    } else {
        let r = step(row, dr, k);
        let c = step(col, dc, k);
        if !in_board(r, c) {
            0
        } else if cell(cells, r, c) == opp {
            ray(cells, row, col, dr, dc, player, opp, k + 1)
        } else if cell(cells, r, c) == player {
            k - 1
        } else {
            0
        }
    }
}

/// Number of pieces flipped in direction `d` by `player` playing (row, col).
pub open spec fn flips(cells: Seq<u32>, row: int, col: int, player: u32, d: int) -> int {
    ray(cells, row, col, dir(d).0, dir(d).1, player, opponent(player), 1)
}

pub open spec fn opponent(player: u32) -> u32 {
    if player == BLACK { WHITE } else { BLACK }
}

/// A legal placement: on the board, on an empty square, flipping something.
pub open spec fn legal(cells: Seq<u32>, row: int, col: int, player: u32) -> bool {
    &&& in_board(row, col)
    &&& cell(cells, row, col) == EMPTY
    &&& exists|d: int| 0 <= d < 8 && #[trigger] flips(cells, row, col, player, d) > 0
}

/// `player` has some legal placement.
pub open spec fn has_move(cells: Seq<u32>, player: u32) -> bool {
    exists|r: int, c: int| #[trigger] legal(cells, r, c, player)
}

/// Flat index of the `j`th square from (row, col) in direction `d`.
pub open spec fn ray_index(row: int, col: int, d: int, j: int) -> int {
    step(row, dir(d).0, j) * 8 + step(col, dir(d).1, j)
}

/// Square `i` is flipped when `player` plays (row, col) on `cells`.
pub open spec fn flipped(cells: Seq<u32>, row: int, col: int, player: u32, i: int) -> bool {
    exists|d: int, j: int| 0 <= d < 8 && 1 <= j <= flips(cells, row, col, player, d)
        && #[trigger] ray_index(row, col, d, j) == i
}

/// The board after `player` plays (row, col): the square and every bracketed
/// opponent piece become the player's.
pub open spec fn after_move(cells: Seq<u32>, row: int, col: int, player: u32) -> Seq<u32> {
    let placed = cells.update(row * 8 + col, player);
    Seq::new(cells.len(), |i: int| if i == row * 8 + col || flipped(placed, row, col, player, i) { player } else { cells[i] })
}

/// Number of entries equal to `v`.
pub open spec fn count_of(s: Seq<u32>, v: u32) -> nat
    decreases s.len(),
{
    if s.len() == 0 { 0 } else { count_of(s.drop_last(), v) + (if s.last() == v { 1nat } else { 0nat }) }
}

pub open spec fn full(cells: Seq<u32>) -> bool {
    forall|i: int| 0 <= i < 64 ==> #[trigger] cells[i] != EMPTY
}

// ── lemmas ────────────────────────────────────────────────────────────────────

/// The squares counted by a ray lie on the board and hold opponent pieces.
proof fn lemma_ray_cells(cells: Seq<u32>, row: int, col: int, dr: int, dc: int, player: u32, opp: u32, k: int)
    requires
        1 <= k,
    ensures
        forall|j: int| k <= j <= ray(cells, row, col, dr, dc, player, opp, k) ==> in_board(#[trigger] step(row, dr, j), step(col, dc, j))
            && cell(cells, step(row, dr, j), step(col, dc, j)) == opp,
    decreases 9 - k,
{
    if k <= 8 {
        let r = step(row, dr, k);
        let c = step(col, dc, k);
        if in_board(r, c) && cell(cells, r, c) == opp {
            lemma_ray_cells(cells, row, col, dr, dc, player, opp, k + 1);
        }
    }
}

/// A ray only reads squares strictly away from its origin.
proof fn lemma_ray_ignores_origin(cells: Seq<u32>, row: int, col: int, dr: int, dc: int, player: u32, opp: u32, k: int, v: u32)
    requires
        1 <= k,
        unit_dir(dr, dc),
        in_board(row, col),
        cells.len() == 64,
    ensures
        ray(cells.update(row * 8 + col, v), row, col, dr, dc, player, opp, k) == ray(cells, row, col, dr, dc, player, opp, k),
    decreases 9 - k,
{
    if k <= 8 {
        let r = step(row, dr, k);
        let c = step(col, dc, k);
        if in_board(r, c) {
            assert(r * 8 + c != row * 8 + col);
            lemma_ray_ignores_origin(cells, row, col, dr, dc, player, opp, k + 1, v);
        }
    }
}

/// Counting entries: a write changes the counts by what it removes and adds.
pub proof fn lemma_count_of_update(s: Seq<u32>, i: int, v: u32, w: u32)
    requires
        0 <= i < s.len(),
    ensures
        count_of(s.update(i, v), w) + (if s[i] == w { 1int } else { 0int })
            == count_of(s, w) + (if v == w { 1int } else { 0int }),
    decreases s.len(),
{
    let t = s.update(i, v);
    if i == s.len() - 1 {
        assert(t.drop_last() =~= s.drop_last());
    } else {
        assert(t.drop_last() =~= s.drop_last().update(i, v));
        lemma_count_of_update(s.drop_last(), i, v, w);
    }
}

// ── helpers ───────────────────────────────────────────────────────────────────

/// Flat index of (row, col).
pub fn idx(row: u32, col: u32) -> (r: u32)
    requires
        row < 8, col < 8,
    ensures
        r == row * 8 + col,
{
    row * BOARD_SIZE + col
}

/// The cell at (row, col), empty off the board.
pub fn get_cell(cells: &Vec<u32>, row: u32, col: u32) -> (r: u32)
    ensures
        r == cell(cells@, row as int, col as int),
{
    if row < BOARD_SIZE && col < BOARD_SIZE {
        let i = row * BOARD_SIZE + col;
        if (i as usize) < cells.len() { cells[i as usize] } else { EMPTY }
    } else {
        EMPTY
    }
}

/// The other colour (anything but black counts as white's opponent black).
pub fn opponent_of(player: u32) -> (r: u32)
    ensures
        r == opponent(player),
{
    if player == BLACK { WHITE } else { BLACK }
}

fn direction(d: usize) -> (r: (i32, i32))
    requires
        d < 8,
    ensures
        r.0 as int == dir(d as int).0,
        r.1 as int == dir(d as int).1,
{
    if d == 0 { (-1, -1) }
    else if d == 1 { (-1, 0) }
    else if d == 2 { (-1, 1) }
    else if d == 3 { (0, -1) }
    else if d == 4 { (0, 1) }
    else if d == 5 { (1, -1) }
    else if d == 6 { (1, 0) }
    else { (1, 1) }
}

/// No empty square is left.
pub fn is_board_full(board: &BoardComponent) -> (r: bool)
    requires
        board.cells.len() == 64,
    ensures
        r == full(board.cells@),
{
    let mut i: usize = 0;
    while i < 64
        invariant
            0 <= i <= 64,
            board.cells.len() == 64,
            forall|j: int| 0 <= j < i ==> #[trigger] board.cells@[j] != EMPTY,
        decreases 64 - i,
    {
        if board.cells[i] == EMPTY {
            return false;
        }
        i += 1;
    }
    true
}

/// The standard opening: white on (3,3) and (4,4), black on (3,4) and (4,3).
pub fn init_board() -> (b: BoardComponent)
    ensures
        b.width == 8, b.height == 8,
        b.cells@ == Seq::new(64, |i: int| if i == 27 || i == 36 { WHITE } else if i == 28 || i == 35 { BLACK } else { EMPTY }),
{
    let mut cells: Vec<u32> = Vec::new();
    let mut i: u32 = 0;
    while i < 64
        invariant
            0 <= i <= 64,
            cells@ == Seq::new(i as nat, |k: int| EMPTY),
        decreases 64 - i,
    {
        cells.push(EMPTY);
        i += 1;
        assert(cells@ =~= Seq::new(i as nat, |k: int| EMPTY));
    }
    cells.set(idx(3, 3) as usize, WHITE);
    cells.set(idx(3, 4) as usize, BLACK);
    cells.set(idx(4, 3) as usize, BLACK);
    cells.set(idx(4, 4) as usize, WHITE);
    assert(cells@ =~= Seq::new(64, |i: int| if i == 27 || i == 36 { WHITE } else if i == 28 || i == 35 { BLACK } else { EMPTY }));
    BoardComponent { cells, width: BOARD_SIZE, height: BOARD_SIZE }
}

/// Counts black and white pieces.
pub fn scoring_system(board: &BoardComponent) -> (s: ScoreComponent)
    requires
        board.cells.len() == 64,
    ensures
        s.black_count == count_of(board.cells@, BLACK),
        s.white_count == count_of(board.cells@, WHITE),
{
    let mut black_count: u32 = 0;
    let mut white_count: u32 = 0;
    let mut i: usize = 0;
    while i < 64
        invariant
            0 <= i <= 64,
            board.cells.len() == 64,
            black_count == count_of(board.cells@.subrange(0, i as int), BLACK),
            white_count == count_of(board.cells@.subrange(0, i as int), WHITE),
            black_count + white_count <= i,
        decreases 64 - i,
    {
        let cell = board.cells[i];
        assert(board.cells@.subrange(0, i + 1).drop_last() =~= board.cells@.subrange(0, i as int));
        if cell == BLACK {
            black_count += 1;
        } else if cell == WHITE {
            white_count += 1;
        }
        i += 1;
    }
    assert(board.cells@.subrange(0, 64) =~= board.cells@);
    ScoreComponent { black_count, white_count }
}

/// Number of opponent pieces bracketed from (row, col) in direction (dr, dc).
pub fn flips_in_dir(cells: &Vec<u32>, row: u32, col: u32, player: u32, opp: u32, dr: i32, dc: i32) -> (n: u32)
    requires
        row < 8, col < 8,
        unit_dir(dr as int, dc as int),
    ensures
        n == ray(cells@, row as int, col as int, dr as int, dc as int, player, opp, 1),
        n <= 7,
{
    let mut r: i32 = row as i32 + dr;
    let mut c: i32 = col as i32 + dc;
    let mut count: u32 = 0;
    while r >= 0 && r < BOARD_SIZE as i32 && c >= 0 && c < BOARD_SIZE as i32
        invariant
            1 <= count + 1 <= 8,
            r as int == step(row as int, dr as int, count + 1),
            c as int == step(col as int, dc as int, count + 1),
            row < 8, col < 8,
            unit_dir(dr as int, dc as int),
            ray(cells@, row as int, col as int, dr as int, dc as int, player, opp, 1)
                == ray(cells@, row as int, col as int, dr as int, dc as int, player, opp, count + 1),
        decreases 8 - count,
    {
        let v = get_cell(cells, r as u32, c as u32);
        if v == opp {
            assert(count + 2 <= 8) by {
                assert(in_board(step(row as int, dr as int, count + 1), step(col as int, dc as int, count + 1)));
            }
            count += 1;
            r += dr;
            c += dc;
        } else if v == player {
            return count;
        } else {
            return 0;
        }
    }
    0
}

/// A placement is legal: on the board, empty, and flipping in some direction.
pub fn move_validation_system(board: &BoardComponent, row: u32, col: u32, player: u32) -> (ok: bool)
    ensures
        ok == legal(board.cells@, row as int, col as int, player),
{
    if row >= BOARD_SIZE || col >= BOARD_SIZE {
        return false;
    }
    if get_cell(&board.cells, row, col) != EMPTY {
        return false;
    }
    let opp = opponent_of(player);
    let mut d: usize = 0;
    while d < 8
        invariant
            0 <= d <= 8,
            row < 8, col < 8,
            opp == opponent(player),
            cell(board.cells@, row as int, col as int) == EMPTY,
            forall|e: int| 0 <= e < d ==> #[trigger] flips(board.cells@, row as int, col as int, player, e) <= 0,
        decreases 8 - d,
    {
        let (dr, dc) = direction(d);
        if flips_in_dir(&board.cells, row, col, player, opp, dr, dc) > 0 {
            assert(flips(board.cells@, row as int, col as int, player, d as int) > 0);
            return true;
        }
        d += 1;
    }
    false
}

/// Some legal placement exists for `player`.
pub fn has_legal_moves(board: &BoardComponent, player: u32) -> (r: bool)
    ensures
        r == has_move(board.cells@, player),
{
    let mut row: u32 = 0;
    while row < BOARD_SIZE
        invariant
            0 <= row <= 8,
            forall|r: int, c: int| 0 <= r < row && #[trigger] legal(board.cells@, r, c, player) ==> false,
        decreases 8 - row,
    {
        let mut col: u32 = 0;
        while col < BOARD_SIZE
            invariant
                0 <= row < 8, 0 <= col <= 8,
                forall|r: int, c: int| 0 <= r < row && #[trigger] legal(board.cells@, r, c, player) ==> false,
                forall|c: int| 0 <= c < col ==> !#[trigger] legal(board.cells@, row as int, c, player),
            decreases 8 - col,
        {
            if move_validation_system(board, row, col, player) {
                return true;
            }
            col += 1;
        }
        assert forall|r: int, c: int| 0 <= r < row + 1 && #[trigger] legal(board.cells@, r, c, player) implies false by {
            if r == row && !(0 <= c < 8) {
                assert(!in_board(r, c));
            }
        }
        row += 1;
    }
    assert forall|r: int, c: int| #[trigger] legal(board.cells@, r, c, player) implies false by {
        if !(0 <= r < 8) {
            assert(!in_board(r, c));
        }
    }
    false
}

/// Places `player` on (row, col) and flips every bracketed opponent piece.
pub fn flip_resolution_system(board: BoardComponent, row: u32, col: u32, player: u32) -> (b: BoardComponent)
    requires
        board.cells.len() == 64,
        row < 8, col < 8,
    ensures
        b.width == board.width, b.height == board.height,
        b.cells@ == after_move(board.cells@, row as int, col as int, player),
{
    let BoardComponent { cells, width, height } = board;
    let mut board = BoardComponent { cells, width: 0, height: 0 };
    let ghost before = board.cells@;
    let opp = opponent_of(player);
    board.cells.set(idx(row, col) as usize, player);
    let ghost placed = board.cells@;
    assert(placed == before.update(row * 8 + col, player));
    // How far each direction reaches.
    let mut counts: Vec<u32> = Vec::new();
    let mut d: usize = 0;
    while d < 8
        invariant
            0 <= d <= 8,
            row < 8, col < 8,
            opp == opponent(player),
            board.cells@ == placed,
            placed == before.update(row * 8 + col, player),
            counts.len() == d,
            forall|e: int| 0 <= e < d ==> #[trigger] counts@[e] as int == flips(placed, row as int, col as int, player, e),
            forall|e: int| 0 <= e < d ==> #[trigger] counts@[e] <= 7,
        decreases 8 - d,
    {
        let (dr, dc) = direction(d);
        let n = flips_in_dir(&board.cells, row, col, player, opp, dr, dc);
        counts.push(n);
        d += 1;
    }
    // Flip each reach.
    let mut d: usize = 0;
    while d < 8
        invariant
            0 <= d <= 8,
            row < 8, col < 8,
            opp == opponent(player),
            placed.len() == 64,
            placed == before.update(row * 8 + col, player),
            counts.len() == 8,
            forall|e: int| 0 <= e < 8 ==> #[trigger] counts@[e] as int == flips(placed, row as int, col as int, player, e),
            forall|e: int| 0 <= e < 8 ==> #[trigger] counts@[e] <= 7,
            board.cells.len() == 64,
            forall|i: int| 0 <= i < 64 ==> #[trigger] board.cells@[i] == (if i == row * 8 + col || exists|e: int, j: int|
                0 <= e < d && 1 <= j <= counts@[e] && #[trigger] ray_index(row as int, col as int, e, j) == i { player } else { before[i] }),
        decreases 8 - d,
    {
        let (dr, dc) = direction(d);
        let n = counts[d];
        proof {
            lemma_ray_cells(placed, row as int, col as int, dr as int, dc as int, player, opp, 1);
            assert(n as int == ray(placed, row as int, col as int, dr as int, dc as int, player, opp, 1));
        }
        let mut r: i32 = row as i32 + dr;
        let mut c: i32 = col as i32 + dc;
        let mut k: u32 = 0;
        while k < n
            invariant
                0 <= k <= n <= 7,
                0 <= d < 8,
                row < 8, col < 8,
                dr as int == dir(d as int).0, dc as int == dir(d as int).1,
                n as int == flips(placed, row as int, col as int, player, d as int),
                forall|j: int| 1 <= j <= n ==> in_board(#[trigger] step(row as int, dr as int, j), step(col as int, dc as int, j)),
                r as int == step(row as int, dr as int, k + 1),
                c as int == step(col as int, dc as int, k + 1),
                board.cells.len() == 64,
                forall|i: int| 0 <= i < 64 ==> #[trigger] board.cells@[i] == (if i == row * 8 + col || (exists|e: int, j: int|
                    0 <= e < d && 1 <= j <= counts@[e] && #[trigger] ray_index(row as int, col as int, e, j) == i)
                    || (exists|j: int| 1 <= j <= k && #[trigger] ray_index(row as int, col as int, d as int, j) == i) { player } else { before[i] }),
            decreases n - k,
        {
            assert(in_board(step(row as int, dr as int, k + 1), step(col as int, dc as int, k + 1)));
            let target = idx(r as u32, c as u32);
            board.cells.set(target as usize, player);
            assert(ray_index(row as int, col as int, d as int, k + 1) == target);
            assert forall|i: int| 0 <= i < 64 implies #[trigger] board.cells@[i] == (if i == row * 8 + col || (exists|e: int, j: int|
                    0 <= e < d && 1 <= j <= counts@[e] && #[trigger] ray_index(row as int, col as int, e, j) == i)
                    || (exists|j: int| 1 <= j <= k + 1 && #[trigger] ray_index(row as int, col as int, d as int, j) == i) { player } else { before[i] }) by {
                if i == target {
                    assert(ray_index(row as int, col as int, d as int, k + 1) == i);
                } else if exists|j: int| 1 <= j <= k + 1 && #[trigger] ray_index(row as int, col as int, d as int, j) == i {
                    let j = choose|j: int| 1 <= j <= k + 1 && #[trigger] ray_index(row as int, col as int, d as int, j) == i;
                    assert(j != k + 1);
                    assert(1 <= j <= k && ray_index(row as int, col as int, d as int, j) == i);
                }
            }
            k += 1;
            r += dr;
            c += dc;
        }
        assert forall|i: int| 0 <= i < 64 implies #[trigger] board.cells@[i] == (if i == row * 8 + col || exists|e: int, j: int|
                0 <= e < d + 1 && 1 <= j <= counts@[e] && #[trigger] ray_index(row as int, col as int, e, j) == i { player } else { before[i] }) by {
            if exists|e: int, j: int| 0 <= e < d + 1 && 1 <= j <= counts@[e] && #[trigger] ray_index(row as int, col as int, e, j) == i {
                let (e, j) = choose|e: int, j: int| 0 <= e < d + 1 && 1 <= j <= counts@[e] && #[trigger] ray_index(row as int, col as int, e, j) == i;
                if e == d {
                    assert(1 <= j <= n && ray_index(row as int, col as int, d as int, j) == i);
                } else {
                    assert(0 <= e < d && 1 <= j <= counts@[e] && ray_index(row as int, col as int, e, j) == i);
                }
            }
        }
        d += 1;
    }
    assert forall|i: int| 0 <= i < 64 implies #[trigger] board.cells@[i] == after_move(before, row as int, col as int, player)[i] by {
        let ex1 = exists|e: int, j: int| 0 <= e < 8 && 1 <= j <= counts@[e] && #[trigger] ray_index(row as int, col as int, e, j) == i;
        let ex2 = flipped(placed, row as int, col as int, player, i);
        if ex1 {
            let (e, j) = choose|e: int, j: int| 0 <= e < 8 && 1 <= j <= counts@[e] && #[trigger] ray_index(row as int, col as int, e, j) == i;
            assert(0 <= e < 8 && 1 <= j <= flips(placed, row as int, col as int, player, e) && ray_index(row as int, col as int, e, j) == i);
        }
        if ex2 {
            let (e, j) = choose|e: int, j: int| 0 <= e < 8 && 1 <= j <= flips(placed, row as int, col as int, player, e)
                && #[trigger] ray_index(row as int, col as int, e, j) == i;
            assert(0 <= e < 8 && 1 <= j <= counts@[e] && ray_index(row as int, col as int, e, j) == i);
        }
    }
    assert(board.cells@ =~= after_move(before, row as int, col as int, player));
    BoardComponent { cells: board.cells, width, height }
}

/// Next turn: the opponent if they can move, else the same player (pass 1),
/// else nobody can move (pass 2).
pub fn turn_system(board: &BoardComponent, current: u32, opponent: u32) -> (t: TurnComponent)
    ensures
        has_move(board.cells@, opponent) ==> t.current_player == opponent && t.pass_count == 0,
        !has_move(board.cells@, opponent) ==> t.current_player == current
            && t.pass_count == (if has_move(board.cells@, current) { 1u32 } else { 2u32 }),
{
    if has_legal_moves(board, opponent) {
        TurnComponent { current_player: opponent, pass_count: 0 }
    } else {
        pass_system(board, current)
    }
}

/// Automatic pass: the current player keeps the turn if able to move.
pub fn pass_system(board: &BoardComponent, current: u32) -> (t: TurnComponent)
    ensures
        t.current_player == current,
        t.pass_count == (if has_move(board.cells@, current) { 1u32 } else { 2u32 }),
{
    if has_legal_moves(board, current) {
        TurnComponent { current_player: current, pass_count: 1 }
    } else {
        TurnComponent { current_player: current, pass_count: 2 }
    }
}

/// The game ends when nobody can move or the board is full.
pub fn end_condition_system(board: &BoardComponent, turn: &TurnComponent) -> (s: GameStatusComponent)
    requires
        board.cells.len() == 64,
    ensures
        s.status == (if turn.pass_count >= 2 || full(board.cells@) { STATUS_FINISHED } else { STATUS_ACTIVE }),
{
    if turn.pass_count >= 2 || is_board_full(board) {
        GameStatusComponent { status: STATUS_FINISHED }
    } else {
        GameStatusComponent { status: STATUS_ACTIVE }
    }
}

/// Law: a move only turns opponent pieces; every other square keeps its
/// piece, apart from the square played, which must have been empty.
pub proof fn lemma_move_turns_only_opponent_pieces(cells: Seq<u32>, row: int, col: int, player: u32, i: int)
    requires
        cells.len() == 64,
        legal(cells, row, col, player),
        0 <= i < 64,
    ensures
        after_move(cells, row, col, player)[i] != cells[i] ==> (i == row * 8 + col && cells[i] == EMPTY)
            || cells[i] == opponent(player),
{
    let placed = cells.update(row * 8 + col, player);
    if i != row * 8 + col && flipped(placed, row, col, player, i) {
        let (d, j) = choose|d: int, j: int| 0 <= d < 8 && 1 <= j <= flips(placed, row, col, player, d)
            && #[trigger] ray_index(row, col, d, j) == i;
        lemma_ray_cells(placed, row, col, dir(d).0, dir(d).1, player, opponent(player), 1);
        assert(in_board(step(row, dir(d).0, j), step(col, dir(d).1, j)));
    }
}

/// Law: every compass direction counts. When (row, col) is an empty square
/// and, walking from it in any of the eight unit directions (dr, dc), a run
/// of opponent pieces is closed by one of the player's, the placement is
/// legal and every piece of that run becomes the player's.
pub proof fn lemma_every_direction_counts(cells: Seq<u32>, row: int, col: int, player: u32, dr: int, dc: int, j: int)
    requires
        cells.len() == 64,
        in_board(row, col),
        cell(cells, row, col) == EMPTY,
        -1 <= dr <= 1 && -1 <= dc <= 1 && !(dr == 0 && dc == 0),
        ray(cells, row, col, dr, dc, player, opponent(player), 1) > 0,
        1 <= j <= ray(cells, row, col, dr, dc, player, opponent(player), 1),
    ensures
        legal(cells, row, col, player),
        after_move(cells, row, col, player)[step(row, dr, j) * 8 + step(col, dc, j)] == player,
{
    let d: int = if dr == -1 && dc == -1 { 0 } else if dr == -1 && dc == 0 { 1 } else if dr == -1 && dc == 1 { 2 }
        else if dr == 0 && dc == -1 { 3 } else if dr == 0 && dc == 1 { 4 } else if dr == 1 && dc == -1 { 5 }
        else if dr == 1 && dc == 0 { 6 } else { 7 };
    assert(dir(d) == (dr, dc));
    assert(flips(cells, row, col, player, d) > 0);
    let placed = cells.update(row * 8 + col, player);
    lemma_ray_ignores_origin(cells, row, col, dr, dc, player, opponent(player), 1, player);
    assert(flips(placed, row, col, player, d) == ray(cells, row, col, dr, dc, player, opponent(player), 1));
    lemma_ray_cells(cells, row, col, dr, dc, player, opponent(player), 1);
    let i = step(row, dr, j) * 8 + step(col, dc, j);
    assert(in_board(step(row, dr, j), step(col, dc, j)));
    assert(ray_index(row, col, d, j) == i);
    assert(flipped(placed, row, col, player, i));
    assert(0 <= i < 64);
}

/// The contract's operations over its stored world.
#[derive(Debug)]
pub struct ReversiContract;

impl ECSWorldState {
    /// 64 cells and the score matching the board.
    pub open spec fn wf(&self) -> bool {
        &&& self.board.cells.len() == 64
        &&& self.score.black_count == count_of(self.board.cells@, BLACK)
        &&& self.score.white_count == count_of(self.board.cells@, WHITE)
    }
}

/// The winner as reported by the score view.
pub open spec fn winner_of(world: ECSWorldState) -> u32 {
    if world.status.status == STATUS_FINISHED {
        if world.score.black_count > world.score.white_count { BLACK }
        else if world.score.white_count > world.score.black_count { WHITE }
        else { WINNER_DRAW }
    } else {
        WINNER_NONE
    }
}

impl ReversiContract {
    /// A new game: opening position, black to move.
    pub fn init_game(player_one: Vec<u8>, player_two: Vec<u8>) -> (w: ECSWorldState)
        ensures
            w.wf(),
            w.board.cells@ == Seq::new(64, |i: int| if i == 27 || i == 36 { WHITE } else if i == 28 || i == 35 { BLACK } else { EMPTY }),
            w.board.width == 8, w.board.height == 8,
            w.turn.current_player == BLACK, w.turn.pass_count == 0,
            w.status.status == STATUS_ACTIVE,
            w.player_one == player_one, w.player_two == player_two,
    {
        let board = init_board();
        let score = scoring_system(&board);
        ECSWorldState {
            board,
            turn: TurnComponent { current_player: BLACK, pass_count: 0 },
            status: GameStatusComponent { status: STATUS_ACTIVE },
            score,
            player_one,
            player_two,
        }
    }

    /// The colour a caller plays.
    fn player_color(world: &ECSWorldState, player: &Vec<u8>) -> (r: Option<u32>)
        ensures
            r == (if player@ == world.player_one@ { Some(BLACK) } else if player@ == world.player_two@ { Some(WHITE) } else { None::<u32> }),
    {
        if bytes_equal(player, &world.player_one) {
            Some(BLACK)
        } else if bytes_equal(player, &world.player_two) {
            Some(WHITE)
        } else {
            None
        }
    }

    /// Plays (row, col) for the caller: refused when the game is over, the
    /// caller is not a player or not on turn, or the placement flips nothing;
    /// otherwise flips, rescores, passes the turn and checks the end.
    pub fn submit_move(world: &mut ECSWorldState, player: &Vec<u8>, row: u32, col: u32) -> (r: Result<(), ReversiError>)
        requires
            old(world).wf(),
        ensures
            final(world).wf(),
            ({
                let w = *old(world);
                let color = if player@ == w.player_one@ { BLACK } else { WHITE };
                if w.status.status != STATUS_ACTIVE {
                    r == Err::<(), ReversiError>(ReversiError::GameFinished)
                } else if player@ != w.player_one@ && player@ != w.player_two@ {
                    r == Err::<(), ReversiError>(ReversiError::UnknownPlayer)
                } else if color != w.turn.current_player {
                    r == Err::<(), ReversiError>(ReversiError::NotYourTurn)
                } else if !legal(w.board.cells@, row as int, col as int, color) {
                    r == Err::<(), ReversiError>(ReversiError::IllegalMove)
                } else {
                    let cells = after_move(w.board.cells@, row as int, col as int, color);
                    let opp = opponent(color);
                    &&& r is Ok
                    &&& final(world).board.cells@ == cells
                    &&& final(world).board.width == w.board.width
                    &&& final(world).board.height == w.board.height
                    &&& final(world).player_one == w.player_one
                    &&& final(world).player_two == w.player_two
                    &&& (has_move(cells, opp) ==> final(world).turn.current_player == opp && final(world).turn.pass_count == 0)
                    &&& (!has_move(cells, opp) ==> final(world).turn.current_player == color
                        && final(world).turn.pass_count == (if has_move(cells, color) { 1u32 } else { 2u32 }))
                    &&& final(world).status.status == (if final(world).turn.pass_count >= 2 || full(cells) { STATUS_FINISHED } else { STATUS_ACTIVE })
                }
            }),
            r is Err ==> *final(world) == *old(world),
    {
        if world.status.status != STATUS_ACTIVE {
            return Err(ReversiError::GameFinished);
        }
        let player_color = match Self::player_color(world, player) {
            Some(c) => c,
            None => return Err(ReversiError::UnknownPlayer),
        };
        if player_color != world.turn.current_player {
            return Err(ReversiError::NotYourTurn);
        }
        if !move_validation_system(&world.board, row, col, player_color) {
            return Err(ReversiError::IllegalMove);
        }
        let opp = opponent_of(player_color);
        let mut old_board = BoardComponent { cells: Vec::new(), width: 0, height: 0 };
        std::mem::swap(&mut world.board, &mut old_board);
        world.board = flip_resolution_system(old_board, row, col, player_color);
        world.score = scoring_system(&world.board);
        world.turn = turn_system(&world.board, player_color, opp);
        world.status = end_condition_system(&world.board, &world.turn);
        Ok(())
    }

    /// Turn and status view.
    pub fn get_state(world: &ECSWorldState) -> (g: GameState)
        ensures
            g.current_player == world.turn.current_player,
            g.pass_count == world.turn.pass_count,
            g.status == world.status.status,
    {
        GameState { current_player: world.turn.current_player, pass_count: world.turn.pass_count, status: world.status.status }
    }

    /// Board view.
    pub fn get_board(world: &ECSWorldState) -> (b: BoardState)
        ensures
            b.cells@ == world.board.cells@,
            b.width == world.board.width,
            b.height == world.board.height,
    {
        let cells = world.board.cells.clone();
        assert(cells@ =~= world.board.cells@);
        BoardState { cells, width: world.board.width, height: world.board.height }
    }

    /// Score view with the winner once the game has finished.
    pub fn get_score(world: &ECSWorldState) -> (s: ScoreState)
        ensures
            s.black_count == world.score.black_count,
            s.white_count == world.score.white_count,
            s.winner == winner_of(*world),
    {
        let winner = if world.status.status == STATUS_FINISHED {
            if world.score.black_count > world.score.white_count {
                BLACK
            } else if world.score.white_count > world.score.black_count {
                WHITE
            } else {
                WINNER_DRAW
            }
        } else {
            WINNER_NONE
        };
        ScoreState { black_count: world.score.black_count, white_count: world.score.white_count, winner }
    }
}

} // verus!
