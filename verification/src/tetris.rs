//! Tetris on a 10 x 20 board held as one bit mask per row: moves, rotation,
//! locking, line clearing, scoring and levels.
use vstd::prelude::*;

verus! {

pub const BOARD_WIDTH: i32 = 10;
pub const BOARD_HEIGHT: i32 = 20;

/// The row mask of a full row: ten bits set.
pub const FULL_ROW: u32 = 1023;

/// The seven tetrominoes.
#[derive(Clone, Copy, Debug, PartialEq, Eq, Structural)]
pub enum TetrominoShape {
    I,
    J,
    L,
    O,
    S,
    T,
    Z,
}

/// A piece: its shape, its pivot cell and its rotation (0 to 3).
#[derive(Clone, Copy, Debug, PartialEq, Eq, Structural)]
pub struct Piece {
    pub shape: TetrominoShape,
    pub x: i32,
    pub y: i32,
    pub rotation: u32,
}

/// The board (row 0 at the top, bit `x` of a row set when cell `x` is
/// filled), the falling piece, the next piece and the counters.
#[derive(Debug)]
pub struct GameState {
    pub board: Vec<u32>,
    pub current_piece: Piece,
    pub next_piece: Piece,
    pub score: u32,
    pub level: u32,
    pub lines_cleared: u32,
    pub game_over: bool,
}

/// The state as a value.
pub struct GameStateView {
    pub board: Seq<u32>,
    pub current_piece: Piece,
    pub next_piece: Piece,
    pub score: u32,
    pub level: u32,
    pub lines_cleared: u32,
    pub game_over: bool,
}

impl View for GameState {
    type V = GameStateView;

    open spec fn view(&self) -> GameStateView {
        GameStateView {
            board: self.board@,
            current_piece: self.current_piece,
            next_piece: self.next_piece,
            score: self.score,
            level: self.level,
            lines_cleared: self.lines_cleared,
            game_over: self.game_over,
        }
    }
}

/// The four cells of a shape in a rotation, relative to the pivot; a
/// rotation above 3 is drawn as rotation 3.
pub open spec fn coords(shape: TetrominoShape, rot: u32) -> Seq<(i32, i32)> {
    match shape {
        TetrominoShape::I =>
            if rot == 0 { seq![(-1i32, 0i32), (0i32, 0i32), (1i32, 0i32), (2i32, 0i32)] }
            else if rot == 1 { seq![(1i32, -1i32), (1i32, 0i32), (1i32, 1i32), (1i32, 2i32)] }
            else if rot == 2 { seq![(-1i32, 1i32), (0i32, 1i32), (1i32, 1i32), (2i32, 1i32)] }
            else { seq![(0i32, -1i32), (0i32, 0i32), (0i32, 1i32), (0i32, 2i32)] },
        TetrominoShape::O => seq![(0i32, 0i32), (1i32, 0i32), (0i32, 1i32), (1i32, 1i32)],
        TetrominoShape::T =>
            if rot == 0 { seq![(-1i32, 0i32), (0i32, 0i32), (1i32, 0i32), (0i32, 1i32)] }
            else if rot == 1 { seq![(0i32, -1i32), (0i32, 0i32), (0i32, 1i32), (-1i32, 0i32)] }
            else if rot == 2 { seq![(-1i32, 0i32), (0i32, 0i32), (1i32, 0i32), (0i32, -1i32)] }
            else { seq![(0i32, -1i32), (0i32, 0i32), (0i32, 1i32), (1i32, 0i32)] },
        TetrominoShape::J =>
            if rot == 0 { seq![(-1i32, 0i32), (0i32, 0i32), (1i32, 0i32), (1i32, 1i32)] }
            else if rot == 1 { seq![(0i32, -1i32), (0i32, 0i32), (0i32, 1i32), (-1i32, 1i32)] }
            else if rot == 2 { seq![(-1i32, -1i32), (-1i32, 0i32), (0i32, 0i32), (1i32, 0i32)] }
            else { seq![(1i32, -1i32), (0i32, 0i32), (0i32, -1i32), (0i32, 1i32)] },
        TetrominoShape::L =>
            if rot == 0 { seq![(-1i32, 0i32), (0i32, 0i32), (1i32, 0i32), (-1i32, 1i32)] }
            else if rot == 1 { seq![(0i32, -1i32), (0i32, 0i32), (0i32, 1i32), (1i32, 1i32)] }
            else if rot == 2 { seq![(1i32, -1i32), (-1i32, 0i32), (0i32, 0i32), (1i32, 0i32)] }
            else { seq![(-1i32, -1i32), (0i32, -1i32), (0i32, 0i32), (0i32, 1i32)] },
        TetrominoShape::S =>
            if rot == 0 || rot == 2 { seq![(0i32, 0i32), (1i32, 0i32), (-1i32, 1i32), (0i32, 1i32)] }
            else { seq![(0i32, -1i32), (0i32, 0i32), (1i32, 0i32), (1i32, 1i32)] },
        TetrominoShape::Z =>
            if rot == 0 || rot == 2 { seq![(-1i32, 0i32), (0i32, 0i32), (0i32, 1i32), (1i32, 1i32)] }
            else { seq![(1i32, -1i32), (1i32, 0i32), (0i32, 0i32), (0i32, 1i32)] },
    }
}

/// Every cell offset lies in -1..=2 on both axes, and some cell is at or
/// below the pivot row.
pub proof fn lemma_coords_shape(shape: TetrominoShape, rot: u32)
    ensures
        coords(shape, rot).len() == 4,
        forall|k: int| 0 <= k < 4 ==> -1 <= #[trigger] coords(shape, rot)[k].0 <= 2 && -1 <= coords(shape, rot)[k].1 <= 2,
        exists|k: int| 0 <= k < 4 && #[trigger] coords(shape, rot)[k].1 >= 0,
{
    let c = coords(shape, rot);
    assert(c[1].1 >= 0 || c[2].1 >= 0);
    if c[1].1 >= 0 {
        assert(c[1].1 >= 0);
    } else {
        assert(c[2].1 >= 0);
    }
}

/// Two cells share a side.
pub open spec fn side_by_side(a: (i32, i32), b: (i32, i32)) -> bool {
    (a.0 == b.0 && (a.1 - b.1 == 1 || b.1 - a.1 == 1)) || (a.1 == b.1 && (a.0 - b.0 == 1 || b.0 - a.0 == 1))
}

/// The cells reached from the marked ones by at most one more side.
pub open spec fn spread(c: Seq<(i32, i32)>, m: Seq<bool>) -> Seq<bool> {
    Seq::new(4, |k: int| m[k] || (m[0] && side_by_side(c[0], c[k])) || (m[1] && side_by_side(c[1], c[k]))
        || (m[2] && side_by_side(c[2], c[k])) || (m[3] && side_by_side(c[3], c[k])))
}

/// Four different cells joined side by side into one piece.
pub open spec fn tetromino(c: Seq<(i32, i32)>) -> bool {
    let reached = spread(c, spread(c, spread(c, seq![true, false, false, false])));
    &&& c.len() == 4
    &&& forall|i: int, j: int| 0 <= i < j < 4 ==> c[i] != c[j]
    &&& reached[0] && reached[1] && reached[2] && reached[3]
}

/// Law: every shape in every rotation is four different cells joined side
/// by side, each offset within -1 to 2 on both axes; a rotation above 3 is
/// drawn as rotation 3; the O piece looks the same in every rotation.
pub proof fn lemma_tetromino(shape: TetrominoShape, rot: u32)
    ensures
        tetromino(coords(shape, rot)),
        forall|k: int| 0 <= k < 4 ==> -1 <= #[trigger] coords(shape, rot)[k].0 <= 2 && -1 <= coords(shape, rot)[k].1 <= 2,
        coords(shape, rot) == coords(shape, if rot > 3 { 3 } else { rot }),
        shape == TetrominoShape::O ==> coords(shape, rot) == coords(shape, 0),
{
    let c = coords(shape, rot);
    let m1 = spread(c, seq![true, false, false, false]);
    let m2 = spread(c, m1);
    let m3 = spread(c, m2);
    assert(m3[0] && m3[1] && m3[2] && m3[3]);
    lemma_coords_shape(shape, rot);
}

/// The row at `y`; rows past the stored ones read as empty.
pub open spec fn row_at(board: Seq<u32>, y: int) -> u32 {
    if 0 <= y < board.len() { board[y] } else { 0 }
}

pub open spec fn bit_set(row: u32, x: int) -> bool {
    (row >> (x as u32)) & 1u32 == 1u32
}

/// A cell is blocked when it is outside the side walls, below the floor, or
/// filled; cells above the top are open.
pub open spec fn cell_blocked(board: Seq<u32>, x: int, y: int) -> bool {
    ||| !(0 <= x < BOARD_WIDTH)
    ||| y >= BOARD_HEIGHT
    ||| (y >= 0 && bit_set(row_at(board, y), x))
}

/// A piece of `shape` at (x, y) in rotation `rot` meets a wall, the floor or
/// a filled cell.
pub open spec fn collides(board: Seq<u32>, shape: TetrominoShape, x: int, y: int, rot: u32) -> bool {
    exists|k: int| 0 <= k < 4 && #[trigger] cell_blocked(board, x + coords(shape, rot)[k].0, y + coords(shape, rot)[k].1)
}

pub open spec fn piece_collides(board: Seq<u32>, p: Piece) -> bool {
    collides(board, p.shape, p.x as int, p.y as int, p.rotation)
}

/// A stored game: 20 rows, rotations below 4, and pieces near the board; a
/// running game's falling piece sits on open cells.
pub open spec fn state_wf(s: GameStateView) -> bool {
    &&& s.board.len() == 20
    &&& s.current_piece.rotation < 4
    &&& s.next_piece.rotation < 4
    &&& -1000 <= s.current_piece.x <= 1000 && -1000 <= s.current_piece.y <= 1000
    &&& -1000 <= s.next_piece.x <= 1000 && -1000 <= s.next_piece.y <= 1000
    &&& !s.game_over ==> !piece_collides(s.board, s.current_piece)
}

/// The rotation after turning by `d_rot` quarter turns.
pub open spec fn turned(rot: u32, d_rot: i32) -> u32 {
    ((rot as int + d_rot as int) % 4) as u32
}

/// The falling piece shifted by (dx, dy) and turned by `d_rot`.
pub open spec fn shifted(p: Piece, dx: i32, dy: i32, d_rot: i32) -> Piece {
    Piece { x: (p.x + dx) as i32, y: (p.y + dy) as i32, rotation: turned(p.rotation, d_rot), ..p }
}

/// The board after filling the first `k` cells of the piece that lie on it.
pub open spec fn placed(board: Seq<u32>, p: Piece, k: int) -> Seq<u32>
    decreases k,
{
    if k <= 0 {
        board
    } else {
        let b = placed(board, p, k - 1);
        let cx = p.x + coords(p.shape, p.rotation)[k - 1].0;
        let cy = p.y + coords(p.shape, p.rotation)[k - 1].1;
        if 0 <= cy < BOARD_HEIGHT {
            b.update(cy, b[cy] | (1u32 << (cx as u32)))
        } else {
            b
        }
    }
}

/// Some cell of the piece is above the top row.
pub open spec fn above_top(p: Piece) -> bool {
    exists|k: int| 0 <= k < 4 && p.y + #[trigger] coords(p.shape, p.rotation)[k].1 < 0
}

/// The rows that are not full, in order.
pub open spec fn kept_rows(rows: Seq<u32>) -> Seq<u32>
    decreases rows.len(),
{
    if rows.len() == 0 {
        rows
    } else if rows.last() == FULL_ROW {
        kept_rows(rows.drop_last())
    } else {
        kept_rows(rows.drop_last()).push(rows.last())
    }
}

/// How many rows are full.
pub open spec fn full_rows(rows: Seq<u32>) -> nat
    decreases rows.len(),
{
    if rows.len() == 0 {
        0
    } else if rows.last() == FULL_ROW {
        full_rows(rows.drop_last()) + 1
    } else {
        full_rows(rows.drop_last())
    }
}

/// Full rows removed, the rest moved down, empty rows added at the top.
pub open spec fn cleared(rows: Seq<u32>) -> Seq<u32> {
    Seq::new(full_rows(rows), |i: int| 0u32) + kept_rows(rows)
}

/// Points for clearing `lines` rows at once, before the level factor.
pub open spec fn line_points(lines: nat) -> nat {
    if lines == 1 { 100 } else if lines == 2 { 300 } else if lines == 3 { 500 } else if lines == 4 { 800 } else { 0 }
}

/// The counters after clearing `lines` rows.
pub open spec fn scored(s: GameStateView, lines: nat) -> GameStateView {
    if lines > 0 {
        let lc = s.lines_cleared + lines;
        GameStateView {
            score: (s.score + line_points(lines) * (s.level + 1)) as u32,
            lines_cleared: lc as u32,
            level: if lc >= s.level * 10 { (s.level + 1) as u32 } else { s.level },
            ..s
        }
    } else {
        s
    }
}

/// The integer operations of scoring stay in range.
pub open spec fn score_fits(s: GameStateView, lines: nat) -> bool {
    lines > 0 ==> {
        &&& s.level + 1 <= u32::MAX
        &&& line_points(lines) * (s.level + 1) <= u32::MAX
        &&& s.score + line_points(lines) * (s.level + 1) <= u32::MAX
        &&& s.lines_cleared + lines <= u32::MAX
        &&& s.level * 10 <= u32::MAX
    }
}

/// The state after the falling piece locks and `next` is drawn: a piece
/// locked above the top ends the game; otherwise full rows clear, points
/// are added, the next piece falls, and the game ends if it has no room.
pub open spec fn locked(s: GameStateView, next: Piece) -> GameStateView {
    let b1 = placed(s.board, s.current_piece, 4);
    if above_top(s.current_piece) {
        GameStateView { board: b1, game_over: true, ..s }
    } else {
        let b2 = cleared(b1);
        let s2 = scored(s, full_rows(b1));
        GameStateView {
            board: b2,
            current_piece: s.next_piece,
            next_piece: next,
            game_over: s.game_over || piece_collides(b2, s.next_piece),
            ..s2
        }
    }
}

/// Locking can run: the integer operations of scoring stay in range.
pub open spec fn lock_fits(s: GameStateView) -> bool {
    score_fits(s, full_rows(placed(s.board, s.current_piece, 4)))
}

/// A new piece at the spawn cell (3, 0), unrotated.
pub open spec fn spawned(shape: TetrominoShape) -> Piece {
    Piece { shape, x: 3, y: 0, rotation: 0 }
}

/// The shape drawn for index `i` (0 to 6; larger indices give Z).
pub open spec fn shape_of(i: u64) -> TetrominoShape {
    if i == 0 { TetrominoShape::I }
    else if i == 1 { TetrominoShape::J }
    else if i == 2 { TetrominoShape::L }
    else if i == 3 { TetrominoShape::O }
    else if i == 4 { TetrominoShape::S }
    else if i == 5 { TetrominoShape::T }
    else { TetrominoShape::Z }
}

/// The spawn-cell piece for a drawn index.
pub fn piece_for_index(index: u64) -> (p: Piece)
    ensures
        p == spawned(shape_of(index)),
{
    let shape = match index {
        0 => TetrominoShape::I,
        1 => TetrominoShape::J,
        2 => TetrominoShape::L,
        3 => TetrominoShape::O,
        4 => TetrominoShape::S,
        5 => TetrominoShape::T,
        _ => TetrominoShape::Z,
    };
    Piece { shape, x: 3, y: 0, rotation: 0 }
}

/// The cell offsets of a shape in a rotation.
pub fn get_piece_coords(shape: TetrominoShape, rot: u32) -> (r: [(i32, i32); 4])
    ensures
        r@ == coords(shape, rot),
        tetromino(r@),
        forall|k: int| 0 <= k < 4 ==> -1 <= #[trigger] r@[k].0 <= 2 && -1 <= r@[k].1 <= 2,
        r@ == coords(shape, if rot > 3 { 3 } else { rot }),
        shape == TetrominoShape::O ==> r@ == coords(shape, 0),
{
    proof {
        lemma_tetromino(shape, rot);
        lemma_coords_shape(shape, rot);
    }
    let r: [(i32, i32); 4] = match shape {
        TetrominoShape::I => match rot {
            0 => [(-1, 0), (0, 0), (1, 0), (2, 0)],
            1 => [(1, -1), (1, 0), (1, 1), (1, 2)],
            2 => [(-1, 1), (0, 1), (1, 1), (2, 1)],
            _ => [(0, -1), (0, 0), (0, 1), (0, 2)],
        },
        TetrominoShape::O => [(0, 0), (1, 0), (0, 1), (1, 1)],
        TetrominoShape::T => match rot {
            0 => [(-1, 0), (0, 0), (1, 0), (0, 1)],
            1 => [(0, -1), (0, 0), (0, 1), (-1, 0)],
            2 => [(-1, 0), (0, 0), (1, 0), (0, -1)],
            _ => [(0, -1), (0, 0), (0, 1), (1, 0)],
        },
        TetrominoShape::J => match rot {
            0 => [(-1, 0), (0, 0), (1, 0), (1, 1)],
            1 => [(0, -1), (0, 0), (0, 1), (-1, 1)],
            2 => [(-1, -1), (-1, 0), (0, 0), (1, 0)],
            _ => [(1, -1), (0, 0), (0, -1), (0, 1)],
        },
        TetrominoShape::L => match rot {
            0 => [(-1, 0), (0, 0), (1, 0), (-1, 1)],
            1 => [(0, -1), (0, 0), (0, 1), (1, 1)],
            2 => [(1, -1), (-1, 0), (0, 0), (1, 0)],
            _ => [(-1, -1), (0, -1), (0, 0), (0, 1)],
        },
        TetrominoShape::S => match rot {
            0 => [(0, 0), (1, 0), (-1, 1), (0, 1)],
            1 => [(0, -1), (0, 0), (1, 0), (1, 1)],
            2 => [(0, 0), (1, 0), (-1, 1), (0, 1)],
            _ => [(0, -1), (0, 0), (1, 0), (1, 1)],
        },
        TetrominoShape::Z => match rot {
            0 => [(-1, 0), (0, 0), (0, 1), (1, 1)],
            1 => [(1, -1), (1, 0), (0, 0), (0, 1)],
            2 => [(-1, 0), (0, 0), (0, 1), (1, 1)],
            _ => [(1, -1), (1, 0), (0, 0), (0, 1)],
        },
    };
    assert(r@ =~= coords(shape, rot));
    r
}

/// A piece on open cells lies within the walls and above the floor.
pub proof fn lemma_open_piece_bounds(board: Seq<u32>, p: Piece)
    requires
        !piece_collides(board, p),
    ensures
        -1 <= p.x <= 10,
        p.y < 20,
{
    lemma_coords_shape(p.shape, p.rotation);
    let c = coords(p.shape, p.rotation);
    assert(!cell_blocked(board, p.x + c[0].0, p.y + c[0].1));
    assert(!cell_blocked(board, p.x + c[1].0, p.y + c[1].1));
    assert(!cell_blocked(board, p.x + c[2].0, p.y + c[2].1));
    assert(!cell_blocked(board, p.x + c[3].0, p.y + c[3].1));
    let k = choose|k: int| 0 <= k < 4 && #[trigger] coords(p.shape, p.rotation)[k].1 >= 0;
    assert(!cell_blocked(board, p.x + c[k].0, p.y + c[k].1));
}

/// A piece whose pivot is at or below the last row cannot go lower.
pub proof fn lemma_floor_blocks(board: Seq<u32>, p: Piece)
    requires
        p.y + 1 >= 20,
        p.y < i32::MAX,
    ensures
        collides(board, p.shape, p.x as int, p.y + 1, p.rotation),
{
    lemma_coords_shape(p.shape, p.rotation);
    let k = choose|k: int| 0 <= k < 4 && #[trigger] coords(p.shape, p.rotation)[k].1 >= 0;
    assert(cell_blocked(board, p.x + coords(p.shape, p.rotation)[k].0, p.y + 1 + coords(p.shape, p.rotation)[k].1));
}

/// Whether a piece of `shape` at (x, y) in rotation `rot` meets a wall, the
/// floor or a filled cell.
pub fn check_collision(board: &Vec<u32>, shape: TetrominoShape, x: i32, y: i32, rot: u32) -> (r: bool)
    requires
        i32::MIN + 1 <= x <= i32::MAX - 2,
        i32::MIN + 1 <= y <= i32::MAX - 2,
    ensures
        r == collides(board@, shape, x as int, y as int, rot),
{
    let cells = get_piece_coords(shape, rot);
    proof {
        lemma_coords_shape(shape, rot);
    }
    let mut k: usize = 0;
    while k < 4
        invariant
            cells@ == coords(shape, rot),
            coords(shape, rot).len() == 4,
            forall|j: int| 0 <= j < 4 ==> -1 <= #[trigger] coords(shape, rot)[j].0 <= 2 && -1 <= coords(shape, rot)[j].1 <= 2,
            i32::MIN + 1 <= x <= i32::MAX - 2,
            i32::MIN + 1 <= y <= i32::MAX - 2,
            0 <= k <= 4,
            forall|j: int| 0 <= j < k ==> !#[trigger] cell_blocked(board@, x + coords(shape, rot)[j].0, y + coords(shape, rot)[j].1),
        decreases 4 - k,
    {
        let (cx, cy) = cells[k];
        assert(cells@[k as int] == coords(shape, rot)[k as int]);
        let abs_x = x + cx;
        let abs_y = y + cy;
        if !(0 <= abs_x && abs_x < BOARD_WIDTH) || abs_y >= BOARD_HEIGHT {
            assert(cell_blocked(board@, x + coords(shape, rot)[k as int].0, y + coords(shape, rot)[k as int].1));
            return true;
        }
        if abs_y >= 0 {
            let row: u32 = if (abs_y as usize) < board.len() { board[abs_y as usize] } else { 0 };
            if (row >> (abs_x as u32)) & 1 == 1 {
                assert(cell_blocked(board@, x + coords(shape, rot)[k as int].0, y + coords(shape, rot)[k as int].1));
                return true;
            }
        }
        k += 1;
    }
    false
}

/// Shifts the falling piece by (dx, dy) and turns it by `d_rot` quarter
/// turns when it has room there; returns whether it moved.
pub fn try_move(state: &mut GameState, dx: i32, dy: i32, d_rot: i32) -> (r: bool)
    requires
        i32::MIN + 1 <= old(state).current_piece.x + dx <= i32::MAX - 2,
        i32::MIN + 1 <= old(state).current_piece.y + dy <= i32::MAX - 2,
        old(state).current_piece.rotation <= i32::MAX,
        i32::MIN <= old(state).current_piece.rotation + d_rot <= i32::MAX,
    ensures
        r == !piece_collides(old(state)@.board, shifted(old(state).current_piece, dx, dy, d_rot)),
        r ==> final(state)@ == (GameStateView { current_piece: shifted(old(state).current_piece, dx, dy, d_rot), ..old(state)@ }),
        !r ==> final(state)@ == old(state)@,
{
    let new_x = state.current_piece.x + dx;
    let new_y = state.current_piece.y + dy;
    let turns = state.current_piece.rotation as i32 + d_rot;
    let new_rot = match turns.checked_rem_euclid(4) {
        Some(v) => v as u32,
        None => 0,
    };
    if check_collision(&state.board, state.current_piece.shape, new_x, new_y, new_rot) {
        return false;
    }
    state.current_piece.x = new_x;
    state.current_piece.y = new_y;
    state.current_piece.rotation = new_rot;
    true
}

/// Fills the cells of the falling piece that lie on the board; returns
/// whether some cell is above the top.
fn place_piece(state: &mut GameState) -> (over: bool)
    requires
        state_wf(old(state)@),
        !old(state).game_over,
    ensures
        over == above_top(old(state).current_piece),
        final(state).board@.len() == 20,
        final(state)@ == (GameStateView { board: placed(old(state)@.board, old(state).current_piece, 4), ..old(state)@ }),
{
    let p = state.current_piece;
    let cells = get_piece_coords(p.shape, p.rotation);
    proof {
        lemma_coords_shape(p.shape, p.rotation);
    }
    let ghost b0 = state.board@;
    let mut over = false;
    let mut k: usize = 0;
    while k < 4
        invariant
            cells@ == coords(p.shape, p.rotation),
            coords(p.shape, p.rotation).len() == 4,
            forall|j: int| 0 <= j < 4 ==> -1 <= #[trigger] coords(p.shape, p.rotation)[j].0 <= 2 && -1 <= coords(p.shape, p.rotation)[j].1 <= 2,
            !collides(b0, p.shape, p.x as int, p.y as int, p.rotation),
            -1000 <= p.x <= 1000 && -1000 <= p.y <= 1000,
            0 <= k <= 4,
            state.board@ == placed(b0, p, k as int),
            state.board@.len() == 20,
            over == exists|j: int| 0 <= j < k && p.y + #[trigger] coords(p.shape, p.rotation)[j].1 < 0,
            state@ == (GameStateView { board: state.board@, ..old(state)@ }),
            b0 == old(state)@.board,
            p == old(state).current_piece,
        decreases 4 - k,
    {
        let (cx, cy) = cells[k];
        assert(cells@[k as int] == coords(p.shape, p.rotation)[k as int]);
        assert(!cell_blocked(b0, p.x + coords(p.shape, p.rotation)[k as int].0, p.y + coords(p.shape, p.rotation)[k as int].1));
        let abs_x = p.x + cx;
        let abs_y = p.y + cy;
        if abs_y < 0 {
            over = true;
        } else if abs_y < BOARD_HEIGHT {
            let row = state.board[abs_y as usize];
            state.board.set(abs_y as usize, row | (1u32 << (abs_x as u32)));
        }
        k += 1;
    }
    over
}

/// Removes full rows, moving the rest down and adding empty rows on top;
/// returns how many rows were removed.
fn clear_lines(board: &Vec<u32>) -> (r: (Vec<u32>, u32))
    requires
        board.len() <= 20,
    ensures
        r.0@ == cleared(board@),
        r.1 == full_rows(board@),
{
    let mut lines: u32 = 0;
    let mut kept: Vec<u32> = Vec::new();
    let mut i: usize = 0;
    while i < board.len()
        invariant
            board.len() <= 20,
            0 <= i <= board.len(),
            kept@ == kept_rows(board@.take(i as int)),
            lines == full_rows(board@.take(i as int)),
            lines <= i,
        decreases board.len() - i,
    {
        assert(board@.take(i as int + 1).drop_last() =~= board@.take(i as int));
        let row = board[i];
        if row == FULL_ROW {
            lines = lines + 1;
        } else {
            kept.push(row);
        }
        i += 1;
    }
    assert(board@.take(board.len() as int) =~= board@);
    let mut result: Vec<u32> = Vec::new();
    let mut j: u32 = 0;
    while j < lines
        invariant
            0 <= j <= lines,
            result@ =~= Seq::new(j as nat, |t: int| 0u32),
        decreases lines - j,
    {
        result.push(0);
        j += 1;
    }
    let mut t: usize = 0;
    while t < kept.len()
        invariant
            0 <= t <= kept.len(),
            result@ =~= Seq::new(lines as nat, |q: int| 0u32) + kept@.take(t as int),
        decreases kept.len() - t,
    {
        result.push(kept[t]);
        t += 1;
        assert(kept@.take(t as int) =~= kept@.take(t - 1).push(kept@[t - 1]));
    }
    assert(kept@.take(kept.len() as int) =~= kept@);
    (result, lines)
}

/// The counters after clearing `lines` rows.
fn add_score(state: &mut GameState, lines: u32)
    requires
        score_fits(old(state)@, lines as nat),
    ensures
        final(state)@ == scored(old(state)@, lines as nat),
{
    if lines > 0 {
        let points: u32 = match lines {
            1 => 100,
            2 => 300,
            3 => 500,
            4 => 800,
            _ => 0,
        };
        state.score = state.score + points * (state.level + 1);
        state.lines_cleared = state.lines_cleared + lines;
        if state.lines_cleared >= state.level * 10 {
            state.level = state.level + 1;
        }
    }
}

/// Locks the falling piece with `next` as the piece drawn after it.
pub fn lock_piece_with(state: &mut GameState, next: Piece)
    requires
        state_wf(old(state)@),
        !old(state).game_over,
        lock_fits(old(state)@),
    ensures
        final(state)@ == locked(old(state)@, next),
{
    let over = place_piece(state);
    if over {
        state.game_over = true;
        return;
    }
    settle(state, next);
}

/// Clearing, scoring and the next piece, once the piece is placed.
fn settle(state: &mut GameState, next: Piece)
    requires
        old(state).board@.len() == 20,
        score_fits(old(state)@, full_rows(old(state)@.board)),
        -1000 <= old(state).next_piece.x <= 1000 && -1000 <= old(state).next_piece.y <= 1000,
    ensures
        final(state)@ == (GameStateView {
            board: cleared(old(state)@.board),
            current_piece: old(state).next_piece,
            next_piece: next,
            game_over: old(state).game_over || piece_collides(cleared(old(state)@.board), old(state).next_piece),
            ..scored(old(state)@, full_rows(old(state)@.board))
        }),
{
    let (new_board, lines) = clear_lines(&state.board);
    state.board = new_board;
    add_score(state, lines);
    state.current_piece = state.next_piece;
    state.next_piece = next;
    if check_collision(&state.board, state.current_piece.shape, state.current_piece.x, state.current_piece.y, state.current_piece.rotation) {
        state.game_over = true;
    }
}

/// Locks the falling piece; when the game goes on, the piece of shape
/// `drawn` (the index the host's generator drew, 0 to 6 for I, J, L, O, S,
/// T, Z) becomes the next piece.
pub fn lock_piece(state: &mut GameState, drawn: u64)
    requires
        state_wf(old(state)@),
        !old(state).game_over,
        lock_fits(old(state)@),
    ensures
        final(state)@ == locked(old(state)@, spawned(shape_of(drawn))),
{
    let over = place_piece(state);
    if over {
        state.game_over = true;
        return;
    }
    let next = piece_for_index(drawn);
    settle(state, next);
}

/// Where a piece comes to rest when it falls straight down.
pub open spec fn landing(board: Seq<u32>, p: Piece) -> Piece
    decreases 20 - p.y,
{
    if p.y >= 20 || piece_collides(board, shifted(p, 0, 1, 0)) {
        p
    } else {
        landing(board, shifted(p, 0, 1, 0))
    }
}

/// A new game with these two pieces.
pub open spec fn fresh(current: Piece, next: Piece) -> GameStateView {
    GameStateView {
        board: Seq::new(20, |i: int| 0u32),
        current_piece: current,
        next_piece: next,
        score: 0,
        level: 1,
        lines_cleared: 0,
        game_over: false,
    }
}

/// The outcome of a shift or turn request: whether it moved, and the state.
pub open spec fn after_move(s: GameStateView, dx: i32, dy: i32, d_rot: i32) -> (bool, GameStateView) {
    if s.game_over {
        (false, s)
    } else if piece_collides(s.board, shifted(s.current_piece, dx, dy, d_rot)) {
        (false, s)
    } else {
        (true, GameStateView { current_piece: shifted(s.current_piece, dx, dy, d_rot), ..s })
    }
}

/// An empty row has no bit set.
proof fn lemma_empty_row_bit(shift: u32)
    ensures
        (0u32 >> shift) & 1u32 == 0u32,
{
    assert((0u32 >> shift) & 1u32 == 0u32) by (bit_vector);
}

/// Placing cells keeps the number of rows.
pub proof fn lemma_placed_len(board: Seq<u32>, p: Piece, k: int)
    requires
        board.len() == 20,
    ensures
        placed(board, p, k).len() == board.len(),
    decreases k,
{
    if k > 0 {
        lemma_placed_len(board, p, k - 1);
    }
}

/// Clearing keeps the number of rows, and leaves no full row.
pub proof fn lemma_cleared_rows(rows: Seq<u32>)
    ensures
        full_rows(rows) + kept_rows(rows).len() == rows.len(),
        forall|i: int| 0 <= i < kept_rows(rows).len() ==> kept_rows(rows)[i] != FULL_ROW,
    decreases rows.len(),
{
    if rows.len() > 0 {
        lemma_cleared_rows(rows.drop_last());
    }
}

/// A shift or turn that succeeds keeps a running game well formed.
proof fn lemma_move_keeps_wf(s: GameStateView, dx: i32, dy: i32, d_rot: i32)
    requires
        state_wf(s),
        -1 <= dx <= 1,
        0 <= dy <= 1,
        0 <= d_rot <= 1,
    ensures
        state_wf(after_move(s, dx, dy, d_rot).1),
{
    if !after_move(s, dx, dy, d_rot).1.game_over && after_move(s, dx, dy, d_rot).0 {
        lemma_open_piece_bounds(s.board, shifted(s.current_piece, dx, dy, d_rot));
    }
}

/// Locking keeps a game well formed when the drawn piece is a spawned one.
proof fn lemma_lock_keeps_wf(s: GameStateView, next: Piece)
    requires
        state_wf(s),
        !s.game_over,
        next == spawned(next.shape),
    ensures
        state_wf(locked(s, next)),
{
    lemma_placed_len(s.board, s.current_piece, 4);
    lemma_cleared_rows(placed(s.board, s.current_piece, 4));
}

/// The contract's operations over a stored game.
#[derive(Debug)]
pub struct TetrisContract;

impl TetrisContract {
    /// A game with these two pieces: an empty board, level 1, no score.
    pub fn new_game(current: Piece, next: Piece) -> (s: GameState)
        ensures
            s@ == fresh(current, next),
    {
        let mut board: Vec<u32> = Vec::new();
        let mut i: usize = 0;
        while i < 20
            invariant
                0 <= i <= 20,
                board@ =~= Seq::new(i as nat, |t: int| 0u32),
            decreases 20 - i,
        {
            board.push(0);
            i += 1;
        }
        GameState { board, current_piece: current, next_piece: next, score: 0, level: 1, lines_cleared: 0, game_over: false }
    }

    /// A new game whose falling and next pieces have the shapes the host's
    /// generator drew, `first` and then `second`.
    pub fn init_game(first: u64, second: u64) -> (s: GameState)
        ensures
            s@ == fresh(spawned(shape_of(first)), spawned(shape_of(second))),
            state_wf(s@),
    {
        let current = piece_for_index(first);
        let next = piece_for_index(second);
        let s = Self::new_game(current, next);
        proof {
            lemma_coords_shape(current.shape, current.rotation);
            assert(!piece_collides(s@.board, current)) by {
                assert forall|k: int| 0 <= k < 4 implies !#[trigger] cell_blocked(s@.board, current.x + coords(current.shape, current.rotation)[k].0, current.y + coords(current.shape, current.rotation)[k].1) by {
                    let cy = current.y + coords(current.shape, current.rotation)[k].1;
                    if 0 <= cy < 20 {
                        assert(s@.board[cy] == 0u32);
                        lemma_empty_row_bit(((current.x + coords(current.shape, current.rotation)[k].0) as u32));
                    }
                }
            }
        }
        s
    }

    /// Shifts or turns the piece; false, with nothing changed, when the game
    /// is over or the piece has no room.
    fn shift(state: &mut GameState, dx: i32, dy: i32, d_rot: i32) -> (r: bool)
        requires
            state_wf(old(state)@),
            -1 <= dx <= 1,
            0 <= dy <= 1,
            0 <= d_rot <= 1,
        ensures
            (r, final(state)@) == after_move(old(state)@, dx, dy, d_rot),
            state_wf(final(state)@),
    {
        proof {
            lemma_move_keeps_wf(state@, dx, dy, d_rot);
        }
        if state.game_over {
            return false;
        }
        try_move(state, dx, dy, d_rot)
    }

    /// Moves the piece one column left.
    pub fn move_left(state: &mut GameState) -> (r: bool)
        requires
            state_wf(old(state)@),
        ensures
            (r, final(state)@) == after_move(old(state)@, -1i32, 0, 0),
            state_wf(final(state)@),
    {
        Self::shift(state, -1, 0, 0)
    }

    /// Moves the piece one column right.
    pub fn move_right(state: &mut GameState) -> (r: bool)
        requires
            state_wf(old(state)@),
        ensures
            (r, final(state)@) == after_move(old(state)@, 1, 0, 0),
            state_wf(final(state)@),
    {
        Self::shift(state, 1, 0, 0)
    }

    /// Turns the piece a quarter turn clockwise.
    pub fn rotate(state: &mut GameState) -> (r: bool)
        requires
            state_wf(old(state)@),
        ensures
            (r, final(state)@) == after_move(old(state)@, 0, 0, 1),
            state_wf(final(state)@),
    {
        Self::shift(state, 0, 0, 1)
    }

    /// Moves the piece one row down; when it cannot, it locks (the next
    /// piece taking the shape `drawn`) and false is returned.
    pub fn move_down(state: &mut GameState, drawn: u64) -> (r: bool)
        requires
            state_wf(old(state)@),
            !old(state).game_over && piece_collides(old(state)@.board, shifted(old(state).current_piece, 0, 1, 0))
                ==> lock_fits(old(state)@),
        ensures
            old(state).game_over ==> !r && final(state)@ == old(state)@,
            !old(state).game_over ==> r == !piece_collides(old(state)@.board, shifted(old(state).current_piece, 0, 1, 0)),
            !old(state).game_over && r ==> final(state)@ == after_move(old(state)@, 0, 1, 0).1,
            !old(state).game_over && !r ==> final(state)@ == locked(old(state)@, spawned(shape_of(drawn))),
            state_wf(final(state)@),
    {
        if state.game_over {
            return false;
        }
        proof {
            lemma_move_keeps_wf(state@, 0, 1, 0);
        }
        if try_move(state, 0, 1, 0) {
            return true;
        }
        lock_piece(state, drawn);
        proof {
            if !above_top(old(state).current_piece) {
                lemma_lock_keeps_wf(old(state)@, state.next_piece);
            } else {
                lemma_placed_len(old(state)@.board, old(state).current_piece, 4);
            }
        }
        false
    }

    /// Lets the piece fall until it rests; returns the rows it fell.
    fn fall(state: &mut GameState) -> (dropped: u32)
        requires
            state_wf(old(state)@),
            !old(state).game_over,
        ensures
            final(state)@ == (GameStateView { current_piece: landing(old(state)@.board, old(state).current_piece), ..old(state)@ }),
            dropped == landing(old(state)@.board, old(state).current_piece).y - old(state).current_piece.y,
            state_wf(final(state)@),
    {
        let ghost p0 = state.current_piece;
        proof {
            lemma_open_piece_bounds(state@.board, state.current_piece);
        }
        let mut dropped: u32 = 0;
        loop
            invariant
                state_wf(state@),
                !state.game_over,
                state@ == (GameStateView { current_piece: state.current_piece, ..old(state)@ }),
                landing(state@.board, state.current_piece) == landing(state@.board, p0),
                p0 == old(state).current_piece,
                -1000 <= p0.y,
                state.current_piece.y == p0.y + dropped,
                state.current_piece.y <= 20,
                dropped <= 1100,
            decreases 20 - state.current_piece.y,
        {
            proof {
                lemma_open_piece_bounds(state@.board, state.current_piece);
                lemma_move_keeps_wf(state@, 0, 1, 0);
            }
            let moved = try_move(state, 0, 1, 0);
            if !moved {
                return dropped;
            }
            proof {
                lemma_open_piece_bounds(state@.board, state.current_piece);
            }
            dropped = dropped + 1;
        }
    }

    /// Hard drop: the piece falls until it rests and locks (the next piece
    /// taking the shape `drawn`); returns the rows it fell, or 0 once the
    /// game is over.
    pub fn drop(state: &mut GameState, drawn: u64) -> (r: u32)
        requires
            state_wf(old(state)@),
            !old(state).game_over ==> lock_fits(GameStateView {
                current_piece: landing(old(state)@.board, old(state).current_piece), ..old(state)@ }),
        ensures
            old(state).game_over ==> r == 0 && final(state)@ == old(state)@,
            !old(state).game_over ==> r == landing(old(state)@.board, old(state).current_piece).y - old(state).current_piece.y,
            !old(state).game_over ==> final(state)@ == locked(GameStateView {
                current_piece: landing(old(state)@.board, old(state).current_piece), ..old(state)@ }, spawned(shape_of(drawn))),
            state_wf(final(state)@),
    {
        if state.game_over {
            return 0;
        }
        let dropped = Self::fall(state);
        let ghost fallen = state@;
        lock_piece(state, drawn);
        proof {
            if !above_top(fallen.current_piece) {
                lemma_lock_keeps_wf(fallen, state.next_piece);
            } else {
                lemma_placed_len(fallen.board, fallen.current_piece, 4);
            }
        }
        dropped
    }

    /// Gravity: the piece moves down one row, or locks when it cannot (the
    /// next piece taking the shape `drawn`).
    pub fn update_tick(state: &mut GameState, drawn: u64)
        requires
            state_wf(old(state)@),
            !old(state).game_over && piece_collides(old(state)@.board, shifted(old(state).current_piece, 0, 1, 0))
                ==> lock_fits(old(state)@),
        ensures
            old(state).game_over ==> final(state)@ == old(state)@,
            !old(state).game_over && !piece_collides(old(state)@.board, shifted(old(state).current_piece, 0, 1, 0))
                ==> final(state)@ == after_move(old(state)@, 0, 1, 0).1,
            !old(state).game_over && piece_collides(old(state)@.board, shifted(old(state).current_piece, 0, 1, 0))
                ==> final(state)@ == locked(old(state)@, spawned(shape_of(drawn))),
            state_wf(final(state)@),
    {
        Self::move_down(state, drawn);
    }
}

/// Law: clearing rows always scores, and clearing more rows at once scores
/// strictly more at the same level: one to four rows add a positive number
/// of points, growing with the number of rows.
pub proof fn lemma_more_rows_score_more(s: GameStateView, n: nat, m: nat)
    requires
        1 <= n < m <= 4,
        score_fits(s, n),
        score_fits(s, m),
    ensures
        scored(s, n).score > s.score,
        scored(s, m).score > scored(s, n).score,
{
    let k = s.level + 1;
    assert(line_points(n) * k >= k && line_points(m) * k > line_points(n) * k) by (nonlinear_arith)
        requires
            k >= 1,
            1 <= line_points(n) < line_points(m),
    {}
}

/// Law: after a piece locks without ending the game on the top edge, the
/// board still has 20 rows and none of them is full.
pub proof fn lemma_lock_leaves_no_full_row(s: GameStateView, next: Piece)
    requires
        state_wf(s),
        !above_top(s.current_piece),
    ensures
        locked(s, next).board.len() == 20,
        forall|i: int| 0 <= i < 20 ==> locked(s, next).board[i] != FULL_ROW,
{
    let b1 = placed(s.board, s.current_piece, 4);
    lemma_placed_len(s.board, s.current_piece, 4);
    lemma_cleared_rows(b1);
    assert forall|i: int| 0 <= i < 20 implies locked(s, next).board[i] != FULL_ROW by {
        if i >= full_rows(b1) {
            assert(locked(s, next).board[i] == kept_rows(b1)[i - full_rows(b1)]);
        }
    }
}

/// Law: the score, the cleared-line count and the level never go down.
pub proof fn lemma_counters_grow(s: GameStateView, next: Piece)
    requires
        lock_fits(s),
    ensures
        locked(s, next).score >= s.score,
        locked(s, next).lines_cleared >= s.lines_cleared,
        locked(s, next).level >= s.level,
{
}

/// Law: four quarter turns bring a piece back to its rotation.
pub proof fn lemma_four_turns(rot: u32)
    requires
        rot < 4,
    ensures
        turned(turned(turned(turned(rot, 1), 1), 1), 1) == rot,
{
}

/// Law: a piece dropped from a running game rests on open cells, and one
/// more row down it would not fit.
pub proof fn lemma_landing_rests(board: Seq<u32>, p: Piece)
    requires
        !piece_collides(board, p),
        p.rotation < 4,
        -1000 <= p.y,
    ensures
        !piece_collides(board, landing(board, p)),
        piece_collides(board, shifted(landing(board, p), 0, 1, 0)),
        landing(board, p).y >= p.y,
    decreases 20 - p.y,
{
    lemma_open_piece_bounds(board, p);
    if p.y >= 20 || piece_collides(board, shifted(p, 0, 1, 0)) {
        if p.y >= 20 {
            lemma_floor_blocks(board, p);
        }
    } else {
        lemma_landing_rests(board, shifted(p, 0, 1, 0));
    }
}

} // verus!
