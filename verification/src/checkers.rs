//! Checkers (draughts) on an 8x8 board: steps, captures with forced capture
//! and multi-hop chains, promotion and the end of the game.
use vstd::prelude::*;
use crate::common::{bytes_equal, clone_bytes};

verus! {

/// Board cells, row-major: 1/2 = player one man/king, -1/-2 = player two
/// man/king, 0 = empty.
#[derive(Debug)]
pub struct BoardComponent {
    pub cells: Vec<i32>,
}

/// Whose turn (1 or 2) and the move number.
#[derive(Clone, Copy, Debug, PartialEq, Eq, Structural)]
pub struct TurnComponent {
    pub current_player: u32,
    pub move_number: u32,
}

#[derive(Clone, Copy, Debug, PartialEq, Eq, Structural)]
pub enum GameStatus {
    Active,
    Finished,
}

/// Status and winner (0 while active).
#[derive(Clone, Copy, Debug, PartialEq, Eq, Structural)]
pub struct GameStatusComponent {
    pub status: GameStatus,
    pub winner: u32,
}

/// The square of a piece in the middle of a multi-hop capture.
#[derive(Clone, Copy, Debug, PartialEq, Eq, Structural)]
pub struct ChainCapture {
    pub row: u32,
    pub col: u32,
}

/// Full snapshot returned by `get_state`.
#[derive(Debug)]
pub struct GameState {
    pub board: BoardComponent,
    pub turn: TurnComponent,
    pub status: GameStatusComponent,
    pub player_one: Vec<u8>,
    pub player_two: Vec<u8>,
}

/// Board cells returned by `get_board`.
#[derive(Debug)]
pub struct BoardState {
    pub cells: Vec<i32>,
}

#[derive(Clone, Copy, Debug, PartialEq, Eq, Structural)]
pub enum CheckersError {
    NotInitialised,
    AlreadyInitialised,
    GameOver,
    NotAPlayer,
    WrongTurn,
    OutOfBounds,
    NotDarkSquare,
    ChainCapturePieceMismatch,
    NotYourPiece,
    IllegalMove,
    DestinationOccupied,
    MustCapture,
}

/// Everything the contract keeps once a game exists.
#[derive(Debug)]
pub struct CheckersWorld {
    pub board: BoardComponent,
    pub turn: TurnComponent,
    pub status: GameStatusComponent,
    pub player_one: Vec<u8>,
    pub player_two: Vec<u8>,
    pub chain: Option<ChainCapture>,
}

impl CheckersWorld {
    pub open spec fn wf(&self) -> bool {
        self.board.cells.len() == 64
    }
}

// ── specification ─────────────────────────────────────────────────────────────

pub open spec fn at(cells: Seq<i32>, row: int, col: int) -> i32 {
    if 0 <= row * 8 + col < cells.len() { cells[row * 8 + col] } else { 0 }
}

pub open spec fn owned(piece: i32, player: u32) -> bool {
    if player == 1 { piece == 1 || piece == 2 } else if player == 2 { piece == -1 || piece == -2 } else { false }
}

pub open spec fn king(piece: i32) -> bool {
    piece == 2 || piece == -2
}

pub open spec fn forward(player: u32) -> int {
    if player == 1 { 1 } else { -1 }
}

pub open spec fn on_board(r: int, c: int) -> bool {
    0 <= r < 8 && 0 <= c < 8
}

/// The `k`th candidate direction of a piece: forward-right, forward-left,
/// and for kings backward-right, backward-left.
pub open spec fn delta(player: u32, k: int) -> (int, int) {
    let fd = forward(player);
    if k == 0 { (fd, 1) } else if k == 1 { (fd, -1) } else if k == 2 { (-fd, 1) } else { (-fd, -1) }
}

pub open spec fn directions(cells: Seq<i32>, row: int, col: int) -> int {
    if king(at(cells, row, col)) { 4 } else { 2 }
}

pub open spec fn step_in(cells: Seq<i32>, row: int, col: int, player: u32, k: int) -> Seq<(u32, u32)> {
    let (dr, dc) = delta(player, k);
    let nr = row + dr;
    let nc = col + dc;
    if k < directions(cells, row, col) && on_board(nr, nc) && at(cells, nr, nc) == 0 {
        seq![(nr as u32, nc as u32)]
    } else {
        Seq::empty()
    }
}

/// Empty neighbouring squares a piece may step to, in direction order.
pub open spec fn steps(cells: Seq<i32>, row: int, col: int, player: u32) -> Seq<(u32, u32)> {
    step_in(cells, row, col, player, 0) + step_in(cells, row, col, player, 1)
        + step_in(cells, row, col, player, 2) + step_in(cells, row, col, player, 3)
}

pub open spec fn capture_in(cells: Seq<i32>, row: int, col: int, player: u32, k: int) -> Seq<(u32, u32, u32, u32)> {
    let (dr, dc) = delta(player, k);
    let mr = row + dr;
    let mc = col + dc;
    let lr = row + 2 * dr;
    let lc = col + 2 * dc;
    if k < directions(cells, row, col) && on_board(mr, mc) && on_board(lr, lc)
        && owned(at(cells, mr, mc), (3 - player) as u32) && at(cells, lr, lc) == 0 {
        seq![(lr as u32, lc as u32, mr as u32, mc as u32)]
    } else {
        Seq::empty()
    }
}

/// Jumps over an adjacent opponent piece to an empty square: (landing row,
/// landing col, jumped row, jumped col), in direction order.
pub open spec fn captures(cells: Seq<i32>, row: int, col: int, player: u32) -> Seq<(u32, u32, u32, u32)> {
    capture_in(cells, row, col, player, 0) + capture_in(cells, row, col, player, 1)
        + capture_in(cells, row, col, player, 2) + capture_in(cells, row, col, player, 3)
}

pub open spec fn capture_somewhere(cells: Seq<i32>, player: u32) -> bool {
    exists|r: int, c: int| on_board(r, c) && owned(at(cells, r, c), player) && #[trigger] captures(cells, r, c, player).len() > 0
}

pub open spec fn move_somewhere(cells: Seq<i32>, player: u32) -> bool {
    exists|r: int, c: int| on_board(r, c) && owned(at(cells, r, c), player)
        && (#[trigger] captures(cells, r, c, player).len() > 0 || steps(cells, r, c, player).len() > 0)
}

/// The piece at (r, c) can neither step nor capture.
pub open spec fn stuck(cells: Seq<i32>, r: int, c: int, player: u32) -> bool {
    captures(cells, r, c, player).len() == 0 && steps(cells, r, c, player).len() == 0
}

pub open spec fn has_pieces(cells: Seq<i32>, player: u32) -> bool {
    exists|i: int| 0 <= i < 64 && owned(#[trigger] at(cells, i / 8, i % 8), player)
}

/// 1 or 2 for the winner, 0 while the game goes on: a player without pieces,
/// then a player without a legal move, loses.
pub open spec fn winner(cells: Seq<i32>) -> u32 {
    if !has_pieces(cells, 2) { 1 }
    else if !has_pieces(cells, 1) { 2 }
    else if !move_somewhere(cells, 1) { 2 }
    else if !move_somewhere(cells, 2) { 1 }
    else { 0 }
}

/// A man reaching the far row becomes a king.
pub open spec fn promoted(cells: Seq<i32>, row: int, col: int, player: u32) -> Seq<i32> {
    let promotion_row = if player == 1 { 7int } else { 0int };
    if row == promotion_row && !king(at(cells, row, col)) {
        cells.update(row * 8 + col, if player == 1 { 2i32 } else { -2i32 })
    } else {
        cells
    }
}

/// Some capture of the piece at (fr, fc) lands on (tr, tc).
pub open spec fn lands(cells: Seq<i32>, fr: int, fc: int, player: u32, tr: u32, tc: u32) -> bool {
    exists|i: int| 0 <= i < captures(cells, fr, fc, player).len()
        && (#[trigger] captures(cells, fr, fc, player)[i]).0 == tr
        && captures(cells, fr, fc, player)[i].1 == tc
}

/// A chain is in progress and the move does not continue it.
pub open spec fn chain_mismatch(chain: Option<ChainCapture>, fr: u32, fc: u32) -> bool {
    match chain {
        Some(c) => fr != c.row || fc != c.col,
        None => false,
    }
}

pub open spec fn abs_diff(a: u32, b: u32) -> int {
    if a >= b { a - b } else { b - a }
}

/// The reason a move is refused, checked in order, or `None` for a legal move.
pub open spec fn move_error(w: CheckersWorld, player: Seq<u8>, fr: u32, fc: u32, tr: u32, tc: u32) -> Option<CheckersError> {
    let caller: u32 = if player == w.player_one@ { 1 } else { 2 };
    let cells = w.board.cells@;
    let rd = abs_diff(tr, fr);
    let cd = abs_diff(tc, fc);
    if w.status.status is Finished {
        Some(CheckersError::GameOver)
    } else if player != w.player_one@ && player != w.player_two@ {
        Some(CheckersError::NotAPlayer)
    } else if caller != w.turn.current_player {
        Some(CheckersError::WrongTurn)
    } else if fr >= 8 || fc >= 8 || tr >= 8 || tc >= 8 {
        Some(CheckersError::OutOfBounds)
    } else if (tr + tc) % 2 == 0 {
        Some(CheckersError::NotDarkSquare)
    } else if chain_mismatch(w.chain, fr, fc) {
        Some(CheckersError::ChainCapturePieceMismatch)
    } else if !owned(at(cells, fr as int, fc as int), caller) {
        Some(CheckersError::NotYourPiece)
    } else if rd != cd || (rd != 1 && rd != 2) {
        Some(CheckersError::IllegalMove)
    } else if at(cells, tr as int, tc as int) != 0 {
        Some(CheckersError::DestinationOccupied)
    } else if rd == 2 && !lands(cells, fr as int, fc as int, caller, tr, tc) {
        Some(CheckersError::IllegalMove)
    } else if rd == 1 && !steps(cells, fr as int, fc as int, caller).contains((tr, tc)) {
        Some(CheckersError::IllegalMove)
    } else if w.chain is None && rd == 1 && capture_somewhere(cells, caller) {
        Some(CheckersError::MustCapture)
    } else {
        None
    }
}

/// The board after a legal move: the piece moves, a jumped piece is removed,
/// and a man on the far row is crowned.
pub open spec fn moved_board(cells: Seq<i32>, fr: u32, fc: u32, tr: u32, tc: u32, player: u32) -> Seq<i32> {
    let piece = at(cells, fr as int, fc as int);
    let b1 = cells.update(fr * 8 + fc, 0).update(tr * 8 + tc, piece);
    let b2 = if abs_diff(tr, fr) == 2 { b1.update(((fr + tr) / 2) * 8 + (fc + tc) / 2, 0) } else { b1 };
    promoted(b2, tr as int, tc as int, player)
}

/// How a move request relates the game before (`w0`) and after (`nw`) it
/// to its result.
pub open spec fn played(w0: CheckersWorld, nw: CheckersWorld, r: Result<(), CheckersError>, player: Seq<u8>,
    fr: u32, fc: u32, tr: u32, tc: u32) -> bool {
    let err = move_error(w0, player, fr, fc, tr, tc);
    let caller: u32 = if player == w0.player_one@ { 1 } else { 2 };
    let cells = moved_board(w0.board.cells@, fr, fc, tr, tc, caller);
    let capture = abs_diff(tr, fr) == 2;
    let continues = capture && captures(cells, tr as int, tc as int, caller).len() > 0;
    let win = winner(cells);
    match err {
        Some(e) => r == Err::<(), CheckersError>(e) && nw == w0,
        None => {
            &&& r is Ok
            &&& nw.wf()
            &&& nw.board.cells@ == cells
            &&& nw.player_one == w0.player_one && nw.player_two == w0.player_two
            &&& if win > 0 {
                &&& nw.status.status is Finished && nw.status.winner == win
                &&& nw.turn == w0.turn
                &&& nw.chain is None
            } else if continues {
                &&& nw.status == w0.status && nw.turn == w0.turn
                &&& nw.chain == Some(ChainCapture { row: tr, col: tc })
            } else {
                &&& nw.status == w0.status
                &&& nw.turn.current_player == 3 - caller
                &&& nw.turn.move_number == w0.turn.move_number + 1
                &&& nw.chain is None
            }
        },
    }
}

// ── helpers ───────────────────────────────────────────────────────────────────

/// The cell at (row, col), 0 past the end.
pub fn board_get(cells: &Vec<i32>, row: u32, col: u32) -> (r: i32)
    requires
        row < 8, col < 8,
    ensures
        r == at(cells@, row as int, col as int),
{
    let i = row * 8 + col;
    if (i as usize) < cells.len() { cells[i as usize] } else { 0 }
}

/// Writes the cell at (row, col).
pub fn board_set(cells: &mut Vec<i32>, row: u32, col: u32, val: i32)
    requires
        row < 8, col < 8,
        old(cells).len() == 64,
    ensures
        final(cells)@ == old(cells)@.update(row * 8 + col, val),
{
    cells.set((row * 8 + col) as usize, val);
}

/// The piece belongs to `player` (1 or 2).
pub fn owned_by(piece: i32, player: u32) -> (r: bool)
    ensures
        r == owned(piece, player),
{
    if player == 1 {
        piece == 1 || piece == 2
    } else if player == 2 {
        piece == -1 || piece == -2
    } else {
        false
    }
}

/// The piece is a king.
pub fn is_king(piece: i32) -> (r: bool)
    ensures
        r == king(piece),
{
    piece == 2 || piece == -2
}

/// Row direction a man of `player` moves in: player one down the rows,
/// player two up.
pub fn forward_delta(player: u32) -> (r: i32)
    ensures
        r as int == forward(player),
{
    if player == 1 { 1 } else { -1 }
}

fn delta_of(player: u32, k: u32) -> (r: (i32, i32))
    requires
        k < 4,
    ensures
        r.0 as int == delta(player, k as int).0,
        r.1 as int == delta(player, k as int).1,
{
    let fd = forward_delta(player);
    if k == 0 { (fd, 1) } else if k == 1 { (fd, -1) } else if k == 2 { (-fd, 1) } else { (-fd, -1) }
}

/// Squares a piece at (row, col) may step to.
pub fn legal_steps(cells: &Vec<i32>, row: u32, col: u32, player: u32) -> (out: Vec<(u32, u32)>)
    requires
        row < 8, col < 8,
    ensures
        out@ == steps(cells@, row as int, col as int, player),
{
    let piece = board_get(cells, row, col);
    let count: u32 = if is_king(piece) { 4 } else { 2 };
    let mut out: Vec<(u32, u32)> = Vec::new();
    let mut k: u32 = 0;
    while k < 4
        invariant
            0 <= k <= 4,
            row < 8, col < 8,
            count as int == directions(cells@, row as int, col as int),
            out@ == (if k == 0 { Seq::<(u32, u32)>::empty() }
                else if k == 1 { step_in(cells@, row as int, col as int, player, 0) }
                else if k == 2 { step_in(cells@, row as int, col as int, player, 0) + step_in(cells@, row as int, col as int, player, 1) }
                else if k == 3 { step_in(cells@, row as int, col as int, player, 0) + step_in(cells@, row as int, col as int, player, 1)
                    + step_in(cells@, row as int, col as int, player, 2) }
                else { steps(cells@, row as int, col as int, player) }),
        decreases 4 - k,
    {
        let ghost prev = out@;
        if k < count {
            let (dr, dc) = delta_of(player, k);
            let nr = row as i32 + dr;
            let nc = col as i32 + dc;
            if 0 <= nr && nr < 8 && 0 <= nc && nc < 8 {
                if board_get(cells, nr as u32, nc as u32) == 0 {
                    out.push((nr as u32, nc as u32));
                }
            }
        }
        assert(out@ =~= prev + step_in(cells@, row as int, col as int, player, k as int));
        k += 1;
    }
    out
}

/// Captures available to the piece at (row, col): (landing row, landing col,
/// jumped row, jumped col).
pub fn legal_captures(cells: &Vec<i32>, row: u32, col: u32, player: u32) -> (out: Vec<(u32, u32, u32, u32)>)
    requires
        row < 8, col < 8,
        player == 1 || player == 2,
    ensures
        out@ == captures(cells@, row as int, col as int, player),
{
    let piece = board_get(cells, row, col);
    let count: u32 = if is_king(piece) { 4 } else { 2 };
    let mut out: Vec<(u32, u32, u32, u32)> = Vec::new();
    let mut k: u32 = 0;
    while k < 4
        invariant
            0 <= k <= 4,
            row < 8, col < 8,
            player == 1 || player == 2,
            count as int == directions(cells@, row as int, col as int),
            out@ == (if k == 0 { Seq::<(u32, u32, u32, u32)>::empty() }
                else if k == 1 { capture_in(cells@, row as int, col as int, player, 0) }
                else if k == 2 { capture_in(cells@, row as int, col as int, player, 0) + capture_in(cells@, row as int, col as int, player, 1) }
                else if k == 3 { capture_in(cells@, row as int, col as int, player, 0) + capture_in(cells@, row as int, col as int, player, 1)
                    + capture_in(cells@, row as int, col as int, player, 2) }
                else { captures(cells@, row as int, col as int, player) }),
        decreases 4 - k,
    {
        let ghost prev = out@;
        if k < count {
            let (dr, dc) = delta_of(player, k);
            let mr = row as i32 + dr;
            let mc = col as i32 + dc;
            let lr = row as i32 + 2 * dr;
            let lc = col as i32 + 2 * dc;
            if 0 <= mr && mr < 8 && 0 <= mc && mc < 8 && 0 <= lr && lr < 8 && 0 <= lc && lc < 8 {
                let mid = board_get(cells, mr as u32, mc as u32);
                let land = board_get(cells, lr as u32, lc as u32);
                if owned_by(mid, 3 - player) && land == 0 {
                    out.push((lr as u32, lc as u32, mr as u32, mc as u32));
                }
            }
        }
        assert(out@ =~= prev + capture_in(cells@, row as int, col as int, player, k as int));
        k += 1;
    }
    out
}

/// `player` has a capture with some piece.
pub fn any_capture_available(cells: &Vec<i32>, player: u32) -> (r: bool)
    requires
        player == 1 || player == 2,
    ensures
        r == capture_somewhere(cells@, player),
{
    let mut row: u32 = 0;
    while row < 8
        invariant
            0 <= row <= 8,
            player == 1 || player == 2,
            forall|r: int, c: int| 0 <= r < row && on_board(r, c) && owned(at(cells@, r, c), player)
                ==> #[trigger] captures(cells@, r, c, player).len() == 0,
        decreases 8 - row,
    {
        let mut col: u32 = 0;
        while col < 8
            invariant
                0 <= row < 8, 0 <= col <= 8,
                player == 1 || player == 2,
                forall|r: int, c: int| 0 <= r < row && on_board(r, c) && owned(at(cells@, r, c), player)
                    ==> #[trigger] captures(cells@, r, c, player).len() == 0,
                forall|c: int| 0 <= c < col && owned(at(cells@, row as int, c), player)
                    ==> #[trigger] captures(cells@, row as int, c, player).len() == 0,
            decreases 8 - col,
        {
            if owned_by(board_get(cells, row, col), player) && legal_captures(cells, row, col, player).len() > 0 {
                assert(on_board(row as int, col as int) && owned(at(cells@, row as int, col as int), player)
                    && captures(cells@, row as int, col as int, player).len() > 0);
                return true;
            }
            col += 1;
        }
        row += 1;
    }
    false
}

/// `player` has a step or capture with some piece.
pub fn any_legal_move(cells: &Vec<i32>, player: u32) -> (r: bool)
    requires
        player == 1 || player == 2,
    ensures
        r == move_somewhere(cells@, player),
{
    let mut row: u32 = 0;
    while row < 8
        invariant
            0 <= row <= 8,
            player == 1 || player == 2,
            forall|r: int, c: int| 0 <= r < row && on_board(r, c) && owned(at(cells@, r, c), player)
                ==> #[trigger] stuck(cells@, r, c, player),
        decreases 8 - row,
    {
        let mut col: u32 = 0;
        while col < 8
            invariant
                0 <= row < 8, 0 <= col <= 8,
                player == 1 || player == 2,
                forall|r: int, c: int| 0 <= r < row && on_board(r, c) && owned(at(cells@, r, c), player)
                    ==> #[trigger] stuck(cells@, r, c, player),
                forall|c: int| 0 <= c < col && owned(at(cells@, row as int, c), player)
                    ==> #[trigger] stuck(cells@, row as int, c, player),
            decreases 8 - col,
        {
            if owned_by(board_get(cells, row, col), player) {
                if legal_captures(cells, row, col, player).len() > 0 {
                    assert(on_board(row as int, col as int) && captures(cells@, row as int, col as int, player).len() > 0);
                    return true;
                }
                if legal_steps(cells, row, col, player).len() > 0 {
                    assert(on_board(row as int, col as int) && steps(cells@, row as int, col as int, player).len() > 0);
                    return true;
                }
            }
            col += 1;
        }
        row += 1;
    }
    assert forall|r: int, c: int| on_board(r, c) && owned(at(cells@, r, c), player) implies
        !(#[trigger] captures(cells@, r, c, player).len() > 0 || steps(cells@, r, c, player).len() > 0) by {
        assert(stuck(cells@, r, c, player));
    }
    false
}

/// Crowns a man of `player` standing on the far row.
pub fn maybe_promote(cells: &mut Vec<i32>, row: u32, col: u32, player: u32)
    requires
        row < 8, col < 8,
        old(cells).len() == 64,
    ensures
        final(cells)@ == promoted(old(cells)@, row as int, col as int, player),
{
    let promotion_row: u32 = if player == 1 { 7 } else { 0 };
    if row == promotion_row {
        let piece = board_get(cells, row, col);
        if !is_king(piece) {
            let king_val: i32 = if player == 1 { 2 } else { -2 };
            board_set(cells, row, col, king_val);
        }
    }
}

/// The winner (1 or 2), or 0 while both players have pieces and moves.
pub fn check_winner(cells: &Vec<i32>) -> (w: u32)
    ensures
        w == winner(cells@),
{
    let mut p1_pieces: u32 = 0;
    let mut p2_pieces: u32 = 0;
    let mut i: u32 = 0;
    while i < 64
        invariant
            0 <= i <= 64,
            p1_pieces <= i, p2_pieces <= i,
            (p1_pieces == 0) == (forall|j: int| 0 <= j < i ==> !owned(#[trigger] at(cells@, j / 8, j % 8), 1)),
            (p2_pieces == 0) == (forall|j: int| 0 <= j < i ==> !owned(#[trigger] at(cells@, j / 8, j % 8), 2)),
        decreases 64 - i,
    {
        let v = board_get(cells, i / 8, i % 8);
        if v == 1 || v == 2 {
            p1_pieces += 1;
        } else if v == -1 || v == -2 {
            p2_pieces += 1;
        }
        i += 1;
    }
    if p2_pieces == 0 {
        return 1;
    }
    if p1_pieces == 0 {
        return 2;
    }
    if !any_legal_move(cells, 1) {
        return 2;
    }
    if !any_legal_move(cells, 2) {
        return 1;
    }
    0
}

/// The opening position: player one's men on the dark squares of rows 0-2,
/// player two's on rows 5-7.
pub fn initial_board() -> (cells: Vec<i32>)
    ensures
        cells@ == Seq::new(64, |i: int| if (i / 8 + i % 8) % 2 == 1 && i / 8 <= 2 { 1i32 }
            else if (i / 8 + i % 8) % 2 == 1 && i / 8 >= 5 { -1i32 } else { 0i32 }),
{
    let mut cells: Vec<i32> = Vec::new();
    let mut i: u32 = 0;
    while i < 64
        invariant
            0 <= i <= 64,
            cells@ == Seq::new(i as nat, |k: int| if (k / 8 + k % 8) % 2 == 1 && k / 8 <= 2 { 1i32 }
                else if (k / 8 + k % 8) % 2 == 1 && k / 8 >= 5 { -1i32 } else { 0i32 }),
        decreases 64 - i,
    {
        let row = i / 8;
        let col = i % 8;
        let dark = (row + col) % 2 == 1;
        let val: i32 = if dark && row <= 2 { 1 } else if dark && row >= 5 { -1 } else { 0 };
        cells.push(val);
        i += 1;
        assert(cells@ =~= Seq::new(i as nat, |k: int| if (k / 8 + k % 8) % 2 == 1 && k / 8 <= 2 { 1i32 }
            else if (k / 8 + k % 8) % 2 == 1 && k / 8 >= 5 { -1i32 } else { 0i32 }));
    }
    cells
}

fn has_landing(caps: &Vec<(u32, u32, u32, u32)>, tr: u32, tc: u32) -> (r: bool)
    ensures
        r == (exists|i: int| 0 <= i < caps@.len() && (#[trigger] caps@[i]).0 == tr && caps@[i].1 == tc),
{
    let mut i: usize = 0;
    while i < caps.len()
        invariant
            0 <= i <= caps.len(),
            forall|j: int| 0 <= j < i ==> !((#[trigger] caps@[j]).0 == tr && caps@[j].1 == tc),
        decreases caps.len() - i,
    {
        if caps[i].0 == tr && caps[i].1 == tc {
            return true;
        }
        i += 1;
    }
    false
}

fn has_step(found: &Vec<(u32, u32)>, tr: u32, tc: u32) -> (r: bool)
    ensures
        r == found@.contains((tr, tc)),
{
    let mut i: usize = 0;
    while i < found.len()
        invariant
            0 <= i <= found.len(),
            forall|j: int| 0 <= j < i ==> #[trigger] found@[j] != (tr, tc),
        decreases found.len() - i,
    {
        if found[i].0 == tr && found[i].1 == tc {
            assert(found@[i as int] == (tr, tc));
            return true;
        }
        i += 1;
    }
    false
}

/// The contract's operations over its stored game (`None` before `init_game`).
#[derive(Debug)]
pub struct CheckersContract;

impl CheckersContract {
    /// Starts a game; refused when one already exists.
    pub fn init_game(stored: &Option<CheckersWorld>, player_one: Vec<u8>, player_two: Vec<u8>) -> (r: Result<CheckersWorld, CheckersError>)
        ensures
            stored is Some ==> r == Err::<CheckersWorld, CheckersError>(CheckersError::AlreadyInitialised),
            stored is None ==> (r matches Ok(w) && {
                &&& w.wf()
                &&& w.board.cells@ == Seq::new(64, |i: int| if (i / 8 + i % 8) % 2 == 1 && i / 8 <= 2 { 1i32 }
                        else if (i / 8 + i % 8) % 2 == 1 && i / 8 >= 5 { -1i32 } else { 0i32 })
                &&& w.turn.current_player == 1 && w.turn.move_number == 1
                &&& w.status.status is Active && w.status.winner == 0
                &&& w.player_one == player_one && w.player_two == player_two
                &&& w.chain is None
            }),
    {
        if stored.is_some() {
            return Err(CheckersError::AlreadyInitialised);
        }
        Ok(CheckersWorld {
            board: BoardComponent { cells: initial_board() },
            turn: TurnComponent { current_player: 1, move_number: 1 },
            status: GameStatusComponent { status: GameStatus::Active, winner: 0 },
            player_one,
            player_two,
            chain: None,
        })
    }

    /// Plays a step or a capture for the caller. Refusals come in the order
    /// of `move_error` and leave the game unchanged. A legal move updates the
    /// board; a capture that can continue keeps the turn and records the
    /// chain square; otherwise the turn passes, unless someone has won.
    pub fn submit_move(stored: &mut Option<CheckersWorld>, player: &Vec<u8>, from_row: u32, from_col: u32, to_row: u32, to_col: u32)
        -> (r: Result<(), CheckersError>)
        requires
            *old(stored) matches Some(w) ==> w.wf() && w.turn.move_number < u32::MAX,
        ensures
            *old(stored) is None ==> r == Err::<(), CheckersError>(CheckersError::NotInitialised) && *final(stored) == *old(stored),
            *old(stored) matches Some(w) ==> (*final(stored) matches Some(nw) && played(w, nw, r, player@, from_row, from_col, to_row, to_col)),
    {
        let mut w = match stored.take() {
            Some(w) => w,
            None => return Err(CheckersError::NotInitialised),
        };
        let res = Self::play(&mut w, player, from_row, from_col, to_row, to_col);
        *stored = Some(w);
        res
    }

    fn play(w: &mut CheckersWorld, player: &Vec<u8>, from_row: u32, from_col: u32, to_row: u32, to_col: u32)
        -> (r: Result<(), CheckersError>)
        requires
            old(w).wf(),
            old(w).turn.move_number < u32::MAX,
        ensures
            played(*old(w), *final(w), r, player@, from_row, from_col, to_row, to_col),
    {
        match Self::validate(w, player, from_row, from_col, to_row, to_col) {
            Err(e) => Err(e),
            Ok(caller) => {
                Self::apply(w, caller, from_row, from_col, to_row, to_col);
                Ok(())
            },
        }
    }

    /// The refusal for a move request, or the caller's number when legal.
    fn validate(w: &CheckersWorld, player: &Vec<u8>, from_row: u32, from_col: u32, to_row: u32, to_col: u32)
        -> (r: Result<u32, CheckersError>)
        requires
            w.wf(),
        ensures
            match move_error(*w, player@, from_row, from_col, to_row, to_col) {
                Some(e) => r == Err::<u32, CheckersError>(e),
                None => r == Ok::<u32, CheckersError>(if player@ == w.player_one@ { 1u32 } else { 2u32 }),
            },
            r is Ok ==> r->Ok_0 == 1 || r->Ok_0 == 2,
    {
        if let GameStatus::Finished = w.status.status {
            return Err(CheckersError::GameOver);
        }
        let caller_num: u32 = if bytes_equal(player, &w.player_one) {
            1
        } else if bytes_equal(player, &w.player_two) {
            2
        } else {
            return Err(CheckersError::NotAPlayer);
        };
        if caller_num != w.turn.current_player {
            return Err(CheckersError::WrongTurn);
        }
        if from_row >= 8 || from_col >= 8 || to_row >= 8 || to_col >= 8 {
            return Err(CheckersError::OutOfBounds);
        }
        if (to_row + to_col) % 2 == 0 {
            return Err(CheckersError::NotDarkSquare);
        }
        if let Some(c) = &w.chain {
            if from_row != c.row || from_col != c.col {
                return Err(CheckersError::ChainCapturePieceMismatch);
            }
        }
        let piece = board_get(&w.board.cells, from_row, from_col);
        if !owned_by(piece, caller_num) {
            return Err(CheckersError::NotYourPiece);
        }
        let row_diff: u32 = if to_row >= from_row { to_row - from_row } else { from_row - to_row };
        let col_diff: u32 = if to_col >= from_col { to_col - from_col } else { from_col - to_col };
        if row_diff != col_diff || (row_diff != 1 && row_diff != 2) {
            return Err(CheckersError::IllegalMove);
        }
        let is_capture = row_diff == 2;
        if board_get(&w.board.cells, to_row, to_col) != 0 {
            return Err(CheckersError::DestinationOccupied);
        }
        if is_capture {
            let caps = legal_captures(&w.board.cells, from_row, from_col, caller_num);
            if !has_landing(&caps, to_row, to_col) {
                return Err(CheckersError::IllegalMove);
            }
        } else {
            let steps_found = legal_steps(&w.board.cells, from_row, from_col, caller_num);
            if !has_step(&steps_found, to_row, to_col) {
                return Err(CheckersError::IllegalMove);
            }
        }
        if w.chain.is_none() && !is_capture && any_capture_available(&w.board.cells, caller_num) {
            return Err(CheckersError::MustCapture);
        }
        Ok(caller_num)
    }

    /// Carries out a legal move: board update, promotion, chain, end check and
    /// turn.
    fn apply(w: &mut CheckersWorld, caller_num: u32, from_row: u32, from_col: u32, to_row: u32, to_col: u32)
        requires
            old(w).wf(),
            old(w).turn.move_number < u32::MAX,
            caller_num == 1 || caller_num == 2,
            from_row < 8, from_col < 8, to_row < 8, to_col < 8,
            abs_diff(to_row, from_row) == 1 || abs_diff(to_row, from_row) == 2,
        ensures
            ({
                let w0 = *old(w);
                let nw = *final(w);
                let cells = moved_board(w0.board.cells@, from_row, from_col, to_row, to_col, caller_num);
                let capture = abs_diff(to_row, from_row) == 2;
                let continues = capture && captures(cells, to_row as int, to_col as int, caller_num).len() > 0;
                let win = winner(cells);
                &&& nw.wf()
                &&& nw.board.cells@ == cells
                &&& nw.player_one == w0.player_one && nw.player_two == w0.player_two
                &&& if win > 0 {
                    &&& nw.status.status is Finished && nw.status.winner == win
                    &&& nw.turn == w0.turn
                    &&& nw.chain is None
                } else if continues {
                    &&& nw.status == w0.status && nw.turn == w0.turn
                    &&& nw.chain == Some(ChainCapture { row: to_row, col: to_col })
                } else {
                    &&& nw.status == w0.status
                    &&& nw.turn.current_player == 3 - caller_num
                    &&& nw.turn.move_number == w0.turn.move_number + 1
                    &&& nw.chain is None
                }
            }),
    {
        let piece = board_get(&w.board.cells, from_row, from_col);
        let is_capture = (if to_row >= from_row { to_row - from_row } else { from_row - to_row }) == 2;
        board_set(&mut w.board.cells, from_row, from_col, 0);
        board_set(&mut w.board.cells, to_row, to_col, piece);
        if is_capture {
            let mid_row = (from_row + to_row) / 2;
            let mid_col = (from_col + to_col) / 2;
            board_set(&mut w.board.cells, mid_row, mid_col, 0);
        }
        maybe_promote(&mut w.board.cells, to_row, to_col, caller_num);
        let mut turn_ends = true;
        if is_capture {
            let further = legal_captures(&w.board.cells, to_row, to_col, caller_num);
            if further.len() > 0 {
                turn_ends = false;
            }
        }
        let winner = check_winner(&w.board.cells);
        if winner > 0 {
            w.status = GameStatusComponent { status: GameStatus::Finished, winner };
            w.chain = None;
            return;
        }
        if turn_ends {
            w.turn = TurnComponent { current_player: 3 - caller_num, move_number: w.turn.move_number + 1 };
            w.chain = None;
        } else {
            w.chain = Some(ChainCapture { row: to_row, col: to_col });
        }
    }

    /// The full snapshot; `NotInitialised` before a game exists.
    pub fn get_state(stored: &Option<CheckersWorld>) -> (r: Result<GameState, CheckersError>)
        ensures
            stored is None ==> r is Err && r->Err_0 == CheckersError::NotInitialised,
            stored matches Some(w) ==> (r matches Ok(g) && g.board.cells@ == w.board.cells@ && g.turn == w.turn
                && g.status == w.status && g.player_one@ == w.player_one@ && g.player_two@ == w.player_two@),
    {
        match stored {
            None => Err(CheckersError::NotInitialised),
            Some(w) => {
                let cells = w.board.cells.clone();
                assert(cells@ =~= w.board.cells@);
                let status = match w.status.status {
                    GameStatus::Active => GameStatus::Active,
                    GameStatus::Finished => GameStatus::Finished,
                };
                Ok(GameState {
                    board: BoardComponent { cells },
                    turn: TurnComponent { current_player: w.turn.current_player, move_number: w.turn.move_number },
                    status: GameStatusComponent { status, winner: w.status.winner },
                    player_one: clone_bytes(&w.player_one),
                    player_two: clone_bytes(&w.player_two),
                })
            },
        }
    }

    /// The 64 board cells; `NotInitialised` before a game exists.
    pub fn get_board(stored: &Option<CheckersWorld>) -> (r: Result<BoardState, CheckersError>)
        ensures
            stored is None ==> r is Err && r->Err_0 == CheckersError::NotInitialised,
            stored matches Some(w) ==> (r matches Ok(b) && b.cells@ == w.board.cells@),
    {
        match stored {
            None => Err(CheckersError::NotInitialised),
            Some(w) => {
                let cells = w.board.cells.clone();
                assert(cells@ =~= w.board.cells@);
                Ok(BoardState { cells })
            },
        }
    }

    /// The address of the player on turn.
    pub fn get_current_player(stored: &Option<CheckersWorld>) -> (r: Result<Vec<u8>, CheckersError>)
        ensures
            stored is None ==> r is Err && r->Err_0 == CheckersError::NotInitialised,
            stored matches Some(w) ==> (r matches Ok(a) && a@ == (if w.turn.current_player == 1 { w.player_one@ } else { w.player_two@ })),
    {
        match stored {
            None => Err(CheckersError::NotInitialised),
            Some(w) => {
                if w.turn.current_player == 1 {
                    Ok(clone_bytes(&w.player_one))
                } else {
                    Ok(clone_bytes(&w.player_two))
                }
            },
        }
    }
}

/// Every cell holds -2 to 2, and pieces stand on dark squares only.
pub open spec fn pieces_sound(cells: Seq<i32>) -> bool {
    &&& cells.len() == 64
    &&& forall|i: int| 0 <= i < 64 ==> -2 <= #[trigger] cells[i] <= 2
    &&& forall|i: int| 0 <= i < 64 && #[trigger] cells[i] != 0 ==> (i / 8 + i % 8) % 2 == 1
}

proof fn lemma_square_of(r: int, c: int)
    requires
        0 <= r < 8,
        0 <= c < 8,
    ensures
        (r * 8 + c) / 8 == r,
        (r * 8 + c) % 8 == c,
        0 <= r * 8 + c < 64,
{
}

/// Law: the starting board is sound.
pub proof fn lemma_start_sound()
    ensures
        pieces_sound(Seq::new(64, |i: int| if (i / 8 + i % 8) % 2 == 1 && i / 8 <= 2 { 1i32 }
            else if (i / 8 + i % 8) % 2 == 1 && i / 8 >= 5 { -1i32 } else { 0i32 })),
{
}

/// Law: every move request keeps the board sound: cell values stay within
/// -2 to 2 and pieces stay on dark squares.
#[verifier::rlimit(50)]
#[verifier::spinoff_prover]
pub proof fn lemma_move_keeps_board_sound(w0: CheckersWorld, nw: CheckersWorld, r: Result<(), CheckersError>,
    player: Seq<u8>, fr: u32, fc: u32, tr: u32, tc: u32)
    requires
        pieces_sound(w0.board.cells@),
        played(w0, nw, r, player, fr, fc, tr, tc),
    ensures
        pieces_sound(nw.board.cells@),
{
    if move_error(w0, player, fr, fc, tr, tc) is None {
        let caller: u32 = if player == w0.player_one@ { 1 } else { 2 };
        let cells = w0.board.cells@;
        lemma_square_of(fr as int, fc as int);
        lemma_square_of(tr as int, tc as int);
        let piece = at(cells, fr as int, fc as int);
        let b1 = cells.update(fr * 8 + fc, 0).update(tr * 8 + tc, piece);
        assert(pieces_sound(b1)) by {
            assert forall|i: int| 0 <= i < 64 && #[trigger] b1[i] != 0 implies (i / 8 + i % 8) % 2 == 1 by {
                if i != tr * 8 + tc {
                    assert(b1[i] == cells[i]);
                }
            }
        }
        let b2 = if abs_diff(tr, fr) == 2 { b1.update(((fr + tr) / 2) * 8 + (fc + tc) / 2, 0) } else { b1 };
        if abs_diff(tr, fr) == 2 {
            lemma_square_of(((fr + tr) / 2) as int, ((fc + tc) / 2) as int);
            assert(pieces_sound(b2)) by {
                assert forall|i: int| 0 <= i < 64 && #[trigger] b2[i] != 0 implies (i / 8 + i % 8) % 2 == 1 by {
                    assert(b2[i] == b1[i]);
                }
            }
        }
        let b3 = promoted(b2, tr as int, tc as int, caller);
        assert(pieces_sound(b3)) by {
            assert forall|i: int| 0 <= i < 64 && #[trigger] b3[i] != 0 implies (i / 8 + i % 8) % 2 == 1 by {
                if i != tr * 8 + tc {
                    assert(b3[i] == b2[i]);
                }
            }
        }
        assert(nw.board.cells@ == b3);
    }
}

/// `piece` is one of player one's (a man 1 or a king 2) or player two's (-1
/// or -2).
pub open spec fn piece_of(piece: i32, p: u32) -> bool {
    if p == 1 { piece == 1 || piece == 2 } else { piece == -1 || piece == -2 }
}

proof fn lemma_pieces_by_index(cells: Seq<i32>, p: u32)
    requires
        cells.len() == 64,
        p == 1 || p == 2,
    ensures
        has_pieces(cells, p) <==> exists|i: int| 0 <= i < 64 && piece_of(#[trigger] cells[i], p),
{
    if has_pieces(cells, p) {
        let i = choose|i: int| 0 <= i < 64 && owned(#[trigger] at(cells, i / 8, i % 8), p);
        lemma_square_of(i / 8, i % 8);
        assert((i / 8) * 8 + i % 8 == i);
        assert(piece_of(cells[i], p));
    }
    if exists|i: int| 0 <= i < 64 && piece_of(#[trigger] cells[i], p) {
        let i = choose|i: int| 0 <= i < 64 && piece_of(#[trigger] cells[i], p);
        assert((i / 8) * 8 + i % 8 == i);
        assert(owned(at(cells, i / 8, i % 8), p));
    }
}

/// After an accepted move the moved piece stands on its landing square and
/// belongs to the mover.
#[verifier::rlimit(50)]
#[verifier::spinoff_prover]
proof fn lemma_mover_keeps_a_piece(w0: CheckersWorld, nw: CheckersWorld, player: Seq<u8>, fr: u32, fc: u32, tr: u32, tc: u32)
    requires
        w0.wf(),
        played(w0, nw, Ok(()), player, fr, fc, tr, tc),
    ensures
        ({
            let caller: u32 = if player == w0.player_one@ { 1 } else { 2 };
            &&& move_error(w0, player, fr, fc, tr, tc) is None
            &&& tr < 8 && tc < 8
            &&& nw.board.cells@.len() == 64
            &&& piece_of(nw.board.cells@[tr * 8 + tc], caller)
        }),
{
    let caller: u32 = if player == w0.player_one@ { 1 } else { 2 };
    let cells = w0.board.cells@;
    lemma_square_of(fr as int, fc as int);
    lemma_square_of(tr as int, tc as int);
    let piece = at(cells, fr as int, fc as int);
    let b1 = cells.update(fr * 8 + fc, 0).update(tr * 8 + tc, piece);
    assert(b1[tr * 8 + tc] == piece);
    let b2 = if abs_diff(tr, fr) == 2 { b1.update(((fr + tr) / 2) * 8 + (fc + tc) / 2, 0) } else { b1 };
    if abs_diff(tr, fr) == 2 {
        lemma_square_of(((fr + tr) / 2) as int, ((fc + tc) / 2) as int);
        assert(((fr + tr) / 2) != tr);
        assert(((fr + tr) / 2) * 8 + (fc + tc) / 2 != tr * 8 + tc);
    }
    assert(b2[tr * 8 + tc] == piece);
    assert(piece_of(piece, caller));
    let b3 = promoted(b2, tr as int, tc as int, caller);
    assert(piece_of(b3[tr * 8 + tc], caller));
    assert(nw.board.cells@ == b3);
}

/// Law: a game is won only by a player who still has a piece on the board.
/// When a move leaves player two without pieces, player one wins; when it
/// leaves player one without pieces, player two wins.
pub proof fn lemma_winner_has_pieces(w0: CheckersWorld, nw: CheckersWorld, player: Seq<u8>, fr: u32, fc: u32, tr: u32, tc: u32)
    requires
        w0.wf(),
        played(w0, nw, Ok(()), player, fr, fc, tr, tc),
    ensures
        nw.status.status is Finished ==> (nw.status.winner == 1 || nw.status.winner == 2)
            && exists|i: int| 0 <= i < 64 && piece_of(#[trigger] nw.board.cells@[i], nw.status.winner),
        (forall|i: int| 0 <= i < 64 ==> !piece_of(#[trigger] nw.board.cells@[i], 2))
            ==> nw.status.status is Finished && nw.status.winner == 1,
        (forall|i: int| 0 <= i < 64 ==> !piece_of(#[trigger] nw.board.cells@[i], 1))
            ==> nw.status.status is Finished && nw.status.winner == 2,
{
    lemma_mover_keeps_a_piece(w0, nw, player, fr, fc, tr, tc);
    let cells = nw.board.cells@;
    let caller: u32 = if player == w0.player_one@ { 1 } else { 2 };
    lemma_pieces_by_index(cells, 1);
    lemma_pieces_by_index(cells, 2);
    assert(piece_of(cells[tr * 8 + tc], caller));
    assert(0 <= tr * 8 + tc < 64);
    assert(has_pieces(cells, caller));
    assert(w0.status.status is Active);
}

/// One move request: the caller's address and the from and to squares.
pub struct MoveRequest {
    pub player: Seq<u8>,
    pub from_row: u32,
    pub from_col: u32,
    pub to_row: u32,
    pub to_col: u32,
}

/// `games[k + 1]` is the game after request `k` was played on `games[k]`,
/// with result `results[k]`.
pub open spec fn played_in_turn(games: Seq<CheckersWorld>, requests: Seq<MoveRequest>,
    results: Seq<Result<(), CheckersError>>) -> bool {
    &&& games.len() == requests.len() + 1
    &&& results.len() == requests.len()
    &&& forall|k: int| 0 <= k < requests.len() ==> played(#[trigger] games[k], games[k + 1], results[k],
        requests[k].player, requests[k].from_row, requests[k].from_col, requests[k].to_row, requests[k].to_col)
}

/// Law: from a sound board, whatever sequence of move requests is played,
/// every board on the way keeps 64 cells, values within -2 to 2 and pieces
/// on dark squares only. With `lemma_start_sound` this covers every game
/// that `init_game` starts.
pub proof fn lemma_boards_stay_sound(games: Seq<CheckersWorld>, requests: Seq<MoveRequest>,
    results: Seq<Result<(), CheckersError>>, k: int)
    requires
        played_in_turn(games, requests, results),
        pieces_sound(games[0].board.cells@),
        0 <= k < games.len(),
    ensures
        pieces_sound(games[k].board.cells@),
    decreases k,
{
    if k > 0 {
        lemma_boards_stay_sound(games, requests, results, k - 1);
        let q = requests[k - 1];
        assert(played(games[k - 1], games[k], results[k - 1], q.player, q.from_row, q.from_col, q.to_row, q.to_col));
        lemma_move_keeps_board_sound(games[k - 1], games[k], results[k - 1], q.player, q.from_row, q.from_col, q.to_row, q.to_col);
    }
}

/// Law: once a game is finished every move request is refused with
/// `GameOver` and leaves the game as it was.
pub proof fn lemma_finished_is_final(w0: CheckersWorld, nw: CheckersWorld, r: Result<(), CheckersError>,
    player: Seq<u8>, fr: u32, fc: u32, tr: u32, tc: u32)
    requires
        w0.status.status is Finished,
        played(w0, nw, r, player, fr, fc, tr, tc),
    ensures
        r == Err::<(), CheckersError>(CheckersError::GameOver),
        nw == w0,
{
}

/// Law: an accepted move that neither ends the game nor continues a capture
/// hands the turn to the other player and counts one more move.
pub proof fn lemma_turn_passes(w0: CheckersWorld, nw: CheckersWorld, player: Seq<u8>, fr: u32, fc: u32, tr: u32, tc: u32)
    requires
        played(w0, nw, Ok(()), player, fr, fc, tr, tc),
        nw.status.status is Active,
        nw.chain is None,
        w0.turn.current_player == 1 || w0.turn.current_player == 2,
    ensures
        nw.turn.current_player == 3 - w0.turn.current_player,
        nw.turn.move_number == w0.turn.move_number + 1,
{
}

} // verus!
