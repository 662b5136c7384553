//! Tic-tac-toe: board, players, turn state and win/draw detection.
use vstd::prelude::*;

verus! {

/// Entity id under which the whole game is kept: one game per instance.
pub const GAME_ENTITY: u32 = 1;

/// Board state: 9 cells where 0 = empty, 1 = X, 2 = O.
#[derive(Debug)]
pub struct Board {
    pub cells: Vec<u32>,
}

impl Board {
    /// An empty board of nine cells.
    pub fn new() -> (b: Board)
        ensures
            b.cells@ == Seq::new(9, |i: int| 0u32),
    {
        let mut cells: Vec<u32> = Vec::new();
        let mut i: u32 = 0;
        while i < 9
            invariant
                0 <= i <= 9,
                cells@ == Seq::new(i as nat, |k: int| 0u32),
            decreases 9 - i,
        {
            cells.push(0u32);
            i += 1;
            assert(cells@ =~= Seq::new(i as nat, |k: int| 0u32));
        }
        Board { cells }
    }
}

/// Both players' addresses (as their textual key bytes).
#[derive(Debug)]
pub struct Players {
    pub player_x: Vec<u8>,
    pub player_o: Vec<u8>,
}

/// Turn and game-over state.
#[derive(Debug)]
pub struct TurnState {
    pub is_x_turn: bool,
    pub move_count: u32,
    /// 0 = in progress, 1 = X wins, 2 = O wins, 3 = draw.
    pub status: u32,
}

/// The cell at `i`, or 0 when `i` is past the end.
pub open spec fn cell_or_empty(cells: Seq<u32>, i: int) -> u32 {
    if 0 <= i < cells.len() { cells[i] } else { 0 }
}

/// The three cell indices of winning line `k` (rows, columns, diagonals).
pub open spec fn line(k: int) -> (int, int, int) {
    if k == 0 { (0, 1, 2) }
    else if k == 1 { (3, 4, 5) }
    else if k == 2 { (6, 7, 8) }
    else if k == 3 { (0, 3, 6) }
    else if k == 4 { (1, 4, 7) }
    else if k == 5 { (2, 5, 8) }
    else if k == 6 { (0, 4, 8) }
    else { (2, 4, 6) }
}

/// Line `k` is filled by one non-empty mark.
pub open spec fn line_won(cells: Seq<u32>, k: int) -> bool {
    let (i, j, l) = line(k);
    cell_or_empty(cells, i) != 0 && cell_or_empty(cells, i) == cell_or_empty(cells, j)
        && cell_or_empty(cells, j) == cell_or_empty(cells, l)
}

/// All nine cells hold a mark.
pub open spec fn board_full(cells: Seq<u32>) -> bool {
    forall|i: int| 0 <= i < 9 ==> #[trigger] cell_or_empty(cells, i) != 0
}

/// The verdict when no line is won: 3 (draw) on a full board, else 0.
pub open spec fn no_line_verdict(cells: Seq<u32>) -> u32 {
    if board_full(cells) { 3 } else { 0 }
}

/// Outcome looking at lines `k..8` in order: the mark of the first won line,
/// else the draw/in-progress verdict.
pub open spec fn outcome_from(cells: Seq<u32>, k: int) -> u32
    decreases 8 - k,
{
    if k >= 8 {
        no_line_verdict(cells)
    } else if line_won(cells, k) {
        cell_or_empty(cells, line(k).0)
    } else {
        outcome_from(cells, k + 1)
    }
}

/// The game outcome for a board.
pub open spec fn outcome(cells: Seq<u32>) -> u32 {
    outcome_from(cells, 0)
}

fn line_indices(k: u32) -> (r: (u32, u32, u32))
    requires
        k < 8,
    ensures
        r.0 as int == line(k as int).0,
        r.1 as int == line(k as int).1,
        r.2 as int == line(k as int).2,
{
    if k == 0 { (0, 1, 2) }
    else if k == 1 { (3, 4, 5) }
    else if k == 2 { (6, 7, 8) }
    else if k == 3 { (0, 3, 6) }
    else if k == 4 { (1, 4, 7) }
    else if k == 5 { (2, 5, 8) }
    else if k == 6 { (0, 4, 8) }
    else { (2, 4, 6) }
}

fn get_or_empty(cells: &Vec<u32>, i: u32) -> (r: u32)
    ensures
        r == cell_or_empty(cells@, i as int),
{
    if (i as usize) < cells.len() { cells[i as usize] } else { 0 }
}

/// Win/draw detection: 0 while in progress, the mark (1 = X, 2 = O) of the
/// first completed line, or 3 when the board is full with no line. The
/// move count does not decide the draw: the board does.
pub fn detect_winner(cells: &Vec<u32>, move_count: u32) -> (r: u32)
    ensures
        r == outcome(cells@),
{
    let mut k: u32 = 0;
    while k < 8
        invariant
            0 <= k <= 8,
            outcome(cells@) == outcome_from(cells@, k as int),
        decreases 8 - k,
    {
        let (i, j, l) = line_indices(k);
        let a = get_or_empty(cells, i);
        let b = get_or_empty(cells, j);
        let c = get_or_empty(cells, l);
        if a != 0 && a == b && b == c {
            return a;
        }
        k += 1;
    }
    let mut i: u32 = 0;
    while i < 9
        invariant
            0 <= i <= 9,
            forall|m: int| 0 <= m < i ==> #[trigger] cell_or_empty(cells@, m) != 0,
            outcome(cells@) == no_line_verdict(cells@),
        decreases 9 - i,
    {
        if get_or_empty(cells, i) == 0 {
            assert(!board_full(cells@));
            return 0;
        }
        i += 1;
    }
    3
}

/// The three rows, three columns and two diagonals of the board, by cell
/// index (row-major, 0 to 8).
pub open spec fn board_line(i: int, j: int, l: int) -> bool {
    ||| (i, j, l) == (0int, 1int, 2int) ||| (i, j, l) == (3int, 4int, 5int) ||| (i, j, l) == (6int, 7int, 8int)
    ||| (i, j, l) == (0int, 3int, 6int) ||| (i, j, l) == (1int, 4int, 7int) ||| (i, j, l) == (2int, 5int, 8int)
    ||| (i, j, l) == (0int, 4int, 8int) ||| (i, j, l) == (2int, 4int, 6int)
}

/// Law: on a board of empty cells and marks (0, 1 or 2), whenever some row,
/// column or diagonal holds three equal marks, the outcome is a win (1 or 2,
/// neither in progress nor a draw), and it is the mark of a row, column or
/// diagonal that holds three equal marks.
pub proof fn lemma_completed_line_wins(cells: Seq<u32>, i: int, j: int, l: int)
    requires
        forall|x: int| 0 <= x < 9 ==> #[trigger] cell_or_empty(cells, x) <= 2,
        board_line(i, j, l),
        cell_or_empty(cells, i) != 0,
        cell_or_empty(cells, i) == cell_or_empty(cells, j),
        cell_or_empty(cells, j) == cell_or_empty(cells, l),
    ensures
        outcome(cells) != 0 && outcome(cells) != 3,
        exists|a: int, b: int, c: int| #[trigger] board_line(a, b, c)
            && cell_or_empty(cells, a) == outcome(cells)
            && cell_or_empty(cells, b) == outcome(cells)
            && cell_or_empty(cells, c) == outcome(cells),
{
    let k: int = if (i, j, l) == (0int, 1int, 2int) { 0 } else if (i, j, l) == (3int, 4int, 5int) { 1 }
        else if (i, j, l) == (6int, 7int, 8int) { 2 } else if (i, j, l) == (0int, 3int, 6int) { 3 }
        else if (i, j, l) == (1int, 4int, 7int) { 4 } else if (i, j, l) == (2int, 5int, 8int) { 5 }
        else if (i, j, l) == (0int, 4int, 8int) { 6 } else { 7 };
    assert(line(k) == (i, j, l));
    assert(line_won(cells, k));
    lemma_outcome_line(cells, 0);
    let m = choose|m: int| 0 <= m < 8 && line_won(cells, m) && outcome_from(cells, 0) == cell_or_empty(cells, line(m).0);
    let (a, b, c) = line(m);
    assert(board_line(a, b, c));
    assert(cell_or_empty(cells, a) != 0);
    assert(0 <= a < 9);
    assert(cell_or_empty(cells, a) <= 2);
}

/// Law: the outcome is the mark of a completed line exactly when some line is
/// completed, and then it is a mark present on the board; with no completed
/// line it is 3 (draw) when all nine cells are marked and 0 otherwise.
pub proof fn lemma_outcome_line(cells: Seq<u32>, k: int)
    requires
        0 <= k <= 8,
    ensures
        (exists|m: int| k <= m < 8 && line_won(cells, m)) ==> (
            exists|m: int| k <= m < 8 && line_won(cells, m)
                && outcome_from(cells, k) == cell_or_empty(cells, line(m).0)),
        (forall|m: int| k <= m < 8 ==> !line_won(cells, m)) ==> outcome_from(cells, k) == no_line_verdict(cells),
    decreases 8 - k,
{
    if k < 8 {
        lemma_outcome_line(cells, k + 1);
        if line_won(cells, k) {
            assert(k <= k < 8 && line_won(cells, k));
        } else {
            if exists|m: int| k <= m < 8 && line_won(cells, m) {
                let m = choose|m: int| k <= m < 8 && line_won(cells, m);
                assert(m != k);
                assert(k + 1 <= m < 8 && line_won(cells, m));
            }
        }
    }
}

} // verus!
