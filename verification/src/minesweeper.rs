//! Minesweeper on a 9 x 9 grid with eleven mines at fixed cells: revealing
//! a safe cell shows how many mines touch it, revealing a mine loses, and
//! revealing every safe cell wins.
use vstd::prelude::*;

verus! {

pub const ROWS: u32 = 9;
pub const COLS: u32 = 9;
pub const MINES: u32 = 11;
/// Board value of a cell not yet revealed.
pub const CELL_HIDDEN: u32 = 9;
/// Board value of a revealed mine.
pub const CELL_MINE: u32 = 10;
pub const STATUS_PLAYING: u32 = 0;
pub const STATUS_WON: u32 = 1;
pub const STATUS_LOST: u32 = 2;

/// The number of safe cells.
pub const TOTAL_SAFE: u32 = 70;

/// What the player sees: per cell, `CELL_HIDDEN`, `CELL_MINE` or the number
/// of neighbouring mines.
#[derive(Debug)]
pub struct BoardComponent {
    pub id: u32,
    pub cells: Vec<u32>,
}

/// Where the mines are, per cell.
#[derive(Debug)]
pub struct MineLayoutComponent {
    pub id: u32,
    pub mines: Vec<bool>,
}

/// Playing, won or lost, and the number of safe cells revealed.
#[derive(Debug)]
pub struct GameStateComponent {
    pub id: u32,
    pub status: u32,
    pub revealed_count: u32,
}

/// The stored game.
#[derive(Debug)]
pub struct ECSWorldState {
    pub board: BoardComponent,
    pub mine_layout: MineLayoutComponent,
    pub game_state: GameStateComponent,
    pub next_entity_id: u32,
}

/// The public summary.
#[derive(Clone, Copy, Debug, PartialEq, Eq, Structural)]
pub struct GameState {
    pub rows: u32,
    pub cols: u32,
    pub total_mines: u32,
    pub status: u32,
    pub revealed_count: u32,
    pub safe_cells_remaining: u32,
}

/// What one cell shows.
#[derive(Clone, Copy, Debug, PartialEq, Eq, Structural)]
pub struct VisibleCellState {
    pub is_revealed: bool,
    pub is_mine: bool,
    pub adjacent_mines: u32,
}

/// The short message of a reveal.
#[derive(Clone, Copy, Debug, PartialEq, Eq, Structural)]
pub enum RevealMessage {
    /// The game has already ended.
    Over,
    /// The cell is outside the grid.
    Invalid,
    /// The cell was already revealed.
    Revealed,
    /// The cell held a mine.
    Boom,
    /// A safe cell was revealed.
    Safe,
}

/// The answer to a reveal.
#[derive(Clone, Copy, Debug, PartialEq, Eq, Structural)]
pub struct RevealResult {
    pub success: bool,
    pub is_mine: bool,
    pub adjacent_mines: u32,
    pub message: RevealMessage,
}

/// Whether cell `i` (row * 9 + col) holds one of the eleven mines.
pub open spec fn is_mine_index(i: int) -> bool {
    i == 10 || i == 14 || i == 25 || i == 30 || i == 35 || i == 42 || i == 47 || i == 49 || i == 52 || i == 63 || i == 68
}

/// The fixed mine layout.
pub open spec fn layout() -> Seq<bool> {
    Seq::new(81, |i: int| is_mine_index(i))
}

pub open spec fn cell_index(row: int, col: int) -> int {
    row * 9 + col
}

/// 1 when (row, col) is on the grid and holds a mine, else 0.
pub open spec fn mine_at(mines: Seq<bool>, row: int, col: int) -> nat {
    if 0 <= row < 9 && 0 <= col < 9 && mines[cell_index(row, col)] { 1 } else { 0 }
}

/// The number of mines among the eight neighbours of (row, col).
pub open spec fn adjacent_mines(mines: Seq<bool>, row: int, col: int) -> nat {
    mine_at(mines, row - 1, col - 1) + mine_at(mines, row - 1, col) + mine_at(mines, row - 1, col + 1)
        + mine_at(mines, row, col - 1) + mine_at(mines, row, col + 1)
        + mine_at(mines, row + 1, col - 1) + mine_at(mines, row + 1, col) + mine_at(mines, row + 1, col + 1)
}

/// The stored game as values.
pub struct WorldView {
    pub cells: Seq<u32>,
    pub mines: Seq<bool>,
    pub status: u32,
    pub revealed_count: u32,
}

impl View for ECSWorldState {
    type V = WorldView;

    open spec fn view(&self) -> WorldView {
        WorldView {
            cells: self.board.cells@,
            mines: self.mine_layout.mines@,
            status: self.game_state.status,
            revealed_count: self.game_state.revealed_count,
        }
    }
}

/// 81 cells and 81 mine flags; at most all safe cells revealed, and fewer
/// while the game is on.
pub open spec fn world_wf(w: WorldView) -> bool {
    &&& w.cells.len() == 81
    &&& w.mines.len() == 81
    &&& w.revealed_count <= TOTAL_SAFE
    &&& w.status == STATUS_PLAYING ==> w.revealed_count < TOTAL_SAFE
}

/// The world after revealing (row, col), and the answer.
pub open spec fn after_reveal(w: WorldView, row: u32, col: u32) -> (WorldView, RevealResult) {
    let i = cell_index(row as int, col as int);
    if w.status != STATUS_PLAYING {
        (w, RevealResult { success: false, is_mine: false, adjacent_mines: 0, message: RevealMessage::Over })
    } else if row >= ROWS || col >= COLS {
        (w, RevealResult { success: false, is_mine: false, adjacent_mines: 0, message: RevealMessage::Invalid })
    } else if w.cells[i] != CELL_HIDDEN {
        (w, RevealResult { success: false, is_mine: false, adjacent_mines: 0, message: RevealMessage::Revealed })
    } else if w.mines[i] {
        (WorldView { cells: w.cells.update(i, CELL_MINE), status: STATUS_LOST, ..w },
         RevealResult { success: true, is_mine: true, adjacent_mines: 0, message: RevealMessage::Boom })
    } else {
        let n = adjacent_mines(w.mines, row as int, col as int) as u32;
        let count = (w.revealed_count + 1) as u32;
        (WorldView {
            cells: w.cells.update(i, n),
            revealed_count: count,
            status: if count >= TOTAL_SAFE { STATUS_WON } else { w.status },
            ..w
         },
         RevealResult { success: true, is_mine: false, adjacent_mines: n, message: RevealMessage::Safe })
    }
}

impl BoardComponent {
    /// All 81 cells hidden.
    pub fn new(id: u32) -> (b: BoardComponent)
        ensures
            b.id == id,
            b.cells@ == Seq::new(81, |i: int| CELL_HIDDEN),
    {
        let mut cells: Vec<u32> = Vec::new();
        let mut i: usize = 0;
        while i < 81
            invariant
                0 <= i <= 81,
                cells@ =~= Seq::new(i as nat, |j: int| CELL_HIDDEN),
            decreases 81 - i,
        {
            cells.push(CELL_HIDDEN);
            i += 1;
        }
        BoardComponent { id, cells }
    }

    pub fn is_hidden(&self, row: u32, col: u32) -> (r: bool)
        requires
            row < 9 && col < 9,
            self.cells.len() == 81,
        ensures
            r == (self.cells@[cell_index(row as int, col as int)] == CELL_HIDDEN),
    {
        self.cells[(row * COLS + col) as usize] == CELL_HIDDEN
    }

    pub fn is_revealed(&self, row: u32, col: u32) -> (r: bool)
        requires
            row < 9 && col < 9,
            self.cells.len() == 81,
        ensures
            r == (self.cells@[cell_index(row as int, col as int)] != CELL_HIDDEN),
    {
        !self.is_hidden(row, col)
    }

    pub fn set_cell(&mut self, row: u32, col: u32, value: u32)
        requires
            row < 9 && col < 9,
            old(self).cells.len() == 81,
        ensures
            final(self).id == old(self).id,
            final(self).cells@ == old(self).cells@.update(cell_index(row as int, col as int), value),
    {
        self.cells.set((row * COLS + col) as usize, value);
    }
}

impl MineLayoutComponent {
    /// No mines yet.
    pub fn new(id: u32) -> (m: MineLayoutComponent)
        ensures
            m.id == id,
            m.mines@ == Seq::new(81, |i: int| false),
    {
        let mut mines: Vec<bool> = Vec::new();
        let mut i: usize = 0;
        while i < 81
            invariant
                0 <= i <= 81,
                mines@ =~= Seq::new(i as nat, |j: int| false),
            decreases 81 - i,
        {
            mines.push(false);
            i += 1;
        }
        MineLayoutComponent { id, mines }
    }

    pub fn has_mine(&self, row: u32, col: u32) -> (r: bool)
        requires
            row < 9 && col < 9,
            self.mines.len() == 81,
        ensures
            r == self.mines@[cell_index(row as int, col as int)],
    {
        self.mines[(row * COLS + col) as usize]
    }

    pub fn set_mine(&mut self, row: u32, col: u32)
        requires
            row < 9 && col < 9,
            old(self).mines.len() == 81,
        ensures
            final(self).id == old(self).id,
            final(self).mines@ == old(self).mines@.update(cell_index(row as int, col as int), true),
    {
        self.mines.set((row * COLS + col) as usize, true);
    }

    /// 1 when (row + dr, col + dc) is on the grid and holds a mine.
    fn mine_at_offset(&self, row: u32, col: u32, dr: i32, dc: i32) -> (r: u32)
        requires
            row < 9 && col < 9,
            -1 <= dr <= 1 && -1 <= dc <= 1,
            self.mines.len() == 81,
        ensures
            r == mine_at(self.mines@, row + dr, col + dc),
    {
        let r = row as i32 + dr;
        let c = col as i32 + dc;
        if r < 0 || r >= ROWS as i32 || c < 0 || c >= COLS as i32 {
            return 0;
        }
        if self.mines[(r * 9 + c) as usize] { 1 } else { 0 }
    }

    /// The number of mines among the eight neighbours of (row, col).
    pub fn count_adjacent_mines(&self, row: u32, col: u32) -> (r: u32)
        requires
            row < 9 && col < 9,
            self.mines.len() == 81,
        ensures
            r == adjacent_mines(self.mines@, row as int, col as int),
            r <= 8,
    {
        self.mine_at_offset(row, col, -1, -1) + self.mine_at_offset(row, col, -1, 0)
            + self.mine_at_offset(row, col, -1, 1) + self.mine_at_offset(row, col, 0, -1)
            + self.mine_at_offset(row, col, 0, 1) + self.mine_at_offset(row, col, 1, -1)
            + self.mine_at_offset(row, col, 1, 0) + self.mine_at_offset(row, col, 1, 1)
    }
}

impl GameStateComponent {
    pub fn new(id: u32) -> (g: GameStateComponent)
        ensures
            g.id == id && g.status == STATUS_PLAYING && g.revealed_count == 0,
    {
        GameStateComponent { id, status: STATUS_PLAYING, revealed_count: 0 }
    }
}

/// Puts the eleven mines of the fixed layout.
pub fn place_mines_deterministic(mine_layout: &mut MineLayoutComponent)
    requires
        old(mine_layout).mines@ == Seq::new(81, |i: int| false),
    ensures
        final(mine_layout).mines@ == layout(),
        final(mine_layout).id == old(mine_layout).id,
{
    let positions: [(u32, u32); 11] = [(1, 1), (1, 5), (2, 7), (3, 3), (3, 8), (4, 6), (5, 2), (5, 4), (5, 7), (7, 0), (7, 5)];
    let ghost expected = seq![10int, 14, 25, 30, 35, 42, 47, 49, 52, 63, 68];
    let mut k: usize = 0;
    while k < 11
        invariant
            0 <= k <= 11,
            positions@ == seq![(1u32, 1u32), (1u32, 5u32), (2u32, 7u32), (3u32, 3u32), (3u32, 8u32), (4u32, 6u32), (5u32, 2u32), (5u32, 4u32), (5u32, 7u32), (7u32, 0u32), (7u32, 5u32)],
            expected == seq![10int, 14, 25, 30, 35, 42, 47, 49, 52, 63, 68],
            mine_layout.mines@.len() == 81,
            mine_layout.id == old(mine_layout).id,
            forall|i: int| 0 <= i < 81 ==> #[trigger] mine_layout.mines@[i]
                == exists|j: int| 0 <= j < k && expected[j] == i,
        decreases 11 - k,
    {
        let (row, col) = positions[k];
        if row < ROWS && col < COLS {
            mine_layout.set_mine(row, col);
        }
        assert(cell_index(row as int, col as int) == expected[k as int]);
        k += 1;
        assert forall|i: int| 0 <= i < 81 implies #[trigger] mine_layout.mines@[i]
            == exists|j: int| 0 <= j < k && expected[j] == i by {
            if i == expected[k - 1] {
                assert(expected[k - 1] == i);
            }
        }
    }
    assert forall|i: int| 0 <= i < 81 implies #[trigger] mine_layout.mines@[i] == layout()[i] by {
        if is_mine_index(i) {
            if i == 10 { assert(expected[0] == i); }
            if i == 14 { assert(expected[1] == i); }
            if i == 25 { assert(expected[2] == i); }
            if i == 30 { assert(expected[3] == i); }
            if i == 35 { assert(expected[4] == i); }
            if i == 42 { assert(expected[5] == i); }
            if i == 47 { assert(expected[6] == i); }
            if i == 49 { assert(expected[7] == i); }
            if i == 52 { assert(expected[8] == i); }
            if i == 63 { assert(expected[9] == i); }
            if i == 68 { assert(expected[10] == i); }
        }
    }
    assert(mine_layout.mines@ =~= layout());
}

/// Marks the game won once every safe cell is revealed.
pub fn completion_system(world: &mut ECSWorldState)
    ensures
        final(world)@ == (WorldView {
            status: if old(world).game_state.revealed_count >= TOTAL_SAFE { STATUS_WON } else { old(world).game_state.status },
            ..old(world)@
        }),
        final(world).board.id == old(world).board.id,
        final(world).mine_layout.id == old(world).mine_layout.id,
        final(world).game_state.id == old(world).game_state.id,
        final(world).next_entity_id == old(world).next_entity_id,
{
    let total_safe = ROWS * COLS - MINES;
    if world.game_state.revealed_count >= total_safe {
        world.game_state.status = STATUS_WON;
    }
}

/// The contract's operations over a stored game.
#[derive(Debug)]
pub struct MinesweeperContract;

impl MinesweeperContract {
    /// A new game: every cell hidden, the fixed mines placed, entities 0 to 2.
    pub fn init_game() -> (w: ECSWorldState)
        ensures
            w@ == (WorldView { cells: Seq::new(81, |i: int| CELL_HIDDEN), mines: layout(), status: STATUS_PLAYING, revealed_count: 0 }),
            w.board.id == 0 && w.mine_layout.id == 1 && w.game_state.id == 2 && w.next_entity_id == 3,
    {
        let mut next_entity_id: u32 = 0;
        let board = BoardComponent::new(next_entity_id);
        next_entity_id += 1;
        let mut mine_layout = MineLayoutComponent::new(next_entity_id);
        place_mines_deterministic(&mut mine_layout);
        next_entity_id += 1;
        let game_state = GameStateComponent::new(next_entity_id);
        next_entity_id += 1;
        ECSWorldState { board, mine_layout, game_state, next_entity_id }
    }

    /// Reveals (row, col).
    pub fn reveal_cell(world: &mut ECSWorldState, row: u32, col: u32) -> (r: RevealResult)
        requires
            world_wf(old(world)@),
        ensures
            (final(world)@, r) == after_reveal(old(world)@, row, col),
            world_wf(final(world)@),
            !r.success ==> *final(world) == *old(world),
            final(world).board.id == old(world).board.id,
            final(world).mine_layout.id == old(world).mine_layout.id,
            final(world).game_state.id == old(world).game_state.id,
            final(world).next_entity_id == old(world).next_entity_id,
    {
        if world.game_state.status != STATUS_PLAYING {
            return RevealResult { success: false, is_mine: false, adjacent_mines: 0, message: RevealMessage::Over };
        }
        if row >= ROWS || col >= COLS {
            return RevealResult { success: false, is_mine: false, adjacent_mines: 0, message: RevealMessage::Invalid };
        }
        if !world.board.is_hidden(row, col) {
            return RevealResult { success: false, is_mine: false, adjacent_mines: 0, message: RevealMessage::Revealed };
        }
        if world.mine_layout.has_mine(row, col) {
            world.board.set_cell(row, col, CELL_MINE);
            world.game_state.status = STATUS_LOST;
            return RevealResult { success: true, is_mine: true, adjacent_mines: 0, message: RevealMessage::Boom };
        }
        let adjacent_count = world.mine_layout.count_adjacent_mines(row, col);
        world.board.set_cell(row, col, adjacent_count);
        world.game_state.revealed_count = world.game_state.revealed_count + 1;
        completion_system(world);
        RevealResult { success: true, is_mine: false, adjacent_mines: adjacent_count, message: RevealMessage::Safe }
    }

    /// The public summary.
    pub fn get_state(world: &ECSWorldState) -> (g: GameState)
        requires
            world.game_state.revealed_count <= TOTAL_SAFE,
        ensures
            g == (GameState {
                rows: 9, cols: 9, total_mines: 11,
                status: world.game_state.status,
                revealed_count: world.game_state.revealed_count,
                safe_cells_remaining: (TOTAL_SAFE - world.game_state.revealed_count) as u32,
            }),
    {
        Self::to_game_state(world)
    }

    /// What cell (row, col) shows; nothing for a cell off the grid.
    pub fn get_visible_cell(world: &ECSWorldState, row: u32, col: u32) -> (v: VisibleCellState)
        requires
            world_wf(world@),
        ensures
            !(row < 9 && col < 9) ==> v == (VisibleCellState { is_revealed: false, is_mine: false, adjacent_mines: 0 }),
            row < 9 && col < 9 ==> v == ({
                let revealed = world@.cells[cell_index(row as int, col as int)] != CELL_HIDDEN;
                VisibleCellState {
                    is_revealed: revealed,
                    is_mine: revealed && world@.mines[cell_index(row as int, col as int)],
                    adjacent_mines: if revealed { adjacent_mines(world@.mines, row as int, col as int) as u32 } else { 0 },
                }
            }),
    {
        if row >= ROWS || col >= COLS {
            return VisibleCellState { is_revealed: false, is_mine: false, adjacent_mines: 0 };
        }
        let is_revealed = world.board.is_revealed(row, col);
        let is_mine = world.mine_layout.has_mine(row, col);
        let adjacent_mines = if is_revealed { world.mine_layout.count_adjacent_mines(row, col) } else { 0 };
        VisibleCellState { is_revealed, is_mine: is_revealed && is_mine, adjacent_mines }
    }

    /// Whether the game has ended.
    pub fn is_finished(world: &ECSWorldState) -> (r: bool)
        ensures
            r == (world.game_state.status != STATUS_PLAYING),
    {
        world.game_state.status != STATUS_PLAYING
    }

    /// The visible board.
    pub fn get_board(world: &ECSWorldState) -> (b: Vec<u32>)
        ensures
            b@ == world.board.cells@,
    {
        let b = world.board.cells.clone();
        assert(b@ =~= world.board.cells@);
        b
    }

    /// A new game.
    pub fn reset_game() -> (w: ECSWorldState)
        ensures
            w@ == (WorldView { cells: Seq::new(81, |i: int| CELL_HIDDEN), mines: layout(), status: STATUS_PLAYING, revealed_count: 0 }),
            w.board.id == 0 && w.mine_layout.id == 1 && w.game_state.id == 2 && w.next_entity_id == 3,
    {
        Self::init_game()
    }

    fn to_game_state(world: &ECSWorldState) -> (g: GameState)
        requires
            world.game_state.revealed_count <= TOTAL_SAFE,
        ensures
            g == (GameState {
                rows: 9, cols: 9, total_mines: 11,
                status: world.game_state.status,
                revealed_count: world.game_state.revealed_count,
                safe_cells_remaining: (TOTAL_SAFE - world.game_state.revealed_count) as u32,
            }),
    {
        let total_safe = ROWS * COLS - MINES;
        let safe_cells_remaining = total_safe - world.game_state.revealed_count;
        GameState {
            rows: ROWS,
            cols: COLS,
            total_mines: MINES,
            status: world.game_state.status,
            revealed_count: world.game_state.revealed_count,
            safe_cells_remaining,
        }
    }
}

/// How many cells show a neighbour count, that is, how many safe cells are
/// revealed.
pub open spec fn shown_safe(cells: Seq<u32>) -> nat
    decreases cells.len(),
{
    if cells.len() == 0 {
        0
    } else {
        shown_safe(cells.drop_last()) + if cells.last() < CELL_HIDDEN { 1nat } else { 0nat }
    }
}

/// The board agrees with the mines and the counters: a revealed mine shows
/// as a mine, a revealed safe cell shows its neighbour count, the counter is
/// the number of revealed safe cells, a shown mine means the game is lost
/// and a loss shows a mine.
pub open spec fn consistent(w: WorldView) -> bool {
    &&& forall|i: int| 0 <= i < 81 ==> {
        ||| #[trigger] w.cells[i] == CELL_HIDDEN
        ||| (w.cells[i] == CELL_MINE && w.mines[i])
        ||| (!w.mines[i] && w.cells[i] == adjacent_mines(w.mines, i / 9, i % 9))
    }
    &&& shown_safe(w.cells) == w.revealed_count
    &&& (exists|i: int| 0 <= i < 81 && #[trigger] w.cells[i] == CELL_MINE) <==> w.status == STATUS_LOST
    &&& w.status == STATUS_WON ==> w.revealed_count == TOTAL_SAFE
    &&& (w.status == STATUS_PLAYING || w.status == STATUS_WON || w.status == STATUS_LOST)
}

/// Changing one cell changes the count by at most that cell.
pub proof fn lemma_shown_safe_update(cells: Seq<u32>, i: int, v: u32)
    requires
        0 <= i < cells.len(),
    ensures
        shown_safe(cells.update(i, v)) + (if cells[i] < CELL_HIDDEN { 1int } else { 0int })
            == shown_safe(cells) + (if v < CELL_HIDDEN { 1int } else { 0int }),
    decreases cells.len(),
{
    if i == cells.len() - 1 {
        assert(cells.update(i, v).drop_last() =~= cells.drop_last());
    } else {
        assert(cells.update(i, v).drop_last() =~= cells.drop_last().update(i, v));
        lemma_shown_safe_update(cells.drop_last(), i, v);
    }
}

/// No cell of a hidden board shows a count.
pub proof fn lemma_hidden_board(n: int)
    requires
        0 <= n <= 81,
    ensures
        shown_safe(Seq::new(81, |i: int| CELL_HIDDEN).take(n)) == 0,
    decreases n,
{
    if n > 0 {
        assert(Seq::new(81, |i: int| CELL_HIDDEN).take(n).drop_last() =~= Seq::new(81, |i: int| CELL_HIDDEN).take(n - 1));
        lemma_hidden_board(n - 1);
    }
}

/// Law: a new game is consistent.
pub proof fn lemma_new_game_consistent()
    ensures
        consistent(WorldView { cells: Seq::new(81, |i: int| CELL_HIDDEN), mines: layout(), status: STATUS_PLAYING, revealed_count: 0 }),
{
    lemma_hidden_board(81);
    assert(Seq::new(81, |i: int| CELL_HIDDEN).take(81) =~= Seq::new(81, |i: int| CELL_HIDDEN));
}

/// Law: every reveal keeps the board consistent with the mines and the
/// counters; in particular a safe cell shows exactly its neighbouring
/// mines, and the game is lost exactly when a mine is shown.
pub proof fn lemma_reveal_keeps_consistent(w: WorldView, row: u32, col: u32)
    requires
        world_wf(w),
        consistent(w),
    ensures
        consistent(after_reveal(w, row, col).0),
        world_wf(after_reveal(w, row, col).0),
{
    let i = cell_index(row as int, col as int);
    let w2 = after_reveal(w, row, col).0;
    if w.status == STATUS_PLAYING && row < ROWS && col < COLS && w.cells[i] == CELL_HIDDEN {
        assert(i / 9 == row && i % 9 == col);
        if w.mines[i] {
            lemma_shown_safe_update(w.cells, i, CELL_MINE);
            assert(w2.cells[i] == CELL_MINE);
        } else {
            let n = adjacent_mines(w.mines, row as int, col as int);
            assert(n <= 8);
            lemma_shown_safe_update(w.cells, i, n as u32);
            assert forall|j: int| 0 <= j < 81 && #[trigger] w2.cells[j] == CELL_MINE implies false by {
                assert(j != i);
                assert(w.cells[j] == CELL_MINE);
            }
        }
    }
}

/// Law: a finished game ignores every reveal.
pub proof fn lemma_finished_is_final(w: WorldView, row: u32, col: u32)
    requires
        w.status != STATUS_PLAYING,
    ensures
        after_reveal(w, row, col).0 == w,
        !after_reveal(w, row, col).1.success,
{
}

/// Law: the game is won exactly when the last safe cell is revealed.
pub proof fn lemma_win_on_last_safe_cell(w: WorldView, row: u32, col: u32)
    requires
        world_wf(w),
        w.status == STATUS_PLAYING,
    ensures
        after_reveal(w, row, col).0.status == STATUS_WON
            <==> (after_reveal(w, row, col).1.message == RevealMessage::Safe && w.revealed_count + 1 == TOTAL_SAFE),
{
}

} // verus!
