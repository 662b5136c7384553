//! Connect Four: a 7x6 board with gravity, four-in-a-row detection, draws and
//! turn order.
use vstd::prelude::*;
use crate::common::{be_bytes_u32, be_u32_at, be_words, bytes_equal, clone_bytes, count_nonzero,
    lemma_be_u32_roundtrip, lemma_be_words, lemma_count_nonzero_update, lemma_count_nonzero_le_len,
    lemma_count_nonzero_zeros, push_be_u32, read_be_u32};

verus! {

/// Board height.
pub const ROWS: u32 = 6;
/// Board width.
pub const COLS: u32 = 7;

/// Cell value: 0 = empty, 1 = player one, 2 = player two.
#[derive(Clone, Copy, Debug, PartialEq, Eq, Structural)]
pub enum Cell {
    Empty,
    Player1,
    Player2,
}

/// The cell at flat index `i`, or 0 past the end.
pub open spec fn flat_or_zero(cells: Seq<u32>, i: int) -> u32 {
    if 0 <= i < cells.len() { cells[i] } else { 0 }
}

/// The cell at (row, col); 0 off the board.
pub open spec fn cell_at(cells: Seq<u32>, row: int, col: int) -> u32 {
    if 0 <= row < ROWS && 0 <= col < COLS { flat_or_zero(cells, row * 7 + col) } else { 0 }
}

/// Four equal cells to the right of (row, col).
pub open spec fn horizontal(cells: Seq<u32>, row: int, col: int, v: u32) -> bool {
    col + 3 < COLS && cell_at(cells, row, col) == v && cell_at(cells, row, col + 1) == v
        && cell_at(cells, row, col + 2) == v && cell_at(cells, row, col + 3) == v
}

/// Four equal cells below (row, col).
pub open spec fn vertical(cells: Seq<u32>, row: int, col: int, v: u32) -> bool {
    row + 3 < ROWS && cell_at(cells, row, col) == v && cell_at(cells, row + 1, col) == v
        && cell_at(cells, row + 2, col) == v && cell_at(cells, row + 3, col) == v
}

/// Four equal cells going down-right from (row, col).
pub open spec fn diagonal_positive(cells: Seq<u32>, row: int, col: int, v: u32) -> bool {
    row + 3 < ROWS && col + 3 < COLS && cell_at(cells, row, col) == v && cell_at(cells, row + 1, col + 1) == v
        && cell_at(cells, row + 2, col + 2) == v && cell_at(cells, row + 3, col + 3) == v
}

/// Four equal cells going up-right from (row, col).
pub open spec fn diagonal_negative(cells: Seq<u32>, row: int, col: int, v: u32) -> bool {
    row >= 3 && col + 3 < COLS && cell_at(cells, row, col) == v && cell_at(cells, row - 1, col + 1) == v
        && cell_at(cells, row - 2, col + 2) == v && cell_at(cells, row - 3, col + 3) == v
}

/// A line of four starts at (row, col).
pub open spec fn wins_at(cells: Seq<u32>, row: int, col: int) -> bool {
    let v = cell_at(cells, row, col);
    v != 0 && (horizontal(cells, row, col, v) || vertical(cells, row, col, v)
        || diagonal_positive(cells, row, col, v) || diagonal_negative(cells, row, col, v))
}

/// Scanning squares `k..42` in row-major order: the value of the first square
/// that starts a line of four.
pub open spec fn first_line_from(cells: Seq<u32>, k: int) -> Option<u32>
    decreases 42 - k,
{
    if k >= 42 || k < 0 {
        None
    } else if wins_at(cells, k / 7, k % 7) {
        Some(cell_at(cells, k / 7, k % 7))
    } else {
        first_line_from(cells, k + 1)
    }
}

/// A found line carries a player's mark.
pub proof fn lemma_first_line_mark(cells: Seq<u32>, k: int)
    requires
        forall|i: int| 0 <= i < cells.len() ==> #[trigger] cells[i] <= 2,
    ensures
        first_line_from(cells, k) matches Some(v) ==> 0 < v <= 2,
    decreases 42 - k,
{
    if 0 <= k < 42 && !wins_at(cells, k / 7, k % 7) {
        lemma_first_line_mark(cells, k + 1);
    }
}

/// The lowest (largest-index) empty row of a column, if any.
pub open spec fn lowest_empty_from(cells: Seq<u32>, col: int, row: int) -> Option<u32>
    decreases row + 1,
{
    if row < 0 {
        None
    } else if flat_or_zero(cells, row * 7 + col) == 0 {
        Some(row as u32)
    } else {
        lowest_empty_from(cells, col, row - 1)
    }
}

/// The lowest empty row of a column, `None` for a full column or a column off
/// the board.
pub open spec fn lowest_empty(cells: Seq<u32>, col: int) -> Option<u32> {
    if col < 0 || col >= COLS { None } else { lowest_empty_from(cells, col, 5) }
}

proof fn lemma_lowest_empty_from(cells: Seq<u32>, col: int, row: int)
    requires
        0 <= col < 7,
        row < 6,
    ensures
        lowest_empty_from(cells, col, row) matches Some(r) ==> (0 <= r <= row
            && flat_or_zero(cells, r * 7 + col) == 0
            && forall|rr: int| r < rr <= row ==> #[trigger] cell_at(cells, rr, col) != 0),
        lowest_empty_from(cells, col, row) is None ==> forall|rr: int| 0 <= rr <= row ==> #[trigger] cell_at(cells, rr, col) != 0,
    decreases row + 1,
{
    if row >= 0 {
        lemma_lowest_empty_from(cells, col, row - 1);
    }
}

/// Board component: the 7x6 board, flattened row-major.
#[derive(Debug)]
pub struct BoardComponent {
    pub cells: Vec<u32>,
    pub entity_id: u32,
}

impl BoardComponent {
    /// An empty board.
    pub fn new(entity_id: u32) -> (b: BoardComponent)
        ensures
            b.cells@ == Seq::new(42, |i: int| 0u32),
            b.entity_id == entity_id,
    {
        let mut cells: Vec<u32> = Vec::new();
        let mut i: u32 = 0;
        while i < ROWS * COLS
            invariant
                0 <= i <= 42,
                cells@ == Seq::new(i as nat, |k: int| 0u32),
            decreases 42 - i,
        {
            cells.push(0u32);
            i += 1;
            assert(cells@ =~= Seq::new(i as nat, |k: int| 0u32));
        }
        BoardComponent { cells, entity_id }
    }

    /// Cell value at (row, col); 0 off the board.
    pub fn get_cell(&self, row: u32, col: u32) -> (r: u32)
        ensures
            r == cell_at(self.cells@, row as int, col as int),
    {
        if row >= ROWS || col >= COLS {
            return 0;
        }
        let index = row * COLS + col;
        if (index as usize) < self.cells.len() { self.cells[index as usize] } else { 0 }
    }

    /// Sets the cell at (row, col); does nothing off the board.
    pub fn set_cell(&mut self, row: u32, col: u32, value: u32)
        requires
            old(self).cells.len() == 42,
        ensures
            final(self).entity_id == old(self).entity_id,
            (row < ROWS && col < COLS) ==> final(self).cells@ == old(self).cells@.update(row * 7 + col, value),
            !(row < ROWS && col < COLS) ==> final(self).cells@ == old(self).cells@,
    {
        if row >= ROWS || col >= COLS {
            return;
        }
        let index = row * COLS + col;
        self.cells.set(index as usize, value);
    }

    /// The lowest empty row of a column (pieces fall down), `None` when the
    /// column is full or off the board.
    pub fn get_lowest_empty_row(&self, col: u32) -> (r: Option<u32>)
        ensures
            r == lowest_empty(self.cells@, col as int),
    {
        if col >= COLS {
            return None;
        }
        let mut row: i32 = 5;
        while row >= 0
            invariant
                -1 <= row <= 5,
                col < 7,
                lowest_empty(self.cells@, col as int) == lowest_empty_from(self.cells@, col as int, row as int),
            decreases row + 1,
        {
            let index = (row as u32) * COLS + col;
            let cell = if (index as usize) < self.cells.len() { self.cells[index as usize] } else { 0 };
            if cell == 0 {
                return Some(row as u32);
            }
            row -= 1;
        }
        None
    }

    /// True when the column has no empty cell (or is off the board).
    pub fn is_column_full(&self, col: u32) -> (r: bool)
        ensures
            r == (lowest_empty(self.cells@, col as int) is None),
    {
        self.get_lowest_empty_row(col).is_none()
    }
}

/// Both players' addresses.
#[derive(Debug)]
pub struct PlayerComponent {
    pub player_one: Vec<u8>,
    pub player_two: Vec<u8>,
    pub entity_id: u32,
}

impl PlayerComponent {
    pub fn new(player_one: Vec<u8>, player_two: Vec<u8>, entity_id: u32) -> (p: PlayerComponent)
        ensures
            p.player_one == player_one,
            p.player_two == player_two,
            p.entity_id == entity_id,
    {
        PlayerComponent { player_one, player_two, entity_id }
    }
}

/// Turn order and result.
#[derive(Debug)]
pub struct GameStateComponent {
    pub is_player_one_turn: bool,
    pub move_count: u32,
    /// 0 = in progress, 1 = player one wins, 2 = player two wins, 3 = draw.
    pub status: u32,
    pub last_move_col: Option<u32>,
    pub entity_id: u32,
}

impl GameStateComponent {
    /// Player one to move, no moves yet, in progress.
    pub fn new(entity_id: u32) -> (g: GameStateComponent)
        ensures
            g.is_player_one_turn,
            g.move_count == 0,
            g.status == 0,
            g.last_move_col is None,
            g.entity_id == entity_id,
    {
        GameStateComponent { is_player_one_turn: true, move_count: 0, status: 0, last_move_col: None, entity_id }
    }
}

/// A board component's bytes: the entity id, the number of cells, then each
/// cell, all as big-endian `u32`s.
pub open spec fn board_bytes(entity_id: u32, cells: Seq<u32>) -> Seq<u8> {
    be_bytes_u32(entity_id) + be_bytes_u32(cells.len() as u32) + be_words(cells)
}

/// What bytes decode to as a board component: nothing when shorter than the
/// eight-byte header; else the id and as many of the announced cells as the
/// bytes hold.
pub open spec fn board_decoded(data: Seq<u8>) -> Option<(u32, Seq<u32>)> {
    if data.len() < 8 {
        None
    } else {
        let announced = be_u32_at(data, 4) as int;
        let held = (data.len() - 8) / 4;
        let n = if announced < held { announced } else { held };
        Some((be_u32_at(data, 0), Seq::new(n as nat, |i: int| be_u32_at(data, 8 + 4 * i))))
    }
}

/// A game-state component's bytes: the entity id, a turn byte (1 for
/// player one), the move count, the status, then 1 and the column of the
/// last move, or 0 when there was none.
pub open spec fn game_state_bytes(g: GameStateComponent) -> Seq<u8> {
    be_bytes_u32(g.entity_id) + seq![if g.is_player_one_turn { 1u8 } else { 0u8 }]
        + be_bytes_u32(g.move_count) + be_bytes_u32(g.status)
        + match g.last_move_col {
            Some(c) => seq![1u8] + be_bytes_u32(c),
            None => seq![0u8],
        }
}

/// What bytes decode to as a game-state component: nothing under 14 bytes;
/// a last move is read when flagged and its four bytes are there.
pub open spec fn game_state_decoded(data: Seq<u8>) -> Option<GameStateComponent> {
    if data.len() < 14 {
        None
    } else {
        Some(GameStateComponent {
            is_player_one_turn: data[4] != 0,
            move_count: be_u32_at(data, 5),
            status: be_u32_at(data, 9),
            last_move_col: if data[13] != 0 && data.len() >= 18 { Some(be_u32_at(data, 14)) } else { None },
            entity_id: be_u32_at(data, 0),
        })
    }
}

impl BoardComponent {
    /// The component's bytes.
    pub fn serialize(&self) -> (r: Vec<u8>)
        requires
            self.cells.len() <= u32::MAX,
        ensures
            r@ == board_bytes(self.entity_id, self.cells@),
    {
        let mut out: Vec<u8> = Vec::new();
        push_be_u32(&mut out, self.entity_id);
        push_be_u32(&mut out, self.cells.len() as u32);
        let mut i: usize = 0;
        while i < self.cells.len()
            invariant
                0 <= i <= self.cells.len(),
                self.cells.len() <= u32::MAX,
                out@ == be_bytes_u32(self.entity_id) + be_bytes_u32(self.cells.len() as u32) + be_words(self.cells@.take(i as int)),
            decreases self.cells.len() - i,
        {
            push_be_u32(&mut out, self.cells[i]);
            assert(self.cells@.take(i + 1).drop_last() =~= self.cells@.take(i as int));
            i += 1;
        }
        assert(self.cells@.take(self.cells.len() as int) =~= self.cells@);
        out
    }

    /// The component held by `data`, read as `serialize` writes it.
    pub fn deserialize(data: &Vec<u8>) -> (r: Option<BoardComponent>)
        ensures
            match r {
                Some(b) => board_decoded(data@) == Some((b.entity_id, b.cells@)),
                None => board_decoded(data@) is None,
            },
    {
        if data.len() < 8 {
            return None;
        }
        let entity_id = read_be_u32(data, 0);
        let announced = read_be_u32(data, 4) as usize;
        let held = (data.len() - 8) / 4;
        let n = if announced < held { announced } else { held };
        let mut cells: Vec<u32> = Vec::new();
        let mut i: usize = 0;
        while i < n
            invariant
                0 <= i <= n,
                n <= (data.len() - 8) / 4,
                data.len() >= 8,
                cells@ == Seq::new(i as nat, |k: int| be_u32_at(data@, 8 + 4 * k)),
            decreases n - i,
        {
            cells.push(read_be_u32(data, 8 + 4 * i));
            i += 1;
            assert(cells@ =~= Seq::new(i as nat, |k: int| be_u32_at(data@, 8 + 4 * k)));
        }
        Some(BoardComponent { cells, entity_id })
    }
}

impl GameStateComponent {
    /// The component's bytes.
    pub fn serialize(&self) -> (r: Vec<u8>)
        ensures
            r@ == game_state_bytes(*self),
    {
        let mut out: Vec<u8> = Vec::new();
        push_be_u32(&mut out, self.entity_id);
        out.push(if self.is_player_one_turn { 1u8 } else { 0u8 });
        push_be_u32(&mut out, self.move_count);
        push_be_u32(&mut out, self.status);
        match self.last_move_col {
            Some(col) => {
                out.push(1u8);
                push_be_u32(&mut out, col);
            },
            None => {
                out.push(0u8);
            },
        }
        assert(out@ =~= game_state_bytes(*self));
        out
    }

    /// The component held by `data`, read as `serialize` writes it.
    pub fn deserialize(data: &Vec<u8>) -> (r: Option<GameStateComponent>)
        ensures
            r == game_state_decoded(data@),
    {
        if data.len() < 14 {
            return None;
        }
        let entity_id = read_be_u32(data, 0);
        let is_player_one_turn = data[4] != 0;
        let move_count = read_be_u32(data, 5);
        let status = read_be_u32(data, 9);
        let last_move_col = if data[13] != 0 && data.len() >= 18 { Some(read_be_u32(data, 14)) } else { None };
        Some(GameStateComponent { is_player_one_turn, move_count, status, last_move_col, entity_id })
    }
}

/// Law: a board component reads back from its own bytes.
pub proof fn lemma_board_bytes_roundtrip(entity_id: u32, cells: Seq<u32>)
    requires
        cells.len() <= u32::MAX,
    ensures
        board_decoded(board_bytes(entity_id, cells)) == Some((entity_id, cells)),
{
    let words = be_words(cells);
    let data = board_bytes(entity_id, cells);
    lemma_be_words(cells);
    lemma_be_u32_roundtrip(Seq::empty(), entity_id, be_bytes_u32(cells.len() as u32) + words);
    assert(Seq::<u8>::empty() + be_bytes_u32(entity_id) + (be_bytes_u32(cells.len() as u32) + words) =~= data);
    lemma_be_u32_roundtrip(be_bytes_u32(entity_id), cells.len() as u32, words);
    assert(be_bytes_u32(entity_id) + be_bytes_u32(cells.len() as u32) + words =~= data);
    assert forall|i: int| 0 <= i < cells.len() implies #[trigger] be_u32_at(data, 8 + 4 * i) == cells[i] by {
        assert(be_u32_at(words, 4 * i) == cells[i]);
        assert(data[8 + 4 * i] == words[4 * i]);
        assert(data[8 + 4 * i + 1] == words[4 * i + 1]);
        assert(data[8 + 4 * i + 2] == words[4 * i + 2]);
        assert(data[8 + 4 * i + 3] == words[4 * i + 3]);
    }
    assert(Seq::new(cells.len(), |i: int| be_u32_at(data, 8 + 4 * i)) =~= cells);
}

/// Law: a game-state component reads back from its own bytes.
pub proof fn lemma_game_state_bytes_roundtrip(g: GameStateComponent)
    ensures
        game_state_decoded(game_state_bytes(g)) == Some(g),
{
    let turn = seq![if g.is_player_one_turn { 1u8 } else { 0u8 }];
    let tail = match g.last_move_col {
        Some(c) => seq![1u8] + be_bytes_u32(c),
        None => seq![0u8],
    };
    let data = game_state_bytes(g);
    let a = be_bytes_u32(g.entity_id);
    let b = be_bytes_u32(g.move_count);
    let c = be_bytes_u32(g.status);
    assert(data =~= Seq::<u8>::empty() + a + (turn + b + c + tail));
    lemma_be_u32_roundtrip(Seq::empty(), g.entity_id, turn + b + c + tail);
    assert(data =~= (a + turn) + b + (c + tail));
    lemma_be_u32_roundtrip(a + turn, g.move_count, c + tail);
    assert(data =~= (a + turn + b) + c + tail);
    lemma_be_u32_roundtrip(a + turn + b, g.status, tail);
    match g.last_move_col {
        Some(col) => {
            assert(data =~= (a + turn + b + c + seq![1u8]) + be_bytes_u32(col) + Seq::empty());
            lemma_be_u32_roundtrip(a + turn + b + c + seq![1u8], col, Seq::empty());
        },
        None => {},
    }
}

/// Everything the contract keeps.
#[derive(Debug)]
pub struct ECSWorldState {
    pub board: BoardComponent,
    pub players: PlayerComponent,
    pub game_state: GameStateComponent,
    pub next_entity_id: u32,
}

impl ECSWorldState {
    /// The board has 42 cells holding only 0, 1 or 2, the move count is the
    /// number of pieces on it, and the status is one of the four values.
    pub open spec fn wf(&self) -> bool {
        &&& self.board.cells.len() == 42
        &&& forall|i: int| 0 <= i < 42 ==> #[trigger] self.board.cells@[i] <= 2
        &&& self.game_state.move_count == count_nonzero(self.board.cells@)
        &&& self.game_state.status <= 3
    }
}

/// The public view of a game.
#[derive(Debug)]
pub struct GameState {
    pub board: Vec<u32>,
    pub rows: u32,
    pub cols: u32,
    pub player_one: Vec<u8>,
    pub player_two: Vec<u8>,
    pub is_player_one_turn: bool,
    pub move_count: u32,
    pub status: u32,
    pub last_move_col: Option<u32>,
}

/// Why a drop was refused, or `Ok`.
#[derive(Clone, Copy, Debug, PartialEq, Eq, Structural)]
pub enum DropMessage {
    Accepted,
    GameOver,
    Invalid,
    NotPlayer,
    NotTurn,
    Full,
}

/// Outcome of a drop.
#[derive(Debug)]
pub struct DropResult {
    pub success: bool,
    pub game_state: GameState,
    pub message: DropMessage,
    pub row_placed: Option<u32>,
}

/// The refusal reason for a drop, `Ok` when the drop is legal.
pub open spec fn drop_verdict(world: ECSWorldState, player: Seq<u8>, column: u32) -> DropMessage {
    let is_one = player == world.players.player_one@;
    let is_two = player == world.players.player_two@;
    if world.game_state.status != 0 {
        DropMessage::GameOver
    } else if column >= COLS {
        DropMessage::Invalid
    } else if !is_one && !is_two {
        DropMessage::NotPlayer
    } else if world.game_state.is_player_one_turn && !is_one {
        DropMessage::NotTurn
    } else if !world.game_state.is_player_one_turn && !is_two {
        DropMessage::NotTurn
    } else if lowest_empty(world.board.cells@, column as int) is None {
        DropMessage::Full
    } else {
        DropMessage::Accepted
    }
}

/// The public view matches the stored world.
pub open spec fn view_of(world: ECSWorldState, g: GameState) -> bool {
    &&& g.board@ == Seq::new(42, |i: int| flat_or_zero(world.board.cells@, i))
    &&& g.rows == ROWS && g.cols == COLS
    &&& g.player_one@ == world.players.player_one@
    &&& g.player_two@ == world.players.player_two@
    &&& g.is_player_one_turn == world.game_state.is_player_one_turn
    &&& g.move_count == world.game_state.move_count
    &&& g.status == world.game_state.status
    &&& g.last_move_col == world.game_state.last_move_col
}

/// Validation: game in progress, column on the board, caller registered and
/// on turn, column not full.
pub fn validation_system(world: &ECSWorldState, player: &Vec<u8>, column: u32) -> (r: (bool, DropMessage))
    ensures
        r.1 == drop_verdict(*world, player@, column),
        r.0 == (r.1 is Accepted),
{
    if world.game_state.status != 0 {
        return (false, DropMessage::GameOver);
    }
    if column >= COLS {
        return (false, DropMessage::Invalid);
    }
    let is_player_one = bytes_equal(player, &world.players.player_one);
    let is_player_two = bytes_equal(player, &world.players.player_two);
    if !is_player_one && !is_player_two {
        return (false, DropMessage::NotPlayer);
    }
    if world.game_state.is_player_one_turn && !is_player_one {
        return (false, DropMessage::NotTurn);
    }
    if !world.game_state.is_player_one_turn && !is_player_two {
        return (false, DropMessage::NotTurn);
    }
    if world.board.is_column_full(column) {
        return (false, DropMessage::Full);
    }
    (true, DropMessage::Accepted)
}

/// Gravity: the row a piece dropped in `column` comes to rest on.
pub fn gravity_system(world: &ECSWorldState, column: u32) -> (row: u32)
    requires
        lowest_empty(world.board.cells@, column as int) is Some,
    ensures
        lowest_empty(world.board.cells@, column as int) == Some(row),
{
    match world.board.get_lowest_empty_row(column) {
        Some(r) => r,
        None => 0,
    }
}

/// Places the mover's piece at (row, column) and records the move.
pub fn execution_system(world: &mut ECSWorldState, row: u32, column: u32)
    requires
        old(world).board.cells.len() == 42,
        old(world).game_state.move_count < u32::MAX,
    ensures
        final(world).players == old(world).players,
        final(world).next_entity_id == old(world).next_entity_id,
        final(world).board.entity_id == old(world).board.entity_id,
        (row < ROWS && column < COLS) ==> final(world).board.cells@ == old(world).board.cells@.update(
            row * 7 + column, if old(world).game_state.is_player_one_turn { 1u32 } else { 2u32 }),
        !(row < ROWS && column < COLS) ==> final(world).board.cells@ == old(world).board.cells@,
        final(world).game_state.move_count == old(world).game_state.move_count + 1,
        final(world).game_state.last_move_col == Some(column),
        final(world).game_state.is_player_one_turn == old(world).game_state.is_player_one_turn,
        final(world).game_state.status == old(world).game_state.status,
        final(world).game_state.entity_id == old(world).game_state.entity_id,
{
    let cell_value = if world.game_state.is_player_one_turn { 1u32 } else { 2u32 };
    world.board.set_cell(row, column, cell_value);
    world.game_state.move_count += 1;
    world.game_state.last_move_col = Some(column);
}

fn check_horizontal(board: &BoardComponent, row: u32, col: u32, cell: u32) -> (r: bool)
    requires
        row < ROWS, col < COLS,
    ensures
        r == horizontal(board.cells@, row as int, col as int, cell),
{
    if col + 3 >= COLS {
        return false;
    }
    board.get_cell(row, col) == cell && board.get_cell(row, col + 1) == cell
        && board.get_cell(row, col + 2) == cell && board.get_cell(row, col + 3) == cell
}

fn check_vertical(board: &BoardComponent, row: u32, col: u32, cell: u32) -> (r: bool)
    requires
        row < ROWS, col < COLS,
    ensures
        r == vertical(board.cells@, row as int, col as int, cell),
{
    if row + 3 >= ROWS {
        return false;
    }
    board.get_cell(row, col) == cell && board.get_cell(row + 1, col) == cell
        && board.get_cell(row + 2, col) == cell && board.get_cell(row + 3, col) == cell
}

fn check_diagonal_positive(board: &BoardComponent, row: u32, col: u32, cell: u32) -> (r: bool)
    requires
        row < ROWS, col < COLS,
    ensures
        r == diagonal_positive(board.cells@, row as int, col as int, cell),
{
    if row + 3 >= ROWS || col + 3 >= COLS {
        return false;
    }
    board.get_cell(row, col) == cell && board.get_cell(row + 1, col + 1) == cell
        && board.get_cell(row + 2, col + 2) == cell && board.get_cell(row + 3, col + 3) == cell
}

fn check_diagonal_negative(board: &BoardComponent, row: u32, col: u32, cell: u32) -> (r: bool)
    requires
        row < ROWS, col < COLS,
    ensures
        r == diagonal_negative(board.cells@, row as int, col as int, cell),
{
    if row < 3 || col + 3 >= COLS {
        return false;
    }
    board.get_cell(row, col) == cell && board.get_cell(row - 1, col + 1) == cell
        && board.get_cell(row - 2, col + 2) == cell && board.get_cell(row - 3, col + 3) == cell
}

/// Win detection: scans squares in row-major order and, at the first one that
/// starts four in a row, sets the status to that square's value.
pub fn win_detection_system(world: &mut ECSWorldState)
    ensures
        final(world).board == old(world).board,
        final(world).players == old(world).players,
        final(world).next_entity_id == old(world).next_entity_id,
        final(world).game_state.move_count == old(world).game_state.move_count,
        final(world).game_state.is_player_one_turn == old(world).game_state.is_player_one_turn,
        final(world).game_state.last_move_col == old(world).game_state.last_move_col,
        final(world).game_state.entity_id == old(world).game_state.entity_id,
        match first_line_from(old(world).board.cells@, 0) {
            Some(v) => final(world).game_state.status == v,
            None => final(world).game_state.status == old(world).game_state.status,
        },
{
    let mut k: u32 = 0;
    while k < ROWS * COLS
        invariant
            0 <= k <= 42,
            *world == *old(world),
            first_line_from(world.board.cells@, 0) == first_line_from(world.board.cells@, k as int),
        decreases 42 - k,
    {
        let row = k / COLS;
        let col = k % COLS;
        let cell = world.board.get_cell(row, col);
        if cell != 0 {
            let found = check_horizontal(&world.board, row, col, cell)
                || check_vertical(&world.board, row, col, cell)
                || check_diagonal_positive(&world.board, row, col, cell)
                || check_diagonal_negative(&world.board, row, col, cell);
            if found {
                world.game_state.status = cell;
                return;
            }
        }
        k += 1;
    }
}

/// Draw detection: a full board with no winner is a draw.
pub fn draw_system(world: &mut ECSWorldState)
    ensures
        final(world).board == old(world).board,
        final(world).players == old(world).players,
        final(world).next_entity_id == old(world).next_entity_id,
        final(world).game_state.move_count == old(world).game_state.move_count,
        final(world).game_state.is_player_one_turn == old(world).game_state.is_player_one_turn,
        final(world).game_state.last_move_col == old(world).game_state.last_move_col,
        final(world).game_state.entity_id == old(world).game_state.entity_id,
        final(world).game_state.status == (if old(world).game_state.move_count >= 42
            && old(world).game_state.status == 0 { 3 } else { old(world).game_state.status }),
{
    if world.game_state.move_count >= ROWS * COLS && world.game_state.status == 0 {
        world.game_state.status = 3;
    }
}

/// Turn passing: the other player moves next while the game is in progress.
pub fn turn_system(world: &mut ECSWorldState)
    ensures
        final(world).board == old(world).board,
        final(world).players == old(world).players,
        final(world).next_entity_id == old(world).next_entity_id,
        final(world).game_state.move_count == old(world).game_state.move_count,
        final(world).game_state.status == old(world).game_state.status,
        final(world).game_state.last_move_col == old(world).game_state.last_move_col,
        final(world).game_state.entity_id == old(world).game_state.entity_id,
        final(world).game_state.is_player_one_turn == (if old(world).game_state.status == 0 {
            !old(world).game_state.is_player_one_turn } else { old(world).game_state.is_player_one_turn }),
{
    if world.game_state.status == 0 {
        world.game_state.is_player_one_turn = !world.game_state.is_player_one_turn;
    }
}

/// The Connect Four contract's operations over its stored world.
#[derive(Debug)]
pub struct ConnectFourContract;

impl ConnectFourContract {
    /// A new game: empty board, player one to move; entities 0, 1, 2 used.
    pub fn init_game(player_one: Vec<u8>, player_two: Vec<u8>) -> (w: ECSWorldState)
        ensures
            w.wf(),
            w.board.cells@ == Seq::new(42, |i: int| 0u32),
            w.board.entity_id == 0,
            w.players.player_one == player_one,
            w.players.player_two == player_two,
            w.players.entity_id == 1,
            w.game_state.is_player_one_turn,
            w.game_state.move_count == 0,
            w.game_state.status == 0,
            w.game_state.last_move_col is None,
            w.game_state.entity_id == 2,
            w.next_entity_id == 3,
    {
        let board = BoardComponent::new(0);
        let players = PlayerComponent::new(player_one, player_two, 1);
        let game_state = GameStateComponent::new(2);
        proof {
            lemma_count_nonzero_zeros(42);
        }
        ECSWorldState { board, players, game_state, next_entity_id: 3 }
    }

    /// The public view of the stored world.
    pub fn to_game_state(world: &ECSWorldState) -> (g: GameState)
        ensures
            view_of(*world, g),
    {
        let mut board: Vec<u32> = Vec::new();
        let mut i: u32 = 0;
        while i < ROWS * COLS
            invariant
                0 <= i <= 42,
                board@ == Seq::new(i as nat, |k: int| flat_or_zero(world.board.cells@, k)),
            decreases 42 - i,
        {
            let v = if (i as usize) < world.board.cells.len() { world.board.cells[i as usize] } else { 0 };
            board.push(v);
            i += 1;
            assert(board@ =~= Seq::new(i as nat, |k: int| flat_or_zero(world.board.cells@, k)));
        }
        GameState {
            board,
            rows: ROWS,
            cols: COLS,
            player_one: clone_bytes(&world.players.player_one),
            player_two: clone_bytes(&world.players.player_two),
            is_player_one_turn: world.game_state.is_player_one_turn,
            move_count: world.game_state.move_count,
            status: world.game_state.status,
            last_move_col: world.game_state.last_move_col,
        }
    }

    /// Drops the caller's piece in `column`. A refused drop leaves the world
    /// unchanged and says why; a legal one places the piece on the lowest empty
    /// row, then settles win, draw and turn.
    pub fn drop_piece(world: &mut ECSWorldState, player: &Vec<u8>, column: u32) -> (r: DropResult)
        requires
            old(world).wf(),
        ensures
            final(world).wf(),
            r.message == drop_verdict(*old(world), player@, column),
            r.success == (r.message is Accepted),
            view_of(*final(world), r.game_state),
            !r.success ==> *final(world) == *old(world) && r.row_placed is None,
            r.success ==> ({
                let row = lowest_empty(old(world).board.cells@, column as int)->0;
                let mark = if old(world).game_state.is_player_one_turn { 1u32 } else { 2u32 };
                let cells = old(world).board.cells@.update(row * 7 + column, mark);
                let won = first_line_from(cells, 0);
                let status = match won { Some(v) => v, None => if old(world).game_state.move_count + 1 >= 42 { 3 } else { 0 } };
                &&& r.row_placed == Some(row)
                &&& final(world).board.cells@ == cells
                &&& final(world).board.entity_id == old(world).board.entity_id
                &&& final(world).players == old(world).players
                &&& final(world).next_entity_id == old(world).next_entity_id
                &&& final(world).game_state.move_count == old(world).game_state.move_count + 1
                &&& final(world).game_state.last_move_col == Some(column)
                &&& final(world).game_state.status == status
                &&& final(world).game_state.is_player_one_turn == (if status == 0 {
                        !old(world).game_state.is_player_one_turn } else { old(world).game_state.is_player_one_turn })
                &&& final(world).game_state.entity_id == old(world).game_state.entity_id
            }),
    {
        let validation = validation_system(world, player, column);
        if !validation.0 {
            let game_state = Self::to_game_state(world);
            return DropResult { success: false, game_state, message: validation.1, row_placed: None };
        }
        let row_placed = gravity_system(world, column);
        let ghost before = world.board.cells@;
        let ghost mark = if world.game_state.is_player_one_turn { 1u32 } else { 2u32 };
        proof {
            lemma_lowest_empty_from(before, column as int, 5);
            lemma_count_nonzero_le_len(before);
            lemma_count_nonzero_update(before, row_placed * 7 + column, mark);
            lemma_count_nonzero_le_len(before.update(row_placed * 7 + column, mark));
        }
        execution_system(world, row_placed, column);
        assert(world.board.cells@ == before.update(row_placed * 7 + column, mark));
        assert(forall|i: int| 0 <= i < 42 ==> #[trigger] world.board.cells@[i] <= 2);
        proof {
            lemma_first_line_mark(world.board.cells@, 0);
        }
        win_detection_system(world);
        draw_system(world);
        turn_system(world);
        let game_state = Self::to_game_state(world);
        DropResult { success: true, game_state, message: DropMessage::Accepted, row_placed: Some(row_placed) }
    }

    /// The public view.
    pub fn get_state(world: &ECSWorldState) -> (g: GameState)
        ensures
            view_of(*world, g),
    {
        Self::to_game_state(world)
    }

    /// The stored board cells.
    pub fn get_board(world: &ECSWorldState) -> (b: Vec<u32>)
        ensures
            b@ == world.board.cells@,
    {
        let mut b: Vec<u32> = Vec::new();
        let mut i: usize = 0;
        while i < world.board.cells.len()
            invariant
                0 <= i <= world.board.cells.len(),
                b@ == world.board.cells@.subrange(0, i as int),
            decreases world.board.cells.len() - i,
        {
            b.push(world.board.cells[i]);
            i += 1;
            assert(b@ =~= world.board.cells@.subrange(0, i as int));
        }
        assert(b@ =~= world.board.cells@);
        b
    }

    /// A column can take a piece: on the board, game in progress, not full.
    /// An off-board column is refused before the world is read.
    pub fn is_valid_column(world: &Option<ECSWorldState>, column: u32) -> (r: bool)
        requires
            column >= COLS || world is Some,
        ensures
            r == (column < COLS && world->0.game_state.status == 0
                && lowest_empty(world->0.board.cells@, column as int) is Some),
    {
        if column >= COLS {
            return false;
        }
        match world {
            Some(w) => {
                if w.game_state.status != 0 {
                    return false;
                }
                !w.board.is_column_full(column)
            },
            None => false,
        }
    }

    /// The game has ended (win or draw).
    pub fn is_finished(world: &ECSWorldState) -> (r: bool)
        ensures
            r == (world.game_state.status != 0),
    {
        world.game_state.status != 0
    }

    /// The winner's address, if a player has won.
    pub fn get_winner(world: &ECSWorldState) -> (r: Option<Vec<u8>>)
        ensures
            world.game_state.status == 1 ==> (r matches Some(a) && a@ == world.players.player_one@),
            world.game_state.status == 2 ==> (r matches Some(a) && a@ == world.players.player_two@),
            world.game_state.status != 1 && world.game_state.status != 2 ==> r is None,
    {
        if world.game_state.status == 1 {
            Some(clone_bytes(&world.players.player_one))
        } else if world.game_state.status == 2 {
            Some(clone_bytes(&world.players.player_two))
        } else {
            None
        }
    }

    /// A fresh game between the same players.
    pub fn reset_game(world: &ECSWorldState) -> (w: ECSWorldState)
        ensures
            w.wf(),
            w.board.cells@ == Seq::new(42, |i: int| 0u32),
            w.players.player_one@ == world.players.player_one@,
            w.players.player_two@ == world.players.player_two@,
            w.game_state.is_player_one_turn,
            w.game_state.move_count == 0,
            w.game_state.status == 0,
            w.game_state.last_move_col is None,
            w.next_entity_id == 3,
    {
        Self::init_game(clone_bytes(&world.players.player_one), clone_bytes(&world.players.player_two))
    }
}

/// Law: in a well-formed world the move count never exceeds the board size,
/// so a game always ends by the 42nd piece.
pub proof fn lemma_move_count_bounded(world: ECSWorldState)
    requires
        world.wf(),
    ensures
        world.game_state.move_count <= 42,
{
    lemma_count_nonzero_le_len(world.board.cells@);
}

} // verus!
