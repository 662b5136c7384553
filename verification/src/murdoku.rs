//! Murdoku: a registry of N x N deduction puzzles (N is 4 or 5) whose
//! solutions are Latin squares of suspect numbers 1..=N, with pre-filled
//! clue cells; players place suspects on their own copy of a puzzle's grid.
use vstd::prelude::*;
use crate::common::{bytes_equal, clone_bytes};

verus! {

/// Ledgers a session key may stay valid: about a day.
pub const MAX_LEDGER_OFFSET: u32 = 17280;

/// Why a request was refused.
#[derive(Clone, Copy, Debug, PartialEq, Eq, Structural)]
pub enum PuzzleError {
    InvalidGridSize,
    InvalidSuspects,
    InvalidSolution,
    InvalidClues,
    PuzzleNotFound,
    Unauthorized,
}

/// The answer to a placement.
#[derive(Clone, Copy, Debug, PartialEq, Eq, Structural)]
pub enum MoveResult {
    Success,
    RowConflict,
    ColConflict,
    CellOccupied,
    GameAlreadySolved,
    InvalidCoordinates,
}

/// The kinds of clue a puzzle can state.
#[derive(Clone, Copy, Debug, PartialEq, Eq, Structural)]
pub enum ClueType {
    MustBeInCell,
    CannotBeInCell,
    MustBeInRow,
    MustBeInCol,
    MustBeAdjacentTo,
    CannotBeAdjacentTo,
}

/// A pre-filled cell: suspect `suspect_idx` stands at (row, col).
#[derive(Clone, Copy, Debug, PartialEq, Eq, Structural)]
pub struct Clue {
    pub row: u32,
    pub col: u32,
    pub suspect_idx: u32,
}

/// A puzzle's name and difficulty, as text bytes.
#[derive(Debug)]
pub struct PuzzleMetadata {
    pub name: Vec<u8>,
    pub difficulty: Vec<u8>,
}

impl PuzzleMetadata {
    pub fn copy(&self) -> (m: PuzzleMetadata)
        ensures
            m.name@ == self.name@,
            m.difficulty@ == self.difficulty@,
    {
        PuzzleMetadata { name: clone_bytes(&self.name), difficulty: clone_bytes(&self.difficulty) }
    }
}

/// The grid's side length.
#[derive(Clone, Copy, Debug, PartialEq, Eq, Structural)]
pub struct GridSize {
    pub size: u32,
}

/// The puzzle's suspect names, as text bytes.
#[derive(Debug)]
pub struct Suspects {
    pub list: Vec<Vec<u8>>,
}

/// The puzzle's pre-filled cells.
#[derive(Debug)]
pub struct Clues {
    pub list: Vec<Clue>,
}

/// The puzzle's solution, row-major.
#[derive(Debug)]
pub struct Solution {
    pub grid: Vec<u32>,
}

/// The puzzle's name and difficulty.
#[derive(Debug)]
pub struct Metadata {
    pub meta: PuzzleMetadata,
}

/// A player's grid: 0 for an empty cell, else a suspect number.
#[derive(Debug)]
pub struct Board {
    pub grid: Vec<u32>,
}

/// Whether the player has solved the puzzle.
#[derive(Clone, Copy, Debug, PartialEq, Eq, Structural)]
pub struct GameStatus {
    pub solved: bool,
}

/// The number of placements made.
#[derive(Clone, Copy, Debug, PartialEq, Eq, Structural)]
pub struct MoveCount {
    pub count: u32,
}

/// A player's game on one puzzle.
#[derive(Debug)]
pub struct PlayerWorld {
    pub board: Board,
    pub status: GameStatus,
    pub moves: MoveCount,
}

/// A player's progress as reported.
#[derive(Debug)]
pub struct PlayerState {
    pub puzzle_id: u32,
    pub grid: Vec<u32>,
    pub solved: bool,
    pub moves: u32,
    pub total_solvers: u32,
}

/// A stored puzzle with its plaintext solution (row-major).
#[derive(Debug)]
pub struct Puzzle {
    pub id: u32,
    pub creator: Vec<u8>,
    pub grid_size: u32,
    pub suspects: Vec<Vec<u8>>,
    pub clues: Vec<Clue>,
    pub solution: Vec<u32>,
    pub metadata: PuzzleMetadata,
    pub active: bool,
}

/// A puzzle without its solution.
#[derive(Debug)]
pub struct PuzzleSummary {
    pub id: u32,
    pub creator: Vec<u8>,
    pub grid_size: u32,
    pub metadata: PuzzleMetadata,
    pub active: bool,
}

/// The stored puzzles: puzzle `k` is entry `k - 1`; the count is the
/// number of entries. A puzzle's creator owns it.
#[derive(Debug)]
pub struct PuzzleRegistry {
    pub puzzles: Vec<Puzzle>,
}

impl PuzzleRegistry {
    /// Ids run from 1 in order.
    pub open spec fn wf(&self) -> bool {
        &&& self.puzzles.len() <= u32::MAX
        &&& forall|k: int| 0 <= k < self.puzzles.len() ==> (#[trigger] self.puzzles@[k]).id == k + 1
            && (self.puzzles@[k].grid_size == 4 || self.puzzles@[k].grid_size == 5)
            && valid_entry(self.puzzles@[k])
    }
}

/// A stored puzzle passes every rule of a puzzle definition.
pub open spec fn valid_entry(p: Puzzle) -> bool {
    puzzle_error(p.grid_size, texts(p.suspects@), p.clues@, p.solution@) is None
}

/// The value at position `k` of the line that starts at `start` and steps
/// by `step`.
pub open spec fn line_at(sol: Seq<u32>, start: int, step: int, k: int) -> u32 {
    sol[line_pos(start, step, k)]
}

/// Position `k` of the line that starts at `start` and steps by `step`.
pub open spec fn line_pos(start: int, step: int, k: int) -> int {
    start + k * step
}

/// A line holds each of 1..=n once: all values in range, none repeated.
pub open spec fn line_ok(sol: Seq<u32>, n: u32, start: int, step: int) -> bool {
    &&& forall|k: int| 0 <= k < n ==> 1 <= #[trigger] line_at(sol, start, step, k) <= n
    &&& forall|k1: int, k2: int| 0 <= k1 < k2 < n ==> #[trigger] line_at(sol, start, step, k1) != #[trigger] line_at(sol, start, step, k2)
}

/// Every row and every column holds each suspect number once.
pub open spec fn latin_square(sol: Seq<u32>, n: u32) -> bool {
    &&& forall|r: int| 0 <= r < n ==> #[trigger] line_ok(sol, n, r * n, 1)
    &&& forall|c: int| 0 <= c < n ==> #[trigger] line_ok(sol, n, c, n as int)
}

/// A clue lies on the grid, names a suspect and agrees with the solution.
pub open spec fn clue_ok(cl: Clue, n: u32, sol: Seq<u32>) -> bool {
    &&& cl.row < n && cl.col < n
    &&& 1 <= cl.suspect_idx <= n
    &&& cl.suspect_idx == sol[cl.row * n + cl.col]
}

/// The texts held by a list of byte strings.
pub open spec fn texts(v: Seq<Vec<u8>>) -> Seq<Seq<u8>> {
    v.map_values(|s: Vec<u8>| s@)
}

/// The first rule a puzzle definition breaks, if any.
pub open spec fn puzzle_error(n: u32, suspects: Seq<Seq<u8>>, clues: Seq<Clue>, sol: Seq<u32>) -> Option<PuzzleError> {
    if n != 4 && n != 5 {
        Some(PuzzleError::InvalidGridSize)
    } else if suspects.len() != n || exists|i: int| 0 <= i < n && #[trigger] suspects[i].len() == 0 {
        Some(PuzzleError::InvalidSuspects)
    } else if sol.len() != n * n || !latin_square(sol, n) {
        Some(PuzzleError::InvalidSolution)
    } else if clues.len() == 0 || exists|i: int| 0 <= i < clues.len() && !clue_ok(#[trigger] clues[i], n, sol) {
        Some(PuzzleError::InvalidClues)
    } else {
        None
    }
}

/// Positions of a line on an n x n grid stay inside it.
proof fn lemma_line_in_grid(n: u32, a: int, k: int)
    requires
        0 <= a < n,
        0 <= k < n,
    ensures
        0 <= a * n + k < n * n,
        0 <= a + k * n < n * n,
        (k + 1) * n == k * n + n,
{
    assert(0 <= a * n + k < n * n) by (nonlinear_arith)
        requires 0 <= a < n, 0 <= k < n;
    assert(0 <= a + k * n < n * n) by (nonlinear_arith)
        requires 0 <= a < n, 0 <= k < n;
    assert((k + 1) * n == k * n + n) by (nonlinear_arith);
}

/// Whether the line holds each of 1..=n once.
fn check_line(sol: &Vec<u32>, n: u32, start: usize, step: usize) -> (r: bool)
    requires
        1 <= n <= 5,
        1 <= step <= 5,
        forall|k: int| 0 <= k < n ==> 0 <= #[trigger] line_pos(start as int, step as int, k) < sol.len(),
        start + n * step <= usize::MAX,
    ensures
        r == line_ok(sol@, n, start as int, step as int),
{
    let mut seen: Vec<u32> = Vec::new();
    let mut k: u32 = 0;
    let mut idx: usize = start;
    while k < n
        invariant
            1 <= n <= 5,
            1 <= step <= 5,
            forall|j: int| 0 <= j < n ==> 0 <= #[trigger] line_pos(start as int, step as int, j) < sol.len(),
            start + n * step <= usize::MAX,
            0 <= k <= n,
            idx == start + k * step,
            seen@ == Seq::new(k as nat, |j: int| line_at(sol@, start as int, step as int, j)),
            forall|j: int| 0 <= j < k ==> 1 <= #[trigger] line_at(sol@, start as int, step as int, j) <= n,
            forall|j1: int, j2: int| 0 <= j1 < j2 < k ==> #[trigger] line_at(sol@, start as int, step as int, j1)
                != #[trigger] line_at(sol@, start as int, step as int, j2),
        decreases n - k,
    {
        assert(0 <= line_pos(start as int, step as int, k as int) < sol.len());
        let val = sol[idx];
        assert(val == line_at(sol@, start as int, step as int, k as int));
        if val < 1 || val > n {
            return false;
        }
        let mut i: usize = 0;
        while i < seen.len()
            invariant
                0 <= i <= seen.len(),
                seen@ == Seq::new(k as nat, |j: int| line_at(sol@, start as int, step as int, j)),
                val == line_at(sol@, start as int, step as int, k as int),
                k < n,
                forall|j: int| 0 <= j < i ==> seen@[j] != val,
            decreases seen.len() - i,
        {
            if seen[i] == val {
                assert(line_at(sol@, start as int, step as int, i as int) == line_at(sol@, start as int, step as int, k as int));
                assert(0 <= i < k < n);
                assert(!line_ok(sol@, n, start as int, step as int));
                return false;
            }
            i += 1;
        }
        seen.push(val);
        assert((k + 1) * step == k * step + step && (k + 1) * step <= n * step) by (nonlinear_arith)
            requires k < n;
        idx = idx + step;
        k += 1;
        assert forall|j1: int, j2: int| 0 <= j1 < j2 < k implies #[trigger] line_at(sol@, start as int, step as int, j1)
            != #[trigger] line_at(sol@, start as int, step as int, j2) by {
            if j2 == k - 1 {
                assert(seen@[j1] == line_at(sol@, start as int, step as int, j1));
            }
        }
    }
    true
}

/// Whether every row and column holds each of 1..=n once.
fn check_latin(sol: &Vec<u32>, n: u32) -> (r: bool)
    requires
        n == 4 || n == 5,
        sol.len() == n * n,
    ensures
        r == latin_square(sol@, n),
{
    let mut r: u32 = 0;
    while r < n
        invariant
            n == 4 || n == 5,
            sol.len() == n * n,
            0 <= r <= n,
            forall|q: int| 0 <= q < r ==> #[trigger] line_ok(sol@, n, q * n, 1),
        decreases n - r,
    {
        assert forall|k: int| 0 <= k < n implies 0 <= #[trigger] line_pos((r * n) as int, 1, k) < sol.len() by {
            lemma_line_in_grid(n, r as int, k);
        }
        if !check_line(sol, n, (r * n) as usize, 1) {
            return false;
        }
        r += 1;
    }
    let mut c: u32 = 0;
    while c < n
        invariant
            n == 4 || n == 5,
            sol.len() == n * n,
            0 <= c <= n,
            forall|q: int| 0 <= q < n ==> #[trigger] line_ok(sol@, n, q * n, 1),
            forall|q: int| 0 <= q < c ==> #[trigger] line_ok(sol@, n, q, n as int),
        decreases n - c,
    {
        assert forall|k: int| 0 <= k < n implies 0 <= #[trigger] line_pos(c as int, n as int, k) < sol.len() by {
            lemma_line_in_grid(n, c as int, k);
        }
        if !check_line(sol, n, c as usize, n as usize) {
            return false;
        }
        c += 1;
    }
    true
}

/// Validates the puzzle that a world of components describes: nothing is
/// checked while any of the four components is missing; otherwise the
/// first rule the definition breaks is reported.
pub fn puzzle_validation_system(
    grid_size: Option<&GridSize>,
    suspects: Option<&Suspects>,
    clues: Option<&Clues>,
    solution: Option<&Solution>,
) -> (r: Result<(), PuzzleError>)
    ensures
        r == (match (grid_size, suspects, clues, solution) {
            (Some(g), Some(s), Some(c), Some(sol)) => match puzzle_error(g.size, texts(s.list@), c.list@, sol.grid@) {
                Some(e) => Err(e),
                None => Ok(()),
            },
            _ => Ok(()),
        }),
{
    match (grid_size, suspects, clues, solution) {
        (Some(g), Some(s), Some(c), Some(sol)) => validate_puzzle(g.size, &s.list, &c.list, &sol.grid),
        _ => Ok(()),
    }
}

/// Checks a puzzle definition: the grid size, the suspects, the solution
/// and the clues, in that order; the first rule broken is reported.
pub fn validate_puzzle(grid_size: u32, suspects: &Vec<Vec<u8>>, clues: &Vec<Clue>, solution: &Vec<u32>) -> (r: Result<(), PuzzleError>)
    ensures
        r == (match puzzle_error(grid_size, texts(suspects@), clues@, solution@) {
            Some(e) => Err(e),
            None => Ok(()),
        }),
{
    let n = grid_size;
    let ghost names = texts(suspects@);
    if n != 4 && n != 5 {
        return Err(PuzzleError::InvalidGridSize);
    }
    assert(names.len() == suspects@.len());
    if suspects.len() != n as usize {
        return Err(PuzzleError::InvalidSuspects);
    }
    let mut i: usize = 0;
    while i < n as usize
        invariant
            n == 4 || n == 5,
            n == grid_size,
            suspects.len() == n,
            names == texts(suspects@),
            0 <= i <= n,
            forall|j: int| 0 <= j < i ==> #[trigger] names[j].len() != 0,
        decreases n - i,
    {
        if suspects[i].len() == 0 {
            assert(names[i as int].len() == 0);
            return Err(PuzzleError::InvalidSuspects);
        }
        i += 1;
    }
    if solution.len() != (n * n) as usize {
        return Err(PuzzleError::InvalidSolution);
    }
    if !check_latin(solution, n) {
        return Err(PuzzleError::InvalidSolution);
    }
    if clues.len() == 0 {
        return Err(PuzzleError::InvalidClues);
    }
    let mut j: usize = 0;
    while j < clues.len()
        invariant
            n == 4 || n == 5,
            n == grid_size,
            solution.len() == n * n,
            latin_square(solution@, n),
            names == texts(suspects@),
            names.len() == n,
            forall|q: int| 0 <= q < n ==> #[trigger] names[q].len() != 0,
            clues.len() > 0,
            0 <= j <= clues.len(),
            forall|q: int| 0 <= q < j ==> clue_ok(#[trigger] clues@[q], n, solution@),
        decreases clues.len() - j,
    {
        let cl = clues[j];
        if cl.row >= n || cl.col >= n {
            assert(!clue_ok(clues@[j as int], n, solution@));
            return Err(PuzzleError::InvalidClues);
        }
        if cl.suspect_idx < 1 || cl.suspect_idx > n {
            assert(!clue_ok(clues@[j as int], n, solution@));
            return Err(PuzzleError::InvalidClues);
        }
        proof {
            lemma_line_in_grid(n, cl.row as int, cl.col as int);
        }
        if solution[(cl.row * n + cl.col) as usize] != cl.suspect_idx {
            assert(!clue_ok(clues@[j as int], n, solution@));
            return Err(PuzzleError::InvalidClues);
        }
        j += 1;
    }
    Ok(())
}

/// Puzzle `id`'s entry, when it exists.
pub open spec fn entry_of(reg: PuzzleRegistry, id: u32) -> Option<int> {
    if 1 <= id <= reg.puzzles.len() { Some(id - 1) } else { None }
}

/// Whether the session expiry a player asks for is in the future and
/// within a day of ledgers.
pub open spec fn session_error(now_seq: u32, expires_at_ledger: u32) -> Option<SessionError> {
    if expires_at_ledger <= now_seq {
        Some(SessionError::ExpiryNotInFuture)
    } else if expires_at_ledger > now_seq + MAX_LEDGER_OFFSET {
        Some(SessionError::ExpiryTooFar)
    } else {
        None
    }
}

/// Why a session key was refused.
#[derive(Clone, Copy, Debug, PartialEq, Eq, Structural)]
pub enum SessionError {
    /// The expiry ledger is not after the current one.
    ExpiryNotInFuture,
    /// The expiry ledger is more than a day of ledgers away.
    ExpiryTooFar,
}

/// Checks the expiry asked for a session key against the current ledger.
pub fn check_session_expiry(now_seq: u32, expires_at_ledger: u32) -> (r: Result<(), SessionError>)
    requires
        now_seq + MAX_LEDGER_OFFSET <= u32::MAX,
    ensures
        r == (match session_error(now_seq, expires_at_ledger) {
            Some(e) => Err(e),
            None => Ok(()),
        }),
{
    if expires_at_ledger <= now_seq {
        return Err(SessionError::ExpiryNotInFuture);
    }
    if expires_at_ledger > now_seq + MAX_LEDGER_OFFSET {
        return Err(SessionError::ExpiryTooFar);
    }
    Ok(())
}

/// A summary carries the puzzle's id, creator, size, metadata and status.
pub open spec fn summarizes(s: PuzzleSummary, p: Puzzle) -> bool {
    &&& s.id == p.id
    &&& s.creator@ == p.creator@
    &&& s.grid_size == p.grid_size
    &&& s.metadata.name@ == p.metadata.name@
    &&& s.metadata.difficulty@ == p.metadata.difficulty@
    &&& s.active == p.active
}

/// The contract's operations over the registry and the players' games.
#[derive(Debug)]
pub struct MurdokuContract;

impl MurdokuContract {
    /// An empty registry.
    pub fn new_registry() -> (r: PuzzleRegistry)
        ensures
            r.puzzles@.len() == 0,
            r.wf(),
    {
        PuzzleRegistry { puzzles: Vec::new() }
    }

    /// Checks and stores a puzzle by `caller`, who becomes its owner;
    /// returns its id, one more than the previous count.
    pub fn submit_puzzle(
        registry: &mut PuzzleRegistry,
        caller: &Vec<u8>,
        grid_size: u32,
        suspects: Vec<Vec<u8>>,
        clues: Vec<Clue>,
        solution: Vec<u32>,
        metadata: PuzzleMetadata,
    ) -> (r: Result<u32, PuzzleError>)
        requires
            old(registry).wf(),
            old(registry).puzzles.len() < u32::MAX,
        ensures
            final(registry).wf(),
            match puzzle_error(grid_size, texts(suspects@), clues@, solution@) {
                Some(e) => r == Err::<u32, PuzzleError>(e) && final(registry).puzzles@ == old(registry).puzzles@,
                None => {
                    &&& r == Ok::<u32, PuzzleError>((old(registry).puzzles.len() + 1) as u32)
                    &&& final(registry).puzzles@.len() == old(registry).puzzles.len() + 1
                    &&& final(registry).puzzles@.take(old(registry).puzzles.len() as int) == old(registry).puzzles@
                    &&& ({
                        let p = final(registry).puzzles@.last();
                        &&& p.id == old(registry).puzzles.len() + 1
                        &&& p.creator@ == caller@
                        &&& p.grid_size == grid_size
                        &&& p.suspects@ == suspects@
                        &&& p.clues@ == clues@
                        &&& p.solution@ == solution@
                        &&& p.metadata.name@ == metadata.name@
                        &&& p.metadata.difficulty@ == metadata.difficulty@
                        &&& p.active
                    })
                },
            },
    {
        let size = GridSize { size: grid_size };
        let suspects = Suspects { list: suspects };
        let clues = Clues { list: clues };
        let solution = Solution { grid: solution };
        match puzzle_validation_system(Some(&size), Some(&suspects), Some(&clues), Some(&solution)) {
            Err(e) => Err(e),
            Ok(()) => {
                let suspects = suspects.list;
                let clues = clues.list;
                let solution = solution.grid;
                let puzzle_id = (registry.puzzles.len() + 1) as u32;
                let puzzle = Puzzle {
                    id: puzzle_id,
                    creator: clone_bytes(caller),
                    grid_size,
                    suspects,
                    clues,
                    solution,
                    metadata,
                    active: true,
                };
                let ghost before = registry.puzzles@;
                registry.puzzles.push(puzzle);
                assert(registry.puzzles@.take(before.len() as int) =~= before);
                Ok(puzzle_id)
            },
        }
    }

    /// Puzzle `puzzle_id`.
    pub fn get_puzzle(registry: &PuzzleRegistry, puzzle_id: u32) -> (r: Result<&Puzzle, PuzzleError>)
        requires
            registry.wf(),
        ensures
            match entry_of(*registry, puzzle_id) {
                Some(k) => r == Ok::<&Puzzle, PuzzleError>(&registry.puzzles@[k]),
                None => r == Err::<&Puzzle, PuzzleError>(PuzzleError::PuzzleNotFound),
            },
    {
        if puzzle_id < 1 || puzzle_id as usize > registry.puzzles.len() {
            return Err(PuzzleError::PuzzleNotFound);
        }
        Ok(&registry.puzzles[(puzzle_id - 1) as usize])
    }

    /// The number of puzzles submitted.
    pub fn get_puzzle_count(registry: &PuzzleRegistry) -> (r: u32)
        requires
            registry.wf(),
        ensures
            r == registry.puzzles.len(),
    {
        registry.puzzles.len() as u32
    }

    /// Summaries of puzzles `offset + 1` to `offset + limit` (those that
    /// exist), in id order.
    pub fn list_puzzles(registry: &PuzzleRegistry, offset: u32, limit: u32) -> (r: Vec<PuzzleSummary>)
        requires
            registry.wf(),
            offset < registry.puzzles.len() ==> offset + limit <= u32::MAX,
        ensures
            offset >= registry.puzzles.len() ==> r@.len() == 0,
            offset < registry.puzzles.len() ==> {
                let end = if offset + limit < registry.puzzles.len() { offset + limit } else { registry.puzzles.len() as int };
                &&& r@.len() == end - offset
                &&& forall|i: int| 0 <= i < r@.len() ==> summarizes(#[trigger] r@[i], registry.puzzles@[offset + i])
            },
    {
        let total = registry.puzzles.len() as u32;
        let mut list: Vec<PuzzleSummary> = Vec::new();
        if offset >= total {
            return list;
        }
        let start = offset + 1;
        let end = if offset + limit < total { offset + limit } else { total };
        let mut id = start;
        while id <= end
            invariant
                registry.wf(),
                total == registry.puzzles.len(),
                start == offset + 1,
                end == (if offset + limit < total { offset + limit } else { total as int }),
                end <= total,
                start <= id <= end + 1,
                list@.len() == id - start,
                forall|i: int| 0 <= i < list@.len() ==> summarizes(#[trigger] list@[i], registry.puzzles@[offset + i]),
            decreases end + 1 - id,
        {
            let p = &registry.puzzles[(id - 1) as usize];
            list.push(PuzzleSummary {
                id: p.id,
                creator: clone_bytes(&p.creator),
                grid_size: p.grid_size,
                metadata: p.metadata.copy(),
                active: p.active,
            });
            assert(registry.puzzles@[(id - 1) as int] == registry.puzzles@[offset + (id - start)]);
            assert forall|i: int| 0 <= i < list@.len() implies summarizes(#[trigger] list@[i], registry.puzzles@[offset + i]) by {
                if i == list@.len() - 1 {
                    assert(offset + i == id - 1);
                }
            }
            if id == end {
                assert(list@.len() == end - offset);
                return list;
            }
            id += 1;
        }
        list
    }

    /// The owner of puzzle `puzzle_id` withdraws it; anyone else, or a
    /// puzzle that does not exist, is refused.
    pub fn deactivate_puzzle(registry: &mut PuzzleRegistry, caller: &Vec<u8>, puzzle_id: u32) -> (r: Result<(), PuzzleError>)
        requires
            old(registry).wf(),
        ensures
            final(registry).wf(),
            final(registry).puzzles@.len() == old(registry).puzzles@.len(),
            match entry_of(*old(registry), puzzle_id) {
                Some(k) => if old(registry).puzzles@[k].creator@ == caller@ {
                    &&& r is Ok
                    &&& !final(registry).puzzles@[k].active
                    &&& forall|j: int| 0 <= j < old(registry).puzzles@.len() && j != k ==> #[trigger] final(registry).puzzles@[j] == old(registry).puzzles@[j]
                    &&& final(registry).puzzles@[k].id == old(registry).puzzles@[k].id
                    &&& final(registry).puzzles@[k].creator@ == old(registry).puzzles@[k].creator@
                    &&& final(registry).puzzles@[k].grid_size == old(registry).puzzles@[k].grid_size
                    &&& final(registry).puzzles@[k].solution@ == old(registry).puzzles@[k].solution@
                } else {
                    r == Err::<(), PuzzleError>(PuzzleError::Unauthorized) && final(registry).puzzles@ == old(registry).puzzles@
                },
                None => r == Err::<(), PuzzleError>(PuzzleError::Unauthorized) && final(registry).puzzles@ == old(registry).puzzles@,
            },
    {
        if puzzle_id < 1 || puzzle_id as usize > registry.puzzles.len() {
            return Err(PuzzleError::Unauthorized);
        }
        let k = (puzzle_id - 1) as usize;
        if !bytes_equal(&registry.puzzles[k].creator, caller) {
            return Err(PuzzleError::Unauthorized);
        }
        let mut p = registry.puzzles.remove(k);
        p.active = false;
        registry.puzzles.insert(k, p);
        Ok(())
    }

    /// A fresh game on an active puzzle: every cell empty, no moves.
    pub fn start_game(registry: &PuzzleRegistry, puzzle_id: u32) -> (r: Result<PlayerWorld, PuzzleError>)
        requires
            registry.wf(),
        ensures
            match entry_of(*registry, puzzle_id) {
                Some(k) => if registry.puzzles@[k].active {
                    r matches Ok(w) && w.board.grid@ == Seq::new((registry.puzzles@[k].grid_size * registry.puzzles@[k].grid_size) as nat, |i: int| 0u32)
                        && !w.status.solved && w.moves.count == 0
                } else {
                    r matches Err(e) && e == PuzzleError::Unauthorized
                },
                None => r matches Err(e) && e == PuzzleError::PuzzleNotFound,
            },
    {
        let puzzle = match Self::get_puzzle(registry, puzzle_id) {
            Ok(p) => p,
            Err(e) => return Err(e),
        };
        assert(registry.puzzles@[(puzzle_id - 1) as int].grid_size <= 5);
        if !puzzle.active {
            return Err(PuzzleError::Unauthorized);
        }
        assert(puzzle.grid_size * puzzle.grid_size <= 25) by (nonlinear_arith)
            requires puzzle.grid_size <= 5;
        let cells = puzzle.grid_size * puzzle.grid_size;
        let mut grid: Vec<u32> = Vec::new();
        let mut i: u32 = 0;
        while i < cells
            invariant
                0 <= i <= cells,
                grid@ =~= Seq::new(i as nat, |j: int| 0u32),
            decreases cells - i,
        {
            grid.push(0);
            i += 1;
        }
        Ok(PlayerWorld { board: Board { grid }, status: GameStatus { solved: false }, moves: MoveCount { count: 0 } })
    }

    /// A player's progress on a puzzle; an empty record when they have not
    /// started it. `total_solvers` is the puzzle's stored solver count.
    pub fn get_player_state(world: Option<&PlayerWorld>, puzzle_id: u32, total_solvers: u32) -> (s: PlayerState)
        ensures
            s.puzzle_id == puzzle_id && s.total_solvers == total_solvers,
            match world {
                Some(w) => s.grid@ == w.board.grid@ && s.solved == w.status.solved && s.moves == w.moves.count,
                None => s.grid@.len() == 0 && !s.solved && s.moves == 0,
            },
    {
        match world {
            Some(w) => {
                let grid = w.board.grid.clone();
                assert(grid@ =~= w.board.grid@);
                PlayerState { puzzle_id, grid, solved: w.status.solved, moves: w.moves.count, total_solvers }
            },
            None => PlayerState { puzzle_id, grid: Vec::new(), solved: false, moves: 0, total_solvers },
        }
    }

    /// Places suspect `suspect_idx` on an empty cell of the player's grid.
    pub fn place_suspect(registry: &PuzzleRegistry, world: &mut PlayerWorld, puzzle_id: u32, x: u32, y: u32, suspect_idx: u32) -> (r: Result<MoveResult, PuzzleError>)
        requires
            registry.wf(),
        ensures
            entry_of(*registry, puzzle_id) is None ==> r == Err::<MoveResult, PuzzleError>(PuzzleError::PuzzleNotFound)
                && final(world).board.grid@ == old(world).board.grid@ && final(world).moves == old(world).moves,
            final(world).status == old(world).status,
            entry_of(*registry, puzzle_id) matches Some(k) ==> {
                let n = registry.puzzles@[k].grid_size;
                let cell = y * n + x;
                if x >= n || y >= n {
                    r == Ok::<MoveResult, PuzzleError>(MoveResult::InvalidCoordinates) && final(world).board.grid@ == old(world).board.grid@ && final(world).moves == old(world).moves
                } else if old(world).status.solved {
                    r == Ok::<MoveResult, PuzzleError>(MoveResult::GameAlreadySolved) && final(world).board.grid@ == old(world).board.grid@ && final(world).moves == old(world).moves
                } else if !(cell < old(world).board.grid@.len() && old(world).board.grid@[cell] == 0) {
                    r == Ok::<MoveResult, PuzzleError>(MoveResult::CellOccupied) && final(world).board.grid@ == old(world).board.grid@ && final(world).moves == old(world).moves
                } else {
                    &&& r == Ok::<MoveResult, PuzzleError>(MoveResult::Success)
                    &&& final(world).board.grid@ == old(world).board.grid@.update(cell, suspect_idx)
                    &&& final(world).moves.count == (if old(world).moves.count == u32::MAX { u32::MAX } else { (old(world).moves.count + 1) as u32 })
                }
            },
    {
        let puzzle = match Self::get_puzzle(registry, puzzle_id) {
            Ok(p) => p,
            Err(e) => return Err(e),
        };
        assert(registry.puzzles@[(puzzle_id - 1) as int].grid_size <= 5);
        let n = puzzle.grid_size;
        if x >= n || y >= n {
            return Ok(MoveResult::InvalidCoordinates);
        }
        if world.status.solved {
            return Ok(MoveResult::GameAlreadySolved);
        }
        proof {
            lemma_line_in_grid(n, y as int, x as int);
            assert(n * n <= 25) by (nonlinear_arith)
                requires n <= 5;
        }
        let cell = y * n + x;
        if (cell as usize) >= world.board.grid.len() || world.board.grid[cell as usize] != 0 {
            return Ok(MoveResult::CellOccupied);
        }
        world.board.grid.set(cell as usize, suspect_idx);
        world.moves.count = world.moves.count.saturating_add(1);
        Ok(MoveResult::Success)
    }

    /// Checks the coordinates against the puzzle; the grid is left as it is.
    pub fn remove_suspect(registry: &PuzzleRegistry, puzzle_id: u32, x: u32, y: u32) -> (r: Result<MoveResult, PuzzleError>)
        requires
            registry.wf(),
        ensures
            match entry_of(*registry, puzzle_id) {
                Some(k) => r == Ok::<MoveResult, PuzzleError>(
                    if x >= registry.puzzles@[k].grid_size || y >= registry.puzzles@[k].grid_size { MoveResult::InvalidCoordinates } else { MoveResult::Success }),
                None => r == Err::<MoveResult, PuzzleError>(PuzzleError::PuzzleNotFound),
            },
    {
        let puzzle = match Self::get_puzzle(registry, puzzle_id) {
            Ok(p) => p,
            Err(e) => return Err(e),
        };
        if x >= puzzle.grid_size || y >= puzzle.grid_size {
            return Ok(MoveResult::InvalidCoordinates);
        }
        Ok(MoveResult::Success)
    }
}

} // verus!
