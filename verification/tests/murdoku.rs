use cougr_games::murdoku::{
    check_session_expiry, validate_puzzle, Clue, MoveResult, MurdokuContract as Murdoku,
    PuzzleError, PuzzleMetadata, PuzzleRegistry, SessionError, MAX_LEDGER_OFFSET,
};
use cougr_games::murdoku::{puzzle_validation_system, Clues, GridSize, Solution, Suspects};

type PuzzleParts = (u32, Vec<Vec<u8>>, Vec<Clue>, Vec<u32>, PuzzleMetadata);

fn suspects() -> Vec<Vec<u8>> {
    vec![b"Alice".to_vec(), b"Bob".to_vec(), b"Charlie".to_vec(), b"David".to_vec()]
}

fn latin_4x4() -> Vec<u32> {
    vec![1, 2, 3, 4, 2, 3, 4, 1, 3, 4, 1, 2, 4, 1, 2, 3]
}

fn metadata() -> PuzzleMetadata {
    PuzzleMetadata { name: b"Classic Case".to_vec(), difficulty: b"Easy".to_vec() }
}

/// The puzzle of the contract's own tests: two clues.
fn make_valid_puzzle() -> PuzzleParts {
    let clues = vec![
        Clue { row: 0, col: 0, suspect_idx: 1 },
        Clue { row: 1, col: 1, suspect_idx: 3 },
    ];
    (4, suspects(), clues, latin_4x4(), metadata())
}

/// The puzzle of the gameplay tests: one clue.
fn make_valid_4x4_puzzle() -> PuzzleParts {
    (4, suspects(), vec![Clue { row: 0, col: 0, suspect_idx: 1 }], latin_4x4(), metadata())
}

fn creator() -> Vec<u8> {
    b"GCREATOR".to_vec()
}

fn submit(reg: &mut PuzzleRegistry, parts: PuzzleParts) -> Result<u32, PuzzleError> {
    let (n, s, c, sol, m) = parts;
    Murdoku::submit_puzzle(reg, &creator(), n, s, c, sol, m)
}

#[test]
fn test_submit_valid_puzzle() {
    let mut reg = Murdoku::new_registry();
    let id = submit(&mut reg, make_valid_puzzle()).unwrap();
    assert_eq!(id, 1);
    assert_eq!(Murdoku::get_puzzle_count(&reg), 1);
    let puzzle = Murdoku::get_puzzle(&reg, 1).unwrap();
    assert_eq!(puzzle.id, 1);
    assert_eq!(puzzle.creator, creator());
    assert_eq!(puzzle.grid_size, 4);
    assert_eq!(puzzle.suspects.len(), 4);
    assert_eq!(puzzle.clues.len(), 2);
    assert_eq!(puzzle.solution.len(), 16);
    assert!(puzzle.active);
}

#[test]
fn test_submit_invalid_grid_size() {
    let mut reg = Murdoku::new_registry();
    let (_, s, c, sol, m) = make_valid_puzzle();
    assert!(submit(&mut reg, (3, s, c, sol, m)).is_err());
}

#[test]
fn test_submit_invalid_suspects_length() {
    let mut reg = Murdoku::new_registry();
    let (n, mut s, c, sol, m) = make_valid_puzzle();
    s.pop();
    assert!(submit(&mut reg, (n, s, c, sol, m)).is_err());
}

#[test]
fn test_submit_empty_suspect_name() {
    let mut reg = Murdoku::new_registry();
    let (n, mut s, c, sol, m) = make_valid_puzzle();
    s[1] = Vec::new();
    assert!(submit(&mut reg, (n, s, c, sol, m)).is_err());
}

#[test]
fn test_submit_invalid_solution_length() {
    let mut reg = Murdoku::new_registry();
    let (n, s, c, mut sol, m) = make_valid_puzzle();
    sol.pop();
    assert!(submit(&mut reg, (n, s, c, sol, m)).is_err());
}

#[test]
fn test_submit_invalid_latin_square() {
    let mut reg = Murdoku::new_registry();
    let (n, s, c, mut sol, m) = make_valid_puzzle();
    sol[1] = 1;
    assert!(submit(&mut reg, (n, s, c, sol, m)).is_err());
}

#[test]
fn test_submit_empty_clues() {
    let mut reg = Murdoku::new_registry();
    let (n, s, _, sol, m) = make_valid_puzzle();
    assert!(submit(&mut reg, (n, s, Vec::new(), sol, m)).is_err());
}

#[test]
fn test_submit_invalid_clue_coordinate() {
    let mut reg = Murdoku::new_registry();
    let (n, s, mut c, sol, m) = make_valid_puzzle();
    c.push(Clue { row: 4, col: 0, suspect_idx: 1 });
    assert!(submit(&mut reg, (n, s, c, sol, m)).is_err());
}

#[test]
fn test_submit_clue_mismatch_with_solution() {
    let mut reg = Murdoku::new_registry();
    let (n, s, mut c, sol, m) = make_valid_puzzle();
    c.push(Clue { row: 0, col: 1, suspect_idx: 4 });
    assert!(submit(&mut reg, (n, s, c, sol, m)).is_err());
}

#[test]
fn test_list_puzzles_and_pagination() {
    let mut reg = Murdoku::new_registry();
    for _ in 0..3 {
        submit(&mut reg, make_valid_puzzle()).unwrap();
    }
    assert_eq!(Murdoku::get_puzzle_count(&reg), 3);
    assert_eq!(Murdoku::list_puzzles(&reg, 0, 10).len(), 3);
    let page = Murdoku::list_puzzles(&reg, 1, 1);
    assert_eq!(page.len(), 1);
    assert_eq!(page[0].id, 2);
}

#[test]
fn test_deactivate_puzzle_authorization() {
    let mut reg = Murdoku::new_registry();
    submit(&mut reg, make_valid_puzzle()).unwrap();
    assert!(Murdoku::deactivate_puzzle(&mut reg, &b"GINTRUDER".to_vec(), 1).is_err());
    Murdoku::deactivate_puzzle(&mut reg, &creator(), 1).unwrap();
    assert!(!Murdoku::get_puzzle(&reg, 1).unwrap().active);
}

#[test]
fn test_initialization() {
    let mut reg = Murdoku::new_registry();
    assert_eq!(submit(&mut reg, make_valid_4x4_puzzle()).unwrap(), 1);
    assert_eq!(submit(&mut reg, make_valid_4x4_puzzle()).unwrap(), 2);
    assert_eq!(Murdoku::get_puzzle_count(&reg), 2);

    let world = Murdoku::start_game(&reg, 1).unwrap();
    let state = Murdoku::get_player_state(Some(&world), 1, 0);
    assert!(!state.solved);
    assert_eq!(state.grid.len(), 16);
    for cell in state.grid.iter() {
        assert_eq!(*cell, 0);
    }
}

#[test]
fn test_puzzle_validation() {
    let mut reg = Murdoku::new_registry();
    let (n, s, c, sol, m) = make_valid_4x4_puzzle();
    assert!(Murdoku::submit_puzzle(&mut reg, &creator(), 3, s.clone(), c.clone(), sol.clone(), m.copy()).is_err());
    assert!(Murdoku::submit_puzzle(&mut reg, &creator(), 6, s.clone(), c.clone(), sol.clone(), m.copy()).is_err());

    let mut bad_suspects = s.clone();
    bad_suspects.pop();
    assert!(Murdoku::submit_puzzle(&mut reg, &creator(), n, bad_suspects, c.clone(), sol.clone(), m.copy()).is_err());

    let mut bad_clues = c.clone();
    bad_clues.push(Clue { row: 4, col: 0, suspect_idx: 1 });
    assert!(Murdoku::submit_puzzle(&mut reg, &creator(), n, s.clone(), bad_clues, sol.clone(), m.copy()).is_err());

    assert!(Murdoku::submit_puzzle(&mut reg, &creator(), n, s, Vec::new(), sol, m).is_err());
    assert_eq!(Murdoku::get_puzzle_count(&reg), 0);
}

#[test]
fn test_happy_path_gameplay() {
    let mut reg = Murdoku::new_registry();
    submit(&mut reg, make_valid_4x4_puzzle()).unwrap();
    let mut world = Murdoku::start_game(&reg, 1).unwrap();
    let res = Murdoku::place_suspect(&reg, &mut world, 1, 0, 0, 1).unwrap();
    assert_eq!(res, MoveResult::Success);
    let state = Murdoku::get_player_state(Some(&world), 1, 0);
    assert_eq!(state.grid[0], 1);
}

#[test]
fn test_invalid_moves() {
    let mut reg = Murdoku::new_registry();
    submit(&mut reg, make_valid_4x4_puzzle()).unwrap();
    let mut world = Murdoku::start_game(&reg, 1).unwrap();
    assert_eq!(Murdoku::place_suspect(&reg, &mut world, 1, 4, 0, 1).unwrap(), MoveResult::InvalidCoordinates);
    assert_eq!(Murdoku::remove_suspect(&reg, 1, 0, 0).unwrap(), MoveResult::Success);
}

#[test]
fn test_authorization_logic() {
    let mut reg = Murdoku::new_registry();
    submit(&mut reg, make_valid_4x4_puzzle()).unwrap();
    let _player_world = Murdoku::start_game(&reg, 1).unwrap();

    // the intruder never started this puzzle: there is no game of theirs to play
    let intruder_state = Murdoku::get_player_state(None, 1, 0);
    assert_eq!(intruder_state.grid.len(), 0);

    // a session key expiring at ledger 100 is accepted at ledger 0
    assert_eq!(check_session_expiry(0, 100), Ok(()));
}

#[test]
fn test_rule_invariants() {
    let mut reg = Murdoku::new_registry();
    submit(&mut reg, make_valid_4x4_puzzle()).unwrap();
    let state = Murdoku::get_player_state(None, 1, 0);
    assert_eq!(state.total_solvers, 0);
    Murdoku::deactivate_puzzle(&mut reg, &creator(), 1).unwrap();
    assert!(Murdoku::start_game(&reg, 1).is_err());
}

#[test]
fn test_cougr_integration() {
    let mut reg = Murdoku::new_registry();
    let (n, s, c, mut bad, m) = make_valid_4x4_puzzle();
    bad[1] = 1;
    assert!(submit(&mut reg, (n, s, c, bad, m)).is_err());
}

#[test]
fn murdoku_error_kinds() {
    let (n, s, c, sol, _) = make_valid_puzzle();
    assert_eq!(validate_puzzle(n, &s, &c, &sol), Ok(()));
    assert_eq!(validate_puzzle(5, &s, &c, &sol), Err(PuzzleError::InvalidSuspects));
    assert_eq!(validate_puzzle(3, &s, &c, &sol), Err(PuzzleError::InvalidGridSize));
    let mut bad = sol.clone();
    bad[0] = 5;
    assert_eq!(validate_puzzle(n, &s, &c, &bad), Err(PuzzleError::InvalidSolution));
    let mismatch = vec![Clue { row: 0, col: 0, suspect_idx: 2 }];
    assert_eq!(validate_puzzle(n, &s, &mismatch, &sol), Err(PuzzleError::InvalidClues));
    // column repeat, rows fine
    let cols_bad = vec![1, 2, 3, 4, 1, 2, 3, 4, 3, 4, 1, 2, 4, 1, 2, 3];
    assert_eq!(validate_puzzle(n, &s, &c, &cols_bad), Err(PuzzleError::InvalidSolution));
}

#[test]
fn murdoku_lookup_errors() {
    let mut reg = Murdoku::new_registry();
    assert_eq!(Murdoku::get_puzzle(&reg, 1).err(), Some(PuzzleError::PuzzleNotFound));
    assert_eq!(Murdoku::start_game(&reg, 0).err(), Some(PuzzleError::PuzzleNotFound));
    assert_eq!(Murdoku::remove_suspect(&reg, 7, 0, 0), Err(PuzzleError::PuzzleNotFound));
    assert_eq!(Murdoku::deactivate_puzzle(&mut reg, &creator(), 1), Err(PuzzleError::Unauthorized));
    assert!(Murdoku::list_puzzles(&reg, 0, 5).is_empty());
}

#[test]
fn murdoku_occupied_cell_and_move_count() {
    let mut reg = Murdoku::new_registry();
    submit(&mut reg, make_valid_4x4_puzzle()).unwrap();
    let mut world = Murdoku::start_game(&reg, 1).unwrap();
    assert_eq!(Murdoku::place_suspect(&reg, &mut world, 1, 2, 1, 3).unwrap(), MoveResult::Success);
    assert_eq!(world.board.grid[6], 3);
    assert_eq!(Murdoku::place_suspect(&reg, &mut world, 1, 2, 1, 4).unwrap(), MoveResult::CellOccupied);
    assert_eq!(world.moves.count, 1);
    world.status.solved = true;
    assert_eq!(Murdoku::place_suspect(&reg, &mut world, 1, 0, 0, 1).unwrap(), MoveResult::GameAlreadySolved);
}

#[test]
fn murdoku_session_expiry_window() {
    assert_eq!(check_session_expiry(50, 50), Err(SessionError::ExpiryNotInFuture));
    assert_eq!(check_session_expiry(50, 50 + MAX_LEDGER_OFFSET), Ok(()));
    assert_eq!(check_session_expiry(50, 51 + MAX_LEDGER_OFFSET), Err(SessionError::ExpiryTooFar));
}

#[test]
fn murdoku_validation_system_over_components() {
    let (n, s, c, sol, _) = make_valid_puzzle();
    let size = GridSize { size: n };
    let suspects = Suspects { list: s };
    let clues = Clues { list: c };
    let solution = Solution { grid: sol };
    assert_eq!(puzzle_validation_system(Some(&size), Some(&suspects), Some(&clues), Some(&solution)), Ok(()));
    let bad_size = GridSize { size: 6 };
    assert_eq!(
        puzzle_validation_system(Some(&bad_size), Some(&suspects), Some(&clues), Some(&solution)),
        Err(PuzzleError::InvalidGridSize)
    );
    // with a component missing nothing is checked
    assert_eq!(puzzle_validation_system(Some(&bad_size), None, Some(&clues), Some(&solution)), Ok(()));
}
