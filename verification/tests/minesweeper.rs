use cougr_games::minesweeper::{
    ECSWorldState, MinesweeperContract, RevealMessage, CELL_HIDDEN, COLS, MINES, ROWS, STATUS_LOST, STATUS_PLAYING,
    STATUS_WON,
};

fn setup() -> ECSWorldState {
    MinesweeperContract::init_game()
}

#[test]
fn minesweeper_test_init_game() {
    let w = setup();
    let state = MinesweeperContract::get_state(&w);
    assert_eq!(state.rows, ROWS);
    assert_eq!(state.cols, COLS);
    assert_eq!(state.total_mines, MINES);
    assert_eq!(state.status, STATUS_PLAYING);
    assert_eq!(state.revealed_count, 0);
    assert_eq!(state.safe_cells_remaining, (ROWS * COLS) - MINES);
}

#[test]
fn minesweeper_test_get_board_after_init() {
    let w = setup();
    let board = MinesweeperContract::get_board(&w);
    assert_eq!(board.len(), (ROWS * COLS) as usize);
    for c in board.iter() {
        assert_eq!(*c, CELL_HIDDEN);
    }
}

#[test]
fn test_reveal_safe_cell() {
    let mut w = setup();
    let result = MinesweeperContract::reveal_cell(&mut w, 0, 0);
    assert!(result.success);
    assert!(!result.is_mine);
    assert_eq!(result.message, RevealMessage::Safe);
    assert!(result.adjacent_mines <= 8);
}

#[test]
fn test_reveal_cell_returns_adjacent_count() {
    let mut w = setup();
    let result1 = MinesweeperContract::reveal_cell(&mut w, 0, 0);
    assert!(result1.success);
    assert!(!result1.is_mine);
    let result2 = MinesweeperContract::reveal_cell(&mut w, 0, 8);
    assert!(result2.success);
    assert!(!result2.is_mine);
    assert!(result1.adjacent_mines <= 8);
    assert!(result2.adjacent_mines <= 8);
}

#[test]
fn test_adjacent_counts_exact() {
    let mut w = setup();
    // (0,0) touches (1,1); (4,4) touches (3,3) and (5,4); (8,8) touches none
    assert_eq!(MinesweeperContract::reveal_cell(&mut w, 0, 0).adjacent_mines, 1);
    assert_eq!(MinesweeperContract::reveal_cell(&mut w, 4, 4).adjacent_mines, 2);
    assert_eq!(MinesweeperContract::reveal_cell(&mut w, 8, 8).adjacent_mines, 0);
    // (4,5) touches (4,6) and (5,4)
    assert_eq!(MinesweeperContract::reveal_cell(&mut w, 4, 5).adjacent_mines, 2);
}

#[test]
fn test_reveal_increments_counter() {
    let mut w = setup();
    assert_eq!(MinesweeperContract::get_state(&w).revealed_count, 0);
    MinesweeperContract::reveal_cell(&mut w, 0, 0);
    let state = MinesweeperContract::get_state(&w);
    assert_eq!(state.revealed_count, 1);
    assert_eq!(state.safe_cells_remaining, ((ROWS * COLS) - MINES) - 1);
}

#[test]
fn test_reveal_mine_triggers_loss() {
    let mut w = setup();
    let result = MinesweeperContract::reveal_cell(&mut w, 1, 1);
    assert!(result.success);
    assert!(result.is_mine);
    assert_eq!(result.message, RevealMessage::Boom);
    assert!(MinesweeperContract::is_finished(&w));
    assert_eq!(MinesweeperContract::get_state(&w).status, STATUS_LOST);
}

#[test]
fn test_multiple_mine_reveals() {
    let mut w = setup();
    assert!(MinesweeperContract::reveal_cell(&mut w, 1, 1).is_mine);
    assert!(MinesweeperContract::is_finished(&w));
    let result2 = MinesweeperContract::reveal_cell(&mut w, 3, 3);
    assert!(!result2.success);
    assert_eq!(result2.message, RevealMessage::Over);
}

#[test]
fn test_reveal_already_revealed_cell() {
    let mut w = setup();
    assert!(MinesweeperContract::reveal_cell(&mut w, 0, 0).success);
    let result2 = MinesweeperContract::reveal_cell(&mut w, 0, 0);
    assert!(!result2.success);
    assert_eq!(result2.message, RevealMessage::Revealed);
}

#[test]
fn test_reveal_multiple_times_different_cells() {
    let mut w = setup();
    let r1 = MinesweeperContract::reveal_cell(&mut w, 0, 0);
    let r2 = MinesweeperContract::reveal_cell(&mut w, 0, 1);
    let r3 = MinesweeperContract::reveal_cell(&mut w, 0, 2);
    assert!(r1.success && r2.success && r3.success);
    assert!(!r1.is_mine && !r2.is_mine && !r3.is_mine);
    assert_eq!(MinesweeperContract::get_state(&w).revealed_count, 3);
}

#[test]
fn test_reveal_out_of_bounds() {
    let mut w = setup();
    for (row, col) in [(10u32, 5u32), (5, 10), (100, 100)] {
        let result = MinesweeperContract::reveal_cell(&mut w, row, col);
        assert!(!result.success);
        assert_eq!(result.message, RevealMessage::Invalid);
    }
}

#[test]
fn test_win_condition_tracking() {
    let w = setup();
    let state = MinesweeperContract::get_state(&w);
    assert_eq!(state.status, STATUS_PLAYING);
    assert_eq!(state.safe_cells_remaining, (ROWS * COLS) - MINES);
}

#[test]
fn test_win_after_every_safe_cell() {
    let mut w = setup();
    let mines = [(1u32, 1u32), (1, 5), (2, 7), (3, 3), (3, 8), (4, 6), (5, 2), (5, 4), (5, 7), (7, 0), (7, 5)];
    for row in 0..ROWS {
        for col in 0..COLS {
            if !mines.contains(&(row, col)) {
                assert!(MinesweeperContract::reveal_cell(&mut w, row, col).success);
            }
        }
    }
    let state = MinesweeperContract::get_state(&w);
    assert_eq!(state.status, STATUS_WON);
    assert_eq!(state.safe_cells_remaining, 0);
    assert!(MinesweeperContract::is_finished(&w));
}

#[test]
fn test_game_state_after_loss() {
    let mut w = setup();
    MinesweeperContract::reveal_cell(&mut w, 1, 1);
    assert_eq!(MinesweeperContract::get_state(&w).status, STATUS_LOST);
    assert!(MinesweeperContract::is_finished(&w));
}

#[test]
fn test_get_visible_cell_hidden() {
    let w = setup();
    let v = MinesweeperContract::get_visible_cell(&w, 0, 0);
    assert!(!v.is_revealed);
    assert!(!v.is_mine);
    assert_eq!(v.adjacent_mines, 0);
}

#[test]
fn test_get_visible_cell_revealed() {
    let mut w = setup();
    MinesweeperContract::reveal_cell(&mut w, 0, 0);
    let v = MinesweeperContract::get_visible_cell(&w, 0, 0);
    assert!(v.is_revealed);
    assert!(!v.is_mine);
    assert!(v.adjacent_mines <= 8);
}

#[test]
fn test_get_visible_cell_mine_after_reveal() {
    let mut w = setup();
    let v1 = MinesweeperContract::get_visible_cell(&w, 1, 1);
    assert!(!v1.is_revealed);
    assert!(!v1.is_mine);
    MinesweeperContract::reveal_cell(&mut w, 1, 1);
    let v2 = MinesweeperContract::get_visible_cell(&w, 1, 1);
    assert!(v2.is_revealed);
    assert!(v2.is_mine);
}

#[test]
fn test_get_visible_cell_out_of_bounds() {
    let w = setup();
    let v = MinesweeperContract::get_visible_cell(&w, 10, 10);
    assert!(!v.is_revealed);
    assert!(!v.is_mine);
    assert_eq!(v.adjacent_mines, 0);
}

#[test]
fn minesweeper_test_reset_game() {
    let mut w = setup();
    MinesweeperContract::reveal_cell(&mut w, 0, 0);
    MinesweeperContract::reveal_cell(&mut w, 0, 1);
    assert_eq!(MinesweeperContract::get_state(&w).revealed_count, 2);
    let w2 = MinesweeperContract::reset_game();
    let state2 = MinesweeperContract::get_state(&w2);
    assert_eq!(state2.revealed_count, 0);
    assert_eq!(state2.status, STATUS_PLAYING);
    assert_eq!(state2.safe_cells_remaining, (ROWS * COLS) - MINES);
}

#[test]
fn test_adjacent_mine_counts_across_board() {
    let mut w = setup();
    for (row, col) in [(0u32, 0u32), (0, 4), (4, 0), (4, 4), (8, 8)] {
        let result = MinesweeperContract::reveal_cell(&mut w, row, col);
        if result.success && !result.is_mine {
            assert!(result.adjacent_mines <= 8);
        }
    }
}

#[test]
fn test_corner_cells() {
    let mut w = setup();
    for (row, col) in [(0u32, 0u32), (0, 8), (8, 0), (8, 8)] {
        assert!(MinesweeperContract::reveal_cell(&mut w, row, col).success);
    }
}

#[test]
fn minesweeper_test_cannot_play_after_game_over() {
    let mut w = setup();
    MinesweeperContract::reveal_cell(&mut w, 1, 1);
    assert!(MinesweeperContract::is_finished(&w));
    let result = MinesweeperContract::reveal_cell(&mut w, 5, 5);
    assert!(!result.success);
    assert_eq!(result.message, RevealMessage::Over);
}

#[test]
fn test_deterministic_mine_placement() {
    let mut w1 = setup();
    let mut w2 = setup();
    let r1 = MinesweeperContract::reveal_cell(&mut w1, 1, 1);
    let r2 = MinesweeperContract::reveal_cell(&mut w2, 1, 1);
    assert_eq!(r1.is_mine, r2.is_mine);
    assert!(r1.is_mine);
}
