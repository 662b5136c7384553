use cougr_games::connect_four::{ConnectFourContract, DropMessage, ECSWorldState, COLS, ROWS};
use cougr_games::connect_four::{BoardComponent, GameStateComponent};

fn create_test_addresses() -> (Vec<u8>, Vec<u8>) {
    (b"GCONNECTONE".to_vec(), b"GCONNECTTWO".to_vec())
}

fn setup() -> (ECSWorldState, Vec<u8>, Vec<u8>) {
    let (p1, p2) = create_test_addresses();
    (ConnectFourContract::init_game(p1.clone(), p2.clone()), p1, p2)
}

fn drop(w: &mut ECSWorldState, p: &Vec<u8>, col: u32) -> cougr_games::connect_four::DropResult {
    ConnectFourContract::drop_piece(w, p, col)
}

#[test]
fn tests_test_init_game() {
    let (w, p1, p2) = setup();
    let state = ConnectFourContract::get_state(&w);
    assert_eq!(state.rows, ROWS);
    assert_eq!(state.cols, COLS);
    assert_eq!(state.player_one, p1);
    assert_eq!(state.player_two, p2);
    assert!(state.is_player_one_turn);
    assert_eq!(state.move_count, 0);
    assert_eq!(state.status, 0);
    assert_eq!(state.board.len(), (ROWS * COLS) as usize);
    assert!(state.board.iter().all(|c| *c == 0));
}

#[test]
fn tests_test_get_board_after_init() {
    let (w, _p1, _p2) = setup();
    let board = ConnectFourContract::get_board(&w);
    assert_eq!(board.len(), (ROWS * COLS) as usize);
    assert!(board.iter().all(|c| *c == 0));
}

#[test]
fn test_drop_piece_first_move() {
    let (mut w, p1, _p2) = setup();
    let result = drop(&mut w, &p1, 3);
    assert!(result.success);
    assert_eq!(result.message, DropMessage::Accepted);
    assert_eq!(result.row_placed, Some(5));
    let state = result.game_state;
    assert_eq!(state.move_count, 1);
    assert!(!state.is_player_one_turn);
    assert_eq!(state.board[(5 * COLS + 3) as usize], 1);
}

#[test]
fn test_drop_piece_gravity() {
    let (mut w, p1, p2) = setup();
    assert_eq!(drop(&mut w, &p1, 3).row_placed, Some(5));
    assert_eq!(drop(&mut w, &p2, 3).row_placed, Some(4));
    assert_eq!(drop(&mut w, &p1, 3).row_placed, Some(3));
    let board = ConnectFourContract::get_state(&w).board;
    assert_eq!(board[(5 * COLS + 3) as usize], 1);
    assert_eq!(board[(4 * COLS + 3) as usize], 2);
    assert_eq!(board[(3 * COLS + 3) as usize], 1);
}

#[test]
fn test_drop_piece_alternating_turns() {
    let (mut w, p1, p2) = setup();
    assert!(drop(&mut w, &p1, 0).success);
    assert!(drop(&mut w, &p2, 1).success);
    assert!(drop(&mut w, &p1, 2).success);
    assert_eq!(ConnectFourContract::get_state(&w).move_count, 3);
}

#[test]
fn test_full_column_rejection() {
    let (mut w, p1, p2) = setup();
    for i in 0..6 {
        let p = if i % 2 == 0 { &p1 } else { &p2 };
        assert!(drop(&mut w, p, 0).success, "Should succeed until column is full");
    }
    let result = drop(&mut w, &p1, 0);
    assert!(!result.success);
    assert_eq!(result.message, DropMessage::Full);
    assert_eq!(ConnectFourContract::get_state(&w).status, 0);
}

#[test]
fn test_is_valid_column_full() {
    let (mut w, p1, p2) = setup();
    assert!(ConnectFourContract::is_valid_column(&Some(ConnectFourContract::reset_game(&w)), 0));
    for i in 0..6 {
        let p = if i % 2 == 0 { &p1 } else { &p2 };
        drop(&mut w, p, 0);
    }
    let stored = Some(w);
    assert!(!ConnectFourContract::is_valid_column(&stored, 0));
    assert!(ConnectFourContract::is_valid_column(&stored, 1));
}

#[test]
fn test_wrong_turn_rejection() {
    let (mut w, p1, p2) = setup();
    let result = drop(&mut w, &p2, 3);
    assert!(!result.success);
    assert_eq!(result.message, DropMessage::NotTurn);
    drop(&mut w, &p1, 3);
    let result = drop(&mut w, &p1, 3);
    assert!(!result.success);
    assert_eq!(result.message, DropMessage::NotTurn);
}

#[test]
fn test_invalid_player_rejection() {
    let (mut w, _p1, _p2) = setup();
    let random_player = b"GRANDOM".to_vec();
    let result = drop(&mut w, &random_player, 3);
    assert!(!result.success);
    assert_eq!(result.message, DropMessage::NotPlayer);
}

#[test]
fn test_horizontal_win_bottom_row() {
    let (mut w, p1, p2) = setup();
    drop(&mut w, &p1, 0);
    drop(&mut w, &p2, 4);
    drop(&mut w, &p1, 1);
    drop(&mut w, &p2, 5);
    drop(&mut w, &p1, 2);
    drop(&mut w, &p2, 6);
    drop(&mut w, &p1, 3);
    assert_eq!(ConnectFourContract::get_state(&w).status, 1);
    assert!(ConnectFourContract::is_finished(&w));
    assert_eq!(ConnectFourContract::get_winner(&w), Some(p1));
}

#[test]
fn test_horizontal_win_middle_row() {
    let (mut w, p1, p2) = setup();
    for col in 0..4 {
        drop(&mut w, &p1, col);
        drop(&mut w, &p2, col);
        drop(&mut w, &p1, col);
    }
    let (mut w2, q1, q2) = setup();
    for _ in 0..3 {
        for col in 0..4 {
            drop(&mut w2, &q1, col);
            drop(&mut w2, &q2, col);
        }
    }
}

#[test]
fn test_horizontal_win_any_row() {
    let (mut w, p1, p2) = setup();
    let moves = [(p1.clone(), 0u32), (p2.clone(), 4), (p1.clone(), 1), (p2.clone(), 5), (p1.clone(), 2), (p2.clone(), 6), (p1.clone(), 3)];
    for (p, col) in moves.iter() {
        drop(&mut w, p, *col);
    }
    assert_eq!(ConnectFourContract::get_state(&w).status, 1);
}

#[test]
fn test_vertical_win() {
    let (mut w, p1, p2) = setup();
    drop(&mut w, &p1, 3);
    drop(&mut w, &p2, 0);
    drop(&mut w, &p1, 3);
    drop(&mut w, &p2, 1);
    drop(&mut w, &p1, 3);
    drop(&mut w, &p2, 2);
    drop(&mut w, &p1, 3);
    assert_eq!(ConnectFourContract::get_state(&w).status, 1);
}

#[test]
fn test_vertical_win_player_two() {
    let (mut w, p1, p2) = setup();
    drop(&mut w, &p1, 0);
    drop(&mut w, &p2, 5);
    drop(&mut w, &p1, 6);
    drop(&mut w, &p2, 5);
    drop(&mut w, &p1, 0);
    drop(&mut w, &p2, 5);
    drop(&mut w, &p1, 6);
    drop(&mut w, &p2, 5);
    assert_eq!(ConnectFourContract::get_state(&w).status, 2);
    assert_eq!(ConnectFourContract::get_winner(&w), Some(p2));
}

#[test]
fn test_diagonal_win_positive_slope() {
    let (mut w, p1, p2) = setup();
    drop(&mut w, &p1, 0);
    drop(&mut w, &p2, 4);
    drop(&mut w, &p2, 1);
    drop(&mut w, &p1, 1);
    drop(&mut w, &p2, 5);
    drop(&mut w, &p2, 2);
    drop(&mut w, &p2, 2);
    drop(&mut w, &p1, 2);
    drop(&mut w, &p2, 6);
    drop(&mut w, &p2, 3);
    drop(&mut w, &p2, 3);
    drop(&mut w, &p2, 3);
    drop(&mut w, &p1, 3);
    assert_eq!(ConnectFourContract::get_state(&w).status, 1);
}

#[test]
fn test_diagonal_win_negative_slope() {
    let (mut w, p1, p2) = setup();
    drop(&mut w, &p1, 0);
    drop(&mut w, &p2, 0);
    drop(&mut w, &p1, 0);
    drop(&mut w, &p2, 4);
    drop(&mut w, &p2, 1);
    drop(&mut w, &p1, 1);
    drop(&mut w, &p2, 1);
    drop(&mut w, &p1, 1);
    drop(&mut w, &p2, 5);
    drop(&mut w, &p2, 2);
    drop(&mut w, &p1, 2);
    drop(&mut w, &p2, 2);
    drop(&mut w, &p1, 2);
    drop(&mut w, &p2, 2);
    drop(&mut w, &p2, 6);
    drop(&mut w, &p2, 3);
    drop(&mut w, &p2, 3);
    drop(&mut w, &p2, 3);
    drop(&mut w, &p2, 3);
    drop(&mut w, &p2, 3);
    drop(&mut w, &p1, 3);
    assert_eq!(ConnectFourContract::get_state(&w).status, 1);
}

#[test]
fn test_draw_detection() {
    let (mut w, p1, p2) = setup();
    let mut count = 0;
    for col in 0..COLS {
        for _row in 0..ROWS {
            let p = if count % 2 == 0 { &p1 } else { &p2 };
            let result = drop(&mut w, p, col);
            if !result.success || result.game_state.status != 0 {
                break;
            }
            count += 1;
        }
        if ConnectFourContract::is_finished(&w) {
            break;
        }
    }
    let state = ConnectFourContract::get_state(&w);
    assert!(state.status != 0 || state.move_count == ROWS * COLS);
}

#[test]
fn test_draw_on_full_board_no_winner() {
    let (mut w, p1, p2) = setup();
    let pattern = [0u32, 0, 1, 1, 2, 2, 3, 3, 4, 4, 5, 5, 6, 6];
    for i in 0..(ROWS * COLS / 2) {
        let col1 = pattern[((i * 2) % (pattern.len() as u32)) as usize];
        let col2 = pattern[(((i * 2) + 1) % (pattern.len() as u32)) as usize];
        let r1 = drop(&mut w, &p1, col1);
        if !r1.success || r1.game_state.status != 0 {
            break;
        }
        let r2 = drop(&mut w, &p2, col2);
        if !r2.success || r2.game_state.status != 0 {
            break;
        }
    }
    let state = ConnectFourContract::get_state(&w);
    assert!(state.status != 0 || state.move_count == ROWS * COLS);
}

#[test]
fn test_out_of_bounds_column() {
    let (mut w, p1, _p2) = setup();
    let result = drop(&mut w, &p1, 7);
    assert!(!result.success);
    assert_eq!(result.message, DropMessage::Invalid);
    let result2 = drop(&mut w, &p1, 100);
    assert!(!result2.success);
    assert_eq!(result2.message, DropMessage::Invalid);
}

#[test]
fn tests_test_cannot_play_after_game_over() {
    let (mut w, p1, p2) = setup();
    drop(&mut w, &p1, 3);
    drop(&mut w, &p2, 1);
    drop(&mut w, &p1, 3);
    drop(&mut w, &p2, 2);
    drop(&mut w, &p1, 3);
    drop(&mut w, &p2, 4);
    drop(&mut w, &p1, 3);
    assert!(ConnectFourContract::is_finished(&w));
    assert_eq!(ConnectFourContract::get_state(&w).status, 1);
    let result = drop(&mut w, &p1, 0);
    assert!(!result.success);
    assert_eq!(result.message, DropMessage::GameOver);
    assert_eq!(ConnectFourContract::get_state(&w).move_count, 7);
}

#[test]
fn tests_test_reset_game() {
    let (mut w, p1, p2) = setup();
    drop(&mut w, &p1, 3);
    drop(&mut w, &p2, 4);
    let fresh = ConnectFourContract::reset_game(&w);
    let state = ConnectFourContract::get_state(&fresh);
    assert_eq!(state.move_count, 0);
    assert!(state.is_player_one_turn);
    assert_eq!(state.status, 0);
    assert_eq!(state.player_one, p1);
    assert_eq!(state.player_two, p2);
    assert!(state.board.iter().all(|c| *c == 0));
}

#[test]
fn test_get_winner_before_game_over() {
    let (mut w, p1, _p2) = setup();
    assert_eq!(ConnectFourContract::get_winner(&w), None);
    drop(&mut w, &p1, 3);
    assert_eq!(ConnectFourContract::get_winner(&w), None);
}

#[test]
fn test_last_move_tracking() {
    let (mut w, p1, p2) = setup();
    assert_eq!(ConnectFourContract::get_state(&w).last_move_col, None);
    drop(&mut w, &p1, 5);
    assert_eq!(ConnectFourContract::get_state(&w).last_move_col, Some(5));
    drop(&mut w, &p2, 2);
    assert_eq!(ConnectFourContract::get_state(&w).last_move_col, Some(2));
}

#[test]
fn test_multiple_wins_detected_immediately() {
    let (mut w, p1, p2) = setup();
    let moves = [(p1.clone(), 0u32), (p2.clone(), 4), (p1.clone(), 1), (p2.clone(), 5), (p1.clone(), 2), (p2.clone(), 6), (p1.clone(), 3)];
    for (i, (p, col)) in moves.iter().enumerate() {
        let result = drop(&mut w, p, *col);
        if i == 6 {
            assert_eq!(result.game_state.status, 1);
        } else {
            assert_eq!(result.game_state.status, 0);
        }
    }
}

#[test]
fn test_is_valid_column_off_board_without_game() {
    let stored: Option<ECSWorldState> = None;
    assert!(!ConnectFourContract::is_valid_column(&stored, 7));
}

#[test]
fn connect_four_component_bytes_round_trip() {
    let mut board = BoardComponent::new(9);
    board.set_cell(5, 3, 1);
    let bytes = board.serialize();
    assert_eq!(bytes.len(), 8 + 42 * 4);
    assert_eq!(&bytes[..8], &[0, 0, 0, 9, 0, 0, 0, 42]);
    let back = BoardComponent::deserialize(&bytes).unwrap();
    assert_eq!(back.entity_id, 9);
    assert_eq!(back.cells, board.cells);
    // a header announcing more cells than the bytes hold yields what is there
    let short = BoardComponent::deserialize(&vec![0, 0, 0, 1, 0, 0, 0, 5, 0, 0, 0, 7]).unwrap();
    assert_eq!(short.cells, vec![7]);
    assert!(BoardComponent::deserialize(&vec![0; 7]).is_none());

    let mut state = GameStateComponent::new(4);
    state.move_count = 3;
    state.status = 2;
    state.last_move_col = Some(6);
    state.is_player_one_turn = false;
    let bytes = state.serialize();
    assert_eq!(bytes, vec![0, 0, 0, 4, 0, 0, 0, 0, 3, 0, 0, 0, 2, 1, 0, 0, 0, 6]);
    let back = GameStateComponent::deserialize(&bytes).unwrap();
    assert_eq!((back.entity_id, back.is_player_one_turn, back.move_count, back.status, back.last_move_col), (4, false, 3, 2, Some(6)));
    let fresh = GameStateComponent::new(1).serialize();
    assert_eq!(fresh.len(), 14);
    assert_eq!(GameStateComponent::deserialize(&fresh).unwrap().last_move_col, None);
    // a flagged last move without its bytes reads as none
    assert_eq!(GameStateComponent::deserialize(&bytes[..14].to_vec()).unwrap().last_move_col, None);
    assert!(GameStateComponent::deserialize(&vec![0; 13]).is_none());
}
