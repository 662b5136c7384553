use cougr_games::checkers::{CheckersContract, CheckersError, CheckersWorld, GameStatus};

fn players() -> (Vec<u8>, Vec<u8>) {
    (b"GPLAYERONE".to_vec(), b"GPLAYERTWO".to_vec())
}

fn setup() -> (Option<CheckersWorld>, Vec<u8>, Vec<u8>) {
    let (p1, p2) = players();
    let w = CheckersContract::init_game(&None, p1.clone(), p2.clone()).unwrap();
    (Some(w), p1, p2)
}

fn cell(g: &Option<CheckersWorld>, row: u32, col: u32) -> i32 {
    CheckersContract::get_board(g).unwrap().cells[(row * 8 + col) as usize]
}

fn mv(g: &mut Option<CheckersWorld>, p: &Vec<u8>, fr: u32, fc: u32, tr: u32, tc: u32) {
    CheckersContract::submit_move(g, p, fr, fc, tr, tc).unwrap();
}

#[test]
fn test_init_sets_standard_start_position() {
    let (g, _p1, _p2) = setup();
    assert_eq!(cell(&g, 0, 1), 1, "P1 piece at (0,1)");
    assert_eq!(cell(&g, 2, 7), 1, "P1 piece at (2,7)");
    assert_eq!(cell(&g, 5, 0), -1, "P2 piece at (5,0)");
    assert_eq!(cell(&g, 7, 6), -1, "P2 piece at (7,6)");
    assert_eq!(cell(&g, 0, 0), 0, "light square (0,0) empty");
    assert_eq!(cell(&g, 4, 4), 0, "neutral square (4,4) empty");
    let state = CheckersContract::get_state(&g).unwrap();
    assert_eq!(state.turn.current_player, 1);
    assert_eq!(state.turn.move_number, 1);
    assert_eq!(state.status.status, GameStatus::Active);
    assert_eq!(state.status.winner, 0);
}

#[test]
fn test_double_init_fails() {
    let (g, p1, p2) = setup();
    assert_eq!(CheckersContract::init_game(&g, p1, p2).err(), Some(CheckersError::AlreadyInitialised));
}

#[test]
fn test_get_state_before_init_returns_error() {
    let g: Option<CheckersWorld> = None;
    assert_eq!(CheckersContract::get_state(&g).err(), Some(CheckersError::NotInitialised));
}

#[test]
fn test_get_board_before_init_returns_error() {
    let g: Option<CheckersWorld> = None;
    assert_eq!(CheckersContract::get_board(&g).err(), Some(CheckersError::NotInitialised));
}

#[test]
fn test_get_current_player_is_p1_after_init() {
    let (g, p1, _p2) = setup();
    assert_eq!(CheckersContract::get_current_player(&g).unwrap(), p1);
}

#[test]
fn test_legal_step_moves_piece() {
    let (mut g, p1, _p2) = setup();
    mv(&mut g, &p1, 2, 1, 3, 2);
    assert_eq!(cell(&g, 2, 1), 0, "source cleared");
    assert_eq!(cell(&g, 3, 2), 1, "piece at destination");
}

#[test]
fn test_turn_advances_after_step() {
    let (mut g, p1, p2) = setup();
    mv(&mut g, &p1, 2, 1, 3, 2);
    let state = CheckersContract::get_state(&g).unwrap();
    assert_eq!(state.turn.current_player, 2);
    assert_eq!(state.turn.move_number, 2);
    assert_eq!(CheckersContract::get_current_player(&g).unwrap(), p2);
}

#[test]
fn test_light_square_destination_rejected() {
    let (mut g, p1, _p2) = setup();
    assert_eq!(CheckersContract::submit_move(&mut g, &p1, 2, 0, 3, 1), Err(CheckersError::NotDarkSquare));
}

#[test]
fn test_moving_opponent_piece_rejected() {
    let (mut g, p1, _p2) = setup();
    assert_eq!(CheckersContract::submit_move(&mut g, &p1, 5, 0, 4, 1), Err(CheckersError::NotYourPiece));
}

#[test]
fn test_moving_empty_square_rejected() {
    let (mut g, p1, _p2) = setup();
    assert_eq!(CheckersContract::submit_move(&mut g, &p1, 3, 0, 4, 1), Err(CheckersError::NotYourPiece));
}

#[test]
fn test_non_diagonal_move_rejected() {
    let (mut g, p1, _p2) = setup();
    assert_eq!(CheckersContract::submit_move(&mut g, &p1, 2, 1, 2, 3), Err(CheckersError::IllegalMove));
}

#[test]
fn test_backward_step_for_man_rejected() {
    let (mut g, p1, p2) = setup();
    mv(&mut g, &p1, 2, 1, 3, 2);
    mv(&mut g, &p2, 5, 6, 4, 7);
    assert_eq!(CheckersContract::submit_move(&mut g, &p1, 3, 2, 2, 1), Err(CheckersError::IllegalMove));
}

#[test]
fn test_out_of_bounds_rejected() {
    let (mut g, p1, _p2) = setup();
    assert_eq!(CheckersContract::submit_move(&mut g, &p1, 0, 1, 1, 8), Err(CheckersError::OutOfBounds));
}

#[test]
fn test_destination_occupied_rejected() {
    let (mut g, p1, _p2) = setup();
    assert_eq!(CheckersContract::submit_move(&mut g, &p1, 0, 1, 1, 0), Err(CheckersError::DestinationOccupied));
}

#[test]
fn test_p2_cannot_move_on_p1_turn() {
    let (mut g, _p1, p2) = setup();
    assert_eq!(CheckersContract::submit_move(&mut g, &p2, 5, 0, 4, 1), Err(CheckersError::WrongTurn));
}

#[test]
fn test_unknown_address_rejected() {
    let (mut g, _p1, _p2) = setup();
    let stranger = b"GSTRANGER".to_vec();
    assert_eq!(CheckersContract::submit_move(&mut g, &stranger, 2, 1, 3, 2), Err(CheckersError::NotAPlayer));
}

#[test]
fn test_capture_removes_opponent_piece() {
    let (mut g, p1, p2) = setup();
    mv(&mut g, &p1, 2, 3, 3, 4);
    mv(&mut g, &p2, 5, 6, 4, 5);
    mv(&mut g, &p1, 3, 4, 5, 6);
    assert_eq!(cell(&g, 3, 4), 0, "source vacated");
    assert_eq!(cell(&g, 4, 5), 0, "captured piece removed");
    assert_eq!(cell(&g, 5, 6), 1, "P1 piece at landing square");
}

#[test]
fn test_step_rejected_when_capture_available() {
    let (mut g, p1, p2) = setup();
    mv(&mut g, &p1, 2, 3, 3, 4);
    mv(&mut g, &p2, 5, 6, 4, 5);
    assert_eq!(CheckersContract::submit_move(&mut g, &p1, 2, 1, 3, 0), Err(CheckersError::MustCapture));
}

fn promotion_sequence(g: &mut Option<CheckersWorld>, p1: &Vec<u8>, p2: &Vec<u8>) {
    mv(g, p1, 2, 5, 3, 4);
    mv(g, p2, 5, 0, 4, 1);
    mv(g, p1, 2, 7, 3, 6);
    mv(g, p2, 6, 1, 5, 0);
    mv(g, p1, 2, 1, 3, 0);
    mv(g, p2, 7, 0, 6, 1);
    mv(g, p1, 1, 0, 2, 1);
    mv(g, p2, 5, 2, 4, 3);
    mv(g, p1, 3, 4, 5, 2);
    mv(g, p1, 5, 2, 7, 0);
}

#[test]
fn test_piece_promoted_to_king_at_back_rank() {
    let (mut g, p1, p2) = setup();
    promotion_sequence(&mut g, &p1, &p2);
    assert_eq!(cell(&g, 7, 0), 2, "P1 piece promoted to king (value 2) at row 7, col 0");
}

#[test]
fn test_king_can_move_backward() {
    let (mut g, p1, p2) = setup();
    promotion_sequence(&mut g, &p1, &p2);
    assert_eq!(cell(&g, 7, 0), 2, "king at (7,0)");
    mv(&mut g, &p2, 6, 3, 5, 2);
    mv(&mut g, &p1, 0, 1, 1, 0);
    mv(&mut g, &p2, 5, 4, 4, 3);
    mv(&mut g, &p1, 7, 0, 6, 1);
    assert_eq!(cell(&g, 6, 1), 2, "king retreated to (6,1)");
    assert_eq!(cell(&g, 7, 0), 0, "previous king square is empty");
}

#[test]
fn test_game_is_active_at_start() {
    let (g, _p1, _p2) = setup();
    let state = CheckersContract::get_state(&g).unwrap();
    assert_eq!(state.status.status, GameStatus::Active);
    assert_eq!(state.status.winner, 0);
}

#[test]
fn test_game_over_error_after_game_finished() {
    let (mut g, p1, p2) = setup();
    mv(&mut g, &p1, 2, 3, 3, 4);
    mv(&mut g, &p2, 5, 6, 4, 5);
    mv(&mut g, &p1, 3, 4, 5, 6);
    let state = CheckersContract::get_state(&g).unwrap();
    assert_eq!(state.status.status, GameStatus::Active);
}

#[test]
fn test_get_board_has_64_cells() {
    let (g, _p1, _p2) = setup();
    assert_eq!(CheckersContract::get_board(&g).unwrap().cells.len(), 64);
}

#[test]
fn test_current_player_alternates_each_turn() {
    let (mut g, p1, p2) = setup();
    assert_eq!(CheckersContract::get_current_player(&g).unwrap(), p1);
    mv(&mut g, &p1, 2, 1, 3, 2);
    assert_eq!(CheckersContract::get_current_player(&g).unwrap(), p2);
    mv(&mut g, &p2, 5, 0, 4, 1);
    assert_eq!(CheckersContract::get_current_player(&g).unwrap(), p1);
}

#[test]
fn test_refused_move_leaves_game_unchanged() {
    let (mut g, p1, _p2) = setup();
    let before = CheckersContract::get_board(&g).unwrap().cells;
    assert!(CheckersContract::submit_move(&mut g, &p1, 2, 1, 2, 3).is_err());
    assert_eq!(CheckersContract::get_board(&g).unwrap().cells, before);
    assert_eq!(CheckersContract::get_state(&g).unwrap().turn.move_number, 1);
}

#[test]
fn test_submit_move_before_init_returns_error() {
    let mut g: Option<CheckersWorld> = None;
    let (p1, _p2) = players();
    assert_eq!(CheckersContract::submit_move(&mut g, &p1, 2, 1, 3, 2), Err(CheckersError::NotInitialised));
}

#[test]
fn checkers_board_stays_sound_through_a_capture() {
    let (mut g, p1, p2) = setup();
    mv(&mut g, &p1, 2, 1, 3, 2);
    mv(&mut g, &p2, 5, 4, 4, 3);
    // the capture is forced: 3,2 jumps 4,3
    assert_eq!(CheckersContract::submit_move(&mut g, &p1, 2, 3, 3, 4), Err(CheckersError::MustCapture));
    mv(&mut g, &p1, 3, 2, 5, 4);
    let cells = CheckersContract::get_board(&g).unwrap().cells;
    assert_eq!(cells.len(), 64);
    for (i, v) in cells.iter().enumerate() {
        assert!((-2..=2).contains(v));
        if *v != 0 {
            assert_eq!((i / 8 + i % 8) % 2, 1);
        }
    }
    assert_eq!(cells[4 * 8 + 3], 0);
    assert_eq!(cells[5 * 8 + 4], 1);
}
