use cougr_games::reversi::{
    flips_in_dir, has_legal_moves, init_board, is_board_full, move_validation_system,
    opponent_of, scoring_system, ECSWorldState, ReversiContract, ReversiError, BLACK, EMPTY,
    STATUS_ACTIVE, STATUS_FINISHED, WHITE, WINNER_DRAW, WINNER_NONE,
};
use cougr_games::reversi::{BoardComponent, GameStatusComponent, ScoreComponent, TurnComponent};

fn p1() -> Vec<u8> {
    b"GPLAYERONE".to_vec()
}

fn p2() -> Vec<u8> {
    b"GPLAYERTWO".to_vec()
}

fn setup() -> ECSWorldState {
    ReversiContract::init_game(p1(), p2())
}

#[test]
fn test_init_board_layout() {
    let world = setup();
    let board = ReversiContract::get_board(&world);
    assert_eq!(board.width, 8);
    assert_eq!(board.height, 8);
    assert_eq!(board.cells.get(3 * 8 + 3), Some(&WHITE));
    assert_eq!(board.cells.get(3 * 8 + 4), Some(&BLACK));
    assert_eq!(board.cells.get(4 * 8 + 3), Some(&BLACK));
    assert_eq!(board.cells.get(4 * 8 + 4), Some(&WHITE));
    assert_eq!(board.cells.get(0), Some(&EMPTY));
}

#[test]
fn test_init_score() {
    let world = setup();
    let score = ReversiContract::get_score(&world);
    assert_eq!(score.black_count, 2);
    assert_eq!(score.white_count, 2);
    assert_eq!(score.winner, WINNER_NONE);
}

#[test]
fn test_init_game_state() {
    let world = setup();
    let state = ReversiContract::get_state(&world);
    assert_eq!(state.current_player, BLACK);
    assert_eq!(state.pass_count, 0);
    assert_eq!(state.status, STATUS_ACTIVE);
}

#[test]
fn test_illegal_move_occupied_cell() {
    let mut world = setup();
    let result = ReversiContract::submit_move(&mut world, &p1(), 3, 3);
    assert!(result.is_err());
}

#[test]
fn test_illegal_move_no_flip() {
    let mut world = setup();
    let result = ReversiContract::submit_move(&mut world, &p1(), 0, 0);
    assert!(result.is_err());
}

#[test]
fn test_legal_move_horizontal_flip() {
    let mut world = setup();
    ReversiContract::submit_move(&mut world, &p1(), 3, 2).unwrap();
    let board = ReversiContract::get_board(&world);
    assert_eq!(board.cells.get(3 * 8 + 2), Some(&BLACK));
    assert_eq!(board.cells.get(3 * 8 + 3), Some(&BLACK));
    assert_eq!(board.cells.get(3 * 8 + 4), Some(&BLACK));
}

#[test]
fn test_legal_move_vertical_flip() {
    let mut world = setup();
    ReversiContract::submit_move(&mut world, &p1(), 2, 3).unwrap();
    let board = ReversiContract::get_board(&world);
    assert_eq!(board.cells.get(2 * 8 + 3), Some(&BLACK));
    assert_eq!(board.cells.get(3 * 8 + 3), Some(&BLACK));
    assert_eq!(board.cells.get(4 * 8 + 3), Some(&BLACK));
}

#[test]
fn test_legal_move_diagonal_flip() {
    let mut world = setup();
    ReversiContract::submit_move(&mut world, &p1(), 3, 2).unwrap();
    ReversiContract::submit_move(&mut world, &p2(), 2, 2).unwrap();
    let board = ReversiContract::get_board(&world);
    assert_eq!(board.cells.get(2 * 8 + 2), Some(&WHITE));
    assert_eq!(board.cells.get(3 * 8 + 3), Some(&WHITE));
}

#[test]
fn test_score_updates_after_move() {
    let mut world = setup();
    ReversiContract::submit_move(&mut world, &p1(), 3, 2).unwrap();
    let score = ReversiContract::get_score(&world);
    assert_eq!(score.black_count, 4);
    assert_eq!(score.white_count, 1);
}

#[test]
fn test_turn_alternates() {
    let mut world = setup();
    ReversiContract::submit_move(&mut world, &p1(), 3, 2).unwrap();
    assert_eq!(ReversiContract::get_state(&world).current_player, WHITE);
    ReversiContract::submit_move(&mut world, &p2(), 2, 2).unwrap();
    assert_eq!(ReversiContract::get_state(&world).current_player, BLACK);
}

#[test]
fn test_wrong_player_rejected() {
    let mut world = setup();
    let result = ReversiContract::submit_move(&mut world, &p2(), 3, 2);
    assert!(result.is_err());
}

#[test]
fn test_pass_count_normal_after_move() {
    let mut world = setup();
    ReversiContract::submit_move(&mut world, &p1(), 3, 2).unwrap();
    assert_eq!(ReversiContract::get_state(&world).pass_count, 0);
}

#[test]
fn test_multi_move_sequence_stays_active() {
    let mut world = setup();
    ReversiContract::submit_move(&mut world, &p1(), 3, 2).unwrap();
    ReversiContract::submit_move(&mut world, &p2(), 2, 2).unwrap();
    ReversiContract::submit_move(&mut world, &p1(), 2, 3).unwrap();

    let state = ReversiContract::get_state(&world);
    assert_eq!(state.status, STATUS_ACTIVE);
    let score = ReversiContract::get_score(&world);
    assert_eq!(score.winner, WINNER_NONE);
    assert!(score.black_count + score.white_count > 4);
}

#[test]
fn reversi_error_kinds() {
    let mut world = setup();
    assert_eq!(ReversiContract::submit_move(&mut world, &b"nobody".to_vec(), 3, 2), Err(ReversiError::UnknownPlayer));
    assert_eq!(ReversiContract::submit_move(&mut world, &p2(), 3, 2), Err(ReversiError::NotYourTurn));
    assert_eq!(ReversiContract::submit_move(&mut world, &p1(), 0, 0), Err(ReversiError::IllegalMove));
    assert_eq!(ReversiContract::submit_move(&mut world, &p1(), 8, 0), Err(ReversiError::IllegalMove));
    world.status.status = STATUS_FINISHED;
    assert_eq!(ReversiContract::submit_move(&mut world, &p1(), 3, 2), Err(ReversiError::GameFinished));
}

#[test]
fn reversi_refused_move_changes_nothing() {
    let mut world = setup();
    let before = world.board.cells.clone();
    let _ = ReversiContract::submit_move(&mut world, &p1(), 0, 0);
    assert_eq!(world.board.cells, before);
    assert_eq!(world.turn.current_player, BLACK);
}

#[test]
fn reversi_flip_counting() {
    let board = init_board();
    // black at (3,2) looking right: one white stone then black
    assert_eq!(flips_in_dir(&board.cells, 3, 2, BLACK, WHITE, 0, 1), 1);
    // looking left: off the board
    assert_eq!(flips_in_dir(&board.cells, 3, 2, BLACK, WHITE, 0, -1), 0);
    assert!(move_validation_system(&board, 3, 2, BLACK));
    assert!(!move_validation_system(&board, 3, 3, BLACK));
    assert!(has_legal_moves(&board, BLACK));
    assert!(has_legal_moves(&board, WHITE));
    assert!(!is_board_full(&board));
    assert_eq!(opponent_of(BLACK), WHITE);
    assert_eq!(opponent_of(WHITE), BLACK);
}

#[test]
fn reversi_game_ends_when_nobody_can_move() {
    let mut world = setup();
    // black at (0,2), white at (0,1): black playing (0,0) takes the last white stone
    let mut cells = vec![EMPTY; 64];
    cells[1] = WHITE;
    cells[2] = BLACK;
    world.board.cells = cells;
    world.score = scoring_system(&world.board);
    ReversiContract::submit_move(&mut world, &p1(), 0, 0).unwrap();
    let score = ReversiContract::get_score(&world);
    assert_eq!(score.black_count, 3);
    assert_eq!(score.white_count, 0);
    assert_eq!(world.turn.pass_count, 2);
    assert_eq!(world.status.status, STATUS_FINISHED);
    assert_eq!(score.winner, BLACK);
    assert_ne!(score.winner, WINNER_DRAW);
}

#[test]
fn reversi_component_bytes() {
    let board = init_board();
    let bytes = board.serialize();
    // width, height and 64 cells: 264 bytes, which the reader (expecting 272) refuses
    assert_eq!(bytes.len(), 264);
    assert!(BoardComponent::deserialize(&bytes).is_none());
    let mut padded = bytes.clone();
    padded.extend_from_slice(&[0u8; 8]);
    let back = BoardComponent::deserialize(&padded).unwrap();
    assert_eq!(back.cells, board.cells);
    assert_eq!((back.width, back.height), (8, 8));

    let turn = TurnComponent { current_player: WHITE, pass_count: 1 };
    let back = TurnComponent::deserialize(&turn.serialize()).unwrap();
    assert_eq!((back.current_player, back.pass_count), (WHITE, 1));
    let status = GameStatusComponent { status: STATUS_FINISHED };
    assert_eq!(status.serialize(), vec![0, 0, 0, 1]);
    assert_eq!(GameStatusComponent::deserialize(&status.serialize()).unwrap().status, STATUS_FINISHED);
    let score = ScoreComponent { black_count: 30, white_count: 34 };
    let back = ScoreComponent::deserialize(&score.serialize()).unwrap();
    assert_eq!((back.black_count, back.white_count), (30, 34));
    assert!(ScoreComponent::deserialize(&vec![0; 4]).is_none());
}
