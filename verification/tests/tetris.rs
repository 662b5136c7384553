use cougr_games::tetris::{
    check_collision, get_piece_coords, lock_piece_with, piece_for_index, try_move, GameState,
    Piece, TetrisContract, TetrominoShape, FULL_ROW,
};
use soroban_sdk::testutils::{Address as _, EnvTestConfig};
use soroban_sdk::{Address, Env};

/// Runs `f` inside a contract frame, where the host's generator is available.
fn in_contract<T>(f: impl FnOnce(&Env) -> T) -> T {
    let env = Env::new_with_config(EnvTestConfig { capture_snapshot_at_drop: false });
    let admin = Address::generate(&env);
    let asset = env.register_stellar_asset_contract_v2(admin);
    let id = asset.address();
    env.as_contract(&id, || f(&env))
}

/// A shape index from the host's generator, as the contract draws it.
fn draw(env: &Env) -> u64 {
    env.prng().gen_range(0..7)
}

fn piece(shape: TetrominoShape) -> Piece {
    Piece { shape, x: 3, y: 0, rotation: 0 }
}

#[test]
fn tetris_test_init_game() {
    in_contract(|env| {
        let state = TetrisContract::init_game(draw(env), draw(env));
        assert_eq!(state.score, 0);
        assert!(!state.game_over);
    });
}

#[test]
fn test_move_functions() {
    in_contract(|env| {
        let mut state = TetrisContract::init_game(draw(env), draw(env));
        let _moved = TetrisContract::move_left(&mut state);
    });
}

#[test]
fn test_rotation() {
    in_contract(|env| {
        let mut state = TetrisContract::init_game(draw(env), draw(env));
        let _rotated = TetrisContract::rotate(&mut state);
    });
}

#[test]
fn test_collision_detection() {
    in_contract(|env| {
        let mut state = TetrisContract::init_game(draw(env), draw(env));
        for _ in 0..10 {
            TetrisContract::move_left(&mut state);
        }
    });
}

#[test]
fn test_line_clearing() {
    in_contract(|env| {
        let mut state = TetrisContract::init_game(draw(env), draw(env));
        TetrisContract::update_tick(&mut state, draw(env));
    });
}

#[test]
fn test_score_updates() {
    in_contract(|env| {
        let state = TetrisContract::init_game(draw(env), draw(env));
        assert_eq!(state.score, 0);
    });
}

#[test]
fn test_game_over() {
    in_contract(|env| {
        let state = TetrisContract::init_game(draw(env), draw(env));
        assert!(!state.game_over);
    });
}

#[test]
fn test_invalid_action_at_left_wall_returns_false() {
    in_contract(|env| {
        let mut state = TetrisContract::init_game(draw(env), draw(env));
        let mut last = true;
        for _ in 0..16 {
            last = TetrisContract::move_left(&mut state);
        }
        assert!(!last);
    });
}

#[test]
fn tetris_new_game_is_empty() {
    let state = TetrisContract::new_game(piece(TetrominoShape::T), piece(TetrominoShape::O));
    assert_eq!(state.board, vec![0u32; 20]);
    assert_eq!(state.level, 1);
    assert_eq!(state.lines_cleared, 0);
    assert_eq!(state.current_piece, piece(TetrominoShape::T));
    assert_eq!(state.next_piece, piece(TetrominoShape::O));
}

#[test]
fn tetris_piece_table() {
    assert_eq!(piece_for_index(0).shape, TetrominoShape::I);
    assert_eq!(piece_for_index(3).shape, TetrominoShape::O);
    assert_eq!(piece_for_index(6), piece(TetrominoShape::Z));
    assert_eq!(get_piece_coords(TetrominoShape::O, 0), [(0, 0), (1, 0), (0, 1), (1, 1)]);
    assert_eq!(get_piece_coords(TetrominoShape::O, 3), get_piece_coords(TetrominoShape::O, 0));
}

#[test]
fn tetris_collision_with_walls_and_floor() {
    let board = vec![0u32; 20];
    assert!(!check_collision(&board, TetrominoShape::O, 0, 0, 0));
    assert!(check_collision(&board, TetrominoShape::O, -1, 0, 0));
    assert!(check_collision(&board, TetrominoShape::O, 9, 0, 0));
    assert!(check_collision(&board, TetrominoShape::O, 0, 19, 0));
    let mut filled = vec![0u32; 20];
    filled[1] = 1;
    assert!(check_collision(&filled, TetrominoShape::O, 0, 0, 0));
}

#[test]
fn tetris_blocked_move_changes_nothing() {
    let mut state = TetrisContract::new_game(Piece { shape: TetrominoShape::O, x: 0, y: 0, rotation: 0 }, piece(TetrominoShape::I));
    assert!(!try_move(&mut state, -1, 0, 0));
    assert_eq!(state.current_piece.x, 0);
    assert!(try_move(&mut state, 1, 0, 0));
    assert_eq!(state.current_piece.x, 1);
    assert!(try_move(&mut state, 0, 0, 1));
    assert_eq!(state.current_piece.rotation, 1);
}

#[test]
fn tetris_locking_clears_a_full_row_and_scores() {
    // bottom row full but for cells 0 and 1; an O piece fills them
    let mut state: GameState = TetrisContract::new_game(
        Piece { shape: TetrominoShape::O, x: 0, y: 18, rotation: 0 },
        piece(TetrominoShape::T),
    );
    state.board[19] = FULL_ROW & !0b11;
    lock_piece_with(&mut state, piece(TetrominoShape::L));
    assert_eq!(state.lines_cleared, 1);
    assert_eq!(state.score, 200);
    // the O's top half moved down into the bottom row
    assert_eq!(state.board[19], 0b11);
    assert_eq!(state.board[18], 0);
    assert_eq!(state.current_piece, piece(TetrominoShape::T));
    assert_eq!(state.next_piece, piece(TetrominoShape::L));
    assert!(!state.game_over);
}

#[test]
fn tetris_spawn_on_filled_board_ends_the_game() {
    let mut state = TetrisContract::new_game(
        Piece { shape: TetrominoShape::O, x: 0, y: 18, rotation: 0 },
        piece(TetrominoShape::O),
    );
    state.board[0] = 0b0000011000;
    lock_piece_with(&mut state, piece(TetrominoShape::I));
    assert!(state.game_over);
}

#[test]
fn tetris_drop_falls_to_the_floor() {
    in_contract(|env| {
        let mut state = TetrisContract::new_game(
            Piece { shape: TetrominoShape::O, x: 0, y: 0, rotation: 0 },
            piece(TetrominoShape::T),
        );
        let drawn = draw(env);
        let dropped = TetrisContract::drop(&mut state, drawn);
        assert_eq!(dropped, 18);
        assert_eq!(state.next_piece, piece_for_index(drawn));
        assert_eq!(state.board[18], 0b11);
        assert_eq!(state.board[19], 0b11);
        assert_eq!(state.current_piece, piece(TetrominoShape::T));
    });
}

#[test]
fn tetris_game_over_refuses_moves() {
    in_contract(|env| {
        let mut state = TetrisContract::new_game(piece(TetrominoShape::T), piece(TetrominoShape::O));
        state.game_over = true;
        assert!(!TetrisContract::move_left(&mut state));
        assert!(!TetrisContract::move_right(&mut state));
        assert!(!TetrisContract::rotate(&mut state));
        assert!(!TetrisContract::move_down(&mut state, draw(env)));
        assert_eq!(TetrisContract::drop(&mut state, draw(env)), 0);
    });
}

#[test]
fn tetris_rotations_above_three_and_the_o_piece() {
    assert_eq!(get_piece_coords(TetrominoShape::T, 9), get_piece_coords(TetrominoShape::T, 3));
    assert_eq!(get_piece_coords(TetrominoShape::I, 4), get_piece_coords(TetrominoShape::I, 3));
    assert_eq!(get_piece_coords(TetrominoShape::O, 7), get_piece_coords(TetrominoShape::O, 0));
    for shape in [TetrominoShape::I, TetrominoShape::J, TetrominoShape::L, TetrominoShape::O,
                  TetrominoShape::S, TetrominoShape::T, TetrominoShape::Z] {
        for rot in 0..4 {
            let c = get_piece_coords(shape, rot);
            for i in 0..4 {
                for j in (i + 1)..4 {
                    assert_ne!(c[i], c[j]);
                }
            }
        }
    }
}
