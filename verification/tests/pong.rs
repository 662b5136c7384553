use cougr_games::pong::{
    clamp_paddle_position, reset_ball, BallComponent, ECSWorldState, GameState, PongContract, BALL_SPEED, FIELD_HEIGHT,
    FIELD_WIDTH, PADDLE_HEIGHT, PADDLE_SPEED, WINNING_SCORE,
};

fn state(w: &ECSWorldState) -> GameState {
    PongContract::get_game_state(w)
}

fn move_paddle(w: &mut ECSWorldState, player: u32, direction: i32) -> GameState {
    PongContract::move_paddle(w, player, direction);
    state(w)
}

fn tick(w: &mut ECSWorldState) -> GameState {
    PongContract::update_tick(w);
    state(w)
}

#[test]
fn pong_test_init_game() {
    let w = PongContract::init_game();
    let game_state = state(&w);
    assert_eq!(game_state.player1_paddle_y, FIELD_HEIGHT / 2);
    assert_eq!(game_state.player2_paddle_y, FIELD_HEIGHT / 2);
    assert_eq!(game_state.ball_x, FIELD_WIDTH / 2);
    assert_eq!(game_state.ball_y, FIELD_HEIGHT / 2);
    assert_eq!(game_state.ball_vx, BALL_SPEED);
    assert_eq!(game_state.ball_vy, BALL_SPEED);
    assert_eq!(game_state.player1_score, 0);
    assert_eq!(game_state.player2_score, 0);
    assert!(game_state.game_active);
}

#[test]
fn test_move_paddle_player1_up() {
    let mut w = PongContract::init_game();
    let initial_y = state(&w).player1_paddle_y;
    assert_eq!(move_paddle(&mut w, 1, -1).player1_paddle_y, initial_y - PADDLE_SPEED);
}

#[test]
fn test_move_paddle_player1_down() {
    let mut w = PongContract::init_game();
    let initial_y = state(&w).player1_paddle_y;
    assert_eq!(move_paddle(&mut w, 1, 1).player1_paddle_y, initial_y + PADDLE_SPEED);
}

#[test]
fn test_move_paddle_player2() {
    let mut w = PongContract::init_game();
    let initial_y = state(&w).player2_paddle_y;
    assert_eq!(move_paddle(&mut w, 2, 1).player2_paddle_y, initial_y + PADDLE_SPEED);
}

#[test]
fn test_paddle_boundary_top() {
    let mut w = PongContract::init_game();
    for _ in 0..50 {
        move_paddle(&mut w, 1, -1);
    }
    assert_eq!(state(&w).player1_paddle_y, PADDLE_HEIGHT / 2);
}

#[test]
fn test_paddle_boundary_bottom() {
    let mut w = PongContract::init_game();
    for _ in 0..50 {
        move_paddle(&mut w, 1, 1);
    }
    assert_eq!(state(&w).player1_paddle_y, FIELD_HEIGHT - (PADDLE_HEIGHT / 2));
}

#[test]
fn test_ball_movement() {
    let mut w = PongContract::init_game();
    let initial = state(&w);
    let new_state = tick(&mut w);
    assert_eq!(new_state.ball_x, initial.ball_x + BALL_SPEED);
    assert_eq!(new_state.ball_y, initial.ball_y + BALL_SPEED);
}

#[test]
fn test_ball_wall_bounce_top() {
    let mut w = PongContract::init_game();
    for _ in 0..100 {
        let s = tick(&mut w);
        if s.ball_y <= 0 {
            let next_state = tick(&mut w);
            assert!(next_state.ball_vy > 0);
            return;
        }
    }
    panic!("Ball never reached top wall");
}

#[test]
fn test_ball_wall_bounce_bottom() {
    let mut w = PongContract::init_game();
    for _ in 0..100 {
        let s = tick(&mut w);
        if s.ball_y >= FIELD_HEIGHT {
            let next_state = tick(&mut w);
            assert!(next_state.ball_vy < 0);
            return;
        }
    }
}

#[test]
fn test_scoring_player2() {
    let mut w = PongContract::init_game();
    for _ in 0..20 {
        move_paddle(&mut w, 2, 1);
    }
    for _ in 0..200 {
        let s = tick(&mut w);
        if s.player1_score > 0 {
            assert_eq!(s.player1_score, 1);
            assert_eq!(s.player2_score, 0);
            assert_eq!(s.ball_x, FIELD_WIDTH / 2);
            assert_eq!(s.ball_y, FIELD_HEIGHT / 2);
            return;
        }
    }
    panic!("Player 1 never scored");
}

#[test]
fn test_scoring_player1() {
    let mut w = PongContract::init_game();
    for _ in 0..20 {
        move_paddle(&mut w, 2, 1);
    }
    for _ in 0..200 {
        let s = tick(&mut w);
        if s.player1_score > 0 {
            assert_eq!(s.player1_score, 1);
            assert_eq!(s.player2_score, 0);
            return;
        }
    }
    panic!("Player 1 never scored");
}

#[test]
fn test_game_ends_at_winning_score() {
    let mut w = PongContract::init_game();
    for _ in 0..20 {
        move_paddle(&mut w, 2, 1);
    }
    for _ in 0..2000 {
        let s = tick(&mut w);
        if s.player1_score >= WINNING_SCORE {
            assert!(!s.game_active);
            assert_eq!(s.player1_score, WINNING_SCORE);
            return;
        }
    }
    panic!("Game never ended");
}

#[test]
fn test_paddle_collision() {
    let mut w = PongContract::init_game();
    let mut previous_vx = BALL_SPEED;
    for _ in 0..300 {
        let s = tick(&mut w);
        if s.ball_vx != previous_vx {
            assert_eq!(s.ball_vx, -previous_vx);
            return;
        }
        previous_vx = s.ball_vx;
    }
    panic!("Ball never collided with paddle");
}

#[test]
fn pong_test_reset_game() {
    let mut w = PongContract::init_game();
    move_paddle(&mut w, 1, -1);
    move_paddle(&mut w, 2, 1);
    tick(&mut w);
    let reset_state = state(&PongContract::reset_game());
    assert_eq!(reset_state.player1_paddle_y, FIELD_HEIGHT / 2);
    assert_eq!(reset_state.player2_paddle_y, FIELD_HEIGHT / 2);
    assert_eq!(reset_state.ball_x, FIELD_WIDTH / 2);
    assert_eq!(reset_state.ball_y, FIELD_HEIGHT / 2);
    assert_eq!(reset_state.player1_score, 0);
    assert_eq!(reset_state.player2_score, 0);
    assert!(reset_state.game_active);
}

#[test]
fn pong_test_get_game_state() {
    let w = PongContract::init_game();
    let init_state = state(&w);
    let retrieved_state = PongContract::get_game_state(&w);
    assert_eq!(init_state, retrieved_state);
}

#[test]
fn test_no_movement_when_game_inactive() {
    let mut w = PongContract::init_game();
    for _ in 0..20 {
        move_paddle(&mut w, 2, 1);
    }
    for _ in 0..2000 {
        let s = tick(&mut w);
        if !s.game_active {
            let after_move = move_paddle(&mut w, 1, -1);
            assert_eq!(after_move.player1_paddle_y, s.player1_paddle_y);
            let after_tick = tick(&mut w);
            assert_eq!(after_tick.ball_x, s.ball_x);
            assert_eq!(after_tick.ball_y, s.ball_y);
            return;
        }
    }
    panic!("Game never became inactive");
}

#[test]
fn test_invalid_player_action_is_ignored() {
    let mut w = PongContract::init_game();
    let before = state(&w);
    let after = move_paddle(&mut w, 99, 1);
    assert_eq!(before.player1_paddle_y, after.player1_paddle_y);
    assert_eq!(before.player2_paddle_y, after.player2_paddle_y);
}

#[test]
fn test_clamp_and_reset_ball_values() {
    assert_eq!(clamp_paddle_position(-5), 7);
    assert_eq!(clamp_paddle_position(30), 30);
    assert_eq!(clamp_paddle_position(100), 53);
    let mut ball = BallComponent { x: -1, y: 12, vx: -1, vy: 1 };
    reset_ball(&mut ball);
    assert_eq!((ball.x, ball.y, ball.vx, ball.vy), (50, 30, 1, 1));
}

#[test]
fn pong_component_bytes_round_trip() {
    let paddle = cougr_games::pong::PaddleComponent { player_id: 2, y_position: -3 };
    let bytes = paddle.serialize();
    assert_eq!(bytes, vec![0, 0, 0, 2, 255, 255, 255, 253]);
    let back = cougr_games::pong::PaddleComponent::deserialize(&bytes).unwrap();
    assert_eq!((back.player_id, back.y_position), (2, -3));
    assert!(cougr_games::pong::PaddleComponent::deserialize(&vec![0; 9]).is_none());

    let ball = BallComponent { x: 50, y: 30, vx: -1, vy: 1 };
    let bytes = ball.serialize();
    assert_eq!(bytes.len(), 16);
    let back = BallComponent::deserialize(&bytes).unwrap();
    assert_eq!((back.x, back.y, back.vx, back.vy), (50, 30, -1, 1));
    assert!(BallComponent::deserialize(&bytes[..15].to_vec()).is_none());

    let score = cougr_games::pong::ScoreComponent { player1_score: 4, player2_score: 1, game_active: true };
    let bytes = score.serialize();
    assert_eq!(bytes, vec![0, 0, 0, 4, 0, 0, 0, 1, 1]);
    let back = cougr_games::pong::ScoreComponent::deserialize(&bytes).unwrap();
    assert_eq!((back.player1_score, back.player2_score, back.game_active), (4, 1, true));
    let off = cougr_games::pong::ScoreComponent::deserialize(&vec![0, 0, 0, 0, 0, 0, 0, 0, 0]).unwrap();
    assert!(!off.game_active);
}
