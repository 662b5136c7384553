use cougr_games::memory_match::{ECSWorldState, MemoryError, MemoryMatchContract, RevealResult};

fn setup_game() -> (ECSWorldState, Vec<u8>) {
    let player = b"GMEMORYPLAYER".to_vec();
    (MemoryMatchContract::init_game(&player), player)
}

#[test]
fn memory_match_test_init_game() {
    let (w, _player) = setup_game();
    let game_state = MemoryMatchContract::get_game_state(&w);
    assert_eq!(game_state.board_state.len(), 16);
    assert_eq!(game_state.revealed_count, 0);
    assert_eq!(game_state.matched_pairs, 0);
    assert_eq!(game_state.total_pairs, 8);
    assert_eq!(game_state.moves_count, 0);
    assert!(!game_state.game_over);
    for i in 0..16 {
        assert_eq!(game_state.board_state[i], 0);
    }
}

#[test]
fn test_reveal_first_card() {
    let (mut w, player) = setup_game();
    let info = MemoryMatchContract::reveal_card(&mut w, &player, 0).unwrap();
    assert_eq!(info.result, RevealResult::CardRevealed);
    assert_eq!(info.position, 0);
    assert_eq!(info.value, 0);
    let game_state = MemoryMatchContract::get_game_state(&w);
    assert_eq!(game_state.revealed_count, 1);
    assert_eq!(game_state.moves_count, 1);
    assert!(!game_state.game_over);
    assert_eq!(game_state.board_state[0], 1);
}

#[test]
fn test_reveal_matching_pair() {
    let (mut w, player) = setup_game();
    let r1 = MemoryMatchContract::reveal_card(&mut w, &player, 0).unwrap();
    assert_eq!(r1.result, RevealResult::CardRevealed);
    let r2 = MemoryMatchContract::reveal_card(&mut w, &player, 8).unwrap();
    assert_eq!(r2.result, RevealResult::MatchFound);
    assert_eq!(r2.position, 8);
    assert_eq!(r2.value, 0);
    assert_eq!(r2.positions.len(), 2);
    let game_state = MemoryMatchContract::get_game_state(&w);
    assert_eq!(game_state.revealed_count, 0);
    assert_eq!(game_state.matched_pairs, 1);
    assert_eq!(game_state.moves_count, 2);
    assert_eq!(game_state.board_state[0], 9);
    assert_eq!(game_state.board_state[8], 9);
}

#[test]
fn test_reveal_non_matching_pair() {
    let (mut w, player) = setup_game();
    let r1 = MemoryMatchContract::reveal_card(&mut w, &player, 0).unwrap();
    assert_eq!(r1.result, RevealResult::CardRevealed);
    let r2 = MemoryMatchContract::reveal_card(&mut w, &player, 1).unwrap();
    assert_eq!(r2.result, RevealResult::NoMatch);
    assert_eq!(r2.position, 1);
    assert_eq!(r2.value, 1);
    assert_eq!(r2.positions, vec![0, 1]);
    let game_state = MemoryMatchContract::get_game_state(&w);
    assert_eq!(game_state.revealed_count, 0);
    assert_eq!(game_state.matched_pairs, 0);
    assert_eq!(game_state.moves_count, 2);
    assert_eq!(game_state.board_state[0], 0);
    assert_eq!(game_state.board_state[1], 0);
}

#[test]
fn test_test_reset_game() {
    let (mut w, player) = setup_game();
    MemoryMatchContract::reveal_card(&mut w, &player, 0).unwrap();
    MemoryMatchContract::reveal_card(&mut w, &player, 8).unwrap();
    let gs = MemoryMatchContract::get_game_state(&w);
    assert_eq!(gs.matched_pairs, 1);
    assert_eq!(gs.moves_count, 2);
    MemoryMatchContract::reset_game(&mut w, &player).unwrap();
    let reset_state = MemoryMatchContract::get_game_state(&w);
    assert_eq!(reset_state.revealed_count, 0);
    assert_eq!(reset_state.matched_pairs, 0);
    assert_eq!(reset_state.moves_count, 0);
    assert!(!reset_state.game_over);
    for i in 0..16 {
        assert_eq!(reset_state.board_state[i], 0);
    }
}

#[test]
fn test_unauthorized_player() {
    let (mut w, _player) = setup_game();
    let player2 = b"GINTRUDER".to_vec();
    assert_eq!(MemoryMatchContract::reveal_card(&mut w, &player2, 0).err(), Some(MemoryError::NotAuthorizedPlayer));
    assert_eq!(MemoryMatchContract::reset_game(&mut w, &player2), Err(MemoryError::NotAuthorizedPlayer));
}

#[test]
fn test_test_invalid_position() {
    let (mut w, player) = setup_game();
    assert_eq!(MemoryMatchContract::reveal_card(&mut w, &player, 16).err(), Some(MemoryError::InvalidPosition));
}

#[test]
fn test_reveal_same_card_twice() {
    let (mut w, player) = setup_game();
    MemoryMatchContract::reveal_card(&mut w, &player, 0).unwrap();
    assert_eq!(MemoryMatchContract::reveal_card(&mut w, &player, 0).err(), Some(MemoryError::CardAlreadyRevealed));
    assert_eq!(MemoryMatchContract::get_game_state(&w).moves_count, 1);
}

#[test]
fn test_reveal_three_cards_sequence() {
    let (mut w, player) = setup_game();
    assert_eq!(MemoryMatchContract::reveal_card(&mut w, &player, 0).unwrap().result, RevealResult::CardRevealed);
    assert_eq!(MemoryMatchContract::reveal_card(&mut w, &player, 1).unwrap().result, RevealResult::NoMatch);
    assert_eq!(MemoryMatchContract::reveal_card(&mut w, &player, 2).unwrap().result, RevealResult::CardRevealed);
}

#[test]
fn test_card_values() {
    let expected_values = [0u32, 1, 2, 3, 4, 5, 6, 7, 0, 1, 2, 3, 4, 5, 6, 7];
    let (mut w, player) = setup_game();
    for i in 0..16u32 {
        let reveal = MemoryMatchContract::reveal_card(&mut w, &player, i).unwrap();
        assert_eq!(reveal.result, RevealResult::CardRevealed);
        assert_eq!(reveal.value, expected_values[i as usize]);
        MemoryMatchContract::reset_game(&mut w, &player).unwrap();
        w = MemoryMatchContract::init_game(&player);
    }
}

#[test]
fn test_full_game_ends_with_game_over() {
    let (mut w, player) = setup_game();
    for pair in 0..8u32 {
        MemoryMatchContract::reveal_card(&mut w, &player, pair).unwrap();
        let info = MemoryMatchContract::reveal_card(&mut w, &player, pair + 8).unwrap();
        if pair < 7 {
            assert_eq!(info.result, RevealResult::MatchFound);
        } else {
            assert_eq!(info.result, RevealResult::GameOver);
        }
    }
    let gs = MemoryMatchContract::get_game_state(&w);
    assert!(gs.game_over);
    assert_eq!(gs.matched_pairs, 8);
    assert!(gs.board_state.iter().all(|v| *v == 9));
    assert_eq!(MemoryMatchContract::reveal_card(&mut w, &player, 0).err(), Some(MemoryError::GameIsOver));
}
