use cougr_core::privacy::stable::{to_on_chain_proof, MerkleTree};
use cougr_games::battleship::{
    BattleshipContract, BattleshipError, BoardCommitment, CellResult, GameState, MerkleProof, Phase,
};
use soroban_sdk::{Bytes, BytesN, Env};

fn player_a() -> Vec<u8> {
    b"GAPLAYERAAAAAAAAAAAAAAAAAAAAAAAAAAAAAAAAAAAAAAAAAAAAAAAA".to_vec()
}

fn player_b() -> Vec<u8> {
    b"GBPLAYERBBBBBBBBBBBBBBBBBBBBBBBBBBBBBBBBBBBBBBBBBBBBBBBB".to_vec()
}

fn build_merkle_tree(env: &Env, board: &[u32; 100]) -> (Vec<u8>, MerkleTree) {
    let mut leaves = [[0u8; 32]; 100];
    for (idx, &value) in board.iter().enumerate() {
        let mut data = Bytes::new(env);
        data.append(&Bytes::from_array(env, &(idx as u32).to_be_bytes()));
        data.append(&Bytes::from_array(env, &value.to_be_bytes()));
        let leaf: BytesN<32> = env.crypto().sha256(&data).into();
        leaves[idx] = leaf.to_array();
    }
    let tree = MerkleTree::from_leaves(env, &leaves).unwrap();
    (tree.root().to_vec(), tree)
}

fn get_merkle_proof(env: &Env, tree: &MerkleTree, index: u32) -> MerkleProof {
    let p = to_on_chain_proof(&tree.proof(index).unwrap(), env);
    MerkleProof {
        siblings: p.siblings.iter().map(|s| s.to_array().to_vec()).collect(),
        path_bits: p.path_bits,
        leaf: p.leaf.to_array().to_vec(),
        leaf_index: p.leaf_index,
        depth: p.depth,
    }
}

fn make_commitment(env: &Env, board: &[u32; 100], salt: &[u8; 32]) -> Vec<u8> {
    let mut data = Bytes::new(env);
    for &cell in board.iter() {
        data.append(&Bytes::from_array(env, &cell.to_be_bytes()));
    }
    data.append(&Bytes::from_array(env, salt));
    let h: BytesN<32> = env.crypto().sha256(&data).into();
    h.to_array().to_vec()
}

/// Both players commit their boards; returns the game and both trees.
fn committed(env: &Env, board_a: &[u32; 100], board_b: &[u32; 100]) -> (GameState, MerkleTree, MerkleTree) {
    let mut game = BattleshipContract::new_game(player_a(), player_b());
    let (root_a, tree_a) = build_merkle_tree(env, board_a);
    let (root_b, tree_b) = build_merkle_tree(env, board_b);
    BattleshipContract::commit_board(&mut game, &player_a(), make_commitment(env, board_a, &[1u8; 32]), root_a).unwrap();
    BattleshipContract::commit_board(&mut game, &player_b(), make_commitment(env, board_b, &[2u8; 32]), root_b).unwrap();
    (game, tree_a, tree_b)
}

#[test]
fn test_new_game() {
    let state = BattleshipContract::new_game(player_a(), player_b());
    assert_eq!(state.player_a, player_a());
    assert_eq!(state.player_b, player_b());
    assert_eq!(state.turn_state.phase, Phase::Setup);
}

#[test]
fn test_commit_board() {
    let env = Env::default();
    let mut game = BattleshipContract::new_game(player_a(), player_b());

    let mut board_a = [0u32; 100];
    board_a[0] = 1;
    let commitment_a = make_commitment(&env, &board_a, &[1u8; 32]);
    let (root_a, _) = build_merkle_tree(&env, &board_a);
    BattleshipContract::commit_board(&mut game, &player_a(), commitment_a, root_a).unwrap();
    assert_eq!(game.turn_state.phase, Phase::Setup);

    let mut board_b = [0u32; 100];
    board_b[1] = 1;
    let commitment_b = make_commitment(&env, &board_b, &[2u8; 32]);
    let (root_b, _) = build_merkle_tree(&env, &board_b);
    BattleshipContract::commit_board(&mut game, &player_b(), commitment_b, root_b).unwrap();
    assert_eq!(game.turn_state.phase, Phase::Attack);
}

#[test]
fn test_attack_and_reveal_miss() {
    let env = Env::default();
    let board_a = [0u32; 100];
    let mut board_b = [0u32; 100];
    board_b[10] = 1;
    let (mut game, _tree_a, tree_b) = committed(&env, &board_a, &board_b);

    BattleshipContract::attack(&mut game, &player_a(), 0, 0).unwrap();
    assert!(game.turn_state.has_pending);

    let proof = get_merkle_proof(&env, &tree_b, 0);
    BattleshipContract::reveal_cell(&env, &mut game, &player_b(), 0, 0, 0, &proof).unwrap();
    assert!(!game.turn_state.has_pending);
    assert_eq!(game.attack_grid_b.cells[0], CellResult::Miss);
}

#[test]
fn test_attack_and_reveal_hit() {
    let env = Env::default();
    let board_a = [0u32; 100];
    let mut board_b = [0u32; 100];
    board_b[0] = 1;
    let (mut game, _tree_a, tree_b) = committed(&env, &board_a, &board_b);

    BattleshipContract::attack(&mut game, &player_a(), 0, 0).unwrap();
    let proof = get_merkle_proof(&env, &tree_b, 0);
    BattleshipContract::reveal_cell(&env, &mut game, &player_b(), 0, 0, 1, &proof).unwrap();
    assert_eq!(game.attack_grid_b.cells[0], CellResult::Hit);
    assert_eq!(game.ship_status.remaining_b, 16);
}

#[test]
fn test_invalid_proof_rejected() {
    let env = Env::default();
    let board_a = [0u32; 100];
    let mut board_b = [0u32; 100];
    board_b[0] = 1;
    let (mut game, _tree_a, tree_b) = committed(&env, &board_a, &board_b);

    BattleshipContract::attack(&mut game, &player_a(), 0, 0).unwrap();
    let proof = get_merkle_proof(&env, &tree_b, 0);
    let r = BattleshipContract::reveal_cell(&env, &mut game, &player_b(), 0, 0, 0, &proof);
    assert_eq!(r, Err(BattleshipError::InvalidProof));
    assert!(game.turn_state.has_pending);
}

#[test]
fn test_cannot_attack_same_cell_twice() {
    let env = Env::default();
    let board_a = [0u32; 100];
    let board_b = [0u32; 100];
    let (mut game, tree_a, tree_b) = committed(&env, &board_a, &board_b);

    BattleshipContract::attack(&mut game, &player_a(), 0, 0).unwrap();
    let proof = get_merkle_proof(&env, &tree_b, 0);
    BattleshipContract::reveal_cell(&env, &mut game, &player_b(), 0, 0, 0, &proof).unwrap();

    BattleshipContract::attack(&mut game, &player_b(), 1, 1).unwrap();
    let proof = get_merkle_proof(&env, &tree_a, 11);
    BattleshipContract::reveal_cell(&env, &mut game, &player_a(), 1, 1, 0, &proof).unwrap();

    let r = BattleshipContract::attack(&mut game, &player_a(), 0, 0);
    assert_eq!(r, Err(BattleshipError::AlreadyAttacked));
}

#[test]
fn test_turn_enforcement() {
    let env = Env::default();
    let (mut game, _, _) = committed(&env, &[0u32; 100], &[0u32; 100]);
    let r = BattleshipContract::attack(&mut game, &player_b(), 0, 0);
    assert_eq!(r, Err(BattleshipError::NotYourTurn));
}

#[test]
fn test_win_condition() {
    let env = Env::default();
    let board_a = [0u32; 100];
    let mut board_b = [0u32; 100];
    board_b[0] = 1;
    let (mut game, _tree_a, tree_b) = committed(&env, &board_a, &board_b);

    game.ship_status.remaining_b = 1;

    BattleshipContract::attack(&mut game, &player_a(), 0, 0).unwrap();
    let proof = get_merkle_proof(&env, &tree_b, 0);
    BattleshipContract::reveal_cell(&env, &mut game, &player_b(), 0, 0, 1, &proof).unwrap();

    assert_eq!(game.turn_state.phase, Phase::Finished);
    assert_eq!(game.winner, Some(player_a()));
}

#[test]
fn test_test_turn_switching() {
    let env = Env::default();
    let (mut game, tree_a, tree_b) = committed(&env, &[0u32; 100], &[0u32; 100]);
    assert_eq!(game.turn_state.current_player, player_a());

    BattleshipContract::attack(&mut game, &player_a(), 0, 0).unwrap();
    let proof = get_merkle_proof(&env, &tree_b, 0);
    BattleshipContract::reveal_cell(&env, &mut game, &player_b(), 0, 0, 0, &proof).unwrap();
    assert_eq!(game.turn_state.current_player, player_b());

    BattleshipContract::attack(&mut game, &player_b(), 1, 1).unwrap();
    let proof = get_merkle_proof(&env, &tree_a, 11);
    BattleshipContract::reveal_cell(&env, &mut game, &player_a(), 1, 1, 0, &proof).unwrap();
    assert_eq!(game.turn_state.current_player, player_a());
}

#[test]
fn test_reveal_without_pending_attack() {
    let env = Env::default();
    let (mut game, _, _) = committed(&env, &[0u32; 100], &[0u32; 100]);
    let fake_proof = MerkleProof {
        siblings: Vec::new(),
        path_bits: 0,
        leaf: vec![0u8; 32],
        leaf_index: 0,
        depth: 0,
    };
    let r = BattleshipContract::reveal_cell(&env, &mut game, &player_b(), 0, 0, 0, &fake_proof);
    assert_eq!(r, Err(BattleshipError::NoPendingAttack));
}

#[test]
fn test_attack_before_commit() {
    let mut game = BattleshipContract::new_game(player_a(), player_b());
    let r = BattleshipContract::attack(&mut game, &player_a(), 0, 0);
    assert_eq!(r, Err(BattleshipError::NotInAttackPhase));
}

#[test]
fn battleship_leaf_hash_matches_tree_leaf() {
    let env = Env::default();
    let mut board = [0u32; 100];
    board[42] = 1;
    let (_, tree) = build_merkle_tree(&env, &board);
    let proof = tree.proof(42).unwrap();
    assert_eq!(BattleshipContract::leaf_hash(&env, 42, 1), proof.leaf.to_vec());
    assert_ne!(BattleshipContract::leaf_hash(&env, 42, 0), proof.leaf.to_vec());
}

#[test]
fn battleship_coord_to_index() {
    assert_eq!(BattleshipContract::coord_to_index(0, 0), 0);
    assert_eq!(BattleshipContract::coord_to_index(3, 2), 23);
    assert_eq!(BattleshipContract::coord_to_index(9, 9), 99);
}

#[test]
fn battleship_commitment_serialises_both_hashes() {
    let c = BoardCommitment { commitment: vec![0u8; 32], merkle_root: vec![1u8; 32] };
    let bytes = c.serialize();
    assert_eq!(bytes.len(), 64);
    assert_eq!(&bytes[..32], &[0u8; 32]);
    assert_eq!(&bytes[32..], &[1u8; 32]);
}

#[test]
fn battleship_setup_errors() {
    let env = Env::default();
    let mut game = BattleshipContract::new_game(player_a(), player_b());
    let (root, _) = build_merkle_tree(&env, &[0u32; 100]);
    BattleshipContract::commit_board(&mut game, &player_a(), vec![3u8; 32], root.clone()).unwrap();
    assert_eq!(
        BattleshipContract::commit_board(&mut game, &player_a(), vec![3u8; 32], root.clone()),
        Err(BattleshipError::AlreadyCommitted)
    );
    assert_eq!(
        BattleshipContract::commit_board(&mut game, &b"stranger".to_vec(), vec![3u8; 32], root.clone()),
        Err(BattleshipError::NotAPlayer)
    );
    BattleshipContract::commit_board(&mut game, &player_b(), vec![4u8; 32], root.clone()).unwrap();
    assert_eq!(
        BattleshipContract::commit_board(&mut game, &player_b(), vec![4u8; 32], root),
        Err(BattleshipError::NotInSetupPhase)
    );
}

#[test]
fn battleship_attack_errors() {
    let env = Env::default();
    let (mut game, _, tree_b) = committed(&env, &[0u32; 100], &[0u32; 100]);
    assert_eq!(BattleshipContract::attack(&mut game, &player_a(), 10, 0), Err(BattleshipError::InvalidCoordinates));
    BattleshipContract::attack(&mut game, &player_a(), 2, 3).unwrap();
    assert_eq!(BattleshipContract::attack(&mut game, &player_a(), 4, 4), Err(BattleshipError::PendingReveal));
    let proof = get_merkle_proof(&env, &tree_b, 32);
    assert_eq!(
        BattleshipContract::reveal_cell(&env, &mut game, &player_b(), 2, 2, 0, &proof),
        Err(BattleshipError::WrongCoordinates)
    );
    // a proof for another cell (index 33) does not answer cell (2, 3)
    let other = get_merkle_proof(&env, &tree_b, 33);
    assert_eq!(
        BattleshipContract::reveal_cell(&env, &mut game, &player_b(), 2, 3, 0, &other),
        Err(BattleshipError::InvalidProof)
    );
    let mut tampered = get_merkle_proof(&env, &tree_b, 32);
    tampered.siblings[0][0] ^= 1;
    let r = BattleshipContract::reveal_cell(&env, &mut game, &player_b(), 2, 3, 0, &tampered);
    assert_eq!(r, Err(BattleshipError::InvalidProof));
    assert!(game.turn_state.has_pending);
    BattleshipContract::reveal_cell(&env, &mut game, &player_b(), 2, 3, 0, &proof).unwrap();
    assert_eq!(game.attack_grid_b.cells[32], CellResult::Miss);
}

#[test]
fn battleship_proof_deeper_than_32_levels_is_refused() {
    let env = Env::default();
    let board_a = [0u32; 100];
    let board_b = [0u32; 100];
    let (mut game, _tree_a, tree_b) = committed(&env, &board_a, &board_b);
    BattleshipContract::attack(&mut game, &player_a(), 0, 0).unwrap();
    let mut proof = get_merkle_proof(&env, &tree_b, 0);
    while proof.siblings.len() < 33 {
        proof.siblings.push(vec![0u8; 32]);
    }
    proof.depth = 33;
    let r = BattleshipContract::reveal_cell(&env, &mut game, &player_b(), 0, 0, 0, &proof);
    assert_eq!(r, Err(BattleshipError::InvalidProof));
    assert!(game.turn_state.has_pending);
    // the honest proof still answers
    let proof = get_merkle_proof(&env, &tree_b, 0);
    BattleshipContract::reveal_cell(&env, &mut game, &player_b(), 0, 0, 0, &proof).unwrap();
}
