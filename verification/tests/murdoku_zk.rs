use cougr_games::murdoku::{Clue, PuzzleError, PuzzleMetadata};
use cougr_core::privacy::experimental::{Groth16Proof, VerificationKey};
use cougr_core::zk::{G1Point, G2Point};
use cougr_games::murdoku_zk::{validate_zk_puzzle, MurdokuZkContract as Zk, ZkRegistry};
use soroban_sdk::xdr::ToXdr;
use soroban_sdk::BytesN;
use soroban_sdk::Env;

type ZkParts = (u32, Vec<Vec<u8>>, Vec<Clue>, Vec<u8>, Vec<u8>, PuzzleMetadata);

fn make_valid_zk_puzzle() -> ZkParts {
    let suspects = vec![b"Alice".to_vec(), b"Bob".to_vec(), b"Charlie".to_vec(), b"David".to_vec()];
    let clues = vec![
        Clue { row: 0, col: 0, suspect_idx: 1 },
        Clue { row: 1, col: 1, suspect_idx: 3 },
    ];
    let commitment = vec![1u8; 32];
    let verifier_key = vec![0x01u8; 32];
    let metadata = PuzzleMetadata { name: b"ZK Case".to_vec(), difficulty: b"Hard".to_vec() };
    (4, suspects, clues, commitment, verifier_key, metadata)
}

fn creator() -> Vec<u8> {
    b"GCREATOR".to_vec()
}

fn submit(reg: &mut ZkRegistry, parts: ZkParts) -> Result<u32, PuzzleError> {
    let (n, s, c, com, vk, m) = parts;
    Zk::submit_puzzle(reg, &creator(), n, s, c, com, vk, m)
}

#[test]
fn test_zk_submit_valid_puzzle() {
    let mut reg = Zk::new_registry();
    let id = submit(&mut reg, make_valid_zk_puzzle()).unwrap();
    assert_eq!(id, 1);
    assert_eq!(Zk::get_puzzle_count(&reg), 1);
    let puzzle = Zk::get_puzzle(&reg, 1).unwrap();
    assert_eq!(puzzle.id, 1);
    assert_eq!(puzzle.creator, creator());
    assert_eq!(puzzle.grid_size, 4);
    assert_eq!(puzzle.suspects.len(), 4);
    assert_eq!(puzzle.clues.len(), 2);
    assert_eq!(puzzle.solution_commitment, vec![1u8; 32]);
    assert!(puzzle.active);
}

#[test]
fn test_zk_submit_zero_commitment_fails() {
    let mut reg = Zk::new_registry();
    let (n, s, c, _, vk, m) = make_valid_zk_puzzle();
    assert!(submit(&mut reg, (n, s, c, vec![0u8; 32], vk, m)).is_err());
}

#[test]
fn test_zk_submit_empty_verifier_key_fails() {
    let mut reg = Zk::new_registry();
    let (n, s, c, com, _, m) = make_valid_zk_puzzle();
    assert!(submit(&mut reg, (n, s, c, com, Vec::new(), m)).is_err());
}

#[test]
fn test_zk_submit_invalid_grid_size() {
    let mut reg = Zk::new_registry();
    let (_, s, c, com, vk, m) = make_valid_zk_puzzle();
    assert!(submit(&mut reg, (3, s, c, com, vk, m)).is_err());
}

#[test]
fn test_zk_submit_empty_clues_fails() {
    let mut reg = Zk::new_registry();
    let (n, s, _, com, vk, m) = make_valid_zk_puzzle();
    assert!(submit(&mut reg, (n, s, Vec::new(), com, vk, m)).is_err());
}

#[test]
fn test_zk_submit_invalid_clue_coordinate() {
    let mut reg = Zk::new_registry();
    let (n, s, mut c, com, vk, m) = make_valid_zk_puzzle();
    c.push(Clue { row: 10, col: 0, suspect_idx: 1 });
    assert!(submit(&mut reg, (n, s, c, com, vk, m)).is_err());
}

#[test]
fn test_zk_proof_invalid_rejected() {
    let env = Env::default();
    let mut reg = Zk::new_registry();
    submit(&mut reg, make_valid_zk_puzzle()).unwrap();
    let player = b"GPLAYER".to_vec();
    let r = Zk::submit_proof(&env, &mut reg, &player, 1, &vec![0u8; 16], &Vec::new());
    assert!(r.is_err());
    assert_eq!(r, Err(PuzzleError::InvalidSolution));
    assert!(!Zk::is_solved(&reg, 1, &player));
}

#[test]
fn test_zk_proof_nonexistent_puzzle_rejected() {
    let env = Env::default();
    let mut reg = Zk::new_registry();
    let r = Zk::submit_proof(&env, &mut reg, &b"GPLAYER".to_vec(), 999, &Vec::new(), &Vec::new());
    assert!(r.is_err());
    assert_eq!(r, Err(PuzzleError::PuzzleNotFound));
}

#[test]
fn test_zk_is_solved_returns_false_before_proof() {
    let mut reg = Zk::new_registry();
    submit(&mut reg, make_valid_zk_puzzle()).unwrap();
    assert!(!Zk::is_solved(&reg, 1, &b"GPLAYER".to_vec()));
}

#[test]
fn test_zk_list_puzzles_and_pagination() {
    let mut reg = Zk::new_registry();
    for _ in 0..3 {
        submit(&mut reg, make_valid_zk_puzzle()).unwrap();
    }
    assert_eq!(Zk::get_puzzle_count(&reg), 3);
    assert_eq!(Zk::list_puzzles(&reg, 0, 10).len(), 3);
    let page = Zk::list_puzzles(&reg, 1, 1);
    assert_eq!(page.len(), 1);
    assert_eq!(page[0].id, 2);
}

#[test]
fn test_zk_deactivate_puzzle_authorization() {
    let mut reg = Zk::new_registry();
    submit(&mut reg, make_valid_zk_puzzle()).unwrap();
    assert!(Zk::deactivate_puzzle(&mut reg, &b"GINTRUDER".to_vec(), 1).is_err());
    Zk::deactivate_puzzle(&mut reg, &creator(), 1).unwrap();
    assert!(!Zk::get_puzzle(&reg, 1).unwrap().active);
}

#[test]
fn murdoku_zk_accepted_proof_marks_solver_once() {
    let mut reg = Zk::new_registry();
    submit(&mut reg, make_valid_zk_puzzle()).unwrap();
    let player = b"GPLAYER".to_vec();
    assert_eq!(Zk::record_proof(&mut reg, &player, 1, false), Err(PuzzleError::InvalidSolution));
    assert!(!Zk::is_solved(&reg, 1, &player));
    Zk::record_proof(&mut reg, &player, 1, true).unwrap();
    assert!(Zk::is_solved(&reg, 1, &player));
    assert!(!Zk::is_solved(&reg, 1, &b"GOTHER".to_vec()));
    assert_eq!(Zk::get_puzzle(&reg, 1).unwrap().solvers, 1);
    assert_eq!(Zk::record_proof(&mut reg, &player, 2, true), Err(PuzzleError::PuzzleNotFound));
}

#[test]
fn murdoku_zk_validation_order() {
    let (n, s, c, com, vk, _) = make_valid_zk_puzzle();
    assert_eq!(validate_zk_puzzle(n, &s, &c, &com, &vk), Ok(()));
    assert_eq!(validate_zk_puzzle(n, &s[..3].to_vec(), &c, &com, &vk), Err(PuzzleError::InvalidSuspects));
    assert_eq!(validate_zk_puzzle(n, &s, &Vec::new(), &com, &vk), Err(PuzzleError::InvalidClues));
    assert_eq!(validate_zk_puzzle(n, &s, &c, &vec![0u8; 32], &vk), Err(PuzzleError::InvalidSolution));
}

fn xdr(env: &soroban_sdk::Env, b: soroban_sdk::Bytes) -> Vec<u8> {
    (0..b.len()).map(|i| b.get(i).unwrap()).collect()
}

/// The XDR bytes of a key and a proof made of points at infinity, the key
/// with `inputs + 1` input points.
fn infinity_key_and_proof(env: &soroban_sdk::Env, inputs: u32) -> (Vec<u8>, Vec<u8>) {
    let g1 = G1Point { bytes: BytesN::from_array(env, &[0u8; 64]) };
    let g2 = G2Point { bytes: BytesN::from_array(env, &[0u8; 128]) };
    let mut ic = soroban_sdk::Vec::new(env);
    for _ in 0..=inputs {
        ic.push_back(g1.clone());
    }
    let vk = VerificationKey { alpha: g1.clone(), beta: g2.clone(), gamma: g2.clone(), delta: g2.clone(), ic };
    let proof = Groth16Proof { a: g1.clone(), b: g2, c: g1 };
    (xdr(env, vk.to_xdr(env)), xdr(env, proof.to_xdr(env)))
}

#[test]
fn murdoku_zk_trivial_proof_with_points_at_infinity_is_accepted() {
    // every pairing with the point at infinity is one, so the check holds
    let env = soroban_sdk::Env::new_with_config(soroban_sdk::testutils::EnvTestConfig { capture_snapshot_at_drop: false });
    env.cost_estimate().budget().reset_unlimited();
    let (vk, proof) = infinity_key_and_proof(&env, 0);
    assert_eq!(vk.len(), 788);
    assert_eq!(proof.len(), 412);
    let mut reg = Zk::new_registry();
    let (n, s, c, com, _vk, m) = make_valid_zk_puzzle();
    submit(&mut reg, (n, s, c, com, vk.clone(), m)).unwrap();
    let player = b"GPLAYER".to_vec();
    assert_eq!(Zk::submit_proof(&env, &mut reg, &player, 1, &proof, &Vec::new()), Ok(()));
    assert!(Zk::is_solved(&reg, 1, &player));
    // the key has one input point too few for one public input
    let r = Zk::submit_proof(&env, &mut reg, &player, 1, &proof, &vec![[1u8; 32]]);
    assert_eq!(r, Err(PuzzleError::InvalidSolution));
    // a proof whose bytes are cut short is rejected without being decoded
    let r = Zk::submit_proof(&env, &mut reg, &player, 1, &proof[..400].to_vec(), &Vec::new());
    assert_eq!(r, Err(PuzzleError::InvalidSolution));
}

#[test]
fn murdoku_zk_key_with_input_points_matches_layout() {
    let env = soroban_sdk::Env::new_with_config(soroban_sdk::testutils::EnvTestConfig { capture_snapshot_at_drop: false });
    env.cost_estimate().budget().reset_unlimited();
    let (vk, proof) = infinity_key_and_proof(&env, 2);
    assert_eq!(vk.len(), 988);
    let mut reg = Zk::new_registry();
    let (n, s, c, com, _vk, m) = make_valid_zk_puzzle();
    submit(&mut reg, (n, s, c, com, vk, m)).unwrap();
    let player = b"GPLAYER".to_vec();
    assert_eq!(Zk::submit_proof(&env, &mut reg, &player, 1, &proof, &vec![[1u8; 32], [2u8; 32]]), Ok(()));
}
