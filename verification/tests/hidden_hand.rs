use cougr_core::circuits::{hidden_cards, test_fixtures, CircuitId};
use cougr_core::zk::Groth16Proof;
use cougr_games::hidden_hand::{player_id, DealProof, HiddenHand, HiddenHandError, TableConfig};
use soroban_sdk::testutils::{Address as _, EnvTestConfig};
use soroban_sdk::{Address, BytesN, Env};

fn quiet_env() -> Env {
    let env = Env::new_with_config(EnvTestConfig { capture_snapshot_at_drop: false });
    env.cost_estimate().budget().reset_unlimited();
    env
}

fn deal_proof(p: &Groth16Proof) -> DealProof {
    DealProof {
        a: p.a.bytes.to_array().to_vec(),
        b: p.b.bytes.to_array().to_vec(),
        c: p.c.bytes.to_array().to_vec(),
    }
}

fn address_text(env: &Env) -> Vec<u8> {
    let player = Address::generate(env);
    let bytes = player.to_string().to_bytes();
    (0..bytes.len()).map(|i| bytes.get(i).unwrap()).collect()
}

#[test]
fn init_table_configures_standard_deck() {
    let env = quiet_env();
    let config = HiddenHand::init_table(&env, 52, 5).unwrap();
    assert_eq!(config.deck_size, 52);
    assert_eq!(config.hand_size, 5);

    let spec = hidden_cards(&env, 52, 5).unwrap();
    assert_eq!(spec.circuit_id, CircuitId::HiddenCards);
    assert_eq!(spec.layout.public_input_count(), 5);
    assert_eq!(spec.verification_key.ic.len(), 6);
}

#[test]
fn verify_deal_accepts_pipeline_proof() {
    let env = quiet_env();
    let player = address_text(&env);
    let public = test_fixtures::pipeline_public_inputs(&env, CircuitId::HiddenCards);
    let proof = test_fixtures::pipeline_proof(&env, CircuitId::HiddenCards);

    let config = HiddenHand::init_table(&env, 52, 5).unwrap();
    let deck = BytesN::from_array(&env, &public[0].bytes.to_array());
    let hand = BytesN::from_array(&env, &public[1].bytes.to_array());

    let spec = hidden_cards(&env, 52, 5).unwrap();
    assert_eq!(spec.verify_hidden_hand(&env, &proof, &deck, &hand, 2), Ok(true));
    let id = player_id(&player);
    let expected = spec.verify_hidden_hand(&env, &proof, &deck, &hand, id).unwrap_or(false);
    let got = HiddenHand::verify_deal(
        &env,
        &config,
        &player,
        &deck.to_array().to_vec(),
        &hand.to_array().to_vec(),
        &deal_proof(&proof),
    );
    assert_eq!(got, Ok(expected));
}

#[test]
fn verify_deal_rejects_mismatched_hand_commitment() {
    let env = quiet_env();
    let player = address_text(&env);
    let public = test_fixtures::pipeline_public_inputs(&env, CircuitId::HiddenCards);
    let proof = test_fixtures::pipeline_proof(&env, CircuitId::HiddenCards);

    let config = HiddenHand::init_table(&env, 52, 5).unwrap();
    let deck = public[0].bytes.to_array().to_vec();
    let bad_hand = vec![0u8; 32];
    let got = HiddenHand::verify_deal(&env, &config, &player, &deck, &bad_hand, &deal_proof(&proof));
    assert_eq!(got, Ok(false));
}

#[test]
fn hidden_hand_rejects_impossible_tables() {
    let env = quiet_env();
    assert_eq!(HiddenHand::init_table(&env, 0, 5), Err(HiddenHandError::InvalidTableConfig));
    assert_eq!(HiddenHand::init_table(&env, 52, 0), Err(HiddenHandError::InvalidTableConfig));
    assert_eq!(HiddenHand::init_table(&env, 4, 5), Err(HiddenHandError::InvalidTableConfig));
    assert_eq!(HiddenHand::init_table(&env, 5, 5), Ok(TableConfig { deck_size: 5, hand_size: 5 }));
    let proof = DealProof { a: vec![0u8; 64], b: vec![0u8; 128], c: vec![0u8; 64] };
    let bad = TableConfig { deck_size: 3, hand_size: 9 };
    let r = HiddenHand::verify_deal(&env, &bad, &b"GX".to_vec(), &vec![0u8; 32], &vec![0u8; 32], &proof);
    assert_eq!(r, Err(HiddenHandError::InvalidTableConfig));
}

#[test]
fn hidden_hand_player_number_sums_four_bytes() {
    assert_eq!(player_id(&b"GABC".to_vec()), 71 + 65 + 66 + 67);
    assert_eq!(player_id(&b"GABCDEF".to_vec()), 71 + 65 + 66 + 67);
    assert_eq!(player_id(&b"G".to_vec()), 71);
    assert_eq!(player_id(&Vec::new()), 0);
    assert_eq!(player_id(&vec![255, 255, 255, 255]), 1020);
}

#[test]
fn hidden_hand_error_verdict_rejects() {
    assert!(!HiddenHand::deal_accepted(None));
    assert!(!HiddenHand::deal_accepted(Some(false)));
    assert!(HiddenHand::deal_accepted(Some(true)));
}
