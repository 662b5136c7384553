//! Hidden hands: a table fixes the deck and hand sizes of a hidden-card
//! circuit, and a player's deal is accepted when a Groth16 proof shows that
//! their committed hand was dealt from the committed deck.
use vstd::prelude::*;
use crate::bn254::{g1_point_ok, g2_point_ok};
use cougr_core::circuits::hidden_cards;
use cougr_core::zk::{G1Point, G2Point, Groth16Proof};

verus! {

/// The table's deck and hand sizes.
#[derive(Clone, Copy, Debug, PartialEq, Eq, Structural)]
pub struct TableConfig {
    pub deck_size: u32,
    pub hand_size: u32,
}

/// A Groth16 proof: the points A (64 bytes), B (128 bytes) and C (64 bytes).
#[derive(Debug)]
pub struct DealProof {
    pub a: Vec<u8>,
    pub b: Vec<u8>,
    pub c: Vec<u8>,
}

impl DealProof {
    /// The points have their encoded sizes.
    pub open spec fn wf(&self) -> bool {
        self.a@.len() == 64 && self.b@.len() == 128 && self.c@.len() == 64
    }

    /// Each point is an encoding the host accepts.
    pub open spec fn points_ok(&self) -> bool {
        g1_point_ok(self.a@) && g2_point_ok(self.b@) && g1_point_ok(self.c@)
    }
}

/// Why a request was refused.
#[derive(Clone, Copy, Debug, PartialEq, Eq, Structural)]
pub enum HiddenHandError {
    /// The sizes do not describe a deal: an empty deck or hand, or a hand
    /// larger than the deck.
    InvalidTableConfig,
}

/// Sizes the hidden-card circuit accepts.
pub open spec fn valid_sizes(deck_size: u32, hand_size: u32) -> bool {
    deck_size != 0 && hand_size != 0 && hand_size <= deck_size
}

/// The circuit's verdict on a proof for these public inputs: `None` when
/// verification fails with an error, else whether the proof holds.
pub uninterp spec fn hidden_hand_verdict(
    deck_size: u32,
    hand_size: u32,
    a: Seq<u8>,
    b: Seq<u8>,
    c: Seq<u8>,
    deck_root: Seq<u8>,
    hand_commitment: Seq<u8>,
    player_id: u32,
) -> Option<bool>;

/// Calls `cougr_core::circuits::hidden_cards` and reports whether it built
/// a circuit description. Trusted claim, from the source: it refuses
/// exactly an empty deck, an empty hand, or a hand larger than the deck.
#[verifier::external_body]
fn hidden_cards_accepts(env: &soroban_sdk::Env, deck_size: u32, hand_size: u32) -> (r: bool)
    ensures
        r == valid_sizes(deck_size, hand_size),
{
    hidden_cards(env, deck_size, hand_size).is_ok()
}

/// Calls `GameCircuitSpec::verify_hidden_hand` on the circuit that
/// `hidden_cards` builds for these sizes, with the proof and the public
/// inputs. Trusted claim: on points the host accepts (a coordinate at or
/// above the field modulus makes the negation of A panic, and the host
/// traps on other points), the call returns, and the answer is a function
/// of the sizes, the proof and the public inputs alone (the verification
/// key is the one embedded for hidden cards), `None` standing for an error.
/// Not stated: the host's cost budget, which can also stop the call.
#[verifier::external_body]
fn verify_hidden_hand(
    env: &soroban_sdk::Env,
    deck_size: u32,
    hand_size: u32,
    proof: &DealProof,
    deck_root: &Vec<u8>,
    hand_commitment: &Vec<u8>,
    player_id: u32,
) -> (r: Option<bool>)
    requires
        valid_sizes(deck_size, hand_size),
        proof.wf(),
        proof.points_ok(),
        deck_root@.len() == 32,
        hand_commitment@.len() == 32,
    ensures
        r == hidden_hand_verdict(deck_size, hand_size, proof.a@, proof.b@, proof.c@, deck_root@, hand_commitment@, player_id),
{
    let g1 = |v: &Vec<u8>| G1Point { bytes: soroban_sdk::BytesN::from_array(env, &v.as_slice().try_into().unwrap()) };
    let p = Groth16Proof { a: g1(&proof.a), b: G2Point { bytes: soroban_sdk::BytesN::from_array(env, &proof.b.as_slice().try_into().unwrap()) }, c: g1(&proof.c) };
    let root = soroban_sdk::BytesN::from_array(env, &deck_root.as_slice().try_into().unwrap());
    let hand = soroban_sdk::BytesN::from_array(env, &hand_commitment.as_slice().try_into().unwrap());
    match hidden_cards(env, deck_size, hand_size) {
        Ok(spec) => spec.verify_hidden_hand(env, &p, &root, &hand, player_id).ok(),
        Err(_) => None,
    }
}

/// The wrapping sum of the first (at most four) bytes.
pub open spec fn id_sum(bytes: Seq<u8>, n: int) -> u32
    decreases n,
{
    if n <= 0 {
        0
    } else {
        id_sum(bytes, n - 1).wrapping_add(bytes[n - 1] as u32)
    }
}

/// A player's number: the wrapping sum of the first four bytes of their
/// address text (all of it when shorter).
pub open spec fn player_number(address_text: Seq<u8>) -> u32 {
    id_sum(address_text, if address_text.len() < 4 { address_text.len() as int } else { 4 })
}

/// A player's number from the bytes of their address text.
pub fn player_id(address_text: &Vec<u8>) -> (id: u32)
    ensures
        id == player_number(address_text@),
{
    let n: usize = if address_text.len() < 4 { address_text.len() } else { 4 };
    let mut id: u32 = 0;
    let mut i: usize = 0;
    while i < n
        invariant
            0 <= i <= n,
            n <= address_text.len(),
            n == (if address_text@.len() < 4 { address_text@.len() as int } else { 4 }),
            id == id_sum(address_text@, i as int),
        decreases n - i,
    {
        id = id.wrapping_add(address_text[i] as u32);
        i += 1;
    }
    id
}

/// The contract's operations.
#[derive(Debug)]
pub struct HiddenHand;

impl HiddenHand {
    /// A table for these sizes, when the hidden-card circuit accepts them.
    pub fn init_table(env: &soroban_sdk::Env, deck_size: u32, hand_size: u32) -> (r: Result<TableConfig, HiddenHandError>)
        ensures
            valid_sizes(deck_size, hand_size) ==> r == Ok::<TableConfig, HiddenHandError>(TableConfig { deck_size, hand_size }),
            !valid_sizes(deck_size, hand_size) ==> r == Err::<TableConfig, HiddenHandError>(HiddenHandError::InvalidTableConfig),
    {
        if !hidden_cards_accepts(env, deck_size, hand_size) {
            return Err(HiddenHandError::InvalidTableConfig);
        }
        Ok(TableConfig { deck_size, hand_size })
    }

    /// Whether the proof shows that `player`'s committed hand was dealt from
    /// the committed deck under the table's sizes; a verification error
    /// counts as a rejection.
    pub fn verify_deal(
        env: &soroban_sdk::Env,
        config: &TableConfig,
        player: &Vec<u8>,
        deck_root: &Vec<u8>,
        hand_commitment: &Vec<u8>,
        proof: &DealProof,
    ) -> (r: Result<bool, HiddenHandError>)
        requires
            proof.wf(),
            proof.points_ok(),
            deck_root@.len() == 32,
            hand_commitment@.len() == 32,
        ensures
            !valid_sizes(config.deck_size, config.hand_size) ==> r == Err::<bool, HiddenHandError>(HiddenHandError::InvalidTableConfig),
            valid_sizes(config.deck_size, config.hand_size) ==> r == Ok::<bool, HiddenHandError>(Self::accepted(
                hidden_hand_verdict(config.deck_size, config.hand_size, proof.a@, proof.b@, proof.c@,
                    deck_root@, hand_commitment@, player_number(player@)))),
    {
        if !hidden_cards_accepts(env, config.deck_size, config.hand_size) {
            return Err(HiddenHandError::InvalidTableConfig);
        }
        let id = player_id(player);
        let verdict = verify_hidden_hand(env, config.deck_size, config.hand_size, proof, deck_root, hand_commitment, id);
        Ok(Self::deal_accepted(verdict))
    }

    /// An error counts as a rejection.
    pub open spec fn accepted(verdict: Option<bool>) -> bool {
        verdict == Some(true)
    }

    /// Whether a verdict accepts the deal; an error rejects it.
    pub fn deal_accepted(verdict: Option<bool>) -> (r: bool)
        ensures
            r == Self::accepted(verdict),
    {
        match verdict {
            Some(b) => b,
            None => false,
        }
    }
}

} // verus!
