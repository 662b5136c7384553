//! Murdoku with hidden solutions: a puzzle stores a commitment to its
//! solution and a Groth16 verification key instead of the solution, and a
//! player proves a solution by a proof checked against that key.
use vstd::prelude::*;
use crate::common::{bytes_equal, clone_bytes};
use crate::murdoku::{texts, Clue, PuzzleError, PuzzleMetadata, PuzzleSummary};
use crate::bn254::{g1_point_ok, g2_point_ok};
use cougr_core::privacy::experimental::{verify_groth16, Groth16Proof, VerificationKey};
use cougr_core::zk::{G1Point, G2Point};
use crate::zk_xdr::{
    key_alpha, key_beta, key_delta, key_gamma, key_ic, key_ic_count, key_ics, key_layout, key_layout_ok, proof_a, proof_b,
    proof_c, proof_layout, proof_layout_ok,
};
use soroban_sdk::xdr::FromXdr;
use soroban_sdk::{Bytes, BytesN, Vec as SorobanVec};
use cougr_core::privacy::Scalar;

verus! {

/// The commitment to a puzzle's hidden solution.
#[derive(Debug)]
pub struct SolutionCommitment {
    pub commitment: Vec<u8>,
}

/// A stored puzzle: its definition, the commitment to its solution, the
/// verification key (as XDR bytes), and how many solutions were proved.
#[derive(Debug)]
pub struct ZkPuzzle {
    pub id: u32,
    pub creator: Vec<u8>,
    pub grid_size: u32,
    pub suspects: Vec<Vec<u8>>,
    pub clues: Vec<Clue>,
    pub solution_commitment: Vec<u8>,
    pub verifier_key: Vec<u8>,
    pub metadata: PuzzleMetadata,
    pub active: bool,
    pub solvers: u32,
}

/// The stored puzzles (puzzle `k` is entry `k - 1`) and the pairs of
/// puzzle and player that have proved a solution.
#[derive(Debug)]
pub struct ZkRegistry {
    pub puzzles: Vec<ZkPuzzle>,
    pub solved: Vec<(u32, Vec<u8>)>,
}

impl ZkRegistry {
    /// Ids run from 1 in order.
    pub open spec fn wf(&self) -> bool {
        &&& self.puzzles.len() <= u32::MAX
        &&& forall|k: int| 0 <= k < self.puzzles.len() ==> (#[trigger] self.puzzles@[k]).id == k + 1
    }
}

/// A clue lies on the grid and names a suspect.
pub open spec fn zk_clue_ok(cl: Clue, n: u32) -> bool {
    cl.row < n && cl.col < n && 1 <= cl.suspect_idx <= n
}

/// The first rule a puzzle definition breaks, if any.
pub open spec fn zk_puzzle_error(n: u32, suspects: Seq<Seq<u8>>, clues: Seq<Clue>, commitment: Seq<u8>, vk: Seq<u8>) -> Option<PuzzleError> {
    if n != 4 && n != 5 {
        Some(PuzzleError::InvalidGridSize)
    } else if suspects.len() != n || exists|i: int| 0 <= i < n && #[trigger] suspects[i].len() == 0 {
        Some(PuzzleError::InvalidSuspects)
    } else if clues.len() == 0 || exists|i: int| 0 <= i < clues.len() && !zk_clue_ok(#[trigger] clues[i], n) {
        Some(PuzzleError::InvalidClues)
    } else if commitment == Seq::new(32, |i: int| 0u8) || vk.len() == 0 {
        Some(PuzzleError::InvalidSolution)
    } else {
        None
    }
}

/// A Groth16 verification key as its points: alpha (G1, 64 bytes), beta,
/// gamma and delta (G2, 128 bytes each), and the input points (G1).
#[derive(Debug)]
pub struct KeyPoints {
    pub alpha: [u8; 64],
    pub beta: [u8; 128],
    pub gamma: [u8; 128],
    pub delta: [u8; 128],
    pub ic: Vec<[u8; 64]>,
}

/// A Groth16 proof as its points: A and C (G1), B (G2).
#[derive(Debug)]
pub struct ProofPoints {
    pub a: [u8; 64],
    pub b: [u8; 128],
    pub c: [u8; 64],
}

impl KeyPoints {
    /// Every point is an encoding the host accepts.
    pub open spec fn points_ok(&self) -> bool {
        &&& g1_point_ok(self.alpha@)
        &&& g2_point_ok(self.beta@) && g2_point_ok(self.gamma@) && g2_point_ok(self.delta@)
        &&& forall|i: int| 0 <= i < self.ic@.len() ==> g1_point_ok(#[trigger] self.ic@[i]@)
    }
}

impl ProofPoints {
    /// Every point is an encoding the host accepts.
    pub open spec fn points_ok(&self) -> bool {
        g1_point_ok(self.a@) && g2_point_ok(self.b@) && g1_point_ok(self.c@)
    }
}

/// Whether the Groth16 proof (A, B, C) holds for the public inputs under the
/// key (alpha, beta, gamma, delta, input points).
pub uninterp spec fn groth16_verdict(
    alpha: Seq<u8>,
    beta: Seq<u8>,
    gamma: Seq<u8>,
    delta: Seq<u8>,
    ic: Seq<Seq<u8>>,
    a: Seq<u8>,
    b: Seq<u8>,
    c: Seq<u8>,
    public_inputs: Seq<Seq<u8>>,
) -> bool;

/// The byte strings held by a list of 64-byte points.
pub open spec fn points_of(v: Seq<[u8; 64]>) -> Seq<Seq<u8>> {
    v.map_values(|s: [u8; 64]| s@)
}

/// The byte strings held by a list of 32-byte inputs.
pub open spec fn inputs_of(v: Seq<[u8; 32]>) -> Seq<Seq<u8>> {
    v.map_values(|s: [u8; 32]| s@)
}

/// Every point of the key whose bytes are `s` is an encoding the host
/// accepts.
pub open spec fn key_points_ok(s: Seq<u8>) -> bool {
    &&& g1_point_ok(key_alpha(s))
    &&& g2_point_ok(key_beta(s)) && g2_point_ok(key_gamma(s)) && g2_point_ok(key_delta(s))
    &&& forall|i: int| 0 <= i < key_ic_count(s) ==> g1_point_ok(#[trigger] key_ic(s, i))
}

/// Every point of the proof whose bytes are `s` is an encoding the host
/// accepts.
pub open spec fn proof_points_ok(s: Seq<u8>) -> bool {
    g1_point_ok(proof_a(s)) && g2_point_ok(proof_b(s)) && g1_point_ok(proof_c(s))
}

/// A proof (as XDR bytes) is accepted under a key (as XDR bytes): both are
/// laid out as the host writes them, and the Groth16 check holds for the
/// public inputs. Any other bytes are rejected.
pub open spec fn proof_holds(vk: Seq<u8>, proof: Seq<u8>, public_inputs: Seq<Seq<u8>>) -> bool {
    &&& key_layout_ok(vk)
    &&& proof_layout_ok(proof)
    &&& groth16_verdict(key_alpha(vk), key_beta(vk), key_gamma(vk), key_delta(vk), key_ics(vk),
            proof_a(proof), proof_b(proof), proof_c(proof), public_inputs)
}

/// Calls `VerificationKey::from_xdr` (soroban-sdk's `FromXdr`). Trusted
/// claim: bytes laid out as the host writes a verification key decode
/// without error, to the key whose points are the bytes at the layout's
/// offsets. Not stated: the host's cost budget, which can also stop the
/// call.
#[verifier::external_body]
fn decode_key(env: &soroban_sdk::Env, bytes: &Vec<u8>) -> (r: KeyPoints)
    requires
        key_layout_ok(bytes@),
    ensures
        r.alpha@ == key_alpha(bytes@),
        r.beta@ == key_beta(bytes@),
        r.gamma@ == key_gamma(bytes@),
        r.delta@ == key_delta(bytes@),
        points_of(r.ic@) == key_ics(bytes@),
{
    let k = VerificationKey::from_xdr(env, &Bytes::from_slice(env, bytes)).ok().unwrap();
    KeyPoints {
        alpha: k.alpha.bytes.to_array(),
        beta: k.beta.bytes.to_array(),
        gamma: k.gamma.bytes.to_array(),
        delta: k.delta.bytes.to_array(),
        ic: k.ic.iter().map(|q| q.bytes.to_array()).collect(),
    }
}

/// Calls `Groth16Proof::from_xdr` (soroban-sdk's `FromXdr`). Trusted claim:
/// bytes laid out as the host writes a proof decode without error, to the
/// proof whose points are the bytes at the layout's offsets.
#[verifier::external_body]
fn decode_proof(env: &soroban_sdk::Env, bytes: &Vec<u8>) -> (r: ProofPoints)
    requires
        proof_layout_ok(bytes@),
    ensures
        r.a@ == proof_a(bytes@),
        r.b@ == proof_b(bytes@),
        r.c@ == proof_c(bytes@),
{
    let p = Groth16Proof::from_xdr(env, &Bytes::from_slice(env, bytes)).ok().unwrap();
    ProofPoints { a: p.a.bytes.to_array(), b: p.b.bytes.to_array(), c: p.c.bytes.to_array() }
}

/// Calls `cougr_core::zk::verify_groth16` on the key and proof built from
/// the points; a verification error counts as a rejection. Trusted claim:
/// on points the host accepts (a coordinate at or above the field modulus
/// makes the negation of A panic, and the host traps on other points) the
/// call returns, and the answer is a function of the points and the inputs
/// alone. Not stated: the host's cost budget, which can also stop the call.
#[verifier::external_body]
fn groth16_accepts(env: &soroban_sdk::Env, key: &KeyPoints, proof: &ProofPoints, public_inputs: &Vec<[u8; 32]>) -> (r: bool)
    requires
        key.points_ok(),
        proof.points_ok(),
    ensures
        r == groth16_verdict(key.alpha@, key.beta@, key.gamma@, key.delta@, points_of(key.ic@),
            proof.a@, proof.b@, proof.c@, inputs_of(public_inputs@)),
{
    let g1 = |v| G1Point { bytes: BytesN::from_array(env, v) };
    let g2 = |v| G2Point { bytes: BytesN::from_array(env, v) };
    let xs: Vec<Scalar> = public_inputs.iter().map(|v| Scalar { bytes: BytesN::from_array(env, v) }).collect();
    matches!(verify_groth16(env,
        &VerificationKey { alpha: g1(&key.alpha), beta: g2(&key.beta), gamma: g2(&key.gamma), delta: g2(&key.delta),
            ic: SorobanVec::from_iter(env, key.ic.iter().map(g1)) },
        &Groth16Proof { a: g1(&proof.a), b: g2(&proof.b), c: g1(&proof.c) }, &xs), Ok(true))
}

/// Checks a hidden-solution puzzle definition; the first rule broken is
/// reported.
pub fn validate_zk_puzzle(grid_size: u32, suspects: &Vec<Vec<u8>>, clues: &Vec<Clue>, commitment: &Vec<u8>, verifier_key: &Vec<u8>) -> (r: Result<(), PuzzleError>)
    ensures
        r == (match zk_puzzle_error(grid_size, texts(suspects@), clues@, commitment@, verifier_key@) {
            Some(e) => Err(e),
            None => Ok(()),
        }),
{
    let n = grid_size;
    let ghost names = texts(suspects@);
    if n != 4 && n != 5 {
        return Err(PuzzleError::InvalidGridSize);
    }
    assert(names.len() == suspects@.len());
    if suspects.len() != n as usize {
        return Err(PuzzleError::InvalidSuspects);
    }
    let mut i: usize = 0;
    while i < n as usize
        invariant
            n == 4 || n == 5,
            n == grid_size,
            suspects.len() == n,
            names == texts(suspects@),
            0 <= i <= n,
            forall|j: int| 0 <= j < i ==> #[trigger] names[j].len() != 0,
        decreases n - i,
    {
        if suspects[i].len() == 0 {
            assert(names[i as int].len() == 0);
            return Err(PuzzleError::InvalidSuspects);
        }
        i += 1;
    }
    if clues.len() == 0 {
        return Err(PuzzleError::InvalidClues);
    }
    let mut j: usize = 0;
    while j < clues.len()
        invariant
            n == 4 || n == 5,
            n == grid_size,
            names == texts(suspects@),
            names.len() == n,
            forall|q: int| 0 <= q < n ==> #[trigger] names[q].len() != 0,
            clues.len() > 0,
            0 <= j <= clues.len(),
            forall|q: int| 0 <= q < j ==> zk_clue_ok(#[trigger] clues@[q], n),
        decreases clues.len() - j,
    {
        let cl = clues[j];
        if cl.row >= n || cl.col >= n || cl.suspect_idx < 1 || cl.suspect_idx > n {
            assert(!zk_clue_ok(clues@[j as int], n));
            return Err(PuzzleError::InvalidClues);
        }
        j += 1;
    }
    if is_zero_hash(commitment) {
        return Err(PuzzleError::InvalidSolution);
    }
    if verifier_key.len() == 0 {
        return Err(PuzzleError::InvalidSolution);
    }
    Ok(())
}

/// Whether the bytes are 32 zeros.
fn is_zero_hash(h: &Vec<u8>) -> (r: bool)
    ensures
        r == (h@ == Seq::new(32, |i: int| 0u8)),
{
    if h.len() != 32 {
        return false;
    }
    let mut i: usize = 0;
    while i < 32
        invariant
            h.len() == 32,
            0 <= i <= 32,
            forall|j: int| 0 <= j < i ==> h@[j] == 0u8,
        decreases 32 - i,
    {
        if h[i] != 0 {
            assert(h@[i as int] != Seq::new(32, |k: int| 0u8)[i as int]);
            return false;
        }
        i += 1;
    }
    assert(h@ =~= Seq::new(32, |j: int| 0u8));
    true
}

/// Whether the pair was marked solved.
pub open spec fn marked(solved: Seq<(u32, Vec<u8>)>, puzzle_id: u32, player: Seq<u8>) -> bool {
    exists|i: int| 0 <= i < solved.len() && #[trigger] solved[i].0 == puzzle_id && solved[i].1@ == player
}

/// The contract's operations in hidden-solution mode.
#[derive(Debug)]
pub struct MurdokuZkContract;

impl MurdokuZkContract {
    pub fn new_registry() -> (r: ZkRegistry)
        ensures
            r.puzzles@.len() == 0,
            r.solved@.len() == 0,
            r.wf(),
    {
        ZkRegistry { puzzles: Vec::new(), solved: Vec::new() }
    }

    /// Checks and stores a puzzle by `caller`, who becomes its owner;
    /// returns its id.
    pub fn submit_puzzle(
        registry: &mut ZkRegistry,
        caller: &Vec<u8>,
        grid_size: u32,
        suspects: Vec<Vec<u8>>,
        clues: Vec<Clue>,
        solution_commitment: Vec<u8>,
        verifier_key: Vec<u8>,
        metadata: PuzzleMetadata,
    ) -> (r: Result<u32, PuzzleError>)
        requires
            old(registry).wf(),
            old(registry).puzzles.len() < u32::MAX,
        ensures
            final(registry).wf(),
            final(registry).solved@ == old(registry).solved@,
            match zk_puzzle_error(grid_size, texts(suspects@), clues@, solution_commitment@, verifier_key@) {
                Some(e) => r == Err::<u32, PuzzleError>(e) && final(registry).puzzles@ == old(registry).puzzles@,
                None => {
                    &&& r == Ok::<u32, PuzzleError>((old(registry).puzzles.len() + 1) as u32)
                    &&& final(registry).puzzles@.len() == old(registry).puzzles.len() + 1
                    &&& final(registry).puzzles@.take(old(registry).puzzles.len() as int) == old(registry).puzzles@
                    &&& ({
                        let p = final(registry).puzzles@.last();
                        &&& p.id == old(registry).puzzles.len() + 1
                        &&& p.creator@ == caller@
                        &&& p.grid_size == grid_size
                        &&& p.suspects@ == suspects@
                        &&& p.clues@ == clues@
                        &&& p.solution_commitment@ == solution_commitment@
                        &&& p.verifier_key@ == verifier_key@
                        &&& p.metadata.name@ == metadata.name@
                        &&& p.metadata.difficulty@ == metadata.difficulty@
                        &&& p.active
                        &&& p.solvers == 0
                    })
                },
            },
    {
        match validate_zk_puzzle(grid_size, &suspects, &clues, &solution_commitment, &verifier_key) {
            Err(e) => Err(e),
            Ok(()) => {
                let puzzle_id = (registry.puzzles.len() + 1) as u32;
                let ghost before = registry.puzzles@;
                registry.puzzles.push(ZkPuzzle {
                    id: puzzle_id,
                    creator: clone_bytes(caller),
                    grid_size,
                    suspects,
                    clues,
                    solution_commitment,
                    verifier_key,
                    metadata,
                    active: true,
                    solvers: 0,
                });
                assert(registry.puzzles@.take(before.len() as int) =~= before);
                Ok(puzzle_id)
            },
        }
    }

    /// Puzzle `puzzle_id`.
    pub fn get_puzzle(registry: &ZkRegistry, puzzle_id: u32) -> (r: Result<&ZkPuzzle, PuzzleError>)
        requires
            registry.wf(),
        ensures
            1 <= puzzle_id <= registry.puzzles.len() ==> r == Ok::<&ZkPuzzle, PuzzleError>(&registry.puzzles@[puzzle_id - 1]),
            !(1 <= puzzle_id <= registry.puzzles.len()) ==> r == Err::<&ZkPuzzle, PuzzleError>(PuzzleError::PuzzleNotFound),
    {
        if puzzle_id < 1 || puzzle_id as usize > registry.puzzles.len() {
            return Err(PuzzleError::PuzzleNotFound);
        }
        Ok(&registry.puzzles[(puzzle_id - 1) as usize])
    }

    /// The number of puzzles submitted.
    pub fn get_puzzle_count(registry: &ZkRegistry) -> (r: u32)
        requires
            registry.wf(),
        ensures
            r == registry.puzzles.len(),
    {
        registry.puzzles.len() as u32
    }

    /// Summaries of puzzles `offset + 1` to `offset + limit` (those that
    /// exist), in id order.
    pub fn list_puzzles(registry: &ZkRegistry, offset: u32, limit: u32) -> (r: Vec<PuzzleSummary>)
        requires
            registry.wf(),
            offset < registry.puzzles.len() ==> offset + limit <= u32::MAX,
        ensures
            offset >= registry.puzzles.len() ==> r@.len() == 0,
            offset < registry.puzzles.len() ==> {
                let end = if offset + limit < registry.puzzles.len() { offset + limit } else { registry.puzzles.len() as int };
                &&& r@.len() == end - offset
                &&& forall|i: int| 0 <= i < r@.len() ==> zk_summarizes(#[trigger] r@[i], registry.puzzles@[offset + i])
            },
    {
        let total = registry.puzzles.len() as u32;
        let mut list: Vec<PuzzleSummary> = Vec::new();
        if offset >= total {
            return list;
        }
        let start = offset + 1;
        let end = if offset + limit < total { offset + limit } else { total };
        let mut id = start;
        while id <= end
            invariant
                registry.wf(),
                total == registry.puzzles.len(),
                start == offset + 1,
                end == (if offset + limit < total { offset + limit } else { total as int }),
                end <= total,
                start <= id <= end + 1,
                list@.len() == id - start,
                forall|i: int| 0 <= i < list@.len() ==> zk_summarizes(#[trigger] list@[i], registry.puzzles@[offset + i]),
            decreases end + 1 - id,
        {
            let p = &registry.puzzles[(id - 1) as usize];
            list.push(PuzzleSummary {
                id: p.id,
                creator: clone_bytes(&p.creator),
                grid_size: p.grid_size,
                metadata: p.metadata.copy(),
                active: p.active,
            });
            assert forall|i: int| 0 <= i < list@.len() implies zk_summarizes(#[trigger] list@[i], registry.puzzles@[offset + i]) by {
                if i == list@.len() - 1 {
                    assert(offset + i == id - 1);
                }
            }
            if id == end {
                return list;
            }
            id += 1;
        }
        list
    }

    /// The owner of puzzle `puzzle_id` withdraws it; anyone else, or a
    /// puzzle that does not exist, is refused.
    pub fn deactivate_puzzle(registry: &mut ZkRegistry, caller: &Vec<u8>, puzzle_id: u32) -> (r: Result<(), PuzzleError>)
        requires
            old(registry).wf(),
        ensures
            final(registry).wf(),
            final(registry).solved@ == old(registry).solved@,
            final(registry).puzzles@.len() == old(registry).puzzles@.len(),
            (1 <= puzzle_id <= old(registry).puzzles.len() && old(registry).puzzles@[puzzle_id - 1].creator@ == caller@) ==> {
                &&& r is Ok
                &&& !final(registry).puzzles@[puzzle_id - 1].active
                &&& final(registry).puzzles@[puzzle_id - 1].solution_commitment@ == old(registry).puzzles@[puzzle_id - 1].solution_commitment@
                &&& final(registry).puzzles@[puzzle_id - 1].solvers == old(registry).puzzles@[puzzle_id - 1].solvers
                &&& forall|j: int| 0 <= j < old(registry).puzzles@.len() && j != puzzle_id - 1
                    ==> #[trigger] final(registry).puzzles@[j] == old(registry).puzzles@[j]
            },
            !(1 <= puzzle_id <= old(registry).puzzles.len() && old(registry).puzzles@[puzzle_id - 1].creator@ == caller@)
                ==> r == Err::<(), PuzzleError>(PuzzleError::Unauthorized) && final(registry).puzzles@ == old(registry).puzzles@,
    {
        if puzzle_id < 1 || puzzle_id as usize > registry.puzzles.len() {
            return Err(PuzzleError::Unauthorized);
        }
        let k = (puzzle_id - 1) as usize;
        if !bytes_equal(&registry.puzzles[k].creator, caller) {
            return Err(PuzzleError::Unauthorized);
        }
        let mut p = registry.puzzles.remove(k);
        p.active = false;
        registry.puzzles.insert(k, p);
        Ok(())
    }

    /// Records `player` as a solver of `puzzle_id` once the proof was
    /// judged: a rejected proof changes nothing; an accepted one marks the
    /// pair solved and counts one more solver.
    pub fn record_proof(registry: &mut ZkRegistry, player: &Vec<u8>, puzzle_id: u32, accepted: bool) -> (r: Result<(), PuzzleError>)
        requires
            old(registry).wf(),
            1 <= puzzle_id <= old(registry).puzzles.len() ==> old(registry).puzzles@[puzzle_id - 1].solvers < u32::MAX,
        ensures
            final(registry).wf(),
            final(registry).puzzles@.len() == old(registry).puzzles@.len(),
            !(1 <= puzzle_id <= old(registry).puzzles.len()) ==> r == Err::<(), PuzzleError>(PuzzleError::PuzzleNotFound)
                && final(registry).puzzles@ == old(registry).puzzles@ && final(registry).solved@ == old(registry).solved@,
            (1 <= puzzle_id <= old(registry).puzzles.len() && !accepted) ==> r == Err::<(), PuzzleError>(PuzzleError::InvalidSolution)
                && final(registry).puzzles@ == old(registry).puzzles@ && final(registry).solved@ == old(registry).solved@,
            (1 <= puzzle_id <= old(registry).puzzles.len() && accepted) ==> {
                &&& r is Ok
                &&& marked(final(registry).solved@, puzzle_id, player@)
                &&& forall|q: u32, who: Seq<u8>| marked(old(registry).solved@, q, who) ==> marked(final(registry).solved@, q, who)
                &&& forall|q: u32, who: Seq<u8>| marked(final(registry).solved@, q, who) ==> marked(old(registry).solved@, q, who) || (q == puzzle_id && who == player@)
                &&& final(registry).puzzles@[puzzle_id - 1].solvers == old(registry).puzzles@[puzzle_id - 1].solvers + 1
                &&& forall|j: int| 0 <= j < old(registry).puzzles@.len() && j != puzzle_id - 1
                    ==> #[trigger] final(registry).puzzles@[j] == old(registry).puzzles@[j]
            },
    {
        if puzzle_id < 1 || puzzle_id as usize > registry.puzzles.len() {
            return Err(PuzzleError::PuzzleNotFound);
        }
        if !accepted {
            return Err(PuzzleError::InvalidSolution);
        }
        if !Self::is_solved(registry, puzzle_id, player) {
            registry.solved.push((puzzle_id, clone_bytes(player)));
            assert(registry.solved@.last().0 == puzzle_id && registry.solved@.last().1@ == player@);
            assert forall|q: u32, who: Seq<u8>| marked(old(registry).solved@, q, who) implies marked(registry.solved@, q, who) by {
                let i = choose|i: int| 0 <= i < old(registry).solved@.len() && #[trigger] old(registry).solved@[i].0 == q && old(registry).solved@[i].1@ == who;
                assert(registry.solved@[i] == old(registry).solved@[i]);
            }
            assert forall|q: u32, who: Seq<u8>| marked(registry.solved@, q, who) implies marked(old(registry).solved@, q, who) || (q == puzzle_id && who == player@) by {
                let i = choose|i: int| 0 <= i < registry.solved@.len() && #[trigger] registry.solved@[i].0 == q && registry.solved@[i].1@ == who;
                if i < old(registry).solved@.len() {
                    assert(registry.solved@[i] == old(registry).solved@[i]);
                }
            }
        }
        let k = (puzzle_id - 1) as usize;
        let mut p = registry.puzzles.remove(k);
        p.solvers = p.solvers + 1;
        registry.puzzles.insert(k, p);
        Ok(())
    }

    /// `player` proves a solution of `puzzle_id` with a Groth16 proof (its
    /// XDR bytes) and its public inputs, checked against the puzzle's stored
    /// key (its XDR bytes). A key or proof whose bytes are not laid out as
    /// the host writes one is rejected, as is a proof the check refuses.
    pub fn submit_proof(
        env: &soroban_sdk::Env,
        registry: &mut ZkRegistry,
        player: &Vec<u8>,
        puzzle_id: u32,
        proof: &Vec<u8>,
        public_inputs: &Vec<[u8; 32]>,
    ) -> (r: Result<(), PuzzleError>)
        requires
            old(registry).wf(),
            1 <= puzzle_id <= old(registry).puzzles.len() ==> old(registry).puzzles@[puzzle_id - 1].solvers < u32::MAX,
            1 <= puzzle_id <= old(registry).puzzles.len() && key_layout_ok(old(registry).puzzles@[puzzle_id - 1].verifier_key@)
                && proof_layout_ok(proof@)
                ==> key_points_ok(old(registry).puzzles@[puzzle_id - 1].verifier_key@) && proof_points_ok(proof@),
        ensures
            final(registry).wf(),
            !(1 <= puzzle_id <= old(registry).puzzles.len()) ==> r == Err::<(), PuzzleError>(PuzzleError::PuzzleNotFound)
                && final(registry).puzzles@ == old(registry).puzzles@ && final(registry).solved@ == old(registry).solved@,
            (1 <= puzzle_id <= old(registry).puzzles.len()) ==> ({
                let accepted = proof_holds(old(registry).puzzles@[puzzle_id - 1].verifier_key@, proof@, inputs_of(public_inputs@));
                &&& (!accepted ==> r == Err::<(), PuzzleError>(PuzzleError::InvalidSolution)
                    && final(registry).puzzles@ == old(registry).puzzles@ && final(registry).solved@ == old(registry).solved@)
                &&& (accepted ==> r is Ok && marked(final(registry).solved@, puzzle_id, player@)
                    && final(registry).puzzles@[puzzle_id - 1].solvers == old(registry).puzzles@[puzzle_id - 1].solvers + 1)
            }),
    {
        if puzzle_id < 1 || puzzle_id as usize > registry.puzzles.len() {
            return Err(PuzzleError::PuzzleNotFound);
        }
        let vk = &registry.puzzles[(puzzle_id - 1) as usize].verifier_key;
        let accepted = if key_layout(vk) && proof_layout(proof) {
            let key = decode_key(env, vk);
            let points = decode_proof(env, proof);
            proof {
                assert forall|i: int| 0 <= i < key.ic@.len() implies g1_point_ok(#[trigger] key.ic@[i]@) by {
                    assert(points_of(key.ic@).len() == key.ic@.len());
                    assert(key_ics(vk@).len() == key_ic_count(vk@));
                    assert(points_of(key.ic@)[i] == key.ic@[i]@);
                    assert(key_ics(vk@)[i] == key_ic(vk@, i));
                }
            }
            groth16_accepts(env, &key, &points, public_inputs)
        } else {
            false
        };
        Self::record_proof(registry, player, puzzle_id, accepted)
    }

    /// Whether `player` has proved a solution of `puzzle_id`.
    pub fn is_solved(registry: &ZkRegistry, puzzle_id: u32, player: &Vec<u8>) -> (r: bool)
        ensures
            r == marked(registry.solved@, puzzle_id, player@),
    {
        let mut i: usize = 0;
        while i < registry.solved.len()
            invariant
                0 <= i <= registry.solved.len(),
                forall|j: int| 0 <= j < i ==> !(#[trigger] registry.solved@[j].0 == puzzle_id && registry.solved@[j].1@ == player@),
            decreases registry.solved.len() - i,
        {
            if registry.solved[i].0 == puzzle_id && bytes_equal(&registry.solved[i].1, player) {
                return true;
            }
            i += 1;
        }
        false
    }
}

/// A summary carries the puzzle's id, creator, size, metadata and status.
pub open spec fn zk_summarizes(s: PuzzleSummary, p: ZkPuzzle) -> bool {
    &&& s.id == p.id
    &&& s.creator@ == p.creator@
    &&& s.grid_size == p.grid_size
    &&& s.metadata.name@ == p.metadata.name@
    &&& s.metadata.difficulty@ == p.metadata.difficulty@
    &&& s.active == p.active
}

} // verus!
