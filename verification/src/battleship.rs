//! Battleship with hidden boards: each player commits to a Merkle root of
//! their board; an attack names a cell, and the defender answers with the
//! cell's value and a Merkle proof of it against their root. Seventeen ship
//! cells per side; the first side to lose all of them loses.
use vstd::prelude::*;
use crate::common::{be_bytes_u32, bytes_equal, clone_bytes, push_be_u32, sha256, sha256_digest};
use cougr_core::privacy::stable::{MerkleProofVerifier, OnChainMerkleProof, Sha256MerkleProofVerifier};

verus! {

pub const GRID_SIZE: u32 = 10;
/// Ship cells per side: 5 + 4 + 3 + 3 + 2.
pub const TOTAL_SHIP_CELLS: u32 = 17;

/// What an attacked cell turned out to be; `Unknown` marks a cell not
/// attacked yet.
#[derive(Clone, Copy, Debug, PartialEq, Eq, Structural)]
pub enum CellResult {
    Unknown,
    Miss,
    Hit,
}

#[derive(Clone, Copy, Debug, PartialEq, Eq, Structural)]
pub enum Phase {
    Setup,
    Attack,
    Finished,
}

/// A player's commitment: a hash binding the board to a salt, and the
/// Merkle root of the board's cells.
#[derive(Debug)]
pub struct BoardCommitment {
    pub commitment: Vec<u8>,
    pub merkle_root: Vec<u8>,
}

impl BoardCommitment {
    /// The component's bytes: the commitment, then the root.
    pub fn serialize(&self) -> (r: Vec<u8>)
        ensures
            r@ == self.commitment@ + self.merkle_root@,
    {
        let mut r = clone_bytes(&self.commitment);
        let mut i: usize = 0;
        while i < self.merkle_root.len()
            invariant
                0 <= i <= self.merkle_root.len(),
                r@ =~= self.commitment@ + self.merkle_root@.take(i as int),
            decreases self.merkle_root.len() - i,
        {
            r.push(self.merkle_root[i]);
            i += 1;
        }
        assert(self.merkle_root@.take(self.merkle_root.len() as int) =~= self.merkle_root@);
        r
    }
}

/// The results of the attacks on one board, by cell index.
#[derive(Debug)]
pub struct AttackGrid {
    pub cells: Vec<CellResult>,
}

#[derive(Clone, Copy, Debug, PartialEq, Eq, Structural)]
pub struct ShipStatus {
    pub remaining_a: u32,
    pub remaining_b: u32,
}

/// Whose turn it is, the phase, and the attacked cell awaiting an answer.
#[derive(Debug)]
pub struct TurnState {
    pub current_player: Vec<u8>,
    pub phase: Phase,
    pub pending_reveal_x: u32,
    pub pending_reveal_y: u32,
    pub has_pending: bool,
}

/// An inclusion proof: sibling hashes from the leaf up, direction bits
/// (bit i set when the node at level i is a right child), the leaf hash,
/// the leaf's index and the tree depth.
#[derive(Debug)]
pub struct MerkleProof {
    pub siblings: Vec<Vec<u8>>,
    pub path_bits: u32,
    pub leaf: Vec<u8>,
    pub leaf_index: u32,
    pub depth: u32,
}

impl MerkleProof {
    pub open spec fn sibling_bytes(&self) -> Seq<Seq<u8>> {
        self.siblings@.map_values(|s: Vec<u8>| s@)
    }

    /// Every hash in the proof is 32 bytes long.
    pub open spec fn wf(&self) -> bool {
        &&& self.leaf@.len() == 32
        &&& forall|i: int| 0 <= i < self.siblings@.len() ==> #[trigger] self.siblings@[i]@.len() == 32
    }
}

/// Why a request was refused.
#[derive(Clone, Copy, Debug, PartialEq, Eq, Structural)]
pub enum BattleshipError {
    NotInSetupPhase,
    AlreadyCommitted,
    NotAPlayer,
    NotInAttackPhase,
    NotYourTurn,
    PendingReveal,
    InvalidCoordinates,
    AlreadyAttacked,
    NoPendingAttack,
    WrongCoordinates,
    InvalidProof,
}

/// The stored game.
#[derive(Debug)]
pub struct GameState {
    pub player_a: Vec<u8>,
    pub player_b: Vec<u8>,
    pub commitment_a: Vec<u8>,
    pub merkle_root_a: Vec<u8>,
    pub commitment_b: Vec<u8>,
    pub merkle_root_b: Vec<u8>,
    pub has_commitment_a: bool,
    pub has_commitment_b: bool,
    pub attack_grid_a: AttackGrid,
    pub attack_grid_b: AttackGrid,
    pub ship_status: ShipStatus,
    pub turn_state: TurnState,
    pub winner: Option<Vec<u8>>,
}

/// The stored game as values.
pub struct GameView {
    pub player_a: Seq<u8>,
    pub player_b: Seq<u8>,
    pub commitment_a: Seq<u8>,
    pub merkle_root_a: Seq<u8>,
    pub commitment_b: Seq<u8>,
    pub merkle_root_b: Seq<u8>,
    pub has_commitment_a: bool,
    pub has_commitment_b: bool,
    pub grid_a: Seq<CellResult>,
    pub grid_b: Seq<CellResult>,
    pub ship_status: ShipStatus,
    pub current_player: Seq<u8>,
    pub phase: Phase,
    pub pending_reveal_x: u32,
    pub pending_reveal_y: u32,
    pub has_pending: bool,
    pub winner: Option<Seq<u8>>,
}

impl View for GameState {
    type V = GameView;

    open spec fn view(&self) -> GameView {
        GameView {
            player_a: self.player_a@,
            player_b: self.player_b@,
            commitment_a: self.commitment_a@,
            merkle_root_a: self.merkle_root_a@,
            commitment_b: self.commitment_b@,
            merkle_root_b: self.merkle_root_b@,
            has_commitment_a: self.has_commitment_a,
            has_commitment_b: self.has_commitment_b,
            grid_a: self.attack_grid_a.cells@,
            grid_b: self.attack_grid_b.cells@,
            ship_status: self.ship_status,
            current_player: self.turn_state.current_player@,
            phase: self.turn_state.phase,
            pending_reveal_x: self.turn_state.pending_reveal_x,
            pending_reveal_y: self.turn_state.pending_reveal_y,
            has_pending: self.turn_state.has_pending,
            winner: match self.winner {
                Some(w) => Some(w@),
                None => None,
            },
        }
    }
}

/// Both grids have 100 cells, both roots are 32 bytes, and a pending attack
/// names a cell of the grid.
pub open spec fn game_wf(g: GameView) -> bool {
    &&& g.grid_a.len() == 100
    &&& g.grid_b.len() == 100
    &&& g.merkle_root_a.len() == 32
    &&& g.merkle_root_b.len() == 32
    &&& g.has_pending ==> g.pending_reveal_x < GRID_SIZE && g.pending_reveal_y < GRID_SIZE
}

pub open spec fn cell_of(x: u32, y: u32) -> int {
    y * 10 + x
}

/// The leaf committed for cell `index` holding `value`:
/// SHA-256(0x00 || SHA-256(index || value)), integers in big-endian order.
pub open spec fn leaf_of(index: u32, value: u32) -> Seq<u8> {
    sha256_digest(seq![0u8] + sha256_digest(be_bytes_u32(index) + be_bytes_u32(value)))
}

/// The root reached from the leaf by folding in the first `n` siblings:
/// at level `i` the node is SHA-256(0x01, left, right), the current node
/// being the right child when bit `i` of the direction bits is set.
pub open spec fn merkle_fold(siblings: Seq<Seq<u8>>, path_bits: u32, leaf: Seq<u8>, n: nat) -> Seq<u8>
    decreases n,
{
    if n == 0 {
        leaf
    } else {
        let i = (n - 1) as nat;
        let cur = merkle_fold(siblings, path_bits, leaf, i);
        if (path_bits >> (i as u32)) & 1u32 == 1u32 {
            sha256_digest(seq![1u8] + siblings[i as int] + cur)
        } else {
            sha256_digest(seq![1u8] + cur + siblings[i as int])
        }
    }
}

/// Whether folding the leaf with the `depth` siblings gives `root`.
pub open spec fn merkle_path_matches(siblings: Seq<Seq<u8>>, path_bits: u32, leaf: Seq<u8>, depth: u32, root: Seq<u8>) -> bool {
    merkle_fold(siblings, path_bits, leaf, depth as nat) == root
}

/// Calls `Sha256MerkleProofVerifier::verify` (that is,
/// `cougr_core::zk::merkle::verify_inclusion`) on the proof and `root`.
/// Trusted claim, from the source: the call fails (here `None`) exactly
/// when the number of siblings is not the depth; otherwise it answers
/// whether folding the siblings into the leaf with the host's SHA-256
/// reaches `root` (the leaf index is not read). A depth above 32 would
/// shift the 32 direction bits too far and panic, so it is left out.
#[verifier::external_body]
fn verify_merkle_proof(env: &soroban_sdk::Env, proof: &MerkleProof, root: &Vec<u8>) -> (r: Option<bool>)
    requires
        proof.wf(),
        proof.depth <= 32,
        root@.len() == 32,
    ensures
        proof.siblings@.len() != proof.depth ==> r is None,
        proof.siblings@.len() == proof.depth ==> r == Some(
            merkle_path_matches(proof.sibling_bytes(), proof.path_bits, proof.leaf@, proof.depth, root@)),
{
    let to32 = |v: &Vec<u8>| soroban_sdk::BytesN::<32>::from_array(env, &v.as_slice().try_into().unwrap());
    let siblings = soroban_sdk::Vec::from_iter(env, proof.siblings.iter().map(|s| to32(s)));
    let p = OnChainMerkleProof { siblings, path_bits: proof.path_bits, leaf: to32(&proof.leaf), leaf_index: proof.leaf_index, depth: proof.depth };
    match Sha256MerkleProofVerifier.verify(env, &p, &to32(root)) {
        Ok(b) => Some(b),
        Err(_) => None,
    }
}

/// A board commitment by `player`.
pub open spec fn board_committed(g: GameView, player: Seq<u8>, commitment: Seq<u8>, root: Seq<u8>) -> Result<GameView, BattleshipError> {
    if g.phase != Phase::Setup {
        Err(BattleshipError::NotInSetupPhase)
    } else {
        let g1 = if player == g.player_a {
            if g.has_commitment_a { Err(BattleshipError::AlreadyCommitted) }
            else { Ok(GameView { commitment_a: commitment, merkle_root_a: root, has_commitment_a: true, ..g }) }
        } else if player == g.player_b {
            if g.has_commitment_b { Err(BattleshipError::AlreadyCommitted) }
            else { Ok(GameView { commitment_b: commitment, merkle_root_b: root, has_commitment_b: true, ..g }) }
        } else {
            Err(BattleshipError::NotAPlayer)
        };
        match g1 {
            Ok(h) => if h.has_commitment_a && h.has_commitment_b { Ok(GameView { phase: Phase::Attack, ..h }) } else { Ok(h) },
            Err(e) => Err(e),
        }
    }
}

/// An attack by `attacker` on cell (x, y) of the other board.
pub open spec fn attacked(g: GameView, attacker: Seq<u8>, x: u32, y: u32) -> Result<GameView, BattleshipError> {
    if g.phase != Phase::Attack {
        Err(BattleshipError::NotInAttackPhase)
    } else if g.current_player != attacker {
        Err(BattleshipError::NotYourTurn)
    } else if g.has_pending {
        Err(BattleshipError::PendingReveal)
    } else if x >= GRID_SIZE || y >= GRID_SIZE {
        Err(BattleshipError::InvalidCoordinates)
    } else if (if attacker == g.player_a { g.grid_b } else { g.grid_a })[cell_of(x, y)] != CellResult::Unknown {
        Err(BattleshipError::AlreadyAttacked)
    } else {
        Ok(GameView { pending_reveal_x: x, pending_reveal_y: y, has_pending: true, ..g })
    }
}

/// The answer to the pending attack by `defender`, given the leaf the
/// contract expects and the verifier's verdict on the proof.
pub open spec fn cell_revealed(
    g: GameView,
    defender: Seq<u8>,
    x: u32,
    y: u32,
    value: u32,
    leaf_index: u32,
    leaf: Seq<u8>,
    expected_leaf: Seq<u8>,
    verified: Option<bool>,
) -> Result<GameView, BattleshipError> {
    let coord = cell_of(x, y);
    if !g.has_pending {
        Err(BattleshipError::NoPendingAttack)
    } else if x != g.pending_reveal_x || y != g.pending_reveal_y {
        Err(BattleshipError::WrongCoordinates)
    } else if defender != g.player_a && defender != g.player_b {
        Err(BattleshipError::NotAPlayer)
    } else if leaf_index != coord || leaf != expected_leaf || verified != Some(true) {
        Err(BattleshipError::InvalidProof)
    } else {
        let result = if value == 1 { CellResult::Hit } else { CellResult::Miss };
        let g1 = if defender == g.player_a {
            GameView {
                grid_a: g.grid_a.update(coord, result),
                ship_status: if value == 1 { ShipStatus { remaining_a: (g.ship_status.remaining_a - 1) as u32, ..g.ship_status } } else { g.ship_status },
                has_pending: false,
                ..g
            }
        } else {
            GameView {
                grid_b: g.grid_b.update(coord, result),
                ship_status: if value == 1 { ShipStatus { remaining_b: (g.ship_status.remaining_b - 1) as u32, ..g.ship_status } } else { g.ship_status },
                has_pending: false,
                ..g
            }
        };
        if g1.ship_status.remaining_a == 0 {
            Ok(GameView { phase: Phase::Finished, winner: Some(g.player_b), ..g1 })
        } else if g1.ship_status.remaining_b == 0 {
            Ok(GameView { phase: Phase::Finished, winner: Some(g.player_a), ..g1 })
        } else {
            Ok(GameView { current_player: if g.current_player == g.player_a { g.player_b } else { g.player_a }, ..g1 })
        }
    }
}

/// A hit is never recorded against a side with no ship cells left.
pub open spec fn reveal_fits(g: GameView, defender: Seq<u8>, value: u32) -> bool {
    value == 1 ==> {
        &&& defender == g.player_a ==> g.ship_status.remaining_a > 0
        &&& defender != g.player_a ==> g.ship_status.remaining_b > 0
    }
}

/// A grid with no cell attacked.
pub open spec fn empty_grid() -> Seq<CellResult> {
    Seq::new(100, |i: int| CellResult::Unknown)
}

fn new_grid() -> (g: AttackGrid)
    ensures
        g.cells@ == empty_grid(),
{
    let mut cells: Vec<CellResult> = Vec::new();
    let mut i: usize = 0;
    while i < 100
        invariant
            0 <= i <= 100,
            cells@ =~= Seq::new(i as nat, |j: int| CellResult::Unknown),
        decreases 100 - i,
    {
        cells.push(CellResult::Unknown);
        i += 1;
    }
    AttackGrid { cells }
}

fn zero_hash() -> (h: Vec<u8>)
    ensures
        h@ == Seq::new(32, |i: int| 0u8),
{
    let mut h: Vec<u8> = Vec::new();
    let mut i: usize = 0;
    while i < 32
        invariant
            0 <= i <= 32,
            h@ =~= Seq::new(i as nat, |j: int| 0u8),
        decreases 32 - i,
    {
        h.push(0);
        i += 1;
    }
    h
}

/// The contract's operations over a stored game.
#[derive(Debug)]
pub struct BattleshipContract;

impl BattleshipContract {
    /// A new game in setup, player A to attack first.
    pub fn new_game(player_a: Vec<u8>, player_b: Vec<u8>) -> (g: GameState)
        ensures
            g@ == (GameView {
                player_a: player_a@,
                player_b: player_b@,
                commitment_a: Seq::new(32, |i: int| 0u8),
                merkle_root_a: Seq::new(32, |i: int| 0u8),
                commitment_b: Seq::new(32, |i: int| 0u8),
                merkle_root_b: Seq::new(32, |i: int| 0u8),
                has_commitment_a: false,
                has_commitment_b: false,
                grid_a: empty_grid(),
                grid_b: empty_grid(),
                ship_status: ShipStatus { remaining_a: 17, remaining_b: 17 },
                current_player: player_a@,
                phase: Phase::Setup,
                pending_reveal_x: 0,
                pending_reveal_y: 0,
                has_pending: false,
                winner: None,
            }),
            game_wf(g@),
    {
        let current = clone_bytes(&player_a);
        GameState {
            player_a,
            player_b,
            commitment_a: zero_hash(),
            merkle_root_a: zero_hash(),
            commitment_b: zero_hash(),
            merkle_root_b: zero_hash(),
            has_commitment_a: false,
            has_commitment_b: false,
            attack_grid_a: new_grid(),
            attack_grid_b: new_grid(),
            ship_status: ShipStatus { remaining_a: TOTAL_SHIP_CELLS, remaining_b: TOTAL_SHIP_CELLS },
            turn_state: TurnState {
                current_player: current,
                phase: Phase::Setup,
                pending_reveal_x: 0,
                pending_reveal_y: 0,
                has_pending: false,
            },
            winner: None,
        }
    }

    /// `player` commits to a board; a refused request changes nothing.
    pub fn commit_board(game: &mut GameState, player: &Vec<u8>, commitment: Vec<u8>, merkle_root: Vec<u8>) -> (r: Result<(), BattleshipError>)
        requires
            game_wf(old(game)@),
            commitment@.len() == 32,
            merkle_root@.len() == 32,
        ensures
            game_wf(final(game)@),
            match board_committed(old(game)@, player@, commitment@, merkle_root@) {
                Ok(g) => r is Ok && final(game)@ == g,
                Err(e) => r == Err::<(), BattleshipError>(e) && final(game)@ == old(game)@,
            },
    {
        if game.turn_state.phase != Phase::Setup {
            return Err(BattleshipError::NotInSetupPhase);
        }
        if bytes_equal(player, &game.player_a) {
            if game.has_commitment_a {
                return Err(BattleshipError::AlreadyCommitted);
            }
            game.commitment_a = commitment;
            game.merkle_root_a = merkle_root;
            game.has_commitment_a = true;
        } else if bytes_equal(player, &game.player_b) {
            if game.has_commitment_b {
                return Err(BattleshipError::AlreadyCommitted);
            }
            game.commitment_b = commitment;
            game.merkle_root_b = merkle_root;
            game.has_commitment_b = true;
        } else {
            return Err(BattleshipError::NotAPlayer);
        }
        if game.has_commitment_a && game.has_commitment_b {
            game.turn_state.phase = Phase::Attack;
        }
        Ok(())
    }

    /// The player whose turn it is names a cell of the other board; a
    /// refused request changes nothing.
    pub fn attack(game: &mut GameState, attacker: &Vec<u8>, x: u32, y: u32) -> (r: Result<(), BattleshipError>)
        requires
            game_wf(old(game)@),
        ensures
            game_wf(final(game)@),
            match attacked(old(game)@, attacker@, x, y) {
                Ok(g) => r is Ok && final(game)@ == g,
                Err(e) => r == Err::<(), BattleshipError>(e) && final(game)@ == old(game)@,
            },
    {
        if game.turn_state.phase != Phase::Attack {
            return Err(BattleshipError::NotInAttackPhase);
        }
        if !bytes_equal(&game.turn_state.current_player, attacker) {
            return Err(BattleshipError::NotYourTurn);
        }
        if game.turn_state.has_pending {
            return Err(BattleshipError::PendingReveal);
        }
        if x >= GRID_SIZE || y >= GRID_SIZE {
            return Err(BattleshipError::InvalidCoordinates);
        }
        let coord = Self::coord_to_index(x, y);
        let previous = if bytes_equal(attacker, &game.player_a) {
            game.attack_grid_b.cells[coord as usize]
        } else {
            game.attack_grid_a.cells[coord as usize]
        };
        if previous != CellResult::Unknown {
            return Err(BattleshipError::AlreadyAttacked);
        }
        game.turn_state.pending_reveal_x = x;
        game.turn_state.pending_reveal_y = y;
        game.turn_state.has_pending = true;
        Ok(())
    }

    /// The defender's answer to the pending attack, once the expected leaf
    /// and the verifier's verdict are known. A refused answer changes
    /// nothing.
    pub fn reveal_cell_with(
        game: &mut GameState,
        defender: &Vec<u8>,
        x: u32,
        y: u32,
        value: u32,
        proof: &MerkleProof,
        expected_leaf: &Vec<u8>,
        verified: Option<bool>,
    ) -> (r: Result<(), BattleshipError>)
        requires
            game_wf(old(game)@),
            reveal_fits(old(game)@, defender@, value),
        ensures
            game_wf(final(game)@),
            match cell_revealed(old(game)@, defender@, x, y, value, proof.leaf_index, proof.leaf@, expected_leaf@, verified) {
                Ok(g) => r is Ok && final(game)@ == g,
                Err(e) => r == Err::<(), BattleshipError>(e) && final(game)@ == old(game)@,
            },
    {
        if !game.turn_state.has_pending {
            return Err(BattleshipError::NoPendingAttack);
        }
        if x != game.turn_state.pending_reveal_x || y != game.turn_state.pending_reveal_y {
            return Err(BattleshipError::WrongCoordinates);
        }
        let is_defender_a = bytes_equal(defender, &game.player_a);
        if !is_defender_a && !bytes_equal(defender, &game.player_b) {
            return Err(BattleshipError::NotAPlayer);
        }
        let coord = Self::coord_to_index(x, y);
        if proof.leaf_index != coord {
            return Err(BattleshipError::InvalidProof);
        }
        if !bytes_equal(&proof.leaf, expected_leaf) {
            return Err(BattleshipError::InvalidProof);
        }
        match verified {
            Some(true) => {},
            _ => {
                return Err(BattleshipError::InvalidProof);
            },
        }
        let result = if value == 1 { CellResult::Hit } else { CellResult::Miss };
        if is_defender_a {
            game.attack_grid_a.cells.set(coord as usize, result);
            if result == CellResult::Hit {
                game.ship_status.remaining_a = game.ship_status.remaining_a - 1;
            }
        } else {
            game.attack_grid_b.cells.set(coord as usize, result);
            if result == CellResult::Hit {
                game.ship_status.remaining_b = game.ship_status.remaining_b - 1;
            }
        }
        game.turn_state.has_pending = false;
        if game.ship_status.remaining_a == 0 {
            game.turn_state.phase = Phase::Finished;
            game.winner = Some(clone_bytes(&game.player_b));
        } else if game.ship_status.remaining_b == 0 {
            game.turn_state.phase = Phase::Finished;
            game.winner = Some(clone_bytes(&game.player_a));
        } else {
            game.turn_state.current_player = if bytes_equal(&game.turn_state.current_player, &game.player_a) {
                clone_bytes(&game.player_b)
            } else {
                clone_bytes(&game.player_a)
            };
        }
        Ok(())
    }

    /// The defender answers the pending attack with the cell's value and a
    /// Merkle proof against their committed root; a proof of more than 32
    /// levels is refused as invalid. A refused answer changes nothing.
    pub fn reveal_cell(
        env: &soroban_sdk::Env,
        game: &mut GameState,
        defender: &Vec<u8>,
        x: u32,
        y: u32,
        value: u32,
        proof: &MerkleProof,
    ) -> (r: Result<(), BattleshipError>)
        requires
            game_wf(old(game)@),
            proof.wf(),
            reveal_fits(old(game)@, defender@, value),
        ensures
            game_wf(final(game)@),
            match cell_revealed(old(game)@, defender@, x, y, value, proof.leaf_index, proof.leaf@, leaf_of(cell_of(x, y) as u32, value),
                if proof.depth > 32 || proof.siblings@.len() != proof.depth { None } else {
                    Some(merkle_path_matches(proof.sibling_bytes(), proof.path_bits, proof.leaf@, proof.depth,
                        if defender@ == old(game)@.player_a { old(game)@.merkle_root_a } else { old(game)@.merkle_root_b }))
                }) {
                Ok(g) => r is Ok && final(game)@ == g,
                Err(e) => r == Err::<(), BattleshipError>(e) && final(game)@ == old(game)@,
            },
    {
        if !game.turn_state.has_pending {
            return Err(BattleshipError::NoPendingAttack);
        }
        if x != game.turn_state.pending_reveal_x || y != game.turn_state.pending_reveal_y {
            return Err(BattleshipError::WrongCoordinates);
        }
        let coord = Self::coord_to_index(x, y);
        let expected_leaf = Self::leaf_hash(env, coord, value);
        let verified = if proof.depth > 32 {
            None
        } else if bytes_equal(defender, &game.player_a) {
            verify_merkle_proof(env, proof, &game.merkle_root_a)
        } else {
            verify_merkle_proof(env, proof, &game.merkle_root_b)
        };
        Self::reveal_cell_with(game, defender, x, y, value, proof, &expected_leaf, verified)
    }

    /// The cell index of (x, y): row-major, ten cells per row.
    pub fn coord_to_index(x: u32, y: u32) -> (r: u32)
        requires
            y * 10 + x <= u32::MAX,
        ensures
            r == cell_of(x, y),
    {
        y * GRID_SIZE + x
    }

    /// The leaf committed for cell `index` holding `value`.
    pub fn leaf_hash(env: &soroban_sdk::Env, index: u32, value: u32) -> (h: Vec<u8>)
        ensures
            h@ == leaf_of(index, value),
    {
        let mut data: Vec<u8> = Vec::new();
        push_be_u32(&mut data, index);
        push_be_u32(&mut data, value);
        assert(data@ =~= be_bytes_u32(index) + be_bytes_u32(value));
        let prehash = sha256(env, &data);
        let mut leaf_input: Vec<u8> = Vec::new();
        leaf_input.push(0u8);
        let mut i: usize = 0;
        while i < 32
            invariant
                prehash@.len() == 32,
                0 <= i <= 32,
                leaf_input@ =~= seq![0u8] + prehash@.take(i as int),
            decreases 32 - i,
        {
            leaf_input.push(prehash[i]);
            i += 1;
        }
        assert(prehash@.take(32) =~= prehash@);
        sha256(env, &leaf_input)
    }
}

/// How many cells of a grid are recorded hits.
pub open spec fn hits(cells: Seq<CellResult>) -> nat
    decreases cells.len(),
{
    if cells.len() == 0 {
        0
    } else {
        hits(cells.drop_last()) + if cells.last() == CellResult::Hit { 1nat } else { 0nat }
    }
}

/// Recording one cell changes the hit count by at most that cell.
pub proof fn lemma_hits_update(cells: Seq<CellResult>, i: int, v: CellResult)
    requires
        0 <= i < cells.len(),
    ensures
        hits(cells.update(i, v)) + (if cells[i] == CellResult::Hit { 1int } else { 0int })
            == hits(cells) + (if v == CellResult::Hit { 1int } else { 0int }),
    decreases cells.len(),
{
    if i == cells.len() - 1 {
        assert(cells.update(i, v).drop_last() =~= cells.drop_last());
    } else {
        assert(cells.update(i, v).drop_last() =~= cells.drop_last().update(i, v));
        lemma_hits_update(cells.drop_last(), i, v);
    }
}

/// The board of the player who is not on turn.
pub open spec fn defending_grid(g: GameView) -> Seq<CellResult> {
    if g.current_player == g.player_a { g.grid_b } else { g.grid_a }
}

/// The player who is not on turn.
pub open spec fn defender_of(g: GameView) -> Seq<u8> {
    if g.current_player == g.player_a { g.player_b } else { g.player_a }
}

/// Ship cells left plus hits recorded make seventeen on each side, the
/// turn is with one of the two players, and an attacked cell awaiting an
/// answer has not been attacked before.
pub open spec fn consistent(g: GameView) -> bool {
    &&& g.ship_status.remaining_a + hits(g.grid_a) == TOTAL_SHIP_CELLS
    &&& g.ship_status.remaining_b + hits(g.grid_b) == TOTAL_SHIP_CELLS
    &&& (g.current_player == g.player_a || g.current_player == g.player_b)
    &&& g.has_pending ==> defending_grid(g)[cell_of(g.pending_reveal_x, g.pending_reveal_y)] == CellResult::Unknown
}

/// An empty grid has no hit.
pub proof fn lemma_empty_grid_hits(n: int)
    requires
        0 <= n <= 100,
    ensures
        hits(empty_grid().take(n)) == 0,
    decreases n,
{
    if n > 0 {
        assert(empty_grid().take(n).drop_last() =~= empty_grid().take(n - 1));
        lemma_empty_grid_hits(n - 1);
    }
}

/// Law: a new game is consistent.
pub proof fn lemma_new_game_consistent(g: GameView)
    requires
        g.grid_a == empty_grid(),
        g.grid_b == empty_grid(),
        g.ship_status == (ShipStatus { remaining_a: 17, remaining_b: 17 }),
        g.current_player == g.player_a,
        !g.has_pending,
    ensures
        consistent(g),
{
    lemma_empty_grid_hits(100);
    assert(empty_grid().take(100) =~= empty_grid());
}

/// Law: commitments and attacks keep a game consistent.
pub proof fn lemma_commit_and_attack_keep_consistent(g: GameView, p: Seq<u8>, c: Seq<u8>, root: Seq<u8>, x: u32, y: u32)
    requires
        game_wf(g),
        consistent(g),
    ensures
        board_committed(g, p, c, root) matches Ok(h) ==> consistent(h),
        attacked(g, p, x, y) matches Ok(h) ==> consistent(h),
{
}

/// Law: when the attacked player answers, the game stays consistent: each
/// hit removes exactly one ship cell, never the same cell twice.
pub proof fn lemma_answer_keeps_consistent(
    g: GameView, value: u32, leaf_index: u32, leaf: Seq<u8>, expected: Seq<u8>, verified: Option<bool>, x: u32, y: u32,
)
    requires
        game_wf(g),
        consistent(g),
        g.player_a != g.player_b,
        reveal_fits(g, defender_of(g), value),
    ensures
        cell_revealed(g, defender_of(g), x, y, value, leaf_index, leaf, expected, verified) matches Ok(h) ==> consistent(h),
{
    let d = defender_of(g);
    if cell_revealed(g, d, x, y, value, leaf_index, leaf, expected, verified) is Ok {
        let coord = cell_of(x, y);
        let result = if value == 1 { CellResult::Hit } else { CellResult::Miss };
        if d == g.player_a {
            lemma_hits_update(g.grid_a, coord, result);
        } else {
            lemma_hits_update(g.grid_b, coord, result);
        }
    }
}

/// Law: an answer is accepted only with the cell's own index, the leaf the
/// contract derives from the cell and the value, and a proof the verifier
/// accepts.
pub proof fn lemma_answer_needs_proof(
    g: GameView, d: Seq<u8>, x: u32, y: u32, value: u32, leaf_index: u32, leaf: Seq<u8>, expected: Seq<u8>, verified: Option<bool>,
)
    requires
        cell_revealed(g, d, x, y, value, leaf_index, leaf, expected, verified) is Ok,
    ensures
        leaf_index == cell_of(x, y),
        leaf == expected,
        verified == Some(true),
        x == g.pending_reveal_x && y == g.pending_reveal_y,
{
}

/// Law: a finished game accepts no commitment, attack or answer, and its
/// winner is the side that still has ship cells.
pub proof fn lemma_finished_is_final(
    g: GameView, h: GameView, p: Seq<u8>, c: Seq<u8>, root: Seq<u8>, x: u32, y: u32, value: u32, leaf_index: u32, expected: Seq<u8>, verified: Option<bool>,
)
    requires
        game_wf(g),
        g.player_a != g.player_b,
        g.phase == Phase::Attack,
        reveal_fits(g, p, value),
        cell_revealed(g, p, x, y, value, leaf_index, c, expected, verified) == Ok::<GameView, BattleshipError>(h),
        h.phase == Phase::Finished,
    ensures
        board_committed(h, p, c, root) is Err,
        attacked(h, p, x, y) is Err,
        cell_revealed(h, p, x, y, value, leaf_index, c, expected, verified) is Err,
        h.winner == Some(g.player_b) ==> h.ship_status.remaining_a == 0,
        h.winner == Some(g.player_a) ==> h.ship_status.remaining_a != 0 && h.ship_status.remaining_b == 0,
{
}

} // verus!
