//! Rock-paper-scissors played by commitment: each player first commits to a
//! hash of their choice and a salt, then reveals both; a best-of-N match
//! ends when one side has won more than half of the rounds. A player who
//! revealed may claim the round once the other has let the timeout pass.
use vstd::prelude::*;
use crate::common::{be_bytes_u32, bytes_equal, clone_bytes, push_be_u32, sha256, sha256_digest};

verus! {

/// Ledgers the second player has to reveal after both committed.
pub const TIMEOUT_LEDGERS: u32 = 100;

#[derive(Clone, Copy, Debug, PartialEq, Eq, Structural)]
pub enum Choice {
    Rock,
    Paper,
    Scissors,
}

impl Choice {
    /// The wire code: 0 rock, 1 paper, 2 scissors.
    pub open spec fn code(self) -> u32 {
        match self {
            Choice::Rock => 0,
            Choice::Paper => 1,
            Choice::Scissors => 2,
        }
    }

    /// Rock blunts scissors, scissors cut paper, paper covers rock.
    pub open spec fn wins_over(self, other: Choice) -> bool {
        ||| (self == Choice::Rock && other == Choice::Scissors)
        ||| (self == Choice::Scissors && other == Choice::Paper)
        ||| (self == Choice::Paper && other == Choice::Rock)
    }

    /// The choice with this code; codes above 2 name none.
    pub fn from_u32(val: u32) -> (r: Option<Choice>)
        ensures
            match r {
                Some(c) => val < 3 && c.code() == val,
                None => val >= 3,
            },
    {
        match val {
            0 => Some(Choice::Rock),
            1 => Some(Choice::Paper),
            2 => Some(Choice::Scissors),
            _ => None,
        }
    }

    pub fn beats(&self, other: &Choice) -> (r: bool)
        ensures
            r == self.wins_over(*other),
    {
        match (*self, *other) {
            (Choice::Rock, Choice::Scissors) => true,
            (Choice::Scissors, Choice::Paper) => true,
            (Choice::Paper, Choice::Rock) => true,
            _ => false,
        }
    }
}

/// The choice with code `v` (0 to 2).
pub open spec fn choice_of(v: u32) -> Choice {
    if v == 0 { Choice::Rock } else if v == 1 { Choice::Paper } else { Choice::Scissors }
}

/// A player's commitment: the hash and whether it was opened.
#[derive(Debug)]
pub struct PlayerCommitment {
    pub hash: Vec<u8>,
    pub revealed: bool,
}

impl PlayerCommitment {
    /// The component's bytes: the 32 hash bytes, then 1 or 0.
    pub fn serialize(&self) -> (r: Vec<u8>)
        ensures
            r@ == self.hash@ + seq![if self.revealed { 1u8 } else { 0u8 }],
    {
        let mut r = clone_bytes(&self.hash);
        r.push(if self.revealed { 1u8 } else { 0u8 });
        r
    }
}

#[derive(Clone, Copy, Debug, PartialEq, Eq, Structural)]
pub enum Phase {
    Committing,
    Revealing,
    Resolved,
}

/// The match's phase, its winner once resolved, and the round number.
#[derive(Debug)]
pub struct MatchState {
    pub phase: Phase,
    pub winner: Option<Vec<u8>>,
    pub round: u32,
}

impl MatchState {
    /// The component's bytes: the phase (0, 1 or 2), then the round in
    /// big-endian order.
    pub fn serialize(&self) -> (r: Vec<u8>)
        ensures
            r@ == seq![match self.phase { Phase::Committing => 0u8, Phase::Revealing => 1u8, Phase::Resolved => 2u8 }]
                + be_bytes_u32(self.round),
    {
        let mut r: Vec<u8> = Vec::new();
        let phase_byte: u8 = match self.phase {
            Phase::Committing => 0,
            Phase::Revealing => 1,
            Phase::Resolved => 2,
        };
        r.push(phase_byte);
        push_be_u32(&mut r, self.round);
        assert(r@ =~= seq![phase_byte] + be_bytes_u32(self.round));
        r
    }
}

#[derive(Clone, Copy, Debug, PartialEq, Eq, Structural)]
pub struct ScoreBoard {
    pub wins_a: u32,
    pub wins_b: u32,
    pub draws: u32,
    pub best_of: u32,
}

/// Why a request was refused.
#[derive(Clone, Copy, Debug, PartialEq, Eq, Structural)]
pub enum RpsError {
    NotInCommitPhase,
    AlreadyCommitted,
    NotAPlayer,
    NotInRevealPhase,
    InvalidChoice,
    AlreadyRevealed,
    HashMismatch,
    TimeoutNotReached,
    InvalidTimeoutClaim,
}

/// The stored match.
#[derive(Debug)]
pub struct GameState {
    pub player_a: Vec<u8>,
    pub player_b: Vec<u8>,
    pub hash_a: Vec<u8>,
    pub hash_b: Vec<u8>,
    pub revealed_a: bool,
    pub revealed_b: bool,
    pub choice_a: u32,
    pub choice_b: u32,
    pub match_state: MatchState,
    pub scoreboard: ScoreBoard,
    pub commit_ledger: u32,
    pub has_commit_a: bool,
    pub has_commit_b: bool,
}

/// The stored match as values.
pub struct GameView {
    pub player_a: Seq<u8>,
    pub player_b: Seq<u8>,
    pub hash_a: Seq<u8>,
    pub hash_b: Seq<u8>,
    pub revealed_a: bool,
    pub revealed_b: bool,
    pub choice_a: u32,
    pub choice_b: u32,
    pub phase: Phase,
    pub winner: Option<Seq<u8>>,
    pub round: u32,
    pub scoreboard: ScoreBoard,
    pub commit_ledger: u32,
    pub has_commit_a: bool,
    pub has_commit_b: bool,
}

impl View for GameState {
    type V = GameView;

    open spec fn view(&self) -> GameView {
        GameView {
            player_a: self.player_a@,
            player_b: self.player_b@,
            hash_a: self.hash_a@,
            hash_b: self.hash_b@,
            revealed_a: self.revealed_a,
            revealed_b: self.revealed_b,
            choice_a: self.choice_a,
            choice_b: self.choice_b,
            phase: self.match_state.phase,
            winner: match self.match_state.winner {
                Some(w) => Some(w@),
                None => None,
            },
            round: self.match_state.round,
            scoreboard: self.scoreboard,
            commit_ledger: self.commit_ledger,
            has_commit_a: self.has_commit_a,
            has_commit_b: self.has_commit_b,
        }
    }
}

/// Wins needed to take a best-of-`best_of` match.
pub open spec fn needed(best_of: u32) -> int {
    best_of / 2 + 1
}

/// A resolved match, or the next round.
pub open spec fn match_checked(g: GameView) -> GameView {
    if g.scoreboard.wins_a >= needed(g.scoreboard.best_of) {
        GameView { phase: Phase::Resolved, winner: Some(g.player_a), ..g }
    } else if g.scoreboard.wins_b >= needed(g.scoreboard.best_of) {
        GameView { phase: Phase::Resolved, winner: Some(g.player_b), ..g }
    } else {
        GameView {
            round: (g.round + 1) as u32,
            phase: Phase::Committing,
            revealed_a: false,
            revealed_b: false,
            choice_a: 0,
            choice_b: 0,
            has_commit_a: false,
            has_commit_b: false,
            commit_ledger: 0,
            ..g
        }
    }
}

/// The round scored from the two revealed choices, then the match checked.
pub open spec fn round_resolved(g: GameView) -> GameView {
    let a = choice_of(g.choice_a);
    let b = choice_of(g.choice_b);
    let sb = g.scoreboard;
    let sb2 = if a == b {
        ScoreBoard { draws: (sb.draws + 1) as u32, ..sb }
    } else if a.wins_over(b) {
        ScoreBoard { wins_a: (sb.wins_a + 1) as u32, ..sb }
    } else {
        ScoreBoard { wins_b: (sb.wins_b + 1) as u32, ..sb }
    };
    match_checked(GameView { scoreboard: sb2, ..g })
}

/// The next round's counters stay in range.
pub open spec fn next_round_fits(g: GameView) -> bool {
    g.round < u32::MAX
}

/// A commitment by `player` at ledger `ledger`.
pub open spec fn committed(g: GameView, player: Seq<u8>, hash: Seq<u8>, ledger: u32) -> Result<GameView, RpsError> {
    if g.phase != Phase::Committing {
        Err(RpsError::NotInCommitPhase)
    } else {
        let g1 = if player == g.player_a {
            if g.has_commit_a { Err(RpsError::AlreadyCommitted) } else { Ok(GameView { hash_a: hash, has_commit_a: true, ..g }) }
        } else if player == g.player_b {
            if g.has_commit_b { Err(RpsError::AlreadyCommitted) } else { Ok(GameView { hash_b: hash, has_commit_b: true, ..g }) }
        } else {
            Err(RpsError::NotAPlayer)
        };
        match g1 {
            Ok(h) => if h.has_commit_a && h.has_commit_b {
                Ok(GameView { phase: Phase::Revealing, commit_ledger: ledger, ..h })
            } else {
                Ok(h)
            },
            Err(e) => Err(e),
        }
    }
}

/// A reveal by `player` of `choice`, whose hash with the salt is `computed`.
pub open spec fn revealed_with(g: GameView, player: Seq<u8>, choice: u32, computed: Seq<u8>) -> Result<GameView, RpsError> {
    if g.phase != Phase::Revealing {
        Err(RpsError::NotInRevealPhase)
    } else if choice >= 3 {
        Err(RpsError::InvalidChoice)
    } else {
        let g1 = if player == g.player_a {
            if g.revealed_a { Err(RpsError::AlreadyRevealed) }
            else if computed != g.hash_a { Err(RpsError::HashMismatch) }
            else { Ok(GameView { choice_a: choice, revealed_a: true, ..g }) }
        } else if player == g.player_b {
            if g.revealed_b { Err(RpsError::AlreadyRevealed) }
            else if computed != g.hash_b { Err(RpsError::HashMismatch) }
            else { Ok(GameView { choice_b: choice, revealed_b: true, ..g }) }
        } else {
            Err(RpsError::NotAPlayer)
        };
        match g1 {
            Ok(h) => if h.revealed_a && h.revealed_b { Ok(round_resolved(h)) } else { Ok(h) },
            Err(e) => Err(e),
        }
    }
}

/// A revealed choice is a valid one, and the counters of a reveal stay in
/// range.
pub open spec fn reveal_fits(g: GameView) -> bool {
    &&& g.revealed_a ==> g.choice_a < 3
    &&& g.revealed_b ==> g.choice_b < 3
    &&& g.scoreboard.wins_a < u32::MAX
    &&& g.scoreboard.wins_b < u32::MAX
    &&& g.scoreboard.draws < u32::MAX
    &&& next_round_fits(g)
}

/// A timeout claim by `player` at ledger `ledger`.
pub open spec fn timeout_claimed(g: GameView, player: Seq<u8>, ledger: u32) -> Result<GameView, RpsError> {
    if g.phase != Phase::Revealing {
        Err(RpsError::NotInRevealPhase)
    } else if ledger < g.commit_ledger + TIMEOUT_LEDGERS {
        Err(RpsError::TimeoutNotReached)
    } else if player == g.player_a && g.revealed_a && !g.revealed_b {
        Ok(match_checked(GameView { scoreboard: ScoreBoard { wins_a: (g.scoreboard.wins_a + 1) as u32, ..g.scoreboard }, ..g }))
    } else if player == g.player_b && g.revealed_b && !g.revealed_a {
        Ok(match_checked(GameView { scoreboard: ScoreBoard { wins_b: (g.scoreboard.wins_b + 1) as u32, ..g.scoreboard }, ..g }))
    } else {
        Err(RpsError::InvalidTimeoutClaim)
    }
}

/// The bytes hashed for a commitment: the choice in big-endian order, then
/// the salt.
pub open spec fn commitment_preimage(choice: u32, salt: Seq<u8>) -> Seq<u8> {
    be_bytes_u32(choice) + salt
}

/// The contract's operations over a stored match.
#[derive(Debug)]
pub struct RockPaperScissorsContract;

impl RockPaperScissorsContract {
    /// A new best-of-`best_of` match between two players.
    pub fn new_match(player_a: Vec<u8>, player_b: Vec<u8>, best_of: u32) -> (g: GameState)
        ensures
            g@ == (GameView {
                player_a: player_a@,
                player_b: player_b@,
                hash_a: Seq::new(32, |i: int| 0u8),
                hash_b: Seq::new(32, |i: int| 0u8),
                revealed_a: false,
                revealed_b: false,
                choice_a: 0,
                choice_b: 0,
                phase: Phase::Committing,
                winner: None,
                round: 1,
                scoreboard: ScoreBoard { wins_a: 0, wins_b: 0, draws: 0, best_of },
                commit_ledger: 0,
                has_commit_a: false,
                has_commit_b: false,
            }),
    {
        let mut zeros: Vec<u8> = Vec::new();
        let mut i: usize = 0;
        while i < 32
            invariant
                0 <= i <= 32,
                zeros@ =~= Seq::new(i as nat, |j: int| 0u8),
            decreases 32 - i,
        {
            zeros.push(0);
            i += 1;
        }
        let hash_b = clone_bytes(&zeros);
        GameState {
            player_a,
            player_b,
            hash_a: zeros,
            hash_b,
            revealed_a: false,
            revealed_b: false,
            choice_a: 0,
            choice_b: 0,
            match_state: MatchState { phase: Phase::Committing, winner: None, round: 1 },
            scoreboard: ScoreBoard { wins_a: 0, wins_b: 0, draws: 0, best_of },
            commit_ledger: 0,
            has_commit_a: false,
            has_commit_b: false,
        }
    }

    /// `player` commits to `hash`; `ledger` is the current ledger sequence,
    /// kept when the second commitment opens the reveal phase. A refused
    /// request changes nothing.
    pub fn commit(game: &mut GameState, player: &Vec<u8>, hash: Vec<u8>, ledger: u32) -> (r: Result<(), RpsError>)
        ensures
            match committed(old(game)@, player@, hash@, ledger) {
                Ok(g) => r is Ok && final(game)@ == g,
                Err(e) => r == Err::<(), RpsError>(e) && final(game)@ == old(game)@,
            },
    {
        if game.match_state.phase != Phase::Committing {
            return Err(RpsError::NotInCommitPhase);
        }
        if bytes_equal(player, &game.player_a) {
            if game.has_commit_a {
                return Err(RpsError::AlreadyCommitted);
            }
            game.hash_a = hash;
            game.has_commit_a = true;
        } else if bytes_equal(player, &game.player_b) {
            if game.has_commit_b {
                return Err(RpsError::AlreadyCommitted);
            }
            game.hash_b = hash;
            game.has_commit_b = true;
        } else {
            return Err(RpsError::NotAPlayer);
        }
        if game.has_commit_a && game.has_commit_b {
            game.match_state.phase = Phase::Revealing;
            game.commit_ledger = ledger;
        }
        Ok(())
    }

    /// The SHA-256 hash of the choice's big-endian bytes followed by the salt.
    pub fn compute_hash(env: &soroban_sdk::Env, choice: u32, salt: &Vec<u8>) -> (h: Vec<u8>)
        ensures
            h@ == sha256_digest(commitment_preimage(choice, salt@)),
    {
        let mut data: Vec<u8> = Vec::new();
        push_be_u32(&mut data, choice);
        let mut i: usize = 0;
        while i < salt.len()
            invariant
                0 <= i <= salt.len(),
                data@ =~= be_bytes_u32(choice) + salt@.take(i as int),
            decreases salt.len() - i,
        {
            data.push(salt[i]);
            i += 1;
        }
        assert(salt@.take(salt.len() as int) =~= salt@);
        sha256(env, &data)
    }

    /// A reveal whose hash of choice and salt is `computed`. A refused
    /// request changes nothing.
    pub fn reveal_with_hash(game: &mut GameState, player: &Vec<u8>, choice: u32, computed: &Vec<u8>) -> (r: Result<(), RpsError>)
        requires
            reveal_fits(old(game)@),
        ensures
            match revealed_with(old(game)@, player@, choice, computed@) {
                Ok(g) => r is Ok && final(game)@ == g,
                Err(e) => r == Err::<(), RpsError>(e) && final(game)@ == old(game)@,
            },
    {
        if game.match_state.phase != Phase::Revealing {
            return Err(RpsError::NotInRevealPhase);
        }
        if Choice::from_u32(choice).is_none() {
            return Err(RpsError::InvalidChoice);
        }
        if bytes_equal(player, &game.player_a) {
            if game.revealed_a {
                return Err(RpsError::AlreadyRevealed);
            }
            if !bytes_equal(computed, &game.hash_a) {
                return Err(RpsError::HashMismatch);
            }
            game.choice_a = choice;
            game.revealed_a = true;
        } else if bytes_equal(player, &game.player_b) {
            if game.revealed_b {
                return Err(RpsError::AlreadyRevealed);
            }
            if !bytes_equal(computed, &game.hash_b) {
                return Err(RpsError::HashMismatch);
            }
            game.choice_b = choice;
            game.revealed_b = true;
        } else {
            return Err(RpsError::NotAPlayer);
        }
        if game.revealed_a && game.revealed_b {
            Self::resolve_round(game);
        }
        Ok(())
    }

    /// `player` opens their commitment with `choice` and `salt`. A refused
    /// request changes nothing.
    pub fn reveal_choice(env: &soroban_sdk::Env, game: &mut GameState, player: &Vec<u8>, choice: u32, salt: &Vec<u8>) -> (r: Result<(), RpsError>)
        requires
            reveal_fits(old(game)@),
        ensures
            match revealed_with(old(game)@, player@, choice, sha256_digest(commitment_preimage(choice, salt@))) {
                Ok(g) => r is Ok && final(game)@ == g,
                Err(e) => r == Err::<(), RpsError>(e) && final(game)@ == old(game)@,
            },
    {
        if game.match_state.phase != Phase::Revealing {
            return Err(RpsError::NotInRevealPhase);
        }
        if Choice::from_u32(choice).is_none() {
            return Err(RpsError::InvalidChoice);
        }
        let computed = Self::compute_hash(env, choice, salt);
        Self::reveal_with_hash(game, player, choice, &computed)
    }

    /// A revealed player claims the round once `ledger` is at least the
    /// timeout past the second commitment. A refused request changes nothing.
    pub fn claim_timeout(game: &mut GameState, player: &Vec<u8>, ledger: u32) -> (r: Result<(), RpsError>)
        requires
            old(game).commit_ledger + TIMEOUT_LEDGERS <= u32::MAX,
            reveal_fits(old(game)@),
        ensures
            match timeout_claimed(old(game)@, player@, ledger) {
                Ok(g) => r is Ok && final(game)@ == g,
                Err(e) => r == Err::<(), RpsError>(e) && final(game)@ == old(game)@,
            },
    {
        if game.match_state.phase != Phase::Revealing {
            return Err(RpsError::NotInRevealPhase);
        }
        if ledger < game.commit_ledger + TIMEOUT_LEDGERS {
            return Err(RpsError::TimeoutNotReached);
        }
        if bytes_equal(player, &game.player_a) && game.revealed_a && !game.revealed_b {
            game.scoreboard.wins_a = game.scoreboard.wins_a + 1;
        } else if bytes_equal(player, &game.player_b) && game.revealed_b && !game.revealed_a {
            game.scoreboard.wins_b = game.scoreboard.wins_b + 1;
        } else {
            return Err(RpsError::InvalidTimeoutClaim);
        }
        Self::check_match_winner(game);
        Ok(())
    }

    /// The match's phase, winner and round.
    pub fn get_state(game: &GameState) -> (m: MatchState)
        ensures
            m.phase == game@.phase,
            m.round == game@.round,
            match m.winner {
                Some(w) => game@.winner == Some(w@),
                None => game@.winner is None,
            },
    {
        let winner = match &game.match_state.winner {
            Some(w) => Some(clone_bytes(w)),
            None => None,
        };
        MatchState { phase: game.match_state.phase, winner, round: game.match_state.round }
    }

    pub fn get_score(game: &GameState) -> (s: ScoreBoard)
        ensures
            s == game.scoreboard,
    {
        game.scoreboard
    }

    /// Scores the round from the two revealed choices.
    pub fn resolve_round(game: &mut GameState)
        requires
            reveal_fits(old(game)@),
            old(game).choice_a < 3,
            old(game).choice_b < 3,
        ensures
            final(game)@ == round_resolved(old(game)@),
    {
        let (choice_a, choice_b) = match (Choice::from_u32(game.choice_a), Choice::from_u32(game.choice_b)) {
            (Some(a), Some(b)) => (a, b),
            _ => (Choice::Rock, Choice::Rock),
        };
        if choice_a == choice_b {
            game.scoreboard.draws = game.scoreboard.draws + 1;
        } else if choice_a.beats(&choice_b) {
            game.scoreboard.wins_a = game.scoreboard.wins_a + 1;
        } else {
            game.scoreboard.wins_b = game.scoreboard.wins_b + 1;
        }
        Self::check_match_winner(game);
    }

    /// Ends the match when one side has more than half of `best_of` wins,
    /// or starts the next round.
    pub fn check_match_winner(game: &mut GameState)
        requires
            next_round_fits(old(game)@),
        ensures
            final(game)@ == match_checked(old(game)@),
    {
        let needed = game.scoreboard.best_of / 2 + 1;
        if game.scoreboard.wins_a >= needed {
            game.match_state.phase = Phase::Resolved;
            game.match_state.winner = Some(clone_bytes(&game.player_a));
        } else if game.scoreboard.wins_b >= needed {
            game.match_state.phase = Phase::Resolved;
            game.match_state.winner = Some(clone_bytes(&game.player_b));
        } else {
            game.match_state.round = game.match_state.round + 1;
            game.match_state.phase = Phase::Committing;
            game.revealed_a = false;
            game.revealed_b = false;
            game.choice_a = 0;
            game.choice_b = 0;
            game.has_commit_a = false;
            game.has_commit_b = false;
            game.commit_ledger = 0;
        }
    }
}

/// Law: no choice beats itself, and of two different choices exactly one
/// beats the other.
pub proof fn lemma_beats_decides(a: Choice, b: Choice)
    ensures
        !a.wins_over(a),
        a != b ==> (a.wins_over(b) != b.wins_over(a)),
        a == b ==> !a.wins_over(b) && !b.wins_over(a),
{
}

/// Law: every resolved round adds exactly one win or draw.
pub proof fn lemma_round_counts_once(g: GameView)
    requires
        reveal_fits(g),
    ensures
        round_resolved(g).scoreboard.wins_a + round_resolved(g).scoreboard.wins_b + round_resolved(g).scoreboard.draws
            == g.scoreboard.wins_a + g.scoreboard.wins_b + g.scoreboard.draws + 1,
{
}

/// Law: a reveal is accepted only when the hash of the revealed choice and
/// salt is the one the player committed to.
pub proof fn lemma_reveal_binds_commitment(g: GameView, player: Seq<u8>, choice: u32, computed: Seq<u8>)
    requires
        revealed_with(g, player, choice, computed) is Ok,
    ensures
        player == g.player_a ==> computed == g.hash_a && !g.revealed_a,
        player != g.player_a ==> player == g.player_b && computed == g.hash_b && !g.revealed_b,
        choice < 3,
{
}

/// Law: once a match is resolved no commitment, reveal or timeout claim is
/// accepted.
pub proof fn lemma_resolved_is_final(g: GameView, player: Seq<u8>, choice: u32, data: Seq<u8>, ledger: u32)
    requires
        g.phase == Phase::Resolved,
    ensures
        committed(g, player, data, ledger) is Err,
        revealed_with(g, player, choice, data) is Err,
        timeout_claimed(g, player, ledger) is Err,
{
}

/// Law: a match ends only with a winner who holds more than half of the
/// best-of rounds (twice their wins exceed `best_of`), and it ends as soon
/// as one side does; otherwise the next round starts.
pub proof fn lemma_winner_has_majority(g: GameView)
    ensures
        match_checked(g).phase == Phase::Resolved ==> {
            ||| (match_checked(g).winner == Some(g.player_a) && 2 * g.scoreboard.wins_a > g.scoreboard.best_of)
            ||| (match_checked(g).winner == Some(g.player_b) && 2 * g.scoreboard.wins_b > g.scoreboard.best_of)
        },
        (2 * g.scoreboard.wins_a > g.scoreboard.best_of || 2 * g.scoreboard.wins_b > g.scoreboard.best_of)
            ==> match_checked(g).phase == Phase::Resolved,
        2 * g.scoreboard.wins_a > g.scoreboard.best_of ==> match_checked(g).winner == Some(g.player_a),
        next_round_fits(g) && match_checked(g).phase != Phase::Resolved
            ==> match_checked(g).phase == Phase::Committing && match_checked(g).round == g.round + 1,
{
}

} // verus!
