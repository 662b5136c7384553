//! Memory match: sixteen face-down cards in eight pairs; a player turns two
//! at a time, keeps matching pairs face up and wins when all are matched.
use vstd::prelude::*;
use crate::common::{bytes_equal, clone_bytes};

verus! {

/// Number of cards on the board.
pub const CARD_COUNT: u32 = 16;
/// Number of pairs to find.
pub const TOTAL_PAIRS: u32 = 8;

#[derive(Clone, Copy, Debug, PartialEq, Eq, Structural)]
pub enum CardState {
    Hidden,
    Revealed,
    Matched,
}

/// A card: its face value and whether it is hidden, turned or matched.
#[derive(Clone, Copy, Debug, PartialEq, Eq, Structural)]
pub struct Card {
    pub value: u32,
    pub state: CardState,
}

/// What a reveal led to.
#[derive(Clone, Copy, Debug, PartialEq, Eq, Structural)]
pub enum RevealResult {
    CardRevealed,
    MatchFound,
    NoMatch,
    GameOver,
}

/// Why a request was refused.
#[derive(Clone, Copy, Debug, PartialEq, Eq, Structural)]
pub enum MemoryError {
    NotAuthorizedPlayer,
    GameIsOver,
    CannotRevealMore,
    InvalidPosition,
    CardAlreadyRevealed,
}

/// The answer to a reveal: the outcome, the card turned, its value and,
/// when a pair was resolved, the two positions.
#[derive(Debug)]
pub struct RevealInfo {
    pub result: RevealResult,
    pub position: u32,
    pub value: u32,
    pub positions: Vec<u32>,
}

/// The public view: per position 0 (hidden), value + 1 (turned) or 9
/// (matched), and the counters.
#[derive(Debug)]
pub struct GameState {
    pub board_state: Vec<u32>,
    pub revealed_count: u32,
    pub matched_pairs: u32,
    pub total_pairs: u32,
    pub moves_count: u32,
    pub game_over: bool,
}

/// The stored game: the cards by position, the positions turned this
/// round, the pair counters and the player.
#[derive(Debug)]
pub struct ECSWorldState {
    pub cards: Vec<Card>,
    pub revealed_cards: Vec<u32>,
    pub matched_pairs: u32,
    pub total_pairs: u32,
    pub player: Vec<u8>,
    pub moves_count: u32,
    pub game_over: bool,
    pub can_reveal: bool,
}

/// The stored game as a value.
pub struct WorldView {
    pub cards: Seq<Card>,
    pub revealed_cards: Seq<u32>,
    pub matched_pairs: u32,
    pub total_pairs: u32,
    pub player: Seq<u8>,
    pub moves_count: u32,
    pub game_over: bool,
    pub can_reveal: bool,
}

impl View for ECSWorldState {
    type V = WorldView;

    open spec fn view(&self) -> WorldView {
        WorldView {
            cards: self.cards@,
            revealed_cards: self.revealed_cards@,
            matched_pairs: self.matched_pairs,
            total_pairs: self.total_pairs,
            player: self.player@,
            moves_count: self.moves_count,
            game_over: self.game_over,
            can_reveal: self.can_reveal,
        }
    }
}

/// The deterministic deal: card `i` shows `i % 8`.
pub open spec fn dealt() -> Seq<Card> {
    Seq::new(16, |i: int| Card { value: (i % 8) as u32, state: CardState::Hidden })
}

/// Sixteen cards with values below 8, at most one card turned this round
/// and every turned position on the board.
pub open spec fn world_wf(w: WorldView) -> bool {
    &&& w.cards.len() == 16
    &&& forall|i: int| 0 <= i < 16 ==> #[trigger] w.cards[i].value < 8
    &&& w.revealed_cards.len() <= 1
    &&& forall|i: int| 0 <= i < w.revealed_cards.len() ==> #[trigger] w.revealed_cards[i] < 16
}

/// The refusal a reveal meets, if any.
pub open spec fn reveal_error(w: WorldView, player: Seq<u8>, position: u32) -> Option<MemoryError> {
    if w.player != player {
        Some(MemoryError::NotAuthorizedPlayer)
    } else if w.game_over {
        Some(MemoryError::GameIsOver)
    } else if !w.can_reveal {
        Some(MemoryError::CannotRevealMore)
    } else if position >= w.cards.len() {
        Some(MemoryError::InvalidPosition)
    } else if w.cards[position as int].state != CardState::Hidden {
        Some(MemoryError::CardAlreadyRevealed)
    } else {
        None
    }
}

pub open spec fn with_state(cards: Seq<Card>, i: int, st: CardState) -> Seq<Card> {
    cards.update(i, Card { state: st, ..cards[i] })
}

/// The world after the card at `position` is turned.
pub open spec fn turned(w: WorldView, position: u32) -> WorldView {
    let n = w.revealed_cards.len() + 1;
    WorldView {
        cards: with_state(w.cards, position as int, CardState::Revealed),
        revealed_cards: w.revealed_cards.push(position),
        moves_count: (w.moves_count + 1) as u32,
        can_reveal: if n == 2 { false } else { w.can_reveal },
        ..w
    }
}

/// The world after the two turned cards are compared.
pub open spec fn resolved(w: WorldView) -> WorldView {
    let p1 = w.revealed_cards[0] as int;
    let p2 = w.revealed_cards[1] as int;
    if w.cards[p1].value == w.cards[p2].value {
        let m = (w.matched_pairs + 1) as u32;
        WorldView {
            cards: with_state(with_state(w.cards, p1, CardState::Matched), p2, CardState::Matched),
            matched_pairs: m,
            revealed_cards: Seq::empty(),
            can_reveal: true,
            game_over: if m == w.total_pairs { true } else { w.game_over },
            ..w
        }
    } else {
        WorldView {
            cards: with_state(with_state(w.cards, p1, CardState::Hidden), p2, CardState::Hidden),
            revealed_cards: Seq::empty(),
            can_reveal: true,
            ..w
        }
    }
}

/// The outcome reported for a reveal that goes through.
pub open spec fn reveal_outcome(w: WorldView, position: u32) -> RevealResult {
    let t = turned(w, position);
    if t.revealed_cards.len() != 2 {
        RevealResult::CardRevealed
    } else if t.cards[t.revealed_cards[0] as int].value != t.cards[t.revealed_cards[1] as int].value {
        RevealResult::NoMatch
    } else if resolved(t).matched_pairs == w.total_pairs {
        RevealResult::GameOver
    } else {
        RevealResult::MatchFound
    }
}

/// The world after a reveal that goes through.
pub open spec fn revealed(w: WorldView, position: u32) -> WorldView {
    let t = turned(w, position);
    if t.revealed_cards.len() == 2 { resolved(t) } else { t }
}

/// The integer operations of a reveal stay in range.
pub open spec fn reveal_fits(w: WorldView) -> bool {
    &&& w.moves_count < u32::MAX
    &&& w.matched_pairs < u32::MAX
}

/// What the public view shows for a card.
pub open spec fn shown(c: Card) -> u32 {
    match c.state {
        CardState::Hidden => 0,
        CardState::Revealed => (c.value + 1) as u32,
        CardState::Matched => 9,
    }
}

/// How many of the cards are in state `st`.
pub open spec fn count_in(cards: Seq<Card>, st: CardState) -> nat
    decreases cards.len(),
{
    if cards.len() == 0 {
        0
    } else {
        count_in(cards.drop_last(), st) + if cards.last().state == st { 1nat } else { 0nat }
    }
}

impl ECSWorldState {
    /// A new game for `player`: the deal face down, no pair found yet.
    pub fn new(player: Vec<u8>) -> (w: ECSWorldState)
        ensures
            w@ == (WorldView {
                cards: dealt(),
                revealed_cards: Seq::empty(),
                matched_pairs: 0,
                total_pairs: 8,
                player: player@,
                moves_count: 0,
                game_over: false,
                can_reveal: true,
            }),
    {
        let mut cards: Vec<Card> = Vec::new();
        let mut i: u32 = 0;
        while i < CARD_COUNT
            invariant
                0 <= i <= 16,
                cards@ =~= dealt().take(i as int),
            decreases 16 - i,
        {
            cards.push(Card { value: i % 8, state: CardState::Hidden });
            i += 1;
        }
        assert(cards@ =~= dealt());
        ECSWorldState {
            cards,
            revealed_cards: Vec::new(),
            matched_pairs: 0,
            total_pairs: TOTAL_PAIRS,
            player,
            moves_count: 0,
            game_over: false,
            can_reveal: true,
        }
    }
}

/// Checks the player, the game's phase and the position.
pub fn validate_reveal(world: &ECSWorldState, player: &Vec<u8>, position: u32) -> (r: Result<(), MemoryError>)
    ensures
        r is Ok <==> reveal_error(world@, player@, position) is None || reveal_error(world@, player@, position)
            == Some(MemoryError::CardAlreadyRevealed),
        r matches Err(e) ==> reveal_error(world@, player@, position) == Some(e),
{
    if !bytes_equal(&world.player, player) {
        return Err(MemoryError::NotAuthorizedPlayer);
    }
    if world.game_over {
        return Err(MemoryError::GameIsOver);
    }
    if !world.can_reveal {
        return Err(MemoryError::CannotRevealMore);
    }
    if position as usize >= world.cards.len() {
        return Err(MemoryError::InvalidPosition);
    }
    Ok(())
}

/// Checks that `player` owns the game.
pub fn validate_player(world: &ECSWorldState, player: &Vec<u8>) -> (r: Result<(), MemoryError>)
    ensures
        r is Ok <==> world.player@ == player@,
        r matches Err(e) ==> e == MemoryError::NotAuthorizedPlayer,
{
    if !bytes_equal(&world.player, player) {
        return Err(MemoryError::NotAuthorizedPlayer);
    }
    Ok(())
}

fn set_state(cards: &mut Vec<Card>, i: usize, st: CardState)
    requires
        i < old(cards).len(),
    ensures
        final(cards)@ == with_state(old(cards)@, i as int, st),
{
    let c = cards[i];
    cards.set(i, Card { value: c.value, state: st });
}

/// Turns the hidden card at `position` and, when it is the second of the
/// round, compares the pair.
pub fn reveal_card_system(world: &mut ECSWorldState, position: u32) -> (info: Result<RevealInfo, MemoryError>)
    requires
        world_wf(old(world)@),
        reveal_fits(old(world)@),
        (position as int) < old(world)@.cards.len(),
    ensures
        old(world)@.cards[position as int].state != CardState::Hidden ==>
            info == Err::<RevealInfo, MemoryError>(MemoryError::CardAlreadyRevealed) && final(world)@ == old(world)@,
        old(world)@.cards[position as int].state == CardState::Hidden ==> (info matches Ok(i) && {
            &&& final(world)@ == revealed(old(world)@, position)
            &&& i.result == reveal_outcome(old(world)@, position)
            &&& i.position == position
            &&& i.value == old(world)@.cards[position as int].value
            &&& i.positions@ == (if turned(old(world)@, position).revealed_cards.len() == 2 {
                    turned(old(world)@, position).revealed_cards
                } else {
                    Seq::empty()
                })
        }),
{
    let card = world.cards[position as usize];
    if card.state != CardState::Hidden {
        return Err(MemoryError::CardAlreadyRevealed);
    }
    let card_value = card.value;
    set_state(&mut world.cards, position as usize, CardState::Revealed);
    world.revealed_cards.push(position);
    world.moves_count = world.moves_count + 1;
    if world.revealed_cards.len() == 2 {
        world.can_reveal = false;
    }
    if world.revealed_cards.len() == 2 {
        Ok(resolve_pair_system(world, position, card_value))
    } else {
        Ok(RevealInfo { result: RevealResult::CardRevealed, position, value: card_value, positions: Vec::new() })
    }
}

/// Compares the two turned cards: a match stays face up, a mismatch is
/// hidden again; the round starts over.
fn resolve_pair_system(world: &mut ECSWorldState, position: u32, card_value: u32) -> (info: RevealInfo)
    requires
        old(world)@.revealed_cards.len() == 2,
        old(world)@.cards.len() == 16,
        old(world)@.revealed_cards[0] < 16,
        old(world)@.revealed_cards[1] < 16,
        old(world).matched_pairs < u32::MAX,
    ensures
        final(world)@ == resolved(old(world)@),
        info.position == position && info.value == card_value,
        info.positions@ == old(world)@.revealed_cards,
        info.result == (if old(world)@.cards[old(world)@.revealed_cards[0] as int].value
            != old(world)@.cards[old(world)@.revealed_cards[1] as int].value {
            RevealResult::NoMatch
        } else if resolved(old(world)@).matched_pairs == old(world).total_pairs {
            RevealResult::GameOver
        } else {
            RevealResult::MatchFound
        }),
{
    let pos1 = world.revealed_cards[0];
    let pos2 = world.revealed_cards[1];
    let value1 = world.cards[pos1 as usize].value;
    let value2 = world.cards[pos2 as usize].value;
    let mut positions: Vec<u32> = Vec::new();
    positions.push(pos1);
    positions.push(pos2);
    assert(positions@ =~= old(world)@.revealed_cards);
    if value1 == value2 {
        set_state(&mut world.cards, pos1 as usize, CardState::Matched);
        set_state(&mut world.cards, pos2 as usize, CardState::Matched);
        world.matched_pairs = world.matched_pairs + 1;
        world.revealed_cards = Vec::new();
        world.can_reveal = true;
        if world.matched_pairs == world.total_pairs {
            world.game_over = true;
            RevealInfo { result: RevealResult::GameOver, position, value: card_value, positions }
        } else {
            RevealInfo { result: RevealResult::MatchFound, position, value: card_value, positions }
        }
    } else {
        set_state(&mut world.cards, pos1 as usize, CardState::Hidden);
        set_state(&mut world.cards, pos2 as usize, CardState::Hidden);
        world.revealed_cards = Vec::new();
        world.can_reveal = true;
        RevealInfo { result: RevealResult::NoMatch, position, value: card_value, positions }
    }
}

/// Every card face down and the counters back to zero; the player stays.
pub fn reset_system(world: &mut ECSWorldState)
    ensures
        final(world)@ == (WorldView {
            cards: Seq::new(old(world)@.cards.len(), |i: int| Card { state: CardState::Hidden, ..old(world)@.cards[i] }),
            revealed_cards: Seq::empty(),
            matched_pairs: 0,
            moves_count: 0,
            game_over: false,
            can_reveal: true,
            ..old(world)@
        }),
{
    let mut i: usize = 0;
    let ghost c0 = world.cards@;
    while i < world.cards.len()
        invariant
            0 <= i <= world.cards.len(),
            world.cards.len() == c0.len(),
            forall|j: int| 0 <= j < i ==> #[trigger] world.cards@[j] == (Card { state: CardState::Hidden, ..c0[j] }),
            forall|j: int| i <= j < c0.len() ==> #[trigger] world.cards@[j] == c0[j],
            c0 == old(world)@.cards,
            world@ == (WorldView { cards: world.cards@, ..old(world)@ }),
        decreases world.cards.len() - i,
    {
        set_state(&mut world.cards, i, CardState::Hidden);
        i += 1;
    }
    assert(world.cards@ =~= Seq::new(c0.len(), |j: int| Card { state: CardState::Hidden, ..c0[j] }));
    world.revealed_cards = Vec::new();
    world.matched_pairs = 0;
    world.moves_count = 0;
    world.game_over = false;
    world.can_reveal = true;
}

/// The public view of the stored game.
pub fn to_game_state(world: &ECSWorldState) -> (g: GameState)
    requires
        world_wf(world@),
    ensures
        g.board_state@ == Seq::new(16, |i: int| shown(world@.cards[i])),
        g.revealed_count == world.revealed_cards.len(),
        g.matched_pairs == world.matched_pairs,
        g.total_pairs == world.total_pairs,
        g.moves_count == world.moves_count,
        g.game_over == world.game_over,
{
    let mut board_state: Vec<u32> = Vec::new();
    let mut i: usize = 0;
    while i < 16
        invariant
            0 <= i <= 16,
            world_wf(world@),
            board_state@ =~= Seq::new(i as nat, |j: int| shown(world@.cards[j])),
        decreases 16 - i,
    {
        let card = world.cards[i];
        let v: u32 = match card.state {
            CardState::Hidden => 0,
            CardState::Revealed => card.value + 1,
            CardState::Matched => 9,
        };
        board_state.push(v);
        i += 1;
    }
    GameState {
        board_state,
        revealed_count: world.revealed_cards.len() as u32,
        matched_pairs: world.matched_pairs,
        total_pairs: world.total_pairs,
        moves_count: world.moves_count,
        game_over: world.game_over,
    }
}

/// The contract's operations over a stored game.
#[derive(Debug)]
pub struct MemoryMatchContract;

impl MemoryMatchContract {
    /// A new game for `player`.
    pub fn init_game(player: &Vec<u8>) -> (w: ECSWorldState)
        ensures
            w@ == (WorldView {
                cards: dealt(),
                revealed_cards: Seq::empty(),
                matched_pairs: 0,
                total_pairs: 8,
                player: player@,
                moves_count: 0,
                game_over: false,
                can_reveal: true,
            }),
    {
        ECSWorldState::new(clone_bytes(player))
    }

    /// `player` turns the card at `position`; a refused request changes
    /// nothing.
    pub fn reveal_card(world: &mut ECSWorldState, player: &Vec<u8>, position: u32) -> (info: Result<RevealInfo, MemoryError>)
        requires
            world_wf(old(world)@),
            reveal_fits(old(world)@),
        ensures
            reveal_error(old(world)@, player@, position) matches Some(e) ==>
                info == Err::<RevealInfo, MemoryError>(e) && final(world)@ == old(world)@,
            reveal_error(old(world)@, player@, position) is None ==> (info matches Ok(i) && {
                &&& final(world)@ == revealed(old(world)@, position)
                &&& i.result == reveal_outcome(old(world)@, position)
                &&& i.position == position
                &&& i.value == old(world)@.cards[position as int].value
                &&& i.positions@ == (if turned(old(world)@, position).revealed_cards.len() == 2 {
                        turned(old(world)@, position).revealed_cards
                    } else {
                        Seq::empty()
                    })
            }),
    {
        match validate_reveal(world, player, position) {
            Err(e) => Err(e),
            Ok(()) => reveal_card_system(world, position),
        }
    }

    /// The public view.
    pub fn get_game_state(world: &ECSWorldState) -> (g: GameState)
        requires
            world_wf(world@),
        ensures
            g.board_state@ == Seq::new(16, |i: int| shown(world@.cards[i])),
            g.revealed_count == world.revealed_cards.len(),
            g.matched_pairs == world.matched_pairs,
            g.total_pairs == world.total_pairs,
            g.moves_count == world.moves_count,
            g.game_over == world.game_over,
    {
        to_game_state(world)
    }

    /// `player` turns every card face down and clears the counters.
    pub fn reset_game(world: &mut ECSWorldState, player: &Vec<u8>) -> (r: Result<(), MemoryError>)
        ensures
            r is Ok <==> old(world).player@ == player@,
            r is Err ==> r == Err::<(), MemoryError>(MemoryError::NotAuthorizedPlayer) && final(world)@ == old(world)@,
            r is Ok ==> final(world)@ == (WorldView {
                cards: Seq::new(old(world)@.cards.len(), |i: int| Card { state: CardState::Hidden, ..old(world)@.cards[i] }),
                revealed_cards: Seq::empty(),
                matched_pairs: 0,
                moves_count: 0,
                game_over: false,
                can_reveal: true,
                ..old(world)@
            }),
    {
        match validate_player(world, player) {
            Err(e) => Err(e),
            Ok(()) => {
                reset_system(world);
                Ok(())
            },
        }
    }
}

/// The cards agree with the counters: two matched cards per pair found,
/// and the turned cards are exactly those listed for this round.
pub open spec fn consistent(w: WorldView) -> bool {
    &&& count_in(w.cards, CardState::Matched) == 2 * w.matched_pairs
    &&& count_in(w.cards, CardState::Revealed) == w.revealed_cards.len()
    &&& forall|i: int| 0 <= i < w.revealed_cards.len()
        ==> #[trigger] w.cards[w.revealed_cards[i] as int].state == CardState::Revealed
}

/// Changing one card changes the count of a state by at most that card.
pub proof fn lemma_count_update(cards: Seq<Card>, i: int, c: Card, st: CardState)
    requires
        0 <= i < cards.len(),
    ensures
        count_in(cards.update(i, c), st) + (if cards[i].state == st { 1int } else { 0int })
            == count_in(cards, st) + (if c.state == st { 1int } else { 0int }),
    decreases cards.len(),
{
    if i == cards.len() - 1 {
        assert(cards.update(i, c).drop_last() =~= cards.drop_last());
    } else {
        assert(cards.update(i, c).drop_last() =~= cards.drop_last().update(i, c));
        lemma_count_update(cards.drop_last(), i, c, st);
    }
}

/// A count never exceeds the number of cards.
pub proof fn lemma_count_le(cards: Seq<Card>, st: CardState)
    ensures
        count_in(cards, st) <= cards.len(),
    decreases cards.len(),
{
    if cards.len() > 0 {
        lemma_count_le(cards.drop_last(), st);
    }
}

/// No card of the deal is matched or turned.
pub proof fn lemma_dealt_counts(n: int)
    requires
        0 <= n <= 16,
    ensures
        count_in(dealt().take(n), CardState::Matched) == 0,
        count_in(dealt().take(n), CardState::Revealed) == 0,
    decreases n,
{
    if n > 0 {
        assert(dealt().take(n).drop_last() =~= dealt().take(n - 1));
        lemma_dealt_counts(n - 1);
    }
}

/// Law: a new game is well formed and consistent.
pub proof fn lemma_new_game_consistent(player: Seq<u8>)
    ensures
        ({
            let w = WorldView {
                cards: dealt(),
                revealed_cards: Seq::empty(),
                matched_pairs: 0,
                total_pairs: 8,
                player,
                moves_count: 0,
                game_over: false,
                can_reveal: true,
            };
            world_wf(w) && consistent(w)
        }),
{
    lemma_dealt_counts(16);
    assert(dealt().take(16) =~= dealt());
}

/// Law: every reveal that goes through keeps the cards and the counters in
/// agreement, so the matched cards are always twice the pairs found.
pub proof fn lemma_reveal_keeps_consistent(w: WorldView, player: Seq<u8>, position: u32)
    requires
        world_wf(w),
        consistent(w),
        reveal_error(w, player, position) is None,
    ensures
        world_wf(revealed(w, position)),
        consistent(revealed(w, position)),
{
    let t = turned(w, position);
    let p = position as int;
    lemma_count_update(w.cards, p, Card { state: CardState::Revealed, ..w.cards[p] }, CardState::Matched);
    lemma_count_update(w.cards, p, Card { state: CardState::Revealed, ..w.cards[p] }, CardState::Revealed);
    assert(consistent(t)) by {
        assert forall|i: int| 0 <= i < t.revealed_cards.len()
            implies #[trigger] t.cards[t.revealed_cards[i] as int].state == CardState::Revealed by {
            if i < w.revealed_cards.len() {
                assert(w.cards[w.revealed_cards[i] as int].state == CardState::Revealed);
            }
        }
    }
    if t.revealed_cards.len() == 2 {
        let p1 = t.revealed_cards[0] as int;
        let p2 = t.revealed_cards[1] as int;
        assert(w.cards[w.revealed_cards[0] as int].state == CardState::Revealed);
        assert(p1 != p2);
        let st = if t.cards[p1].value == t.cards[p2].value { CardState::Matched } else { CardState::Hidden };
        let c1 = with_state(t.cards, p1, st);
        assert(t.cards[t.revealed_cards[0] as int].state == CardState::Revealed);
        assert(t.cards[t.revealed_cards[1] as int].state == CardState::Revealed);
        assert(c1[p2] == t.cards[p2]);
        lemma_count_le(w.cards, CardState::Matched);
        lemma_count_update(t.cards, p1, Card { state: st, ..t.cards[p1] }, CardState::Matched);
        lemma_count_update(t.cards, p1, Card { state: st, ..t.cards[p1] }, CardState::Revealed);
        lemma_count_update(c1, p2, Card { state: st, ..c1[p2] }, CardState::Matched);
        lemma_count_update(c1, p2, Card { state: st, ..c1[p2] }, CardState::Revealed);
    }
}

/// Law: the game ends exactly when a reveal completes the last pair.
pub proof fn lemma_game_over_on_last_pair(w: WorldView, player: Seq<u8>, position: u32)
    requires
        world_wf(w),
        reveal_error(w, player, position) is None,
    ensures
        revealed(w, position).game_over <==> reveal_outcome(w, position) == RevealResult::GameOver,
        reveal_outcome(w, position) == RevealResult::GameOver ==> revealed(w, position).matched_pairs == w.total_pairs,
{
}

/// Law: resetting a game leaves the deal face down and the counters at
/// zero, which is how `init_game` starts it.
pub proof fn lemma_reset_restarts(w: WorldView)
    requires
        w.cards.len() == 16,
        forall|i: int| 0 <= i < 16 ==> #[trigger] w.cards[i].value == (i % 8) as u32,
    ensures
        Seq::new(w.cards.len(), |i: int| Card { state: CardState::Hidden, ..w.cards[i] }) == dealt(),
{
    assert(Seq::new(w.cards.len(), |i: int| Card { state: CardState::Hidden, ..w.cards[i] }) =~= dealt());
}

} // verus!
