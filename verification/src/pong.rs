//! Pong: paddles, ball physics, wall and paddle bounces, scoring to five.
use vstd::prelude::*;
use crate::common::{be_bytes_i32, be_bytes_u32, be_i32_at, be_u32_at, lemma_be_i32_roundtrip,
    lemma_be_u32_roundtrip, push_be_i32, push_be_u32, read_be_i32, read_be_u32};

verus! {

pub const PADDLE_HEIGHT: i32 = 15;
pub const PADDLE_SPEED: i32 = 2;
pub const BALL_SPEED: i32 = 1;
pub const FIELD_WIDTH: i32 = 100;
pub const FIELD_HEIGHT: i32 = 60;
pub const WINNING_SCORE: u32 = 5;

#[derive(Clone, Copy, Debug)]
pub struct PaddleComponent {
    pub player_id: u32,
    pub y_position: i32,
}

#[derive(Clone, Copy, Debug)]
pub struct BallComponent {
    pub x: i32,
    pub y: i32,
    pub vx: i32,
    pub vy: i32,
}

#[derive(Clone, Copy, Debug)]
pub struct ScoreComponent {
    pub player1_score: u32,
    pub player2_score: u32,
    pub game_active: bool,
}

/// A paddle's bytes: the player id and the paddle's row, big-endian.
pub open spec fn paddle_bytes(p: PaddleComponent) -> Seq<u8> {
    be_bytes_u32(p.player_id) + be_bytes_i32(p.y_position)
}

/// A paddle read from exactly eight bytes.
pub open spec fn paddle_decoded(data: Seq<u8>) -> Option<PaddleComponent> {
    if data.len() != 8 {
        None
    } else {
        Some(PaddleComponent { player_id: be_u32_at(data, 0), y_position: be_i32_at(data, 4) })
    }
}

/// A ball's bytes: position then velocity, each coordinate big-endian.
pub open spec fn ball_bytes(b: BallComponent) -> Seq<u8> {
    be_bytes_i32(b.x) + be_bytes_i32(b.y) + be_bytes_i32(b.vx) + be_bytes_i32(b.vy)
}

/// A ball read from exactly sixteen bytes.
pub open spec fn ball_decoded(data: Seq<u8>) -> Option<BallComponent> {
    if data.len() != 16 {
        None
    } else {
        Some(BallComponent { x: be_i32_at(data, 0), y: be_i32_at(data, 4), vx: be_i32_at(data, 8), vy: be_i32_at(data, 12) })
    }
}

/// A score's bytes: both scores big-endian, then 1 while the game is on.
pub open spec fn score_bytes(s: ScoreComponent) -> Seq<u8> {
    be_bytes_u32(s.player1_score) + be_bytes_u32(s.player2_score) + seq![if s.game_active { 1u8 } else { 0u8 }]
}

/// A score read from exactly nine bytes.
pub open spec fn score_decoded(data: Seq<u8>) -> Option<ScoreComponent> {
    if data.len() != 9 {
        None
    } else {
        Some(ScoreComponent { player1_score: be_u32_at(data, 0), player2_score: be_u32_at(data, 4), game_active: data[8] != 0 })
    }
}

impl PaddleComponent {
    /// The component's bytes.
    pub fn serialize(&self) -> (r: Vec<u8>)
        ensures
            r@ == paddle_bytes(*self),
    {
        let mut out: Vec<u8> = Vec::new();
        push_be_u32(&mut out, self.player_id);
        push_be_i32(&mut out, self.y_position);
        out
    }

    /// The component held by `data`.
    pub fn deserialize(data: &Vec<u8>) -> (r: Option<PaddleComponent>)
        ensures
            r == paddle_decoded(data@),
    {
        if data.len() != 8 {
            return None;
        }
        Some(PaddleComponent { player_id: read_be_u32(data, 0), y_position: read_be_i32(data, 4) })
    }
}

impl BallComponent {
    /// The component's bytes.
    pub fn serialize(&self) -> (r: Vec<u8>)
        ensures
            r@ == ball_bytes(*self),
    {
        let mut out: Vec<u8> = Vec::new();
        push_be_i32(&mut out, self.x);
        push_be_i32(&mut out, self.y);
        push_be_i32(&mut out, self.vx);
        push_be_i32(&mut out, self.vy);
        out
    }

    /// The component held by `data`.
    pub fn deserialize(data: &Vec<u8>) -> (r: Option<BallComponent>)
        ensures
            r == ball_decoded(data@),
    {
        if data.len() != 16 {
            return None;
        }
        Some(BallComponent {
            x: read_be_i32(data, 0),
            y: read_be_i32(data, 4),
            vx: read_be_i32(data, 8),
            vy: read_be_i32(data, 12),
        })
    }
}

impl ScoreComponent {
    /// The component's bytes.
    pub fn serialize(&self) -> (r: Vec<u8>)
        ensures
            r@ == score_bytes(*self),
    {
        let mut out: Vec<u8> = Vec::new();
        push_be_u32(&mut out, self.player1_score);
        push_be_u32(&mut out, self.player2_score);
        out.push(if self.game_active { 1u8 } else { 0u8 });
        assert(out@ =~= score_bytes(*self));
        out
    }

    /// The component held by `data`.
    pub fn deserialize(data: &Vec<u8>) -> (r: Option<ScoreComponent>)
        ensures
            r == score_decoded(data@),
    {
        if data.len() != 9 {
            return None;
        }
        Some(ScoreComponent { player1_score: read_be_u32(data, 0), player2_score: read_be_u32(data, 4), game_active: data[8] != 0 })
    }
}

/// Law: each component reads back from its own bytes.
pub proof fn lemma_component_bytes_roundtrip(p: PaddleComponent, b: BallComponent, s: ScoreComponent)
    ensures
        paddle_decoded(paddle_bytes(p)) == Some(p),
        ball_decoded(ball_bytes(b)) == Some(b),
        score_decoded(score_bytes(s)) == Some(s),
{
    let e = Seq::<u8>::empty();
    let pid = be_bytes_u32(p.player_id);
    let py = be_bytes_i32(p.y_position);
    assert(paddle_bytes(p) =~= e + pid + py);
    lemma_be_u32_roundtrip(e, p.player_id, py);
    assert(paddle_bytes(p) =~= pid + py + e);
    lemma_be_i32_roundtrip(pid, p.y_position, e);

    let (x, y, vx, vy) = (be_bytes_i32(b.x), be_bytes_i32(b.y), be_bytes_i32(b.vx), be_bytes_i32(b.vy));
    assert(ball_bytes(b) =~= e + x + (y + vx + vy));
    lemma_be_i32_roundtrip(e, b.x, y + vx + vy);
    assert(ball_bytes(b) =~= x + y + (vx + vy));
    lemma_be_i32_roundtrip(x, b.y, vx + vy);
    assert(ball_bytes(b) =~= (x + y) + vx + vy);
    lemma_be_i32_roundtrip(x + y, b.vx, vy);
    assert(ball_bytes(b) =~= (x + y + vx) + vy + e);
    lemma_be_i32_roundtrip(x + y + vx, b.vy, e);

    let s1 = be_bytes_u32(s.player1_score);
    let s2 = be_bytes_u32(s.player2_score);
    let flag = seq![if s.game_active { 1u8 } else { 0u8 }];
    assert(score_bytes(s) =~= e + s1 + (s2 + flag));
    lemma_be_u32_roundtrip(e, s.player1_score, s2 + flag);
    lemma_be_u32_roundtrip(s1, s.player2_score, flag);
}

/// Paddles (entities 0 and 1), ball (2) and score (3).
#[derive(Clone, Copy, Debug)]
pub struct ECSWorldState {
    pub player1_paddle: PaddleComponent,
    pub player2_paddle: PaddleComponent,
    pub ball: BallComponent,
    pub score: ScoreComponent,
}

/// The public view.
#[derive(Clone, Copy, Debug, PartialEq, Eq, Structural)]
pub struct GameState {
    pub player1_paddle_y: i32,
    pub player2_paddle_y: i32,
    pub ball_x: i32,
    pub ball_y: i32,
    pub ball_vx: i32,
    pub ball_vy: i32,
    pub player1_score: u32,
    pub player2_score: u32,
    pub game_active: bool,
}

pub open spec fn clamp(v: int, lo: int, hi: int) -> int {
    if v < lo { lo } else if v > hi { hi } else { v }
}

/// The ball after moving by its velocity.
pub open spec fn after_physics(w: ECSWorldState) -> ECSWorldState {
    ECSWorldState { ball: BallComponent { x: (w.ball.x + w.ball.vx) as i32, y: (w.ball.y + w.ball.vy) as i32, ..w.ball }, ..w }
}

/// Bounces off the top and bottom walls and off paddles the ball meets.
pub open spec fn after_collision(w: ECSWorldState) -> ECSWorldState {
    let b0 = w.ball;
    let b1 = if b0.y <= 0 || b0.y >= FIELD_HEIGHT {
        BallComponent { vy: (-b0.vy) as i32, y: clamp(b0.y as int, 0, FIELD_HEIGHT as int) as i32, ..b0 }
    } else { b0 };
    let p1 = w.player1_paddle.y_position;
    let b2 = if b1.x <= 5 && b1.vx < 0 && p1 - 7 <= b1.y <= p1 + 7 {
        BallComponent { vx: (-b1.vx) as i32, x: 5i32, ..b1 }
    } else { b1 };
    let p2 = w.player2_paddle.y_position;
    let b3 = if b2.x >= FIELD_WIDTH - 5 && b2.vx > 0 && p2 - 7 <= b2.y <= p2 + 7 {
        BallComponent { vx: (-b2.vx) as i32, x: 95i32, ..b2 }
    } else { b2 };
    ECSWorldState { ball: b3, ..w }
}

pub open spec fn reset(b: BallComponent) -> BallComponent {
    BallComponent { x: 50i32, y: 30i32, vx: (-b.vx) as i32, vy: b.vy }
}

/// A ball past a goal line scores for the other side and is served again;
/// the game stops once someone has five.
pub open spec fn after_scoring(w: ECSWorldState) -> ECSWorldState {
    let s1 = if w.ball.x <= 0 { ScoreComponent { player2_score: (w.score.player2_score + 1) as u32, ..w.score } }
        else if w.ball.x >= FIELD_WIDTH { ScoreComponent { player1_score: (w.score.player1_score + 1) as u32, ..w.score } }
        else { w.score };
    let ball = if w.ball.x <= 0 || w.ball.x >= FIELD_WIDTH { reset(w.ball) } else { w.ball };
    let active = if s1.player1_score >= WINNING_SCORE || s1.player2_score >= WINNING_SCORE { false } else { s1.game_active };
    ECSWorldState { ball, score: ScoreComponent { game_active: active, ..s1 }, ..w }
}

/// The integer operations of a tick stay in range.
pub open spec fn tick_fits(w: ECSWorldState) -> bool {
    let m = after_physics(w);
    let c = after_collision(m);
    &&& i32::MIN <= w.ball.x + w.ball.vx <= i32::MAX
    &&& i32::MIN <= w.ball.y + w.ball.vy <= i32::MAX
    &&& w.ball.vx != i32::MIN && w.ball.vy != i32::MIN
    &&& w.player1_paddle.y_position + 7 <= i32::MAX && w.player1_paddle.y_position - 7 >= i32::MIN
    &&& w.player2_paddle.y_position + 7 <= i32::MAX && w.player2_paddle.y_position - 7 >= i32::MIN
    &&& c.ball.x <= 0 ==> w.score.player2_score < u32::MAX
    &&& c.ball.x >= FIELD_WIDTH ==> w.score.player1_score < u32::MAX
}

/// Ball physics: the ball advances by its velocity.
pub fn physics_system(world: &mut ECSWorldState)
    requires
        i32::MIN <= old(world).ball.x + old(world).ball.vx <= i32::MAX,
        i32::MIN <= old(world).ball.y + old(world).ball.vy <= i32::MAX,
    ensures
        *final(world) == after_physics(*old(world)),
{
    world.ball.x += world.ball.vx;
    world.ball.y += world.ball.vy;
}

/// Wall and paddle bounces.
pub fn collision_system(world: &mut ECSWorldState)
    requires
        old(world).ball.vx != i32::MIN && old(world).ball.vy != i32::MIN,
        old(world).player1_paddle.y_position + 7 <= i32::MAX && old(world).player1_paddle.y_position - 7 >= i32::MIN,
        old(world).player2_paddle.y_position + 7 <= i32::MAX && old(world).player2_paddle.y_position - 7 >= i32::MIN,
    ensures
        *final(world) == after_collision(*old(world)),
{
    let paddle_half_height = PADDLE_HEIGHT / 2;
    if world.ball.y <= 0 || world.ball.y >= FIELD_HEIGHT {
        world.ball.vy = -world.ball.vy;
        world.ball.y = if world.ball.y < 0 { 0 } else if world.ball.y > FIELD_HEIGHT { FIELD_HEIGHT } else { world.ball.y };
    }
    if world.ball.x <= 5 && world.ball.vx < 0 {
        let paddle_top = world.player1_paddle.y_position - paddle_half_height;
        let paddle_bottom = world.player1_paddle.y_position + paddle_half_height;
        if world.ball.y >= paddle_top && world.ball.y <= paddle_bottom {
            world.ball.vx = -world.ball.vx;
            world.ball.x = 5;
        }
    }
    if world.ball.x >= FIELD_WIDTH - 5 && world.ball.vx > 0 {
        let paddle_top = world.player2_paddle.y_position - paddle_half_height;
        let paddle_bottom = world.player2_paddle.y_position + paddle_half_height;
        if world.ball.y >= paddle_top && world.ball.y <= paddle_bottom {
            world.ball.vx = -world.ball.vx;
            world.ball.x = FIELD_WIDTH - 5;
        }
    }
}

/// Goals and the end of the game.
pub fn scoring_system(world: &mut ECSWorldState)
    requires
        old(world).ball.vx != i32::MIN,
        old(world).ball.x <= 0 ==> old(world).score.player2_score < u32::MAX,
        old(world).ball.x >= FIELD_WIDTH ==> old(world).score.player1_score < u32::MAX,
    ensures
        *final(world) == after_scoring(*old(world)),
{
    if world.ball.x <= 0 {
        world.score.player2_score += 1;
        reset_ball(&mut world.ball);
    } else if world.ball.x >= FIELD_WIDTH {
        world.score.player1_score += 1;
        reset_ball(&mut world.ball);
    }
    if world.score.player1_score >= WINNING_SCORE || world.score.player2_score >= WINNING_SCORE {
        world.score.game_active = false;
    }
}

/// Keeps a paddle's centre inside the field.
pub fn clamp_paddle_position(y: i32) -> (r: i32)
    ensures
        r as int == clamp(y as int, 7, 53),
{
    let paddle_half_height = PADDLE_HEIGHT / 2;
    if y < paddle_half_height {
        paddle_half_height
    } else if y > FIELD_HEIGHT - paddle_half_height {
        FIELD_HEIGHT - paddle_half_height
    } else {
        y
    }
}

/// Serves the ball from the centre towards the side that just scored on.
pub fn reset_ball(ball: &mut BallComponent)
    requires
        old(ball).vx != i32::MIN,
    ensures
        *final(ball) == reset(*old(ball)),
{
    ball.x = FIELD_WIDTH / 2;
    ball.y = FIELD_HEIGHT / 2;
    ball.vx = -ball.vx;
}

/// The public view of the world.
pub fn world_to_game_state(world: &ECSWorldState) -> (g: GameState)
    ensures
        g == (GameState {
            player1_paddle_y: world.player1_paddle.y_position, player2_paddle_y: world.player2_paddle.y_position,
            ball_x: world.ball.x, ball_y: world.ball.y, ball_vx: world.ball.vx, ball_vy: world.ball.vy,
            player1_score: world.score.player1_score, player2_score: world.score.player2_score,
            game_active: world.score.game_active,
        }),
{
    GameState {
        player1_paddle_y: world.player1_paddle.y_position,
        player2_paddle_y: world.player2_paddle.y_position,
        ball_x: world.ball.x,
        ball_y: world.ball.y,
        ball_vx: world.ball.vx,
        ball_vy: world.ball.vy,
        player1_score: world.score.player1_score,
        player2_score: world.score.player2_score,
        game_active: world.score.game_active,
    }
}

/// The contract's operations over its stored world.
#[derive(Debug)]
pub struct PongContract;

impl PongContract {
    /// Paddles centred, ball in the middle heading down-right, no score.
    pub fn init_game() -> (w: ECSWorldState)
        ensures
            w == (ECSWorldState {
                player1_paddle: PaddleComponent { player_id: 1, y_position: 30 },
                player2_paddle: PaddleComponent { player_id: 2, y_position: 30 },
                ball: BallComponent { x: 50, y: 30, vx: 1, vy: 1 },
                score: ScoreComponent { player1_score: 0, player2_score: 0, game_active: true },
            }),
    {
        ECSWorldState {
            player1_paddle: PaddleComponent { player_id: 1, y_position: FIELD_HEIGHT / 2 },
            player2_paddle: PaddleComponent { player_id: 2, y_position: FIELD_HEIGHT / 2 },
            ball: BallComponent { x: FIELD_WIDTH / 2, y: FIELD_HEIGHT / 2, vx: BALL_SPEED, vy: BALL_SPEED },
            score: ScoreComponent { player1_score: 0, player2_score: 0, game_active: true },
        }
    }

    /// Moves the paddle whose id is `player` by `direction` steps of two,
    /// kept inside the field; nothing changes once the game has ended or for
    /// an unknown id.
    pub fn move_paddle(world: &mut ECSWorldState, player: u32, direction: i32)
        requires
            i32::MIN <= direction * 2 <= i32::MAX,
            old(world).player1_paddle.player_id == player ==> i32::MIN <= old(world).player1_paddle.y_position + direction * 2 <= i32::MAX,
            old(world).player1_paddle.player_id != player && old(world).player2_paddle.player_id == player
                ==> i32::MIN <= old(world).player2_paddle.y_position + direction * 2 <= i32::MAX,
        ensures
            !old(world).score.game_active ==> *final(world) == *old(world),
            old(world).score.game_active ==> *final(world) == (if old(world).player1_paddle.player_id == player {
                ECSWorldState { player1_paddle: PaddleComponent {
                    y_position: clamp(old(world).player1_paddle.y_position + direction * 2, 7, 53) as i32,
                    ..old(world).player1_paddle }, ..*old(world) }
            } else if old(world).player2_paddle.player_id == player {
                ECSWorldState { player2_paddle: PaddleComponent {
                    y_position: clamp(old(world).player2_paddle.y_position + direction * 2, 7, 53) as i32,
                    ..old(world).player2_paddle }, ..*old(world) }
            } else {
                *old(world)
            }),
    {
        if !world.score.game_active {
            return;
        }
        let movement = direction * PADDLE_SPEED;
        if world.player1_paddle.player_id == player {
            let new_y = world.player1_paddle.y_position + movement;
            world.player1_paddle.y_position = clamp_paddle_position(new_y);
        } else if world.player2_paddle.player_id == player {
            let new_y = world.player2_paddle.y_position + movement;
            world.player2_paddle.y_position = clamp_paddle_position(new_y);
        }
    }

    /// One step: physics, bounces, scoring; nothing once the game has ended.
    pub fn update_tick(world: &mut ECSWorldState)
        requires
            old(world).score.game_active ==> tick_fits(*old(world)),
        ensures
            !old(world).score.game_active ==> *final(world) == *old(world),
            old(world).score.game_active ==> *final(world) == after_scoring(after_collision(after_physics(*old(world)))),
    {
        if !world.score.game_active {
            return;
        }
        physics_system(world);
        collision_system(world);
        scoring_system(world);
    }

    /// The public view.
    pub fn get_game_state(world: &ECSWorldState) -> (g: GameState)
        ensures
            g.ball_x == world.ball.x && g.ball_y == world.ball.y && g.ball_vx == world.ball.vx && g.ball_vy == world.ball.vy,
            g.player1_paddle_y == world.player1_paddle.y_position && g.player2_paddle_y == world.player2_paddle.y_position,
            g.player1_score == world.score.player1_score && g.player2_score == world.score.player2_score,
            g.game_active == world.score.game_active,
    {
        world_to_game_state(world)
    }

    /// A fresh game.
    pub fn reset_game() -> (w: ECSWorldState)
        ensures
            w == (ECSWorldState {
                player1_paddle: PaddleComponent { player_id: 1, y_position: 30 },
                player2_paddle: PaddleComponent { player_id: 2, y_position: 30 },
                ball: BallComponent { x: 50, y: 30, vx: 1, vy: 1 },
                score: ScoreComponent { player1_score: 0, player2_score: 0, game_active: true },
            }),
    {
        Self::init_game()
    }
}

/// Law: a paddle moved by the contract always ends inside the field.
pub proof fn lemma_paddle_stays_in_field(y: int)
    ensures
        7 <= clamp(y, 7, 53) <= 53,
{
}

} // verus!
