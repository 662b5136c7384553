//! Asteroids on a wrapping 1000x1000 field (in thousandths): ship movement,
//! rotation, shooting, bullet lifetimes, collisions, splitting and lives.
use vstd::prelude::*;
use vstd::arithmetic::div_mod::{lemma_mod_add_multiples_vanish, lemma_mod_sub_multiples_vanish,
    lemma_small_mod, lemma_mod_multiples_vanish};

verus! {

pub const SCALE: i128 = 1000;
pub const WORLD_W: i128 = 1000000;
pub const WORLD_H: i128 = 1000000;
pub const SHIP_THRUST: i128 = 120;
pub const BULLET_SPEED: i128 = 300;
pub const BULLET_TTL: u32 = 50;
pub const MAX_BULLETS: u32 = 32;
pub const MAX_ASTEROIDS: u32 = 64;
pub const ASTEROID_BASE_RADIUS: i128 = 28000;
pub const SHIP_RADIUS: i128 = 20000;
pub const DIRECTIONS: u32 = 8;

/// The contract's error codes.
#[derive(Clone, Copy, Debug, PartialEq, Eq, Structural)]
pub enum GameError {
    NotInitialized,
    AlreadyInitialized,
    GameOver,
    InvalidAction,
}

#[derive(Clone, Copy, Debug)]
pub struct ShipComponent {
    pub x: i128,
    pub y: i128,
    pub vx: i128,
    pub vy: i128,
    pub angle: u32,
}

#[derive(Clone, Copy, Debug)]
pub struct AsteroidComponent {
    pub x: i128,
    pub y: i128,
    pub vx: i128,
    pub vy: i128,
    pub size: u32,
}

#[derive(Clone, Copy, Debug)]
pub struct BulletComponent {
    pub x: i128,
    pub y: i128,
    pub vx: i128,
    pub vy: i128,
    pub lifetime: u32,
}

#[derive(Clone, Copy, Debug)]
pub struct ScoreComponent {
    pub points: u32,
    pub lives: u32,
}

/// Everything the contract keeps.
#[derive(Debug)]
pub struct ECSWorldState {
    pub ship: ShipComponent,
    pub asteroids: Vec<AsteroidComponent>,
    pub bullets: Vec<BulletComponent>,
    pub score: ScoreComponent,
    pub game_over: bool,
}

/// The public view of a game.
#[derive(Debug)]
pub struct GameState {
    pub ship_x: i128,
    pub ship_y: i128,
    pub ship_vx: i128,
    pub ship_vy: i128,
    pub ship_angle: u32,
    pub asteroid_count: u32,
    pub bullet_count: u32,
    pub score: u32,
    pub lives: u32,
    pub game_over: bool,
}

// ── specification ─────────────────────────────────────────────────────────────

/// Unit heading (in thousandths) for one of eight directions, clockwise from up.
pub open spec fn heading(index: u32) -> (int, int) {
    let d = index % 8;
    if d == 0 { (0, 1000) }
    else if d == 1 { (707, 707) }
    else if d == 2 { (1000, 0) }
    else if d == 3 { (707, -707) }
    else if d == 4 { (0, -1000) }
    else if d == 5 { (-707, -707) }
    else if d == 6 { (-1000, 0) }
    else { (-707, 707) }
}

/// `d * k / 1000` rounded toward zero, as integer division does.
pub open spec fn scaled(d: int, k: int) -> int {
    if d >= 0 { (d * k) / 1000 } else { -(((-d) * k) / 1000) }
}

/// Position wrapped into `[0, max)`.
pub open spec fn wrapped(v: int, max: int) -> int {
    v % max
}

pub open spec fn sq_dist(x1: int, y1: int, x2: int, y2: int) -> int {
    (x1 - x2) * (x1 - x2) + (y1 - y2) * (y1 - y2)
}

pub open spec fn moved_ship(s: ShipComponent) -> ShipComponent {
    ShipComponent { x: wrapped(s.x + s.vx, WORLD_W as int) as i128, y: wrapped(s.y + s.vy, WORLD_H as int) as i128, ..s }
}

pub open spec fn moved_bullet(b: BulletComponent) -> BulletComponent {
    BulletComponent { x: wrapped(b.x + b.vx, WORLD_W as int) as i128, y: wrapped(b.y + b.vy, WORLD_H as int) as i128,
        lifetime: (b.lifetime - 1) as u32, ..b }
}

pub open spec fn moved_asteroid(a: AsteroidComponent) -> AsteroidComponent {
    AsteroidComponent { x: wrapped(a.x + a.vx, WORLD_W as int) as i128, y: wrapped(a.y + a.vy, WORLD_H as int) as i128, ..a }
}

/// Bullets that survive a tick, aged and moved, in order.
pub open spec fn live_bullets(s: Seq<BulletComponent>) -> Seq<BulletComponent>
    decreases s.len(),
{
    if s.len() == 0 {
        Seq::empty()
    } else {
        let p = live_bullets(s.drop_last());
        if s.last().lifetime > 1 { p.push(moved_bullet(s.last())) } else { p }
    }
}

pub open spec fn bullet_hits(b: BulletComponent, a: AsteroidComponent) -> bool {
    let radius = ASTEROID_BASE_RADIUS * a.size;
    sq_dist(b.x as int, b.y as int, a.x as int, a.y as int) <= radius * radius
}

pub open spec fn ship_hits(s: ShipComponent, a: AsteroidComponent) -> bool {
    let radius = ASTEROID_BASE_RADIUS * a.size + SHIP_RADIUS;
    sq_dist(s.x as int, s.y as int, a.x as int, a.y as int) <= radius * radius
}

/// First asteroid at index `j` or later that is not yet hit and that the bullet
/// touches.
pub open spec fn first_target(b: BulletComponent, asts: Seq<AsteroidComponent>, hit: Seq<bool>, j: int) -> Option<int>
    decreases asts.len() - j,
{
    if j < 0 || j >= asts.len() {
        None
    } else if !hit[j] && bullet_hits(b, asts[j]) {
        Some(j)
    } else {
        first_target(b, asts, hit, j + 1)
    }
}

/// After the first `k` bullets: which asteroids are hit, which bullets are
/// left, and how many hits scored. Each bullet destroys at most one asteroid,
/// the first untouched one it reaches.
pub open spec fn collide(bullets: Seq<BulletComponent>, asts: Seq<AsteroidComponent>, k: int) -> (Seq<bool>, Seq<BulletComponent>, nat)
    decreases k,
{
    if k <= 0 {
        (Seq::new(asts.len(), |i: int| false), Seq::empty(), 0)
    } else {
        let (h, kept, n) = collide(bullets, asts, k - 1);
        let b = bullets[k - 1];
        match first_target(b, asts, h, 0) {
            Some(j) => (h.update(j, true), kept, n + 1),
            None => (h, kept.push(b), n),
        }
    }
}

/// The two halves of a split asteroid (none for the smallest size).
pub open spec fn halves(a: AsteroidComponent) -> Seq<AsteroidComponent> {
    if a.size > 1 {
        seq![
            AsteroidComponent { x: a.x, y: a.y, vx: a.vy, vy: (-a.vx) as i128, size: (a.size - 1) as u32 },
            AsteroidComponent { x: a.x, y: a.y, vx: (-a.vy) as i128, vy: a.vx, size: (a.size - 1) as u32 },
        ]
    } else {
        Seq::empty()
    }
}

/// After the first `k` asteroids: unhit ones kept, hit ones replaced by their
/// halves while the total stays within `MAX_ASTEROIDS`.
pub open spec fn split_all(asts: Seq<AsteroidComponent>, hit: Seq<bool>, k: int) -> Seq<AsteroidComponent>
    decreases k,
{
    if k <= 0 {
        Seq::empty()
    } else {
        let r = split_all(asts, hit, k - 1);
        let a = asts[k - 1];
        if hit[k - 1] {
            if r.len() + halves(a).len() <= MAX_ASTEROIDS { r + halves(a) } else { r }
        } else {
            r.push(a)
        }
    }
}

pub open spec fn home_ship() -> ShipComponent {
    ShipComponent { x: 500000, y: 500000, vx: 0, vy: 0, angle: 0 }
}

/// The arithmetic of a tick stays within the machine integers: moves do not
/// overflow, hit asteroids can be split, and the score can take the hits.
pub open spec fn tick_fits(w: ECSWorldState) -> bool {
    let asts = w.asteroids@.map_values(|a: AsteroidComponent| moved_asteroid(a));
    let bl = live_bullets(w.bullets@);
    let (hit, kept, n) = collide(bl, asts, bl.len() as int);
    &&& i128::MIN <= w.ship.x + w.ship.vx <= i128::MAX
    &&& i128::MIN <= w.ship.y + w.ship.vy <= i128::MAX
    &&& forall|i: int| 0 <= i < w.bullets@.len() ==> i128::MIN <= (#[trigger] w.bullets@[i]).x + w.bullets@[i].vx <= i128::MAX
        && i128::MIN <= w.bullets@[i].y + w.bullets@[i].vy <= i128::MAX
    &&& forall|i: int| 0 <= i < w.asteroids@.len() ==> i128::MIN <= (#[trigger] w.asteroids@[i]).x + w.asteroids@[i].vx <= i128::MAX
        && i128::MIN <= w.asteroids@[i].y + w.asteroids@[i].vy <= i128::MAX
    &&& forall|j: int| 0 <= j < asts.len() && #[trigger] hit[j] ==> asts[j].vx != i128::MIN && asts[j].vy != i128::MIN
    &&& w.score.points + 10 * n <= u32::MAX
}

/// The ship, score and game-over flag after one tick. The asteroid and
/// bullet lists are carried over unchanged here: their new contents (the
/// split survivors, and the kept bullets unless the ship was hit) are stated
/// by `Contract::update_tick`.
pub open spec fn ticked(w: ECSWorldState) -> ECSWorldState {
    let ship = moved_ship(w.ship);
    let asts = w.asteroids@.map_values(|a: AsteroidComponent| moved_asteroid(a));
    let bl = live_bullets(w.bullets@);
    let (hit, kept, n) = collide(bl, asts, bl.len() as int);
    let rem = split_all(asts, hit, asts.len() as int);
    let collided = exists|c: int| 0 <= c < rem.len() && ship_hits(ship, #[trigger] rem[c]);
    let lives = if collided && w.score.lives > 0 { (w.score.lives - 1) as u32 } else { w.score.lives };
    ECSWorldState {
        ship: if collided { home_ship() } else { ship },
        asteroids: w.asteroids,
        bullets: w.bullets,
        score: ScoreComponent { points: (w.score.points + 10 * n) as u32, lives },
        game_over: w.game_over || (collided && lives == 0) || rem.len() == 0,
    }
}

/// Law: a tick never takes points away, scores in steps of ten, costs at
/// most one life, and never revives an ended game.
pub proof fn lemma_tick_monotone(w: ECSWorldState)
    requires
        tick_fits(w),
    ensures
        ticked(w).score.points >= w.score.points,
        (ticked(w).score.points - w.score.points) % 10 == 0,
        w.score.lives - 1 <= ticked(w).score.lives <= w.score.lives,
        w.game_over ==> ticked(w).game_over,
{
}

proof fn lemma_first_target_in_range(b: BulletComponent, asts: Seq<AsteroidComponent>, hit: Seq<bool>, j: int)
    ensures
        first_target(b, asts, hit, j) matches Some(k) ==> 0 <= k < asts.len() && j <= k,
    decreases asts.len() - j,
{
    if 0 <= j < asts.len() {
        lemma_first_target_in_range(b, asts, hit, j + 1);
    }
}

proof fn lemma_collide_shape(bullets: Seq<BulletComponent>, asts: Seq<AsteroidComponent>, k: int)
    ensures
        collide(bullets, asts, k).0.len() == asts.len(),
        collide(bullets, asts, k).2 <= (if k < 0 { 0 } else { k }),
    decreases k,
{
    if k > 0 {
        lemma_collide_shape(bullets, asts, k - 1);
        let (h, kept, n) = collide(bullets, asts, k - 1);
        lemma_first_target_in_range(bullets[k - 1], asts, h, 0);
    }
}

// ── systems ───────────────────────────────────────────────────────────────────

/// Heading for one of the eight directions (the index is taken mod 8).
pub fn heading_vector(index: u32) -> (r: (i128, i128))
    ensures
        r.0 as int == heading(index).0,
        r.1 as int == heading(index).1,
{
    let d = index % DIRECTIONS;
    if d == 0 { (0, SCALE) }
    else if d == 1 { (707, 707) }
    else if d == 2 { (SCALE, 0) }
    else if d == 3 { (707, -707) }
    else if d == 4 { (0, -SCALE) }
    else if d == 5 { (-707, -707) }
    else if d == 6 { (-SCALE, 0) }
    else { (-707, 707) }
}

fn scale_component(d: i128, k: i128) -> (r: i128)
    requires
        -1000 <= d <= 1000,
        0 <= k <= 1000,
    ensures
        r as int == scaled(d as int, k as int),
        -1000 <= r <= 1000,
{
    if d >= 0 {
        assert(0 <= d * k <= 1000000) by (nonlinear_arith)
            requires 0 <= d <= 1000, 0 <= k <= 1000;
        d * k / SCALE
    } else {
        assert(0 <= (-d) * k <= 1000000) by (nonlinear_arith)
            requires 0 < -d <= 1000, 0 <= k <= 1000;
        -((-d) * k / SCALE)
    }
}

/// Wraps a coordinate into `[0, max)` by whole laps.
pub fn wrap(value: i128, max: i128) -> (r: i128)
    requires
        max > 0,
    ensures
        r as int == wrapped(value as int, max as int),
        0 <= r < max,
{
    let mut value = value;
    let ghost v0 = value as int;
    while value < 0
        invariant
            max > 0,
            value as int % max as int == v0 % max as int,
        decreases (if value < 0 { 0 - value as int } else { 0 }),
    {
        proof {
            lemma_mod_add_multiples_vanish(value as int, max as int);
        }
        value += max;
    }
    while value >= max
        invariant
            max > 0,
            value >= 0,
            value as int % max as int == v0 % max as int,
        decreases value,
    {
        proof {
            lemma_mod_sub_multiples_vanish(value as int, max as int);
        }
        value -= max;
    }
    proof {
        lemma_small_mod(value as nat, max as nat);
    }
    value
}

/// Squared distance between two points.
pub fn dist2(x1: i128, y1: i128, x2: i128, y2: i128) -> (r: i128)
    requires
        -0x1000_0000_0000_0000 <= x1 <= 0x1000_0000_0000_0000,
        -0x1000_0000_0000_0000 <= y1 <= 0x1000_0000_0000_0000,
        -0x1000_0000_0000_0000 <= x2 <= 0x1000_0000_0000_0000,
        -0x1000_0000_0000_0000 <= y2 <= 0x1000_0000_0000_0000,
    ensures
        r as int == sq_dist(x1 as int, y1 as int, x2 as int, y2 as int),
{
    let dx = x1 - x2;
    let dy = y1 - y2;
    assert(0 <= dx * dx <= 0x400_0000_0000_0000_0000_0000_0000_0000) by (nonlinear_arith)
        requires -0x2000_0000_0000_0000 <= dx <= 0x2000_0000_0000_0000;
    assert(0 <= dy * dy <= 0x400_0000_0000_0000_0000_0000_0000_0000) by (nonlinear_arith)
        requires -0x2000_0000_0000_0000 <= dy <= 0x2000_0000_0000_0000;
    dx * dx + dy * dy
}

/// Movement: positions advance by velocity and wrap around the field.
#[derive(Debug)]
pub struct MovementSystem;

impl MovementSystem {
    pub fn update_ship(ship: &mut ShipComponent)
        requires
            i128::MIN <= old(ship).x + old(ship).vx <= i128::MAX,
            i128::MIN <= old(ship).y + old(ship).vy <= i128::MAX,
        ensures
            *final(ship) == moved_ship(*old(ship)),
    {
        ship.x = wrap(ship.x + ship.vx, WORLD_W);
        ship.y = wrap(ship.y + ship.vy, WORLD_H);
    }

    pub fn update_bullet(bullet: &mut BulletComponent)
        requires
            i128::MIN <= old(bullet).x + old(bullet).vx <= i128::MAX,
            i128::MIN <= old(bullet).y + old(bullet).vy <= i128::MAX,
        ensures
            final(bullet).x as int == wrapped(old(bullet).x + old(bullet).vx, WORLD_W as int),
            final(bullet).y as int == wrapped(old(bullet).y + old(bullet).vy, WORLD_H as int),
            final(bullet).vx == old(bullet).vx,
            final(bullet).vy == old(bullet).vy,
            final(bullet).lifetime == old(bullet).lifetime,
    {
        bullet.x = wrap(bullet.x + bullet.vx, WORLD_W);
        bullet.y = wrap(bullet.y + bullet.vy, WORLD_H);
    }

    pub fn update_asteroid(asteroid: &mut AsteroidComponent)
        requires
            i128::MIN <= old(asteroid).x + old(asteroid).vx <= i128::MAX,
            i128::MIN <= old(asteroid).y + old(asteroid).vy <= i128::MAX,
        ensures
            *final(asteroid) == moved_asteroid(*old(asteroid)),
    {
        asteroid.x = wrap(asteroid.x + asteroid.vx, WORLD_W);
        asteroid.y = wrap(asteroid.y + asteroid.vy, WORLD_H);
    }
}

/// Collision tests between round bodies.
#[derive(Debug)]
pub struct CollisionSystem;

impl CollisionSystem {
    pub fn check_bullet_asteroid(bullet: &BulletComponent, asteroid: &AsteroidComponent) -> (r: bool)
        requires
            0 <= bullet.x < WORLD_W, 0 <= bullet.y < WORLD_H,
            0 <= asteroid.x < WORLD_W, 0 <= asteroid.y < WORLD_H,
        ensures
            r == bullet_hits(*bullet, *asteroid),
    {
        let radius = ASTEROID_BASE_RADIUS * asteroid.size as i128;
        assert(0 <= radius * radius <= 28000 * 0x1_0000_0000 * 28000 * 0x1_0000_0000) by (nonlinear_arith)
            requires 0 <= radius <= 28000 * 0x1_0000_0000;
        dist2(bullet.x, bullet.y, asteroid.x, asteroid.y) <= radius * radius
    }

    pub fn check_ship_asteroid(ship: &ShipComponent, asteroid: &AsteroidComponent) -> (r: bool)
        requires
            0 <= ship.x < WORLD_W, 0 <= ship.y < WORLD_H,
            0 <= asteroid.x < WORLD_W, 0 <= asteroid.y < WORLD_H,
        ensures
            r == ship_hits(*ship, *asteroid),
    {
        let radius = ASTEROID_BASE_RADIUS * asteroid.size as i128 + SHIP_RADIUS;
        assert(0 <= radius * radius <= 0x1_0000_0000_0000_0000_0000_0000_0000) by (nonlinear_arith)
            requires 0 <= radius <= 200_000_000_000_000;
        dist2(ship.x, ship.y, asteroid.x, asteroid.y) <= radius * radius
    }
}

/// Bullets leave the ship along its heading.
#[derive(Debug)]
pub struct ShootingSystem;

impl ShootingSystem {
    pub fn spawn_bullet(ship: &ShipComponent) -> (b: BulletComponent)
        requires
            i128::MIN + 300 <= ship.vx <= i128::MAX - 300,
            i128::MIN + 300 <= ship.vy <= i128::MAX - 300,
        ensures
            b.x == ship.x, b.y == ship.y,
            b.vx == ship.vx + scaled(heading(ship.angle).0, BULLET_SPEED as int),
            b.vy == ship.vy + scaled(heading(ship.angle).1, BULLET_SPEED as int),
            b.lifetime == BULLET_TTL,
    {
        let (dx, dy) = heading_vector(ship.angle);
        BulletComponent {
            x: ship.x,
            y: ship.y,
            vx: ship.vx + scale_component(dx, BULLET_SPEED),
            vy: ship.vy + scale_component(dy, BULLET_SPEED),
            lifetime: BULLET_TTL,
        }
    }
}

/// Hit asteroids break into two smaller ones flying off at right angles.
#[derive(Debug)]
pub struct AsteroidSplitSystem;

impl AsteroidSplitSystem {
    pub fn split(asteroid: &AsteroidComponent) -> (r: Vec<AsteroidComponent>)
        requires
            asteroid.vx != i128::MIN, asteroid.vy != i128::MIN,
        ensures
            r@ == halves(*asteroid),
    {
        let mut result: Vec<AsteroidComponent> = Vec::new();
        if asteroid.size > 1 {
            let new_size = asteroid.size - 1;
            result.push(AsteroidComponent { x: asteroid.x, y: asteroid.y, vx: asteroid.vy, vy: -asteroid.vx, size: new_size });
            result.push(AsteroidComponent { x: asteroid.x, y: asteroid.y, vx: -asteroid.vy, vy: asteroid.vx, size: new_size });
            assert(result@ =~= halves(*asteroid));
        }
        result
    }
}

/// The contract's operations over its stored world.
#[derive(Debug)]
pub struct Contract;

impl Contract {
    /// Ship at the centre, two asteroids, three lives.
    pub fn init_game() -> (w: ECSWorldState)
        ensures
            w.ship == home_ship(),
            w.asteroids@ == seq![
                AsteroidComponent { x: 200000, y: 800000, vx: 40, vy: -30i128, size: 3 },
                AsteroidComponent { x: 800000, y: 200000, vx: -25i128, vy: 35, size: 2 },
            ],
            w.bullets@.len() == 0,
            w.score.points == 0, w.score.lives == 3,
            !w.game_over,
    {
        let mut asteroids: Vec<AsteroidComponent> = Vec::new();
        asteroids.push(AsteroidComponent { x: 200 * SCALE, y: 800 * SCALE, vx: 40, vy: -30, size: 3 });
        asteroids.push(AsteroidComponent { x: 800 * SCALE, y: 200 * SCALE, vx: -25, vy: 35, size: 2 });
        assert(asteroids@ =~= seq![
                AsteroidComponent { x: 200000, y: 800000, vx: 40, vy: -30i128, size: 3 },
                AsteroidComponent { x: 800000, y: 200000, vx: -25i128, vy: 35, size: 2 },
            ]);
        ECSWorldState {
            ship: ShipComponent { x: WORLD_W / 2, y: WORLD_H / 2, vx: 0, vy: 0, angle: 0 },
            asteroids,
            bullets: Vec::new(),
            score: ScoreComponent { points: 0, lives: 3 },
            game_over: false,
        }
    }

    /// Accelerates the ship along its heading; refused once the game is over.
    pub fn thrust_ship(world: &mut ECSWorldState) -> (r: Result<(), GameError>)
        requires
            i128::MIN + 120 <= old(world).ship.vx <= i128::MAX - 120,
            i128::MIN + 120 <= old(world).ship.vy <= i128::MAX - 120,
        ensures
            old(world).game_over ==> r == Err::<(), GameError>(GameError::GameOver) && *final(world) == *old(world),
            !old(world).game_over ==> r is Ok && final(world).ship == (ShipComponent {
                    vx: (old(world).ship.vx + scaled(heading(old(world).ship.angle).0, SHIP_THRUST as int)) as i128,
                    vy: (old(world).ship.vy + scaled(heading(old(world).ship.angle).1, SHIP_THRUST as int)) as i128,
                    ..old(world).ship
                }) && final(world).asteroids == old(world).asteroids && final(world).bullets == old(world).bullets
                && final(world).score == old(world).score && final(world).game_over == old(world).game_over,
    {
        if world.game_over {
            return Err(GameError::GameOver);
        }
        let (dx, dy) = heading_vector(world.ship.angle);
        world.ship.vx = world.ship.vx + scale_component(dx, SHIP_THRUST);
        world.ship.vy = world.ship.vy + scale_component(dy, SHIP_THRUST);
        Ok(())
    }

    /// Turns the ship by whole steps of 45 degrees.
    pub fn rotate_ship(world: &mut ECSWorldState, delta_steps: i32) -> (r: Result<(), GameError>)
        requires
            old(world).ship.angle < 8,
            old(world).ship.angle + delta_steps <= i32::MAX,
        ensures
            old(world).game_over ==> r == Err::<(), GameError>(GameError::GameOver) && *final(world) == *old(world),
            !old(world).game_over ==> r is Ok
                && final(world).ship == (ShipComponent { angle: ((old(world).ship.angle + delta_steps) % 8) as u32, ..old(world).ship })
                && final(world).asteroids == old(world).asteroids && final(world).bullets == old(world).bullets
                && final(world).score == old(world).score && final(world).game_over == old(world).game_over,
    {
        if world.game_over {
            return Err(GameError::GameOver);
        }
        let rot = world.ship.angle as i64;
        let shifted: i64 = rot + delta_steps as i64 + 0x4_0000_0000;
        proof {
            lemma_mod_multiples_vanish(0x8000_0000, rot + delta_steps, 8);
        }
        world.ship.angle = (shifted % 8) as u32;
        Ok(())
    }

    /// Fires a bullet; refused once the game is over or with 32 bullets out.
    pub fn shoot(world: &mut ECSWorldState) -> (r: Result<(), GameError>)
        requires
            i128::MIN + 300 <= old(world).ship.vx <= i128::MAX - 300,
            i128::MIN + 300 <= old(world).ship.vy <= i128::MAX - 300,
        ensures
            old(world).game_over ==> r == Err::<(), GameError>(GameError::GameOver) && *final(world) == *old(world),
            !old(world).game_over && old(world).bullets.len() >= MAX_BULLETS ==>
                r == Err::<(), GameError>(GameError::InvalidAction) && *final(world) == *old(world),
            !old(world).game_over && old(world).bullets.len() < MAX_BULLETS ==> r is Ok
                && final(world).ship == old(world).ship
                && final(world).asteroids == old(world).asteroids
                && final(world).score == old(world).score
                && final(world).game_over == old(world).game_over
                && final(world).bullets@ == old(world).bullets@.push((BulletComponent {
                    x: old(world).ship.x, y: old(world).ship.y,
                    vx: (old(world).ship.vx + scaled(heading(old(world).ship.angle).0, BULLET_SPEED as int)) as i128,
                    vy: (old(world).ship.vy + scaled(heading(old(world).ship.angle).1, BULLET_SPEED as int)) as i128,
                    lifetime: BULLET_TTL,
                })),
    {
        if world.game_over {
            return Err(GameError::GameOver);
        }
        if world.bullets.len() >= MAX_BULLETS as usize {
            return Err(GameError::InvalidAction);
        }
        let bullet = ShootingSystem::spawn_bullet(&world.ship);
        world.bullets.push(bullet);
        Ok(())
    }

    /// One step of the simulation: movement, bullet ageing, bullet hits with
    /// scoring and splitting, ship collision with loss of a life and reset,
    /// and the end of the game when lives or asteroids run out.
    pub fn update_tick(world: &mut ECSWorldState) -> (r: Result<(), GameError>)
        requires
            tick_fits(*old(world)),
        ensures
            old(world).game_over ==> r == Err::<(), GameError>(GameError::GameOver) && *final(world) == *old(world),
            !old(world).game_over ==> r is Ok && ({
                let t = ticked(*old(world));
                let asts = old(world).asteroids@.map_values(|a: AsteroidComponent| moved_asteroid(a));
                let bl = live_bullets(old(world).bullets@);
                let (hit, kept, n) = collide(bl, asts, bl.len() as int);
                let rem = split_all(asts, hit, asts.len() as int);
                let collided = exists|c: int| 0 <= c < rem.len() && ship_hits(moved_ship(old(world).ship), #[trigger] rem[c]);
                &&& final(world).ship == t.ship
                &&& final(world).score == t.score
                &&& final(world).game_over == t.game_over
                &&& final(world).asteroids@ == rem
                &&& final(world).bullets@ == (if collided { Seq::empty() } else { kept })
            }),
    {
        if world.game_over {
            return Err(GameError::GameOver);
        }
        let ghost w0 = *world;
        MovementSystem::update_ship(&mut world.ship);
        let bullets = Self::age_bullets(&world.bullets);
        let asteroids = Self::move_asteroids(&world.asteroids);
        let (asteroid_hit, remaining_bullets0, hits) = Self::resolve_hits(&bullets, &asteroids);
        proof {
            let asts = w0.asteroids@.map_values(|a: AsteroidComponent| moved_asteroid(a));
            assert(asteroids@ =~= asts);
            lemma_collide_shape(bullets@, asteroids@, bullets@.len() as int);
        }
        world.score.points = world.score.points + 10 * (hits as u32);
        let remaining_asteroids = Self::split_hit(&asteroids, &asteroid_hit);
        let mut remaining_bullets = remaining_bullets0;
        let collided = Self::ship_collides(&world.ship, &remaining_asteroids);
        if collided {
            if world.score.lives > 0 {
                world.score.lives -= 1;
            }
            world.ship = ShipComponent { x: WORLD_W / 2, y: WORLD_H / 2, vx: 0, vy: 0, angle: 0 };
            remaining_bullets = Vec::new();
            if world.score.lives == 0 {
                world.game_over = true;
            }
        }
        if remaining_asteroids.len() == 0 {
            world.game_over = true;
        }
        world.asteroids = remaining_asteroids;
        world.bullets = remaining_bullets;
        Ok(())
    }

    fn ship_collides(ship: &ShipComponent, asteroids: &Vec<AsteroidComponent>) -> (r: bool)
        requires
            0 <= ship.x < WORLD_W, 0 <= ship.y < WORLD_H,
            forall|i: int| 0 <= i < asteroids@.len() ==> 0 <= (#[trigger] asteroids@[i]).x < WORLD_W && 0 <= asteroids@[i].y < WORLD_H,
        ensures
            r == (exists|c: int| 0 <= c < asteroids@.len() && ship_hits(*ship, #[trigger] asteroids@[c])),
    {
        let mut c: usize = 0;
        while c < asteroids.len()
            invariant
                0 <= c <= asteroids.len(),
                0 <= ship.x < WORLD_W, 0 <= ship.y < WORLD_H,
                forall|i: int| 0 <= i < asteroids@.len() ==> 0 <= (#[trigger] asteroids@[i]).x < WORLD_W && 0 <= asteroids@[i].y < WORLD_H,
                forall|i: int| 0 <= i < c ==> !ship_hits(*ship, #[trigger] asteroids@[i]),
            decreases asteroids.len() - c,
        {
            if CollisionSystem::check_ship_asteroid(ship, &asteroids[c]) {
                return true;
            }
            c += 1;
        }
        false
    }

    fn age_bullets(bullets: &Vec<BulletComponent>) -> (r: Vec<BulletComponent>)
        requires
            forall|i: int| 0 <= i < bullets@.len() ==> i128::MIN <= (#[trigger] bullets@[i]).x + bullets@[i].vx <= i128::MAX
                && i128::MIN <= bullets@[i].y + bullets@[i].vy <= i128::MAX,
        ensures
            r@ == live_bullets(bullets@),
            forall|i: int| 0 <= i < r@.len() ==> 0 <= (#[trigger] r@[i]).x < WORLD_W && 0 <= r@[i].y < WORLD_H,
    {
        let mut out: Vec<BulletComponent> = Vec::new();
        let mut i: usize = 0;
        while i < bullets.len()
            invariant
                0 <= i <= bullets.len(),
                forall|k: int| 0 <= k < bullets@.len() ==> i128::MIN <= (#[trigger] bullets@[k]).x + bullets@[k].vx <= i128::MAX
                    && i128::MIN <= bullets@[k].y + bullets@[k].vy <= i128::MAX,
                out@ == live_bullets(bullets@.subrange(0, i as int)),
                forall|k: int| 0 <= k < out@.len() ==> 0 <= (#[trigger] out@[k]).x < WORLD_W && 0 <= out@[k].y < WORLD_H,
            decreases bullets.len() - i,
        {
            let mut bullet = bullets[i];
            assert(bullets@.subrange(0, i + 1).drop_last() =~= bullets@.subrange(0, i as int));
            bullet.lifetime = if bullet.lifetime > 0 { bullet.lifetime - 1 } else { 0 };
            if bullet.lifetime > 0 {
                MovementSystem::update_bullet(&mut bullet);
                out.push(bullet);
            }
            i += 1;
        }
        assert(bullets@.subrange(0, bullets@.len() as int) =~= bullets@);
        out
    }

    fn move_asteroids(asteroids: &Vec<AsteroidComponent>) -> (r: Vec<AsteroidComponent>)
        requires
            forall|i: int| 0 <= i < asteroids@.len() ==> i128::MIN <= (#[trigger] asteroids@[i]).x + asteroids@[i].vx <= i128::MAX
                && i128::MIN <= asteroids@[i].y + asteroids@[i].vy <= i128::MAX,
        ensures
            r@.len() == asteroids@.len(),
            forall|i: int| 0 <= i < r@.len() ==> #[trigger] r@[i] == moved_asteroid(asteroids@[i]),
            forall|i: int| 0 <= i < r@.len() ==> 0 <= (#[trigger] r@[i]).x < WORLD_W && 0 <= r@[i].y < WORLD_H,
    {
        let mut out: Vec<AsteroidComponent> = Vec::new();
        let mut j: usize = 0;
        while j < asteroids.len()
            invariant
                0 <= j <= asteroids.len(),
                forall|i: int| 0 <= i < asteroids@.len() ==> i128::MIN <= (#[trigger] asteroids@[i]).x + asteroids@[i].vx <= i128::MAX
                    && i128::MIN <= asteroids@[i].y + asteroids@[i].vy <= i128::MAX,
                out@.len() == j,
                forall|i: int| 0 <= i < j ==> #[trigger] out@[i] == moved_asteroid(asteroids@[i]),
                forall|i: int| 0 <= i < j ==> 0 <= (#[trigger] out@[i]).x < WORLD_W && 0 <= out@[i].y < WORLD_H,
            decreases asteroids.len() - j,
        {
            let mut asteroid = asteroids[j];
            MovementSystem::update_asteroid(&mut asteroid);
            out.push(asteroid);
            j += 1;
        }
        out
    }

    fn first_hit(bullet: &BulletComponent, asteroids: &Vec<AsteroidComponent>, hit: &Vec<bool>) -> (r: Option<usize>)
        requires
            hit@.len() == asteroids@.len(),
            0 <= bullet.x < WORLD_W, 0 <= bullet.y < WORLD_H,
            forall|i: int| 0 <= i < asteroids@.len() ==> 0 <= (#[trigger] asteroids@[i]).x < WORLD_W && 0 <= asteroids@[i].y < WORLD_H,
        ensures
            r matches Some(a) ==> first_target(*bullet, asteroids@, hit@, 0) == Some(a as int),
            r is None ==> first_target(*bullet, asteroids@, hit@, 0) is None,
    {
        let mut a: usize = 0;
        while a < asteroids.len()
            invariant
                0 <= a <= asteroids.len(),
                hit@.len() == asteroids@.len(),
                0 <= bullet.x < WORLD_W, 0 <= bullet.y < WORLD_H,
                forall|i: int| 0 <= i < asteroids@.len() ==> 0 <= (#[trigger] asteroids@[i]).x < WORLD_W && 0 <= asteroids@[i].y < WORLD_H,
                first_target(*bullet, asteroids@, hit@, 0) == first_target(*bullet, asteroids@, hit@, a as int),
            decreases asteroids.len() - a,
        {
            if !hit[a] {
                if CollisionSystem::check_bullet_asteroid(bullet, &asteroids[a]) {
                    return Some(a);
                }
            }
            a += 1;
        }
        None
    }

    fn resolve_hits(bullets: &Vec<BulletComponent>, asteroids: &Vec<AsteroidComponent>) -> (r: (Vec<bool>, Vec<BulletComponent>, usize))
        requires
            forall|i: int| 0 <= i < bullets@.len() ==> 0 <= (#[trigger] bullets@[i]).x < WORLD_W && 0 <= bullets@[i].y < WORLD_H,
            forall|i: int| 0 <= i < asteroids@.len() ==> 0 <= (#[trigger] asteroids@[i]).x < WORLD_W && 0 <= asteroids@[i].y < WORLD_H,
        ensures
            ({
                let (h, kept, n) = collide(bullets@, asteroids@, bullets@.len() as int);
                r.0@ == h && r.1@ == kept && r.2 as int == n
            }),
            r.2 <= bullets@.len(),
            r.0@.len() == asteroids@.len(),
    {
        let mut hit: Vec<bool> = Vec::new();
        let mut k: usize = 0;
        while k < asteroids.len()
            invariant
                0 <= k <= asteroids.len(),
                hit@ == Seq::new(k as nat, |i: int| false),
            decreases asteroids.len() - k,
        {
            hit.push(false);
            k += 1;
            assert(hit@ =~= Seq::new(k as nat, |i: int| false));
        }
        let mut kept: Vec<BulletComponent> = Vec::new();
        let mut hits: usize = 0;
        let mut b: usize = 0;
        while b < bullets.len()
            invariant
                0 <= b <= bullets.len(),
                hit@.len() == asteroids@.len(),
                forall|i: int| 0 <= i < bullets@.len() ==> 0 <= (#[trigger] bullets@[i]).x < WORLD_W && 0 <= bullets@[i].y < WORLD_H,
                forall|i: int| 0 <= i < asteroids@.len() ==> 0 <= (#[trigger] asteroids@[i]).x < WORLD_W && 0 <= asteroids@[i].y < WORLD_H,
                ({
                    let (h, kp, n) = collide(bullets@, asteroids@, b as int);
                    hit@ == h && kept@ == kp && hits as int == n
                }),
                hits <= b,
            decreases bullets.len() - b,
        {
            let bullet = bullets[b];
            let ghost prev = collide(bullets@, asteroids@, b as int);
            proof {
                lemma_first_target_in_range(bullet, asteroids@, hit@, 0);
                assert(collide(bullets@, asteroids@, b as int + 1) == (match first_target(bullet, asteroids@, prev.0, 0) {
                    Some(j) => (prev.0.update(j, true), prev.1, prev.2 + 1),
                    None => (prev.0, prev.1.push(bullet), prev.2),
                }));
            }
            match Self::first_hit(&bullet, asteroids, &hit) {
                Some(a) => {
                    assert(first_target(bullet, asteroids@, prev.0, 0) == Some(a as int));
                    hit.set(a, true);
                    hits += 1;
                    assert(hit@ =~= collide(bullets@, asteroids@, b as int + 1).0);
                    assert(kept@ == collide(bullets@, asteroids@, b as int + 1).1);
                    assert(hits as int == collide(bullets@, asteroids@, b as int + 1).2);
                },
                None => {
                    kept.push(bullet);
                    assert(hit@ == collide(bullets@, asteroids@, b as int + 1).0);
                    assert(kept@ == collide(bullets@, asteroids@, b as int + 1).1);
                    assert(hits as int == collide(bullets@, asteroids@, b as int + 1).2);
                },
            }
            b += 1;
        }
        (hit, kept, hits)
    }

    fn split_hit(asteroids: &Vec<AsteroidComponent>, hit: &Vec<bool>) -> (r: Vec<AsteroidComponent>)
        requires
            hit@.len() == asteroids@.len(),
            forall|j: int| 0 <= j < asteroids@.len() && #[trigger] hit@[j] ==> asteroids@[j].vx != i128::MIN && asteroids@[j].vy != i128::MIN,
            forall|i: int| 0 <= i < asteroids@.len() ==> 0 <= (#[trigger] asteroids@[i]).x < WORLD_W && 0 <= asteroids@[i].y < WORLD_H,
        ensures
            r@ == split_all(asteroids@, hit@, asteroids@.len() as int),
            forall|i: int| 0 <= i < r@.len() ==> 0 <= (#[trigger] r@[i]).x < WORLD_W && 0 <= r@[i].y < WORLD_H,
    {
        let mut out: Vec<AsteroidComponent> = Vec::new();
        let mut a: usize = 0;
        while a < asteroids.len()
            invariant
                0 <= a <= asteroids.len(),
                hit@.len() == asteroids@.len(),
                forall|j: int| 0 <= j < asteroids@.len() && #[trigger] hit@[j] ==> asteroids@[j].vx != i128::MIN && asteroids@[j].vy != i128::MIN,
                forall|i: int| 0 <= i < asteroids@.len() ==> 0 <= (#[trigger] asteroids@[i]).x < WORLD_W && 0 <= asteroids@[i].y < WORLD_H,
                out@ == split_all(asteroids@, hit@, a as int),
                forall|i: int| 0 <= i < out@.len() ==> 0 <= (#[trigger] out@[i]).x < WORLD_W && 0 <= out@[i].y < WORLD_H,
            decreases asteroids.len() - a,
        {
            let asteroid = asteroids[a];
            if hit[a] {
                let splits = AsteroidSplitSystem::split(&asteroid);
                if out.len() <= MAX_ASTEROIDS as usize - splits.len() {
                    let mut s: usize = 0;
                    let ghost before = out@;
                    while s < splits.len()
                        invariant
                            0 <= s <= splits.len(),
                            splits@ == halves(asteroid),
                            out@ == before + splits@.subrange(0, s as int),
                            0 <= asteroid.x < WORLD_W, 0 <= asteroid.y < WORLD_H,
                            forall|i: int| 0 <= i < out@.len() ==> 0 <= (#[trigger] out@[i]).x < WORLD_W && 0 <= out@[i].y < WORLD_H,
                        decreases splits.len() - s,
                    {
                        out.push(splits[s]);
                        s += 1;
                        assert(out@ =~= before + splits@.subrange(0, s as int));
                    }
                    assert(splits@.subrange(0, splits@.len() as int) =~= splits@);
                }
            } else {
                out.push(asteroid);
            }
            a += 1;
        }
        out
    }

    /// Points scored.
    pub fn get_score(world: &ECSWorldState) -> (r: u32)
        ensures
            r == world.score.points,
    {
        world.score.points
    }

    /// The game has ended.
    pub fn check_game_over(world: &ECSWorldState) -> (r: bool)
        ensures
            r == world.game_over,
    {
        world.game_over
    }

    /// The public view.
    pub fn get_game_state(world: &ECSWorldState) -> (g: GameState)
        requires
            world.asteroids.len() <= u32::MAX,
            world.bullets.len() <= u32::MAX,
        ensures
            g == (GameState {
                ship_x: world.ship.x, ship_y: world.ship.y, ship_vx: world.ship.vx, ship_vy: world.ship.vy,
                ship_angle: world.ship.angle,
                asteroid_count: world.asteroids@.len() as u32, bullet_count: world.bullets@.len() as u32,
                score: world.score.points, lives: world.score.lives, game_over: world.game_over,
            }),
    {
        GameState {
            ship_x: world.ship.x,
            ship_y: world.ship.y,
            ship_vx: world.ship.vx,
            ship_vy: world.ship.vy,
            ship_angle: world.ship.angle,
            asteroid_count: world.asteroids.len() as u32,
            bullet_count: world.bullets.len() as u32,
            score: world.score.points,
            lives: world.score.lives,
            game_over: world.game_over,
        }
    }
}

} // verus!
