//! The player: movement from the keyboard, and facing the cursor.

use vstd::prelude::*;
use avian2d::prelude::CollisionLayers;
use crate::body::{BodyKind, BodySetup, ColliderShape};
use vstd::arithmetic::div_mod::{lemma_div_is_ordered, lemma_div_multiples_vanish_fancy};
use crate::fixed::{
    fx_mul, fx_mul_div, fx_sub, lemma_isqrt_of_square, spec_fx_mul, spec_fx_mul_div, spec_fx_sub,
    trunc_div, SCALE,
};
use crate::gun::{
    ActivationKeyCode, ProjectileFriction, ProjectileSpeed, ProjectileType, ShootCooldown,
    ShootProjectiles,
};
use crate::input::{ButtonInput, ButtonInputView, KeyCode};
use crate::layers::{filters_of, mask_of, memberships_of, CollisionGroup};
use crate::vec2::Vec2;
use crate::world::{Terrain, TerrainKind, World, WorldView};

verus! {

/// The player's avatar. `facing` is the unit vector along which the avatar
/// looks.
#[derive(Clone, Copy, PartialEq, Eq, Structural, Debug)]
pub struct Player {
    pub position: Vec2,
    pub velocity: Vec2,
    pub facing: Vec2,
}

impl Player {
    /// Where a weapon that sits at `offset`, seen from the player, is in the
    /// world.
    pub open spec fn spec_muzzle(self, offset: Vec2) -> Vec2 {
        self.position.spec_plus(offset.spec_rotated_to(self.facing))
    }

    #[verifier::when_used_as_spec(spec_muzzle)]
    pub fn muzzle(self, offset: Vec2) -> (r: Vec2)
        ensures
            r == self.spec_muzzle(offset),
    {
        self.position.plus(offset.rotated_to(self.facing))
    }
}

/// The speed that the player strives for, in fixed-point units per second.
pub const SPEED: i64 = 320_000_000;

/// Below this speed friction brakes as if the player moved at it, in
/// fixed-point units per second.
pub const FRICTION_FLOOR: i64 = 100_000_000;

/// The radius of the player's round collider, in fixed-point units.
pub const PLAYER_RADIUS: i64 = 32_000_000;

/// The speed at which the avatar's tilt is full, in units per second.
pub const TILT_SPEED: i64 = 500;

/// One axis of the keyboard's direction: a whole unit forward, backward,
/// or nothing where both keys or neither are down.
pub open spec fn spec_axis(forward: bool, backward: bool) -> i64 {
    if forward && !backward {
        SCALE
    } else if backward && !forward {
        (-SCALE) as i64
    } else {
        0
    }
}

/// The direction that the keys ask for, of unit length or zero.
pub open spec fn spec_wish_dir(keys: ButtonInputView) -> Vec2 {
    Vec2 {
        x: spec_axis(keys.pressed.contains(KeyCode::KeyD), keys.pressed.contains(KeyCode::KeyA)),
        y: spec_axis(keys.pressed.contains(KeyCode::KeyW), keys.pressed.contains(KeyCode::KeyS)),
    }.spec_normalize_or_zero()
}

/// The speed that the player strives for along `wish_dir`.
pub open spec fn spec_wish_speed(wish_dir: Vec2) -> i64 {
    wish_dir.spec_scaled(SPEED).spec_length()
}

/// The velocity after the push of a tick of length `dt` along `wish_dir`:
/// of what the speed along `wish_dir` lacks to the wished speed, at most ten
/// times `dt` times the wished speed is added.
pub open spec fn spec_accelerated(velocity: Vec2, wish_dir: Vec2, dt: u32) -> Vec2 {
    let wish_speed = spec_wish_speed(wish_dir);
    let add_speed = spec_fx_sub(wish_speed, velocity.spec_dot(wish_dir));
    if add_speed == 0 {
        velocity
    } else {
        let most = spec_fx_mul((10 * dt) as i64, wish_speed);
        let accel_speed = if most > add_speed {
            add_speed
        } else {
            most
        };
        velocity.spec_plus(wish_dir.spec_scaled(accel_speed))
    }
}

/// The velocity after the friction of a tick of length `dt`: the speed
/// loses four times `dt` times itself, or times [`FRICTION_FLOOR`] where it
/// is below that, and never turns negative; the direction stays.
pub open spec fn spec_slowed(velocity: Vec2, dt: u32) -> Vec2 {
    let speed = velocity.spec_length();
    let control = if speed < FRICTION_FLOOR {
        FRICTION_FLOOR
    } else {
        speed
    };
    let left = spec_fx_sub(speed, spec_fx_mul((4 * dt) as i64, control));
    let new_speed = if left < 0 {
        0
    } else {
        left
    };
    Vec2 {
        x: spec_fx_mul_div(velocity.x, new_speed, speed),
        y: spec_fx_mul_div(velocity.y, new_speed, speed),
    }
}

/// The velocity after a tick of length `dt` with `keys` down.
pub open spec fn spec_moved(velocity: Vec2, keys: ButtonInputView, dt: u32) -> Vec2 {
    spec_slowed(spec_accelerated(velocity, spec_wish_dir(keys), dt), dt)
}

/// The world after the player's movement in a tick of length `dt`.
pub open spec fn spec_player_movement(world: WorldView, keys: ButtonInputView, dt: u32) -> WorldView {
    WorldView {
        player: Player { velocity: spec_moved(world.player.velocity, keys, dt), ..world.player },
        ..world
    }
}

/// The unit vector from `position` toward `cursor`; toward +x where the two
/// coincide.
pub open spec fn spec_facing(position: Vec2, cursor: Vec2) -> Vec2 {
    let direction = cursor.spec_minus(position).spec_normalize_or_zero();
    if direction == Vec2::spec_zero() {
        Vec2 { x: SCALE, y: 0 }
    } else {
        direction
    }
}

/// The world after the player has turned to the cursor. Without a cursor
/// the player keeps looking where it looked.
pub open spec fn spec_watch_mouse(world: WorldView, cursor: Option<Vec2>) -> WorldView {
    match cursor {
        None => world,
        Some(cursor) => WorldView {
            player: Player {
                facing: spec_facing(world.player.position, cursor),
                ..world.player
            },
            ..world
        },
    }
}

/// One component of the tilt: the velocity over [`TILT_SPEED`], held
/// between nothing and a whole unit.
pub open spec fn spec_tilt(velocity: i64) -> i64 {
    let tilt = trunc_div(velocity as int, TILT_SPEED as int);
    if tilt < 0 {
        0
    } else if tilt > SCALE {
        SCALE
    } else {
        tilt as i64
    }
}

/// The tilt that shows how fast the avatar moves, one component per axis.
pub open spec fn spec_squish(velocity: Vec2) -> Vec2 {
    Vec2 { x: spec_tilt(velocity.x), y: spec_tilt(velocity.y) }
}

/// The weapon in slot 0: a gun that fires bullets.
pub open spec fn spec_gun() -> ShootProjectiles {
    ShootProjectiles {
        cooldown: ShootCooldown::spec_new(100_000),
        friction: ProjectileFriction(0),
        speed: ProjectileSpeed(1_000_000_000),
        key: ActivationKeyCode(KeyCode::Space),
        projectile: ProjectileType::Bullet,
        equipped: true,
        offset: Vec2 { x: 0, y: 32_000_000 },
    }
}

/// The weapon in slot 1: a gun that fires weak bullets, fast and often.
pub open spec fn spec_weak_gun() -> ShootProjectiles {
    ShootProjectiles {
        cooldown: ShootCooldown::spec_new(50_000),
        friction: ProjectileFriction(0),
        speed: ProjectileSpeed(2_000_000_000),
        key: ActivationKeyCode(KeyCode::KeyC),
        projectile: ProjectileType::WeakBullet,
        equipped: true,
        offset: Vec2 { x: 0, y: 32_000_000 },
    }
}

/// The weapon in slot 2: it launches the magnet, and never has to wait.
pub open spec fn spec_magnet_launcher() -> ShootProjectiles {
    ShootProjectiles {
        cooldown: ShootCooldown::spec_new(0),
        friction: ProjectileFriction(50_000),
        speed: ProjectileSpeed(500_000_000),
        key: ActivationKeyCode(KeyCode::ShiftLeft),
        projectile: ProjectileType::Magnet,
        equipped: true,
        offset: Vec2 { x: 0, y: 32_000_000 },
    }
}

/// The world at the start: the player at rest at the origin, looking along
/// +y; the three weapons; a strip that lets magnets through above the
/// player and a wall below; no projectile.
pub open spec fn spec_setup() -> WorldView {
    WorldView {
        player: Player {
            position: Vec2 { x: 0, y: 0 },
            velocity: Vec2 { x: 0, y: 0 },
            facing: Vec2 { x: 0, y: SCALE },
        },
        camera: Vec2 { x: 0, y: 0 },
        weapons: seq![spec_gun(), spec_weak_gun(), spec_magnet_launcher()],
        bullets: Seq::empty(),
        magnet: None,
        terrain: seq![
            Terrain {
                kind: TerrainKind::MagnetPassthrough,
                position: Vec2 { x: 0, y: 128_000_000 },
                size: Vec2 { x: 128_000_000, y: 16_000_000 },
            },
            Terrain {
                kind: TerrainKind::Wall,
                position: Vec2 { x: 0, y: (-128_000_000i64) as i64 },
                size: Vec2 { x: 128_000_000, y: 16_000_000 },
            },
        ],
        next_id: 0,
    }
}

impl Player {
    /// How the player is set up in the physics engine: a dynamic disc that
    /// does not turn.
    pub fn body_setup(&self) -> (r: BodySetup)
        ensures
            r.kind == BodyKind::Dynamic,
            r.collider == (ColliderShape::Circle { radius: PLAYER_RADIUS }),
            r.rotation_locked,
            r.gravity_scale is None,
            !r.reports_contacts,
    {
        BodySetup {
            kind: BodyKind::Dynamic,
            collider: ColliderShape::Circle { radius: PLAYER_RADIUS },
            rotation_locked: true,
            gravity_scale: None,
            reports_contacts: false,
        }
    }

    /// The layers that the physics engine is to give the player.
    pub fn collision_layers(&self) -> (r: CollisionLayers)
        ensures
            memberships_of(r) == mask_of(CollisionGroup::player_memberships()),
            filters_of(r) == mask_of(CollisionGroup::player_filters()),
    {
        CollisionGroup::player()
    }
}

/// One axis of the keyboard's direction.
fn axis(forward: bool, backward: bool) -> (r: i64)
    ensures
        r == spec_axis(forward, backward),
{
    if forward && !backward {
        SCALE
    } else if backward && !forward {
        -SCALE
    } else {
        0
    }
}

/// The direction that the keys ask for: W and S along y, D and A along x,
/// brought to unit length.
pub fn wish_dir(keys: &ButtonInput) -> (r: Vec2)
    ensures
        r == spec_wish_dir(keys@),
{
    let x: i64 = axis(keys.pressed(KeyCode::KeyD), keys.pressed(KeyCode::KeyA));
    let y: i64 = axis(keys.pressed(KeyCode::KeyW), keys.pressed(KeyCode::KeyS));
    Vec2 { x, y }.normalize_or_zero()
}

/// The push of a tick of length `dt` along `wish_dir`.
pub fn accelerated(velocity: Vec2, wish_dir: Vec2, dt: u32) -> (r: Vec2)
    ensures
        r == spec_accelerated(velocity, wish_dir, dt),
{
    let wish_speed: i64 = wish_dir.scaled(SPEED).length();
    let add_speed: i64 = fx_sub(wish_speed, velocity.dot(wish_dir));
    if add_speed == 0 {
        return velocity;
    }
    let mut accel_speed: i64 = fx_mul(10 * (dt as i64), wish_speed);
    if accel_speed > add_speed {
        accel_speed = add_speed;
    }
    velocity.plus(wish_dir.scaled(accel_speed))
}

/// The friction of a tick of length `dt`.
pub fn slowed(velocity: Vec2, dt: u32) -> (r: Vec2)
    ensures
        r == spec_slowed(velocity, dt),
{
    let speed: i64 = velocity.length();
    let control: i64 = if speed < FRICTION_FLOOR {
        FRICTION_FLOOR
    } else {
        speed
    };
    let mut new_speed: i64 = fx_sub(speed, fx_mul(4 * (dt as i64), control));
    if new_speed < 0 {
        new_speed = 0;
    }
    Vec2 {
        x: fx_mul_div(velocity.x, new_speed, speed),
        y: fx_mul_div(velocity.y, new_speed, speed),
    }
}

/// The player's movement in a tick of length `dt`: the keys push the
/// player, then friction brakes it.
pub fn player_movement(world: &mut World, keys: &ButtonInput, dt: u32)
    ensures
        final(world)@ == spec_player_movement(old(world)@, keys@, dt),
        old(world)@.wf() ==> final(world)@.wf(),
{
    let direction = wish_dir(keys);
    world.player.velocity = slowed(accelerated(world.player.velocity, direction, dt), dt);
}

/// Turns the player to the cursor, if there is one.
pub fn watch_mouse(world: &mut World, cursor: Option<Vec2>)
    ensures
        final(world)@ == spec_watch_mouse(old(world)@, cursor),
        old(world)@.wf() ==> final(world)@.wf(),
{
    match cursor {
        None => {},
        Some(cursor) => {
            let direction = cursor.minus(world.player.position).normalize_or_zero();
            if direction.x == 0 && direction.y == 0 {
                world.player.facing = Vec2 { x: SCALE, y: 0 };
            } else {
                world.player.facing = direction;
            }
        },
    }
}

/// Puts the camera where the player is.
pub fn camera_follow(world: &mut World)
    ensures
        final(world)@ == (WorldView { camera: old(world)@.player.position, ..old(world)@ }),
        old(world)@.wf() ==> final(world)@.wf(),
{
    world.camera = world.player.position;
}

/// One component of the tilt.
fn tilt(velocity: i64) -> (r: i64)
    ensures
        r == spec_tilt(velocity),
{
    let tilt: i64 = if velocity == i64::MIN {
        0
    } else {
        velocity / TILT_SPEED
    };
    if tilt < 0 {
        0
    } else if tilt > SCALE {
        SCALE
    } else {
        tilt
    }
}

/// The tilt that shows how fast the avatar moves.
pub fn squish(velocity: Vec2) -> (r: Vec2)
    ensures
        r == spec_squish(velocity),
{
    Vec2 { x: tilt(velocity.x), y: tilt(velocity.y) }
}

/// The world at the start.
pub fn setup() -> (world: World)
    ensures
        world@ == spec_setup(),
        world@.wf(),
{
    let offset = Vec2 { x: 0, y: 32_000_000 };
    let mut weapons: Vec<ShootProjectiles> = Vec::new();
    weapons.push(
        ShootProjectiles {
            cooldown: ShootCooldown::new(100_000),
            friction: ProjectileFriction(0),
            speed: ProjectileSpeed(1_000_000_000),
            key: ActivationKeyCode(KeyCode::Space),
            projectile: ProjectileType::Bullet,
            equipped: true,
            offset,
        },
    );
    weapons.push(
        ShootProjectiles {
            cooldown: ShootCooldown::new(50_000),
            friction: ProjectileFriction(0),
            speed: ProjectileSpeed(2_000_000_000),
            key: ActivationKeyCode(KeyCode::KeyC),
            projectile: ProjectileType::WeakBullet,
            equipped: true,
            offset,
        },
    );
    weapons.push(
        ShootProjectiles {
            cooldown: ShootCooldown::new(0),
            friction: ProjectileFriction(50_000),
            speed: ProjectileSpeed(500_000_000),
            key: ActivationKeyCode(KeyCode::ShiftLeft),
            projectile: ProjectileType::Magnet,
            equipped: true,
            offset,
        },
    );
    let size = Vec2 { x: 128_000_000, y: 16_000_000 };
    let mut terrain: Vec<Terrain> = Vec::new();
    terrain.push(
        Terrain {
            kind: TerrainKind::MagnetPassthrough,
            position: Vec2 { x: 0, y: 128_000_000 },
            size,
        },
    );
    terrain.push(Terrain { kind: TerrainKind::Wall, position: Vec2 { x: 0, y: -128_000_000 }, size });
    let world = World {
        player: Player {
            position: Vec2 { x: 0, y: 0 },
            velocity: Vec2 { x: 0, y: 0 },
            facing: Vec2 { x: 0, y: SCALE },
        },
        camera: Vec2 { x: 0, y: 0 },
        weapons,
        bullets: Vec::new(),
        magnet: None,
        terrain,
        next_id: 0,
    };
    assert(world@.weapons =~= spec_setup().weapons);
    assert(world@.terrain =~= spec_setup().terrain);
    assert(world@.bullets =~= spec_setup().bullets);
    world
}

/// The velocity after `ticks` ticks of length `dt` each, with `keys` down
/// throughout.
pub open spec fn spec_run(velocity: Vec2, keys: ButtonInputView, dt: u32, ticks: nat) -> Vec2
    decreases ticks,
{
    if ticks == 0 {
        velocity
    } else {
        spec_moved(spec_run(velocity, keys, dt, (ticks - 1) as nat), keys, dt)
    }
}

/// The speed along +x after one tick of length `dt` that began at the
/// speed `speed` along +x, with the keys asking for +x.
spec fn speed_after(speed: int, dt: u32) -> int {
    let pushed = if speed + 3200 * dt < SPEED {
        speed + 3200 * dt
    } else {
        SPEED as int
    };
    let control = if pushed < FRICTION_FLOOR {
        FRICTION_FLOOR as int
    } else {
        pushed
    };
    let left = pushed - (4 * dt * control) / (SCALE as int);
    if left < 0 {
        0
    } else {
        left
    }
}

proof fn lemma_fx_mul_unit(a: i64)
    ensures
        spec_fx_mul(a, SCALE) == a,
        spec_fx_mul(SCALE, a) == a,
        spec_fx_mul(0, a) == 0,
        spec_fx_mul(a, 0) == 0,
{
    assert(a * SCALE == SCALE * a) by (nonlinear_arith);
    assert(0 * a == 0 && a * 0 == 0) by (nonlinear_arith);
    if a >= 0 {
        assert((a * 1_000_000) / 1_000_000 == a);
    } else {
        assert((-(a * 1_000_000)) / 1_000_000 == -a);
    }
}

proof fn lemma_length_on_axis(x: i64)
    requires
        x >= 0,
    ensures
        (Vec2 { x, y: 0 }).spec_length() == x,
{
    lemma_isqrt_of_square(x as int);
    assert(0 * 0 == 0) by (nonlinear_arith);
}

proof fn lemma_braking_bounds(dt: u32, control: int)
    requires
        0 <= control <= SPEED,
    ensures
        0 <= 4 * dt * control <= 5_497_558_137_600_000_000,
        0 <= (4 * dt * control) / (SCALE as int) <= 5_497_558_137_600,
{
    assert(0 <= 4 * dt * control <= 5_497_558_137_600_000_000) by (nonlinear_arith)
        requires
            0 <= dt <= 0xffff_ffff,
            0 <= control <= 320_000_000,
    ;
    lemma_div_is_ordered(0, 4 * dt * control, SCALE as int);
    lemma_div_is_ordered(4 * dt * control, 5_497_558_137_600_000_000int, SCALE as int);
}

/// The most that a tick of length `dt` adds to the speed toward [`SPEED`]:
/// ten times `dt` times [`SPEED`].
proof fn lemma_push_cap(dt: u32)
    ensures
        spec_fx_mul((10 * dt) as i64, SPEED) == 3200 * dt,
{
    assert(10 * dt * 320_000_000 == (3200 * dt) * 1_000_000) by (nonlinear_arith);
    assert(((10 * dt) as i64) * SPEED == (3200 * dt) * 1_000_000) by (nonlinear_arith)
        requires
            ((10 * dt) as i64) == 10 * dt,
            SPEED == 320_000_000,
    ;
    assert(((3200 * dt) * 1_000_000) / 1_000_000 == 3200 * dt);
}

proof fn lemma_accelerate_right(speed: i64, dt: u32)
    requires
        0 <= speed <= SPEED,
    ensures
        spec_accelerated(Vec2 { x: speed, y: 0 }, Vec2 { x: SCALE, y: 0 }, dt) == (Vec2 {
            x: (if speed + 3200 * dt < SPEED {
                speed + 3200 * dt
            } else {
                SPEED as int
            }) as i64,
            y: 0,
        }),
{
    let velocity = Vec2 { x: speed, y: 0 };
    let wish_dir = Vec2 { x: SCALE, y: 0 };
    lemma_fx_mul_unit(SPEED);
    lemma_length_on_axis(SPEED);
    assert(spec_wish_speed(wish_dir) == SPEED);
    lemma_fx_mul_unit(speed);
    lemma_fx_mul_unit(0);
    assert(velocity.spec_dot(wish_dir) == speed);
    let add_speed = spec_fx_sub(SPEED, speed);
    assert(add_speed == SPEED - speed);
    let most = spec_fx_mul((10 * dt) as i64, SPEED);
    lemma_push_cap(dt);
    if add_speed != 0 {
        let accel_speed = if most > add_speed {
            add_speed
        } else {
            most
        };
        lemma_fx_mul_unit(accel_speed);
    }
}

proof fn lemma_slow_on_axis(pushed: i64, dt: u32)
    requires
        0 <= pushed <= SPEED,
    ensures
        spec_slowed(Vec2 { x: pushed, y: 0 }, dt) == (Vec2 {
            x: ({
                let control = if pushed < FRICTION_FLOOR {
                    FRICTION_FLOOR as int
                } else {
                    pushed as int
                };
                let left = pushed - (4 * dt * control) / (SCALE as int);
                if left < 0 {
                    0
                } else {
                    left
                }
            }) as i64,
            y: 0,
        }),
{
    let velocity = Vec2 { x: pushed, y: 0 };
    lemma_length_on_axis(pushed);
    let speed = velocity.spec_length();
    assert(speed == pushed);
    let control: i64 = if speed < FRICTION_FLOOR {
        FRICTION_FLOOR
    } else {
        speed
    };
    lemma_braking_bounds(dt, control as int);
    assert(((4 * dt) as i64) * control == 4 * dt * control) by (nonlinear_arith)
        requires
            ((4 * dt) as i64) == 4 * dt,
    ;
    let drop = spec_fx_mul((4 * dt) as i64, control);
    assert(drop == (4 * dt * control) / (SCALE as int));
    let left = spec_fx_sub(speed, drop);
    assert(left == speed - drop);
    let new_speed: i64 = if left < 0 {
        0
    } else {
        left
    };
    assert(0 <= new_speed <= pushed);
    if pushed > 0 {
        assert((pushed * new_speed) / (pushed as int) == new_speed) by (nonlinear_arith)
            requires
                pushed > 0,
                new_speed >= 0,
        ;
        assert(pushed * new_speed >= 0) by (nonlinear_arith)
            requires
                pushed > 0,
                new_speed >= 0,
        ;
        assert(0 * new_speed == 0) by (nonlinear_arith);
        assert(0int / (pushed as int) == 0) by (nonlinear_arith)
            requires
                pushed > 0,
        ;
    }
}

proof fn lemma_tick_right(speed: i64, keys: ButtonInputView, dt: u32)
    requires
        0 <= speed <= SPEED,
        spec_wish_dir(keys) == (Vec2 { x: SCALE, y: 0 }),
    ensures
        spec_moved(Vec2 { x: speed, y: 0 }, keys, dt) == (Vec2 {
            x: speed_after(speed as int, dt) as i64,
            y: 0,
        }),
        0 <= speed_after(speed as int, dt) <= SPEED,
        speed_after(speed as int, dt) <= speed + 3200 * dt,
{
    lemma_accelerate_right(speed, dt);
    let pushed: i64 = (if speed + 3200 * dt < SPEED {
        speed + 3200 * dt
    } else {
        SPEED as int
    }) as i64;
    lemma_slow_on_axis(pushed, dt);
    let control: int = if pushed < FRICTION_FLOOR {
        FRICTION_FLOOR as int
    } else {
        pushed as int
    };
    lemma_braking_bounds(dt, control);
}

proof fn lemma_braking_is_gentle(dt: u32, low: int, high: int)
    requires
        0 <= low <= high,
        4 * dt <= SCALE,
    ensures
        (4 * dt * high) / (SCALE as int) - (4 * dt * low) / (SCALE as int) <= high - low,
{
    let k: int = 4 * dt;
    let s: int = SCALE as int;
    assert(k * high <= k * low + s * (high - low)) by (nonlinear_arith)
        requires
            0 <= k <= s,
            0 <= low <= high,
    ;
    lemma_div_is_ordered(k * high, k * low + s * (high - low), s);
    let q = (k * low) / s;
    let r = (k * low) % s;
    assert(k * low == s * q + r && 0 <= r < s) by (nonlinear_arith)
        requires
            q == (k * low) / s,
            r == (k * low) % s,
            s > 0,
    ;
    assert(k * low + s * (high - low) == s * (q + (high - low)) + r) by (nonlinear_arith)
        requires
            k * low == s * q + r,
    ;
    lemma_div_multiples_vanish_fancy(q + (high - low), r, s);
}

proof fn lemma_braking_is_total(dt: u32, control: int)
    requires
        0 <= control,
        4 * dt >= SCALE,
    ensures
        (4 * dt * control) / (SCALE as int) >= control,
{
    let k: int = 4 * dt;
    let s: int = SCALE as int;
    assert(k * control >= s * control) by (nonlinear_arith)
        requires
            k >= s,
            control >= 0,
    ;
    lemma_div_is_ordered(s * control, k * control, s);
    lemma_div_multiples_vanish_fancy(control, 0, s);
}

proof fn lemma_speed_after_monotone(low: int, high: int, dt: u32)
    requires
        0 <= low <= high <= SPEED,
    ensures
        speed_after(low, dt) <= speed_after(high, dt),
{
    let pushed_low = if low + 3200 * dt < SPEED {
        low + 3200 * dt
    } else {
        SPEED as int
    };
    let pushed_high = if high + 3200 * dt < SPEED {
        high + 3200 * dt
    } else {
        SPEED as int
    };
    let control_low = if pushed_low < FRICTION_FLOOR {
        FRICTION_FLOOR as int
    } else {
        pushed_low
    };
    let control_high = if pushed_high < FRICTION_FLOOR {
        FRICTION_FLOOR as int
    } else {
        pushed_high
    };
    assert(4 * dt * control_low == (4 * dt) * control_low) by (nonlinear_arith);
    assert(4 * dt * control_high == (4 * dt) * control_high) by (nonlinear_arith);
    if 4 * dt <= SCALE {
        lemma_braking_is_gentle(dt, control_low, control_high);
    } else {
        lemma_braking_is_total(dt, control_low);
        lemma_braking_is_total(dt, control_high);
    }
}

/// One tick with +x asked for, from any speed along +x between nothing and
/// [`SPEED`]: the player still moves along +x only, at a speed between
/// nothing and [`SPEED`], and has gained no more than ten times the tick's
/// length times [`SPEED`].
pub proof fn lemma_tick_right_is_bounded(speed: i64, keys: ButtonInputView, dt: u32)
    requires
        0 <= speed <= SPEED,
        spec_wish_dir(keys) == (Vec2 { x: SCALE, y: 0 }),
    ensures
        spec_moved(Vec2 { x: speed, y: 0 }, keys, dt).y == 0,
        0 <= spec_moved(Vec2 { x: speed, y: 0 }, keys, dt).x <= SPEED,
        spec_moved(Vec2 { x: speed, y: 0 }, keys, dt).x - speed <= spec_fx_mul(
            (10 * dt) as i64,
            SPEED,
        ),
{
    lemma_tick_right(speed, keys, dt);
    lemma_push_cap(dt);
}

/// One tick with +x asked for keeps the faster of two players the faster.
pub proof fn lemma_tick_right_is_monotone(low: i64, high: i64, keys: ButtonInputView, dt: u32)
    requires
        0 <= low <= high <= SPEED,
        spec_wish_dir(keys) == (Vec2 { x: SCALE, y: 0 }),
    ensures
        spec_moved(Vec2 { x: low, y: 0 }, keys, dt).x <= spec_moved(
            Vec2 { x: high, y: 0 },
            keys,
            dt,
        ).x,
{
    lemma_tick_right(low, keys, dt);
    lemma_tick_right(high, keys, dt);
    lemma_speed_after_monotone(low as int, high as int, dt);
}

/// With +x asked for and the player at rest at first, the player moves
/// along +x only, at a speed between nothing and [`SPEED`].
pub proof fn lemma_run_right_stays_in_range(keys: ButtonInputView, dt: u32, ticks: nat)
    requires
        spec_wish_dir(keys) == (Vec2 { x: SCALE, y: 0 }),
    ensures
        spec_run(Vec2::spec_zero(), keys, dt, ticks).y == 0,
        0 <= spec_run(Vec2::spec_zero(), keys, dt, ticks).x <= SPEED,
    decreases ticks,
{
    if ticks > 0 {
        lemma_run_right_stays_in_range(keys, dt, (ticks - 1) as nat);
        lemma_tick_right(spec_run(Vec2::spec_zero(), keys, dt, (ticks - 1) as nat).x, keys, dt);
    }
}

/// With +x asked for without a break, in ticks of one length, a player that
/// starts at rest never slows down: from each tick to the next its speed
/// along +x grows or stays, by no more than ten times the tick's length
/// times [`SPEED`], and it never exceeds [`SPEED`].
pub proof fn lemma_run_right_speeds_up(keys: ButtonInputView, dt: u32, ticks: nat)
    requires
        spec_wish_dir(keys) == (Vec2 { x: SCALE, y: 0 }),
    ensures
        spec_run(Vec2::spec_zero(), keys, dt, ticks).x <= spec_run(
            Vec2::spec_zero(),
            keys,
            dt,
            ticks + 1,
        ).x,
        spec_run(Vec2::spec_zero(), keys, dt, ticks + 1).x - spec_run(
            Vec2::spec_zero(),
            keys,
            dt,
            ticks,
        ).x <= spec_fx_mul((10 * dt) as i64, SPEED),
        spec_run(Vec2::spec_zero(), keys, dt, ticks + 1).x <= SPEED,
        spec_run(Vec2::spec_zero(), keys, dt, ticks + 1).y == 0,
    decreases ticks,
{
    let start = Vec2::spec_zero();
    let now = spec_run(start, keys, dt, ticks);
    let next = spec_run(start, keys, dt, ticks + 1);
    lemma_run_right_stays_in_range(keys, dt, ticks);
    lemma_tick_right(now.x, keys, dt);
    assert(next == spec_moved(now, keys, dt));
    lemma_push_cap(dt);
    if ticks > 0 {
        let before = spec_run(start, keys, dt, (ticks - 1) as nat);
        lemma_run_right_speeds_up(keys, dt, (ticks - 1) as nat);
        lemma_run_right_stays_in_range(keys, dt, (ticks - 1) as nat);
        lemma_tick_right(before.x, keys, dt);
        lemma_speed_after_monotone(before.x as int, now.x as int, dt);
    }
}

/// With D down and A up, and W and S both down or both up, the keys ask for
/// +x.
pub proof fn lemma_wish_dir_right(keys: ButtonInputView)
    requires
        keys.pressed.contains(KeyCode::KeyD),
        !keys.pressed.contains(KeyCode::KeyA),
        keys.pressed.contains(KeyCode::KeyW) == keys.pressed.contains(KeyCode::KeyS),
    ensures
        spec_wish_dir(keys) == (Vec2 { x: SCALE, y: 0 }),
{
    lemma_isqrt_of_square(SCALE as int);
    assert(0 * 0 == 0) by (nonlinear_arith);
    assert(0 * SCALE == 0) by (nonlinear_arith);
    assert(SCALE * SCALE == 1_000_000_000_000) by (nonlinear_arith);
    assert(1_000_000_000_000int / 1_000_000 == 1_000_000);
    assert(0int / 1_000_000 == 0);
}

} // verus!
