//! The magnet: a projectile that pulls bullets toward itself, slows down as
//! it ages, and settles for good once it is slow enough.

use vstd::prelude::*;
use avian2d::prelude::CollisionLayers;
use crate::body::{BodyKind, BodySetup, ColliderShape};
use crate::fixed::{
    fx_add, fx_mul_fits, fx_sub, lemma_fx_mul_error, spec_fx_add, spec_fx_mul, spec_fx_sub, SCALE,
};
use crate::gun::{Bullet, ProjectileFriction, MAGNET_SIZE};
use crate::layers::{filters_of, mask_of, memberships_of, CollisionGroup};
use crate::vec2::Vec2;
use crate::world::{World, WorldView};

verus! {

/// Below this speed, in fixed-point units per second, a magnet settles.
pub const SETTLE_SPEED: i64 = 10_000_000;

/// What an aged magnet's friction gains per tick, in fixed-point units.
pub const AGING_FRICTION_STEP: i64 = 12_500;

/// How strongly a magnet pulls, as a fixed-point factor.
#[derive(Clone, Copy, PartialEq, Eq, Structural, Debug)]
pub struct MagnetStrength(pub i64);

/// How long a magnet has been moving, and the age from which it slows down
/// faster and faster. In microseconds.
#[derive(Clone, Copy, PartialEq, Eq, Structural, Debug)]
pub struct MagentAliveTime {
    pub max: u64,
    pub current: u64,
}

/// The magnet. It carries its age only until it settles.
#[derive(Clone, Copy, Debug)]
pub struct Magnet {
    pub id: u64,
    pub position: Vec2,
    pub velocity: Vec2,
    pub friction: ProjectileFriction,
    pub strength: MagnetStrength,
    pub alive_time: Option<MagentAliveTime>,
    pub body: BodyKind,
}

/// What can happen to a magnet between its launch and its end.
pub enum MagnetEvent {
    /// The friction step of a tick.
    Friction,
    /// The aging step of a tick of length `dt`.
    Age { dt: u32 },
    /// The physics engine has moved the magnet.
    Moved { position: Vec2, velocity: Vec2 },
}

impl MagentAliveTime {
    pub open spec fn spec_new(max: u64) -> MagentAliveTime {
        MagentAliveTime { max, current: 0 }
    }

    /// The age after a further `dt`, saturating.
    pub open spec fn spec_aged(self, dt: u32) -> MagentAliveTime {
        MagentAliveTime {
            max: self.max,
            current: if self.current + dt > u64::MAX {
                u64::MAX
            } else {
                (self.current + dt) as u64
            },
        }
    }

    /// Whether the magnet is past the age from which it slows down.
    pub open spec fn over(self) -> bool {
        self.current > self.max
    }

    /// A magnet that has not moved yet and ages after `max` microseconds.
    #[verifier::when_used_as_spec(spec_new)]
    pub fn new(max: u64) -> (r: MagentAliveTime)
        ensures
            r == MagentAliveTime::spec_new(max),
    {
        MagentAliveTime { max, current: 0 }
    }
}

impl Magnet {
    /// The magnet carries its age exactly as long as it is not a static
    /// body.
    pub open spec fn wf(self) -> bool {
        (self.alive_time is None) == (self.body == BodyKind::Static)
    }

    /// Whether the magnet's planar speed is below [`SETTLE_SPEED`].
    pub open spec fn slow(self) -> bool {
        self.velocity.norm_sq() < SETTLE_SPEED * SETTLE_SPEED
    }

    /// Whether the magnet has settled: it is a static body without an age.
    pub open spec fn settled(self) -> bool {
        self.body == BodyKind::Static && self.alive_time is None
    }

    /// The magnet after the friction step: a slow magnet settles, a fast
    /// one loses the fraction `friction` of its velocity.
    pub open spec fn spec_friction(self) -> Magnet {
        if self.slow() {
            Magnet { body: BodyKind::Static, alive_time: None, ..self }
        } else {
            Magnet {
                velocity: self.velocity.spec_scaled(spec_fx_sub(SCALE, self.friction.0)),
                ..self
            }
        }
    }

    /// The magnet after the aging step of a tick of length `dt`: while it
    /// carries an age, the age grows by `dt`, and once past its limit the
    /// friction grows by [`AGING_FRICTION_STEP`].
    pub open spec fn spec_aged(self, dt: u32) -> Magnet {
        match self.alive_time {
            None => self,
            Some(age) => Magnet {
                alive_time: Some(age.spec_aged(dt)),
                friction: if age.spec_aged(dt).over() {
                    ProjectileFriction(spec_fx_add(self.friction.0, AGING_FRICTION_STEP))
                } else {
                    self.friction
                },
                ..self
            },
        }
    }

    /// The magnet after `event`.
    pub open spec fn step(self, event: MagnetEvent) -> Magnet {
        match event {
            MagnetEvent::Friction => self.spec_friction(),
            MagnetEvent::Age { dt } => self.spec_aged(dt),
            MagnetEvent::Moved { position, velocity } => Magnet { position, velocity, ..self },
        }
    }

    /// The magnet after all of `events`, in order.
    pub open spec fn run(self, events: Seq<MagnetEvent>) -> Magnet
        decreases events.len(),
    {
        if events.len() == 0 {
            self
        } else {
            self.run(events.drop_last()).step(events.last())
        }
    }

    /// The friction step of a tick.
    pub fn apply_friction(&mut self)
        ensures
            *final(self) == old(self).spec_friction(),
            old(self).wf() ==> final(self).wf(),
    {
        let speed_sq: u128 = self.velocity.length_squared();
        let limit: u128 = (SETTLE_SPEED as u128) * (SETTLE_SPEED as u128);
        if speed_sq < limit {
            self.alive_time = None;
            self.body = BodyKind::Static;
        } else {
            self.velocity = self.velocity.scaled(fx_sub(SCALE, self.friction.0));
        }
    }

    /// The aging step of a tick of length `dt`.
    pub fn age(&mut self, dt: u32)
        ensures
            *final(self) == old(self).spec_aged(dt),
            old(self).wf() ==> final(self).wf(),
    {
        match self.alive_time {
            None => {},
            Some(age) => {
                let current: u64 = age.current.saturating_add(dt as u64);
                self.alive_time = Some(MagentAliveTime { max: age.max, current });
                if current > age.max {
                    self.friction = ProjectileFriction(fx_add(self.friction.0, AGING_FRICTION_STEP));
                }
            },
        }
    }

    /// How the magnet is set up in the physics engine: a square that does
    /// not turn and feels no gravity, of the kind that the magnet has now.
    pub fn body_setup(&self) -> (r: BodySetup)
        ensures
            r.kind == self.body,
            r.collider == (ColliderShape::Rectangle { width: MAGNET_SIZE, height: MAGNET_SIZE }),
            r.rotation_locked,
            r.gravity_scale == Some(0i64),
            !r.reports_contacts,
    {
        BodySetup {
            kind: self.body,
            collider: ColliderShape::Rectangle { width: MAGNET_SIZE, height: MAGNET_SIZE },
            rotation_locked: true,
            gravity_scale: Some(0),
            reports_contacts: false,
        }
    }

    /// The layers that the physics engine is to give the magnet.
    pub fn collision_layers(&self) -> (r: CollisionLayers)
        ensures
            memberships_of(r) == mask_of(CollisionGroup::magnet_memberships()),
            filters_of(r) == mask_of(CollisionGroup::magnet_filters()),
    {
        CollisionGroup::magnet()
    }
}

impl Bullet {
    /// The way from where the bullet will be two ticks of length `dt` on, if
    /// nothing pulls it, to `magnet_position`.
    pub open spec fn spec_way(self, magnet_position: Vec2, dt: u32) -> Vec2 {
        magnet_position.spec_minus(
            self.position.spec_plus(self.velocity.spec_scaled((2 * dt) as i64)),
        )
    }

    /// What a magnet at `magnet_position` with pull `strength` adds to the
    /// bullet's velocity in a tick of length `dt`: `strength` times the way
    /// to the magnet. The pull grows with the way; it is not normalized and
    /// not capped.
    pub open spec fn spec_pull(self, magnet_position: Vec2, strength: MagnetStrength, dt: u32) -> Vec2 {
        self.spec_way(magnet_position, dt).spec_scaled(strength.0)
    }

    /// The bullet after a magnet at `magnet_position` with pull `strength`
    /// has drawn it for a tick of length `dt`: its velocity gains the pull.
    pub open spec fn spec_attracted(
        self,
        magnet_position: Vec2,
        strength: MagnetStrength,
        dt: u32,
    ) -> Bullet {
        Bullet {
            velocity: self.velocity.spec_plus(self.spec_pull(magnet_position, strength, dt)),
            ..self
        }
    }

    /// Draws the bullet toward a magnet for a tick of length `dt`.
    pub fn attract(&mut self, magnet_position: Vec2, strength: MagnetStrength, dt: u32)
        ensures
            *final(self) == old(self).spec_attracted(magnet_position, strength, dt),
    {
        let ahead: i64 = 2 * (dt as i64);
        let prediction = self.position.plus(self.velocity.scaled(ahead));
        let delta = magnet_position.minus(prediction);
        self.velocity = self.velocity.plus(delta.scaled(strength.0));
    }
}

/// The pull along one axis is `strength` times the way along that axis, to
/// within one step: it is that product rounded toward zero. With a positive
/// strength it points the way the magnet lies, or is nothing.
pub proof fn lemma_pull_is_proportional(way: i64, strength: i64)
    requires
        fx_mul_fits(way, strength),
    ensures
        -SCALE < spec_fx_mul(way, strength) * SCALE - way * strength < SCALE,
        way * strength >= 0 ==> 0 <= spec_fx_mul(way, strength) * SCALE <= way * strength,
        way * strength <= 0 ==> way * strength <= spec_fx_mul(way, strength) * SCALE <= 0,
        strength > 0 && way >= 0 ==> spec_fx_mul(way, strength) >= 0,
        strength > 0 && way <= 0 ==> spec_fx_mul(way, strength) <= 0,
        strength > 0 && way >= SCALE ==> spec_fx_mul(way, strength) > 0,
        strength > 0 && way <= -SCALE ==> spec_fx_mul(way, strength) < 0,
{
    lemma_fx_mul_error(way, strength);
    assert(strength > 0 && way >= 0 ==> way * strength >= 0) by (nonlinear_arith);
    assert(strength > 0 && way <= 0 ==> way * strength <= 0) by (nonlinear_arith);
    assert(strength > 0 && way >= SCALE ==> way * strength >= SCALE) by (nonlinear_arith);
    assert(strength > 0 && way <= -SCALE ==> way * strength <= -SCALE) by (nonlinear_arith);
}

/// Twice the way gives twice the pull, to within one step.
pub proof fn lemma_pull_doubles_with_the_way(way: i64, strength: i64)
    requires
        i64::MIN <= 2 * way <= i64::MAX,
        fx_mul_fits(way, strength),
        fx_mul_fits((2 * way) as i64, strength),
    ensures
        -1 <= spec_fx_mul((2 * way) as i64, strength) - 2 * spec_fx_mul(way, strength) <= 1,
{
    let twice = (2 * way) as i64;
    lemma_fx_mul_error(way, strength);
    lemma_fx_mul_error(twice, strength);
    assert(twice * strength == 2 * (way * strength)) by (nonlinear_arith)
        requires
            twice == 2 * way,
    ;
    let one = spec_fx_mul(way, strength) as int;
    let two = spec_fx_mul(twice, strength) as int;
    let s = SCALE as int;
    assert(-1 <= two - 2 * one <= 1) by (nonlinear_arith)
        requires
            s == 1_000_000,
            -s < one * s - way * strength < s,
            -s < two * s - 2 * (way * strength) < s,
            way * strength >= 0 ==> 0 <= one * s <= way * strength,
            way * strength <= 0 ==> way * strength <= one * s <= 0,
            way * strength >= 0 ==> 0 <= two * s <= 2 * (way * strength),
            way * strength <= 0 ==> 2 * (way * strength) <= two * s <= 0,
    ;
}

/// Of two bullets, one twice as far from the magnet as the other on each
/// axis, the farther is pulled twice as hard, to within one step on each
/// axis.
pub proof fn lemma_twice_as_far_twice_the_pull(
    near: Bullet,
    far: Bullet,
    magnet_position: Vec2,
    strength: MagnetStrength,
    dt: u32,
)
    requires
        far.spec_way(magnet_position, dt).x == 2 * near.spec_way(magnet_position, dt).x,
        far.spec_way(magnet_position, dt).y == 2 * near.spec_way(magnet_position, dt).y,
        fx_mul_fits(near.spec_way(magnet_position, dt).x, strength.0),
        fx_mul_fits(near.spec_way(magnet_position, dt).y, strength.0),
        fx_mul_fits(far.spec_way(magnet_position, dt).x, strength.0),
        fx_mul_fits(far.spec_way(magnet_position, dt).y, strength.0),
    ensures
        -1 <= far.spec_pull(magnet_position, strength, dt).x - 2 * near.spec_pull(
            magnet_position,
            strength,
            dt,
        ).x <= 1,
        -1 <= far.spec_pull(magnet_position, strength, dt).y - 2 * near.spec_pull(
            magnet_position,
            strength,
            dt,
        ).y <= 1,
{
    let way = near.spec_way(magnet_position, dt);
    lemma_pull_doubles_with_the_way(way.x, strength.0);
    lemma_pull_doubles_with_the_way(way.y, strength.0);
}

/// Short of saturation, a bullet's velocity gains exactly the pull, and the
/// pull is the strength times the way to the magnet on each axis, to within
/// one step; with a positive strength the bullet is pulled toward the
/// magnet on each axis and never pushed away.
pub proof fn lemma_attraction_points_at_the_magnet(
    bullet: Bullet,
    magnet_position: Vec2,
    strength: MagnetStrength,
    dt: u32,
)
    requires
        fx_mul_fits(bullet.spec_way(magnet_position, dt).x, strength.0),
        fx_mul_fits(bullet.spec_way(magnet_position, dt).y, strength.0),
        i64::MIN <= bullet.velocity.x + bullet.spec_pull(magnet_position, strength, dt).x
            <= i64::MAX,
        i64::MIN <= bullet.velocity.y + bullet.spec_pull(magnet_position, strength, dt).y
            <= i64::MAX,
    ensures
        ({
            let way = bullet.spec_way(magnet_position, dt);
            let pull = bullet.spec_pull(magnet_position, strength, dt);
            let after = bullet.spec_attracted(magnet_position, strength, dt);
            &&& after.velocity.x - bullet.velocity.x == pull.x
            &&& after.velocity.y - bullet.velocity.y == pull.y
            &&& -SCALE < pull.x * SCALE - way.x * strength.0 < SCALE
            &&& -SCALE < pull.y * SCALE - way.y * strength.0 < SCALE
            &&& strength.0 > 0 && way.x >= 0 ==> pull.x >= 0
            &&& strength.0 > 0 && way.x <= 0 ==> pull.x <= 0
            &&& strength.0 > 0 && way.y >= 0 ==> pull.y >= 0
            &&& strength.0 > 0 && way.y <= 0 ==> pull.y <= 0
        }),
{
    let way = bullet.spec_way(magnet_position, dt);
    lemma_pull_is_proportional(way.x, strength.0);
    lemma_pull_is_proportional(way.y, strength.0);
}

/// The bullets of `bullets`, each drawn toward the magnet.
pub open spec fn spec_attract_all(
    bullets: Seq<Bullet>,
    magnet_position: Vec2,
    strength: MagnetStrength,
    dt: u32,
) -> Seq<Bullet> {
    Seq::new(bullets.len(), |i: int| bullets[i].spec_attracted(magnet_position, strength, dt))
}

/// The world after the friction step: the magnet, if there is one, takes it.
pub open spec fn spec_magnet_friction(world: WorldView) -> WorldView {
    match world.magnet {
        None => world,
        Some(magnet) => WorldView { magnet: Some(magnet.spec_friction()), ..world },
    }
}

/// The world after the attraction step: with a magnet, every bullet is
/// drawn toward it; without one, nothing happens.
pub open spec fn spec_attract_bullets(world: WorldView, dt: u32) -> WorldView {
    match world.magnet {
        None => world,
        Some(magnet) => WorldView {
            bullets: spec_attract_all(world.bullets, magnet.position, magnet.strength, dt),
            ..world
        },
    }
}

/// The world after the aging step: the magnet, if there is one, ages.
pub open spec fn spec_age_magnet(world: WorldView, dt: u32) -> WorldView {
    match world.magnet {
        None => world,
        Some(magnet) => WorldView { magnet: Some(magnet.spec_aged(dt)), ..world },
    }
}

/// The friction step of a tick: a slow magnet settles, a fast one slows.
pub fn magnet_friction(world: &mut World)
    ensures
        final(world)@ == spec_magnet_friction(old(world)@),
        old(world)@.wf() ==> final(world)@.wf(),
{
    match world.magnet {
        None => {},
        Some(magnet) => {
            let mut magnet = magnet;
            magnet.apply_friction();
            world.magnet = Some(magnet);
        },
    }
}

/// The attraction step of a tick of length `dt`: the magnet draws every
/// bullet toward itself.
pub fn attract_bullets(world: &mut World, dt: u32)
    ensures
        final(world)@ == spec_attract_bullets(old(world)@, dt),
        old(world)@.wf() ==> final(world)@.wf(),
{
    match world.magnet {
        None => {},
        Some(magnet) => {
            let ghost before = world.bullets@;
            let mut i: usize = 0;
            while i < world.bullets.len()
                invariant
                    i <= world.bullets.len(),
                    world.bullets.len() == before.len(),
                    world.magnet == Some(magnet),
                    world.player == old(world).player,
                    world.camera == old(world).camera,
                    world.weapons == old(world).weapons,
                    world.terrain == old(world).terrain,
                    world.next_id == old(world).next_id,
                    forall|j: int|
                        0 <= j < i ==> world.bullets@[j] == before[j].spec_attracted(
                            magnet.position,
                            magnet.strength,
                            dt,
                        ),
                    forall|j: int| i <= j < before.len() ==> world.bullets@[j] == before[j],
                decreases world.bullets.len() - i,
            {
                let mut bullet = world.bullets[i];
                bullet.attract(magnet.position, magnet.strength, dt);
                world.bullets.set(i, bullet);
                i += 1;
            }
            assert(world.bullets@ =~= spec_attract_all(
                before,
                magnet.position,
                magnet.strength,
                dt,
            ));
        },
    }
}

/// The aging step of a tick of length `dt`.
pub fn age_magnet(world: &mut World, dt: u32)
    ensures
        final(world)@ == spec_age_magnet(old(world)@, dt),
        old(world)@.wf() ==> final(world)@.wf(),
{
    match world.magnet {
        None => {},
        Some(magnet) => {
            let mut magnet = magnet;
            magnet.age(dt);
            world.magnet = Some(magnet);
        },
    }
}

/// A slow magnet settles in the friction step.
pub proof fn lemma_slow_magnet_settles(magnet: Magnet)
    requires
        magnet.slow(),
    ensures
        magnet.step(MagnetEvent::Friction).settled(),
{
}

/// Settling is for good: whatever happens to a settled magnet, it stays a
/// static body, never carries an age again, and keeps its friction.
pub proof fn lemma_settle_is_permanent(magnet: Magnet, events: Seq<MagnetEvent>)
    requires
        magnet.settled(),
    ensures
        magnet.run(events).settled(),
        magnet.run(events).friction == magnet.friction,
    decreases events.len(),
{
    if events.len() > 0 {
        lemma_settle_is_permanent(magnet, events.drop_last());
    }
}

/// Whatever happens to a magnet, it never turns from a static body back
/// into a moving one, and it never gains an age that it has lost.
pub proof fn lemma_settle_is_one_way(magnet: Magnet, events: Seq<MagnetEvent>)
    ensures
        magnet.body == BodyKind::Static ==> magnet.run(events).body == BodyKind::Static,
        magnet.alive_time is None ==> magnet.run(events).alive_time is None,
    decreases events.len(),
{
    if events.len() > 0 {
        lemma_settle_is_one_way(magnet, events.drop_last());
    }
}

/// Whatever happens to a magnet, it carries its age exactly as long as it
/// is not a static body.
pub proof fn lemma_age_goes_with_settling(magnet: Magnet, events: Seq<MagnetEvent>)
    requires
        magnet.wf(),
    ensures
        magnet.run(events).wf(),
    decreases events.len(),
{
    if events.len() > 0 {
        lemma_age_goes_with_settling(magnet, events.drop_last());
    }
}

/// Whatever happens to a magnet, its friction never shrinks.
pub proof fn lemma_friction_only_grows(magnet: Magnet, events: Seq<MagnetEvent>)
    ensures
        magnet.run(events).friction.0 >= magnet.friction.0,
    decreases events.len(),
{
    if events.len() > 0 {
        lemma_friction_only_grows(magnet, events.drop_last());
    }
}

} // verus!
