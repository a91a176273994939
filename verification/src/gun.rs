//! Weapons and the projectiles they fire.
//!
//! Times are whole microseconds: an elapsed time per tick is a `u32`, a
//! countdown a `u64`.

use vstd::prelude::*;
use avian2d::prelude::CollisionLayers;
use crate::body::{BodyKind, BodySetup, ColliderShape};
use crate::input::{ButtonInput, ButtonInputView, KeyCode};
use crate::layers::{filters_of, mask_of, memberships_of, CollisionGroup};
use crate::magnet::{MagentAliveTime, Magnet, MagnetStrength};
use crate::player::Player;
use crate::vec2::{lemma_normalized_within_unit, Vec2};
use crate::world::{id_absent, ids_below, ids_distinct, lifetimes_wf, World, WorldView};

verus! {

/// The fraction of its velocity that a projectile loses per tick, in
/// fixed-point units.
#[derive(Clone, Copy, PartialEq, Eq, Structural, Debug)]
pub struct ProjectileFriction(pub i64);

/// The speed at which a weapon launches its projectiles, in fixed-point
/// units per second.
#[derive(Clone, Copy, PartialEq, Eq, Structural, Debug)]
pub struct ProjectileSpeed(pub i64);

/// The key that fires a weapon.
#[derive(Clone, Copy, PartialEq, Eq, Structural, Debug)]
pub struct ActivationKeyCode(pub KeyCode);

/// What a weapon fires.
#[derive(Clone, Copy, PartialEq, Eq, Structural, Debug)]
pub enum ProjectileType {
    Magnet,
    Bullet,
    WeakBullet,
}

/// The time a weapon still has to wait before it can fire, out of the time
/// it waits after each shot.
#[derive(Clone, Copy, PartialEq, Eq, Structural, Debug)]
pub struct ShootCooldown {
    pub remaining: u64,
    pub cooldown: u64,
}

/// The time a projectile still has to live, out of the time it was given.
#[derive(Clone, Copy, PartialEq, Eq, Structural, Debug)]
pub struct ProjectileLifetime {
    pub remaining: u64,
    pub lifetime: u64,
}

/// One tick as a cooldown sees it: the time that passed, and whether
/// everything but the cooldown itself allows a shot.
pub struct Pull {
    pub dt: u32,
    pub trigger: bool,
}

/// The sum of the elapsed times of `ticks`.
pub open spec fn pulls_elapsed(ticks: Seq<Pull>) -> int
    decreases ticks.len(),
{
    if ticks.len() == 0 {
        0
    } else {
        pulls_elapsed(ticks.drop_last()) + ticks.last().dt
    }
}

/// The sum of the elapsed times `dts`.
pub open spec fn total_elapsed(dts: Seq<u32>) -> int
    decreases dts.len(),
{
    if dts.len() == 0 {
        0
    } else {
        total_elapsed(dts.drop_last()) + dts.last()
    }
}

impl ShootCooldown {
    /// The wait never exceeds the weapon's cooldown.
    pub open spec fn wf(self) -> bool {
        self.remaining <= self.cooldown
    }

    pub open spec fn spec_new(cooldown: u64) -> ShootCooldown {
        ShootCooldown { remaining: cooldown, cooldown }
    }

    /// Whether the wait is over once `dt` has passed.
    pub open spec fn ready(self, dt: u32) -> bool {
        self.remaining <= dt
    }

    /// Whether the weapon fires in a tick of length `dt`.
    pub open spec fn fires(self, dt: u32, trigger: bool) -> bool {
        self.ready(dt) && trigger
    }

    /// The cooldown after a tick of length `dt`: it counts down while the
    /// wait lasts, starts over after a shot, and otherwise stands still.
    pub open spec fn spec_tick(self, dt: u32, trigger: bool) -> ShootCooldown {
        if !self.ready(dt) {
            ShootCooldown { remaining: (self.remaining - dt) as u64, cooldown: self.cooldown }
        } else if trigger {
            ShootCooldown { remaining: self.cooldown, cooldown: self.cooldown }
        } else {
            self
        }
    }

    /// The cooldown after all of `ticks`, in order.
    pub open spec fn after(self, ticks: Seq<Pull>) -> ShootCooldown
        decreases ticks.len(),
    {
        if ticks.len() == 0 {
            self
        } else {
            self.after(ticks.drop_last()).spec_tick(ticks.last().dt, ticks.last().trigger)
        }
    }

    /// Whether the weapon fires in the last of `ticks`.
    pub open spec fn fires_at_end(self, ticks: Seq<Pull>) -> bool {
        ticks.len() > 0 && self.after(ticks.drop_last()).fires(
            ticks.last().dt,
            ticks.last().trigger,
        )
    }

    /// A cooldown that makes the weapon wait in full before its first shot.
    #[verifier::when_used_as_spec(spec_new)]
    pub fn new(cooldown: u64) -> (r: ShootCooldown)
        ensures
            r == ShootCooldown::spec_new(cooldown),
            r.wf(),
    {
        ShootCooldown { remaining: cooldown, cooldown }
    }

    /// Lets `dt` pass. Returns whether the weapon fires: the wait is over
    /// and `trigger` holds.
    pub fn tick(&mut self, dt: u32, trigger: bool) -> (fired: bool)
        ensures
            *final(self) == old(self).spec_tick(dt, trigger),
            fired == old(self).fires(dt, trigger),
            old(self).wf() ==> final(self).wf(),
    {
        if self.remaining > dt as u64 {
            self.remaining = self.remaining - dt as u64;
            false
        } else if trigger {
            self.remaining = self.cooldown;
            true
        } else {
            false
        }
    }
}

impl Default for ShootCooldown {
    /// No wait at all.
    fn default() -> (r: ShootCooldown)
        ensures
            r == ShootCooldown::spec_new(0),
    {
        ShootCooldown::new(0)
    }
}

impl Default for ProjectileSpeed {
    /// One hundred units per second.
    fn default() -> (r: ProjectileSpeed)
        ensures
            r == ProjectileSpeed(100_000_000),
    {
        ProjectileSpeed(100_000_000)
    }
}

impl Default for ProjectileFriction {
    /// No friction.
    fn default() -> (r: ProjectileFriction)
        ensures
            r == ProjectileFriction(0),
    {
        ProjectileFriction(0)
    }
}

/// The wait of a weapon stays within its cooldown, whatever the ticks, and
/// the cooldown itself never changes.
pub proof fn lemma_cooldown_bounds(cooldown: ShootCooldown, ticks: Seq<Pull>)
    ensures
        cooldown.wf() ==> cooldown.after(ticks).wf(),
        cooldown.after(ticks).cooldown == cooldown.cooldown,
    decreases ticks.len(),
{
    if ticks.len() > 0 {
        lemma_cooldown_bounds(cooldown, ticks.drop_last());
    }
}

/// After a shot, what is left of the wait and the time that has passed
/// since add up to at least the cooldown.
proof fn lemma_cooldown_budget(cooldown: ShootCooldown, ticks: Seq<Pull>)
    requires
        cooldown.remaining == cooldown.cooldown,
    ensures
        cooldown.after(ticks).remaining + pulls_elapsed(ticks) >= cooldown.cooldown,
        cooldown.after(ticks).cooldown == cooldown.cooldown,
    decreases ticks.len(),
{
    if ticks.len() > 0 {
        lemma_cooldown_budget(cooldown, ticks.drop_last());
    }
}

/// Starting from the state that a shot leaves, any tick in which the weapon
/// fires again comes when at least the cooldown has passed.
pub proof fn lemma_fire_spacing(cooldown: ShootCooldown, ticks: Seq<Pull>)
    requires
        cooldown.remaining == cooldown.cooldown,
        cooldown.fires_at_end(ticks),
    ensures
        pulls_elapsed(ticks) >= cooldown.cooldown,
{
    lemma_cooldown_budget(cooldown, ticks.drop_last());
}

/// Ticks after ticks are the ticks of both runs in one.
proof fn lemma_cooldown_after_joined(
    cooldown: ShootCooldown,
    earlier: Seq<Pull>,
    later: Seq<Pull>,
)
    ensures
        cooldown.after(earlier + later) == cooldown.after(earlier).after(later),
    decreases later.len(),
{
    if later.len() == 0 {
        assert(earlier + later =~= earlier);
    } else {
        assert((earlier + later).drop_last() =~= earlier + later.drop_last());
        lemma_cooldown_after_joined(cooldown, earlier, later.drop_last());
    }
}

/// A weapon cannot fire twice within less than its cooldown: between any
/// two ticks of a run in which it fires, the second counted in, at least
/// the cooldown passes.
pub proof fn lemma_shots_keep_their_distance(
    cooldown: ShootCooldown,
    ticks: Seq<Pull>,
    first: int,
    second: int,
)
    requires
        0 <= first < second < ticks.len(),
        cooldown.fires_at_end(ticks.take(first + 1)),
        cooldown.fires_at_end(ticks.take(second + 1)),
    ensures
        pulls_elapsed(ticks.subrange(first + 1, second + 1)) >= cooldown.cooldown,
{
    let earlier = ticks.take(first + 1);
    let later = ticks.subrange(first + 1, second + 1);
    let shot = cooldown.after(earlier);
    lemma_cooldown_bounds(cooldown, earlier.drop_last());
    lemma_cooldown_bounds(cooldown, earlier);
    assert(shot.remaining == shot.cooldown);
    assert(earlier + later.drop_last() =~= ticks.take(second + 1).drop_last());
    lemma_cooldown_after_joined(cooldown, earlier, later.drop_last());
    assert(later.last() == ticks.take(second + 1).last());
    lemma_fire_spacing(shot, later);
}

impl ProjectileLifetime {
    /// What is left never exceeds what was given.
    pub open spec fn wf(self) -> bool {
        self.remaining <= self.lifetime
    }

    pub open spec fn spec_new(lifetime: u64) -> ProjectileLifetime {
        ProjectileLifetime { remaining: lifetime, lifetime }
    }

    /// Whether the projectile's time is up once `dt` has passed.
    pub open spec fn expired_after(self, dt: u32) -> bool {
        self.remaining <= dt
    }

    /// The lifetime after a tick of length `dt`.
    pub open spec fn spec_tick(self, dt: u32) -> ProjectileLifetime {
        ProjectileLifetime {
            remaining: if self.remaining <= dt {
                0
            } else {
                (self.remaining - dt) as u64
            },
            lifetime: self.lifetime,
        }
    }

    /// The lifetime after all of `dts`, in order.
    pub open spec fn after(self, dts: Seq<u32>) -> ProjectileLifetime
        decreases dts.len(),
    {
        if dts.len() == 0 {
            self
        } else {
            self.after(dts.drop_last()).spec_tick(dts.last())
        }
    }

    /// Whether the projectile is still there after every one of `dts`.
    pub open spec fn alive_through(self, dts: Seq<u32>) -> bool
        decreases dts.len(),
    {
        dts.len() == 0 || (self.alive_through(dts.drop_last()) && !self.after(
            dts.drop_last(),
        ).expired_after(dts.last()))
    }

    /// A projectile with `lifetime` microseconds ahead of it.
    #[verifier::when_used_as_spec(spec_new)]
    pub fn new(lifetime: u64) -> (r: ProjectileLifetime)
        ensures
            r == ProjectileLifetime::spec_new(lifetime),
            r.wf(),
    {
        ProjectileLifetime { remaining: lifetime, lifetime }
    }

    /// Lets `dt` pass. Returns whether the projectile's time is up.
    pub fn tick(&mut self, dt: u32) -> (expired: bool)
        ensures
            *final(self) == old(self).spec_tick(dt),
            expired == old(self).expired_after(dt),
            old(self).wf() ==> final(self).wf(),
    {
        if self.remaining <= dt as u64 {
            self.remaining = 0;
            true
        } else {
            self.remaining = self.remaining - dt as u64;
            false
        }
    }
}

/// While a projectile lives, what is left of its lifetime is what it was
/// given less the time that has passed.
pub proof fn lemma_lifetime_remaining(lifetime: u64, dts: Seq<u32>)
    requires
        ProjectileLifetime::spec_new(lifetime).alive_through(dts),
    ensures
        ProjectileLifetime::spec_new(lifetime).after(dts).remaining == lifetime - total_elapsed(
            dts,
        ),
        ProjectileLifetime::spec_new(lifetime).after(dts).lifetime == lifetime,
    decreases dts.len(),
{
    if dts.len() > 0 {
        lemma_lifetime_remaining(lifetime, dts.drop_last());
    }
}

/// Elapsed time only grows.
pub proof fn lemma_total_elapsed_grows(dts: Seq<u32>)
    ensures
        dts.len() > 0 ==> total_elapsed(dts.drop_last()) <= total_elapsed(dts),
        0 <= total_elapsed(dts),
    decreases dts.len(),
{
    if dts.len() > 0 {
        lemma_total_elapsed_grows(dts.drop_last());
    }
}

/// A projectile is there after each of a run of ticks exactly if less than
/// its lifetime has passed in all: it goes in the first tick at which the
/// time that has passed reaches its lifetime, and not before.
pub proof fn lemma_lifetime_expiry(lifetime: u64, dts: Seq<u32>)
    ensures
        ProjectileLifetime::spec_new(lifetime).alive_through(dts) <==> (dts.len() == 0
            || total_elapsed(dts) < lifetime),
    decreases dts.len(),
{
    if dts.len() > 0 {
        let start = ProjectileLifetime::spec_new(lifetime);
        let before = dts.drop_last();
        lemma_lifetime_expiry(lifetime, before);
        lemma_total_elapsed_grows(dts);
        lemma_total_elapsed_grows(before);
        if start.alive_through(before) {
            lemma_lifetime_remaining(lifetime, before);
        }
    }
}

/// A bullet in flight. A weak bullet is gone at its first contact.
#[derive(Clone, Copy, PartialEq, Eq, Structural, Debug)]
pub struct Bullet {
    pub id: u64,
    pub position: Vec2,
    pub velocity: Vec2,
    pub friction: ProjectileFriction,
    pub lifetime: ProjectileLifetime,
    pub weak: bool,
}

/// A weapon that the player carries.
#[derive(Clone, Copy, PartialEq, Eq, Structural, Debug)]
pub struct ShootProjectiles {
    pub cooldown: ShootCooldown,
    pub friction: ProjectileFriction,
    pub speed: ProjectileSpeed,
    pub key: ActivationKeyCode,
    pub projectile: ProjectileType,
    pub equipped: bool,
    /// Where the weapon sits, seen from the player.
    pub offset: Vec2,
}

/// How long a bullet lives, in microseconds.
pub const BULLET_LIFETIME: u64 = 8_000_000;

/// How long a weak bullet lives, in microseconds.
pub const WEAK_BULLET_LIFETIME: u64 = 5_000_000;

/// How long a magnet moves before it starts to slow down faster and faster,
/// in microseconds.
pub const MAGNET_ALIVE_TIME: u64 = 3_000_000;

/// The pull of every magnet, as a fixed-point factor.
pub const MAGNET_STRENGTH: i64 = 900_000;

/// How far in front of the weapon a bullet appears, in fixed-point units.
pub const BULLET_REACH: i64 = 22_000_000;

/// How far in front of the weapon a magnet appears, in fixed-point units.
pub const MAGNET_REACH: i64 = 26_000_000;

/// The side of a bullet's square collider, in fixed-point units.
pub const BULLET_SIZE: i64 = 8_000_000;

/// The side of a magnet's square collider, in fixed-point units.
pub const MAGNET_SIZE: i64 = 16_000_000;

impl Bullet {
    /// The bullet after a tick of length `dt` that it outlives.
    pub open spec fn spec_aged(self, dt: u32) -> Bullet {
        Bullet { lifetime: self.lifetime.spec_tick(dt), ..self }
    }

    /// How the bullet is set up in the physics engine: a dynamic square
    /// that does not turn and feels no gravity. Of a weak bullet the engine
    /// reports the contacts.
    pub fn body_setup(&self) -> (r: BodySetup)
        ensures
            r.kind == BodyKind::Dynamic,
            r.collider == (ColliderShape::Rectangle { width: BULLET_SIZE, height: BULLET_SIZE }),
            r.rotation_locked,
            r.gravity_scale == Some(0i64),
            r.reports_contacts == self.weak,
    {
        BodySetup {
            kind: BodyKind::Dynamic,
            collider: ColliderShape::Rectangle { width: BULLET_SIZE, height: BULLET_SIZE },
            rotation_locked: true,
            gravity_scale: Some(0),
            reports_contacts: self.weak,
        }
    }

    /// The layers that the physics engine is to give the bullet.
    pub fn collision_layers(&self) -> (r: CollisionLayers)
        ensures
            memberships_of(r) == mask_of(CollisionGroup::bullet_memberships()),
            filters_of(r) == mask_of(CollisionGroup::bullet_filters()),
    {
        CollisionGroup::bullet()
    }
}

/// Each of the bullets that a filter keeps is one of those it was given.
proof fn lemma_filter_from(bullets: Seq<Bullet>, pred: spec_fn(Bullet) -> bool, k: int)
    requires
        0 <= k < bullets.filter(pred).len(),
    ensures
        exists|j: int| 0 <= j < bullets.len() && bullets[j] == bullets.filter(pred)[k],
        pred(bullets.filter(pred)[k]),
{
    let kept = bullets.filter(pred);
    assert(kept.contains(kept[k]));
    bullets.lemma_filter_contains_rev(pred, kept[k]);
    bullets.lemma_filter_pred(pred, k);
}

/// A filter keeps the identifiers below the bound and apart from `id`.
proof fn lemma_filter_keeps_bounds(
    bullets: Seq<Bullet>,
    pred: spec_fn(Bullet) -> bool,
    bound: u64,
    id: u64,
)
    ensures
        ids_below(bullets, bound) ==> ids_below(bullets.filter(pred), bound),
        id_absent(bullets, id) ==> id_absent(bullets.filter(pred), id),
{
    let kept = bullets.filter(pred);
    assert forall|k: int| 0 <= k < kept.len() implies (ids_below(bullets, bound) ==> (
    #[trigger] kept[k]).id < bound) && (id_absent(bullets, id) ==> kept[k].id != id) by {
        lemma_filter_from(bullets, pred, k);
    }
}

/// A filter keeps the identifiers distinct.
proof fn lemma_filter_keeps_distinct(bullets: Seq<Bullet>, pred: spec_fn(Bullet) -> bool)
    requires
        ids_distinct(bullets),
    ensures
        ids_distinct(bullets.filter(pred)),
    decreases bullets.len(),
{
    reveal(Seq::filter);
    if bullets.len() > 0 {
        let rest = bullets.drop_last();
        let last = bullets.last();
        lemma_filter_keeps_distinct(rest, pred);
        assert(id_absent(rest, last.id));
        lemma_filter_keeps_bounds(rest, pred, 0, last.id);
    }
}

/// The predicate that holds of the bullets that outlive a tick of `dt`.
pub open spec fn outlives(dt: u32) -> spec_fn(Bullet) -> bool {
    |bullet: Bullet| !bullet.lifetime.expired_after(dt)
}

/// The function that ages a bullet by a tick of `dt`.
pub open spec fn aged(dt: u32) -> spec_fn(Bullet) -> Bullet {
    |bullet: Bullet| bullet.spec_aged(dt)
}

/// The bullets that outlive a tick of length `dt`, each aged by it, in the
/// order they had.
pub open spec fn spec_clean(bullets: Seq<Bullet>, dt: u32) -> Seq<Bullet> {
    bullets.filter(outlives(dt)).map_values(aged(dt))
}

/// The world after the sweep of a tick of length `dt`.
pub open spec fn spec_clean_projectiles(world: WorldView, dt: u32) -> WorldView {
    WorldView { bullets: spec_clean(world.bullets, dt), ..world }
}

/// The sweep looks at one more bullet.
proof fn lemma_clean_push(bullets: Seq<Bullet>, bullet: Bullet, dt: u32)
    ensures
        spec_clean(bullets.push(bullet), dt) == if bullet.lifetime.expired_after(dt) {
            spec_clean(bullets, dt)
        } else {
            spec_clean(bullets, dt).push(bullet.spec_aged(dt))
        },
{
    bullets.lemma_filter_push(bullet, outlives(dt));
    bullets.filter(outlives(dt)).lemma_push_map_commute(aged(dt), bullet);
}

/// The sweep keeps the identifiers distinct, below the bound, and apart
/// from `id`, and it keeps what is left of each lifetime within the
/// lifetime.
proof fn lemma_clean_keeps_ids(bullets: Seq<Bullet>, dt: u32, bound: u64, id: u64)
    ensures
        ids_distinct(bullets) ==> ids_distinct(spec_clean(bullets, dt)),
        ids_below(bullets, bound) ==> ids_below(spec_clean(bullets, dt), bound),
        id_absent(bullets, id) ==> id_absent(spec_clean(bullets, dt), id),
        lifetimes_wf(bullets) ==> lifetimes_wf(spec_clean(bullets, dt)),
{
    let kept = bullets.filter(outlives(dt));
    let cleaned = spec_clean(bullets, dt);
    if ids_distinct(bullets) {
        lemma_filter_keeps_distinct(bullets, outlives(dt));
    }
    lemma_filter_keeps_bounds(bullets, outlives(dt), bound, id);
    assert forall|k: int| 0 <= k < cleaned.len() implies (#[trigger] cleaned[k]).id
        == kept[k].id && (lifetimes_wf(bullets) ==> cleaned[k].lifetime.wf()) by {
        lemma_filter_from(bullets, outlives(dt), k);
    }
}

/// The sweep goes by each bullet's own lifetime: a bullet whose time is up
/// leaves no bullet with its identifier behind, and one that outlives the
/// tick is still there, aged by the tick.
pub proof fn lemma_sweep_goes_by_lifetime(bullets: Seq<Bullet>, dt: u32, i: int)
    requires
        ids_distinct(bullets),
        0 <= i < bullets.len(),
    ensures
        bullets[i].lifetime.expired_after(dt) ==> id_absent(spec_clean(bullets, dt), bullets[i].id),
        !bullets[i].lifetime.expired_after(dt) ==> spec_clean(bullets, dt).contains(
            bullets[i].spec_aged(dt),
        ),
{
    let kept = bullets.filter(outlives(dt));
    let cleaned = spec_clean(bullets, dt);
    if bullets[i].lifetime.expired_after(dt) {
        assert forall|k: int| 0 <= k < cleaned.len() implies (#[trigger] cleaned[k]).id
            != bullets[i].id by {
            lemma_filter_from(bullets, outlives(dt), k);
            assert(cleaned[k].id == kept[k].id);
        }
    } else {
        bullets.lemma_filter_contains(outlives(dt), i);
        let k = choose|k: int| 0 <= k < kept.len() && kept[k] == bullets[i];
        assert(cleaned[k] == bullets[i].spec_aged(dt));
    }
}

/// The sweep of a tick of length `dt`: every bullet ages by `dt`, and those
/// whose time is up are gone.
pub fn clean_projectiles(world: &mut World, dt: u32)
    ensures
        final(world)@ == spec_clean_projectiles(old(world)@, dt),
        old(world)@.wf() ==> final(world)@.wf(),
{
    let mut kept: Vec<Bullet> = Vec::new();
    let mut i: usize = 0;
    assert(world.bullets@.take(0) =~= Seq::<Bullet>::empty());
    assert(spec_clean(Seq::<Bullet>::empty(), dt) =~= Seq::<Bullet>::empty());
    while i < world.bullets.len()
        invariant
            i <= world.bullets.len(),
            *world == *old(world),
            kept@ == spec_clean(world.bullets@.take(i as int), dt),
        decreases world.bullets.len() - i,
    {
        let mut bullet = world.bullets[i];
        proof {
            world.bullets@.lemma_take_succ_push(i as int);
            lemma_clean_push(world.bullets@.take(i as int), bullet, dt);
        }
        let expired = bullet.lifetime.tick(dt);
        if !expired {
            kept.push(bullet);
        }
        i += 1;
    }
    proof {
        assert(world.bullets@.take(i as int) =~= world.bullets@);
        match world.magnet {
            Some(magnet) => lemma_clean_keeps_ids(world.bullets@, dt, world.next_id, magnet.id),
            None => lemma_clean_keeps_ids(world.bullets@, dt, world.next_id, 0),
        }
    }
    world.bullets = kept;
}

/// The predicate that holds of every bullet but the weak one with the
/// identifier `id`.
pub open spec fn survives_contact(id: u64) -> spec_fn(Bullet) -> bool {
    |bullet: Bullet| !(bullet.weak && bullet.id == id)
}

/// The world after the projectile `id` has begun to touch something: if it
/// is a weak bullet it is gone, and nothing else changes.
pub open spec fn spec_on_collision_start(world: WorldView, id: u64) -> WorldView {
    WorldView { bullets: world.bullets.filter(survives_contact(id)), ..world }
}

/// Tells the world that the projectile `id` has begun to touch something.
/// A weak bullet does not outlast its first contact.
pub fn on_collision_start(world: &mut World, id: u64)
    ensures
        final(world)@ == spec_on_collision_start(old(world)@, id),
        forall|i: int|
            0 <= i < final(world)@.bullets.len() ==> !((#[trigger] final(world)@.bullets[i]).weak
                && final(world)@.bullets[i].id == id),
        old(world)@.wf() ==> final(world)@.wf(),
{
    let mut kept: Vec<Bullet> = Vec::new();
    let mut i: usize = 0;
    let ghost pred = survives_contact(id);
    assert(world.bullets@.take(0) =~= Seq::<Bullet>::empty());
    assert(Seq::<Bullet>::empty().filter(pred) =~= Seq::<Bullet>::empty()) by {
        reveal(Seq::filter);
    }
    while i < world.bullets.len()
        invariant
            i <= world.bullets.len(),
            *world == *old(world),
            pred == survives_contact(id),
            kept@ == world.bullets@.take(i as int).filter(pred),
        decreases world.bullets.len() - i,
    {
        let bullet = world.bullets[i];
        proof {
            world.bullets@.lemma_take_succ_push(i as int);
            world.bullets@.take(i as int).lemma_filter_push(bullet, pred);
        }
        if !(bullet.weak && bullet.id == id) {
            kept.push(bullet);
        }
        i += 1;
    }
    proof {
        assert(world.bullets@.take(i as int) =~= world.bullets@);
        assert forall|k: int| 0 <= k < kept@.len() implies !((#[trigger] kept@[k]).weak
            && kept@[k].id == id) by {
            lemma_filter_from(world.bullets@, pred, k);
        }
        if world@.wf() {
            assert forall|k: int| 0 <= k < kept@.len() implies (#[trigger] kept@[k]).lifetime.wf() by {
                lemma_filter_from(world.bullets@, pred, k);
            }
            lemma_filter_keeps_distinct(world.bullets@, pred);
            match world.magnet {
                Some(magnet) => lemma_filter_keeps_bounds(
                    world.bullets@,
                    pred,
                    world.next_id,
                    magnet.id,
                ),
                None => lemma_filter_keeps_bounds(world.bullets@, pred, world.next_id, 0),
            }
        }
    }
    world.bullets = kept;
}

/// The bullet that `weapon` launches from `muzzle` along `direction`.
pub open spec fn spec_new_bullet(
    id: u64,
    weapon: ShootProjectiles,
    muzzle: Vec2,
    direction: Vec2,
    lifetime: u64,
    weak: bool,
) -> Bullet {
    Bullet {
        id,
        position: muzzle.spec_plus(direction.spec_scaled(BULLET_REACH)),
        velocity: direction.spec_scaled(weapon.speed.0),
        friction: weapon.friction,
        lifetime: ProjectileLifetime::spec_new(lifetime),
        weak,
    }
}

/// The magnet that `weapon` launches from `muzzle` along `direction`.
pub open spec fn spec_new_magnet(
    id: u64,
    weapon: ShootProjectiles,
    muzzle: Vec2,
    direction: Vec2,
) -> Magnet {
    Magnet {
        id,
        position: muzzle.spec_plus(direction.spec_scaled(MAGNET_REACH)),
        velocity: direction.spec_scaled(weapon.speed.0),
        friction: weapon.friction,
        strength: MagnetStrength(MAGNET_STRENGTH),
        alive_time: Some(MagentAliveTime::spec_new(MAGNET_ALIVE_TIME)),
        body: BodyKind::Dynamic,
    }
}

/// The way in which `weapon` aims when the cursor is at `cursor`: from the
/// weapon toward the cursor, of about unit length. It is zero exactly when
/// the cursor lies on the weapon, and then there is no aim.
pub open spec fn spec_aim(player: Player, weapon: ShootProjectiles, cursor: Vec2) -> Vec2 {
    cursor.spec_minus(player.spec_muzzle(weapon.offset)).spec_normalize_or_zero()
}

/// Whether `weapon` can launch at `cursor`: it has an aim, and there is an
/// identifier left for the projectile.
pub open spec fn spec_can_launch(world: WorldView, weapon: ShootProjectiles, cursor: Vec2) -> bool {
    spec_aim(world.player, weapon, cursor) != Vec2::spec_zero() && world.next_id < u64::MAX
}

/// The world after `weapon` has launched its projectile at `cursor`: the
/// projectile leaves the weapon toward the cursor, and a new magnet takes
/// the place of the one before it. Where the weapon cannot launch, nothing
/// changes.
pub open spec fn spec_fire(world: WorldView, weapon: ShootProjectiles, cursor: Vec2) -> WorldView {
    if !spec_can_launch(world, weapon, cursor) {
        world
    } else {
        let muzzle = world.player.spec_muzzle(weapon.offset);
        let direction = spec_aim(world.player, weapon, cursor);
        let id = world.next_id;
        let next_id = (world.next_id + 1) as u64;
        match weapon.projectile {
            ProjectileType::Magnet => WorldView {
                magnet: Some(spec_new_magnet(id, weapon, muzzle, direction)),
                next_id,
                ..world
            },
            ProjectileType::Bullet => WorldView {
                bullets: world.bullets.push(
                    spec_new_bullet(id, weapon, muzzle, direction, BULLET_LIFETIME, false),
                ),
                next_id,
                ..world
            },
            ProjectileType::WeakBullet => WorldView {
                bullets: world.bullets.push(
                    spec_new_bullet(id, weapon, muzzle, direction, WEAK_BULLET_LIFETIME, true),
                ),
                next_id,
                ..world
            },
        }
    }
}

/// Whether everything but its cooldown lets `weapon` fire: it is equipped,
/// its key has just gone down, there is a cursor, and the weapon can launch
/// at it. With the cursor on the weapon there is no aim, and the weapon
/// does not fire.
pub open spec fn spec_trigger(
    world: WorldView,
    weapon: ShootProjectiles,
    keys: ButtonInputView,
    cursor: Option<Vec2>,
) -> bool {
    &&& weapon.equipped
    &&& keys.just_pressed.contains(weapon.key.0)
    &&& cursor matches Some(cursor) && spec_can_launch(world, weapon, cursor)
}

/// The world after the weapon in slot `slot` has had its tick of length
/// `dt`: its cooldown moves on, and if it fires, its projectile is there.
pub open spec fn spec_shoot_one(
    world: WorldView,
    slot: int,
    keys: ButtonInputView,
    cursor: Option<Vec2>,
    dt: u32,
) -> WorldView {
    let weapon = world.weapons[slot];
    let trigger = spec_trigger(world, weapon, keys, cursor);
    let ticked = WorldView {
        weapons: world.weapons.update(
            slot,
            ShootProjectiles { cooldown: weapon.cooldown.spec_tick(dt, trigger), ..weapon },
        ),
        ..world
    };
    if weapon.cooldown.fires(dt, trigger) {
        spec_fire(ticked, weapon, cursor->0)
    } else {
        ticked
    }
}

/// The world after the weapons in the first `slots` slots have had their
/// tick, in the order of the slots.
pub open spec fn spec_shoot_first(
    world: WorldView,
    slots: nat,
    keys: ButtonInputView,
    cursor: Option<Vec2>,
    dt: u32,
) -> WorldView
    decreases slots,
{
    if slots == 0 {
        world
    } else {
        spec_shoot_one(
            spec_shoot_first(world, (slots - 1) as nat, keys, cursor, dt),
            slots - 1,
            keys,
            cursor,
            dt,
        )
    }
}

/// The world after every weapon has had its tick of length `dt`.
pub open spec fn spec_shoot_projectiles(
    world: WorldView,
    keys: ButtonInputView,
    cursor: Option<Vec2>,
    dt: u32,
) -> WorldView {
    spec_shoot_first(world, world.weapons.len(), keys, cursor, dt)
}

/// The way in which `weapon` aims at `cursor`.
pub fn aim(player: &Player, weapon: &ShootProjectiles, cursor: Vec2) -> (r: Vec2)
    ensures
        r == spec_aim(*player, *weapon, cursor),
{
    cursor.minus(player.muzzle(weapon.offset)).normalize_or_zero()
}

/// Whether `weapon` can launch at `cursor`.
pub fn can_launch(world: &World, weapon: &ShootProjectiles, cursor: Vec2) -> (r: bool)
    ensures
        r == spec_can_launch(world@, *weapon, cursor),
{
    let direction = aim(&world.player, weapon, cursor);
    !(direction.x == 0 && direction.y == 0) && world.next_id < u64::MAX
}

/// Launches the projectile of `weapon` toward `cursor`, if the weapon can
/// launch at it.
pub fn fire(world: &mut World, weapon: &ShootProjectiles, cursor: Vec2)
    ensures
        final(world)@ == spec_fire(old(world)@, *weapon, cursor),
        old(world)@.ids_wf() ==> final(world)@.ids_wf(),
        old(world)@.projectiles_wf() ==> final(world)@.projectiles_wf(),
{
    if !can_launch(world, weapon, cursor) {
        return ;
    }
    let muzzle = world.player.muzzle(weapon.offset);
    let direction = aim(&world.player, weapon, cursor);
    let velocity = direction.scaled(weapon.speed.0);
    let id: u64 = world.next_id;
    world.next_id = id + 1;
    match weapon.projectile {
        ProjectileType::Magnet => {
            world.magnet = Some(
                Magnet {
                    id,
                    position: muzzle.plus(direction.scaled(MAGNET_REACH)),
                    velocity,
                    friction: weapon.friction,
                    strength: MagnetStrength(MAGNET_STRENGTH),
                    alive_time: Some(MagentAliveTime::new(MAGNET_ALIVE_TIME)),
                    body: BodyKind::Dynamic,
                },
            );
        },
        ProjectileType::Bullet => {
            world.bullets.push(
                Bullet {
                    id,
                    position: muzzle.plus(direction.scaled(BULLET_REACH)),
                    velocity,
                    friction: weapon.friction,
                    lifetime: ProjectileLifetime::new(BULLET_LIFETIME),
                    weak: false,
                },
            );
        },
        ProjectileType::WeakBullet => {
            world.bullets.push(
                Bullet {
                    id,
                    position: muzzle.plus(direction.scaled(BULLET_REACH)),
                    velocity,
                    friction: weapon.friction,
                    lifetime: ProjectileLifetime::new(WEAK_BULLET_LIFETIME),
                    weak: true,
                },
            );
        },
    }
}

/// The weapons' part of a tick of length `dt`. Every weapon's cooldown
/// moves on, equipped or not. A weapon fires if its wait is over, it is
/// equipped, its key has just gone down, and there is a cursor that is not
/// on the weapon. A weapon that does not fire keeps what is left of its
/// wait.
pub fn shoot_projectiles(world: &mut World, keys: &ButtonInput, cursor: Option<Vec2>, dt: u32)
    ensures
        final(world)@ == spec_shoot_projectiles(old(world)@, keys@, cursor, dt),
        final(world)@.weapons.len() == old(world)@.weapons.len(),
        old(world)@.wf() ==> final(world)@.wf(),
{
    let mut slot: usize = 0;
    while slot < world.weapons.len()
        invariant
            slot <= world.weapons.len(),
            world.weapons.len() == old(world).weapons.len(),
            world@ == spec_shoot_first(old(world)@, slot as nat, keys@, cursor, dt),
            old(world)@.wf() ==> world@.wf(),
        decreases world.weapons.len() - slot,
    {
        let mut weapon = world.weapons[slot];
        let aimed = match cursor {
            Some(cursor) => can_launch(world, &weapon, cursor),
            None => false,
        };
        let trigger = weapon.equipped && keys.just_pressed(weapon.key.0) && aimed;
        let fired = weapon.cooldown.tick(dt, trigger);
        world.weapons.set(slot, weapon);
        if fired {
            fire(world, &weapon, cursor.unwrap());
        }
        slot += 1;
    }
}

/// Whether `bullet` is as a weapon has just launched it: its lifetime is
/// whole.
pub open spec fn just_launched(bullet: Bullet) -> bool {
    bullet.lifetime.remaining == bullet.lifetime.lifetime
}

/// Whether `magnet` is as a weapon has just launched it: a dynamic body
/// with the age of a magnet that has not moved yet.
pub open spec fn magnet_just_launched(magnet: Magnet) -> bool {
    magnet.body == BodyKind::Dynamic && magnet.alive_time == Some(
        MagentAliveTime::spec_new(MAGNET_ALIVE_TIME),
    ) && magnet.strength == MagnetStrength(MAGNET_STRENGTH)
}

/// Where a weapon that launches the magnet fires, there is exactly one
/// magnet afterwards, the new one, whether or not there was one before, and
/// every bullet is still there.
pub proof fn lemma_one_magnet_after_shot(
    world: WorldView,
    slot: int,
    keys: ButtonInputView,
    cursor: Option<Vec2>,
    dt: u32,
)
    requires
        0 <= slot < world.weapons.len(),
        world.weapons[slot].projectile == ProjectileType::Magnet,
        world.weapons[slot].cooldown.fires(
            dt,
            spec_trigger(world, world.weapons[slot], keys, cursor),
        ),
    ensures
        spec_shoot_one(world, slot, keys, cursor, dt).magnets() == 1,
        spec_shoot_one(world, slot, keys, cursor, dt).magnet->0.id == world.next_id,
        magnet_just_launched(spec_shoot_one(world, slot, keys, cursor, dt).magnet->0),
        world.ids_wf() && world.magnet is Some ==> spec_shoot_one(
            world,
            slot,
            keys,
            cursor,
            dt,
        ).magnet->0.id != world.magnet->0.id,
        spec_shoot_one(world, slot, keys, cursor, dt).bullets == world.bullets,
{
}

/// There is never more than one magnet.
pub proof fn lemma_never_two_magnets(world: WorldView)
    ensures
        world.magnets() <= 1,
{
}

/// A weapon has no aim exactly when the way from it to the cursor is zero.
pub proof fn lemma_no_aim_on_the_weapon(player: Player, weapon: ShootProjectiles, cursor: Vec2)
    ensures
        (spec_aim(player, weapon, cursor) == Vec2::spec_zero()) <==> (cursor.spec_minus(
            player.spec_muzzle(weapon.offset),
        ) == Vec2::spec_zero()),
        cursor == player.spec_muzzle(weapon.offset) ==> spec_aim(player, weapon, cursor)
            == Vec2::spec_zero(),
{
    lemma_normalized_within_unit(cursor.spec_minus(player.spec_muzzle(weapon.offset)));
}

/// With the cursor on the weapon there is no aim: the weapon does not
/// fire, nothing is launched, and what is left of the wait stands still
/// once the wait is over.
pub proof fn lemma_no_aim_no_shot(
    world: WorldView,
    slot: int,
    keys: ButtonInputView,
    cursor: Vec2,
    dt: u32,
)
    requires
        0 <= slot < world.weapons.len(),
        spec_aim(world.player, world.weapons[slot], cursor) == Vec2::spec_zero(),
    ensures
        !spec_trigger(world, world.weapons[slot], keys, Some(cursor)),
        spec_shoot_one(world, slot, keys, Some(cursor), dt).bullets == world.bullets,
        spec_shoot_one(world, slot, keys, Some(cursor), dt).magnet == world.magnet,
        spec_shoot_one(world, slot, keys, Some(cursor), dt).next_id == world.next_id,
        world.weapons[slot].cooldown.ready(dt) ==> spec_shoot_one(
            world,
            slot,
            keys,
            Some(cursor),
            dt,
        ).weapons[slot] == world.weapons[slot],
        spec_fire(world, world.weapons[slot], cursor) == world,
{
}

/// A tick of the weapons leaves alone what was there: every bullet stays
/// as it was, the magnet stays as it was unless a new one takes its place,
/// and the player does not move. What the tick adds is just launched and
/// has an identifier that no projectile had before.
pub proof fn lemma_shoot_keeps_what_was_there(
    world: WorldView,
    slots: nat,
    keys: ButtonInputView,
    cursor: Option<Vec2>,
    dt: u32,
)
    requires
        slots <= world.weapons.len(),
    ensures
        ({
            let after = spec_shoot_first(world, slots, keys, cursor, dt);
            &&& after.player == world.player
            &&& after.camera == world.camera
            &&& after.terrain == world.terrain
            &&& after.weapons.len() == world.weapons.len()
            &&& after.next_id >= world.next_id
            &&& after.bullets.len() >= world.bullets.len()
            &&& after.bullets.take(world.bullets.len() as int) == world.bullets
            &&& forall|k: int|
                world.bullets.len() <= k < after.bullets.len() ==> just_launched(
                    #[trigger] after.bullets[k],
                ) && world.next_id <= after.bullets[k].id < after.next_id
            &&& after.magnet == world.magnet || (after.magnet matches Some(magnet)
                && magnet_just_launched(magnet) && world.next_id <= magnet.id < after.next_id)
        }),
    decreases slots,
{
    if slots > 0 {
        lemma_shoot_keeps_what_was_there(world, (slots - 1) as nat, keys, cursor, dt);
        let before = spec_shoot_first(world, (slots - 1) as nat, keys, cursor, dt);
        let after = spec_shoot_first(world, slots, keys, cursor, dt);
        assert(after == spec_shoot_one(before, slots - 1, keys, cursor, dt));
        assert(after.bullets.take(world.bullets.len() as int) =~= world.bullets) by {
            assert(before.bullets.take(world.bullets.len() as int) == world.bullets);
            assert forall|k: int| 0 <= k < world.bullets.len() implies after.bullets[k]
                == world.bullets[k] by {
                assert(before.bullets.take(world.bullets.len() as int)[k] == before.bullets[k]);
            }
        }
    } else {
        assert(world.bullets.take(world.bullets.len() as int) =~= world.bullets);
    }
}

/// In a tick of the weapons every weapon's cooldown has its own tick, with
/// the world as the weapons in the slots before it have left it, and
/// nothing else about the weapon changes.
pub proof fn lemma_shoot_ticks_every_cooldown(
    world: WorldView,
    slots: nat,
    keys: ButtonInputView,
    cursor: Option<Vec2>,
    dt: u32,
)
    requires
        slots <= world.weapons.len(),
    ensures
        spec_shoot_first(world, slots, keys, cursor, dt).weapons.len() == world.weapons.len(),
        forall|slot: int|
            0 <= slot < world.weapons.len() ==> (#[trigger] spec_shoot_first(
                world,
                slots,
                keys,
                cursor,
                dt,
            ).weapons[slot]) == if slot < slots {
                ShootProjectiles {
                    cooldown: world.weapons[slot].cooldown.spec_tick(
                        dt,
                        spec_trigger(
                            spec_shoot_first(world, slot as nat, keys, cursor, dt),
                            world.weapons[slot],
                            keys,
                            cursor,
                        ),
                    ),
                    ..world.weapons[slot]
                }
            } else {
                world.weapons[slot]
            },
    decreases slots,
{
    if slots > 0 {
        lemma_shoot_ticks_every_cooldown(world, (slots - 1) as nat, keys, cursor, dt);
    }
}

/// A tick of the weapons keeps every weapon's wait within its cooldown.
pub proof fn lemma_shoot_keeps_cooldowns(
    world: WorldView,
    keys: ButtonInputView,
    cursor: Option<Vec2>,
    dt: u32,
)
    requires
        world.cooldowns_wf(),
    ensures
        spec_shoot_projectiles(world, keys, cursor, dt).cooldowns_wf(),
{
    lemma_shoot_ticks_every_cooldown(world, world.weapons.len(), keys, cursor, dt);
}

} // verus!
