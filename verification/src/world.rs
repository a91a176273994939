//! The state of the simulation.

use vstd::prelude::*;
use avian2d::prelude::CollisionLayers;
use crate::body::{BodyKind, BodySetup, ColliderShape};
use crate::gun::{
    clean_projectiles, just_launched, lemma_shoot_keeps_what_was_there, magnet_just_launched,
    shoot_projectiles, spec_clean_projectiles, spec_shoot_projectiles, Bullet, ShootProjectiles,
};
use crate::input::{ButtonInput, ButtonInputView};
use crate::layers::{filters_of, mask_of, memberships_of, CollisionGroup};
use crate::magnet::{
    age_magnet, attract_bullets, magnet_friction, spec_age_magnet, spec_attract_bullets,
    spec_magnet_friction, Magnet,
};
use crate::player::{
    camera_follow, player_movement, spec_player_movement, spec_watch_mouse, watch_mouse, Player,
};
use crate::vec2::Vec2;

verus! {

/// The two kinds of terrain.
#[derive(Clone, Copy, PartialEq, Eq, Structural, Debug)]
pub enum TerrainKind {
    /// Stops everything.
    Wall,
    /// Stops everything but magnets.
    MagnetPassthrough,
}

/// A rectangular piece of terrain that never moves.
#[derive(Clone, Copy, PartialEq, Eq, Structural, Debug)]
pub struct Terrain {
    pub kind: TerrainKind,
    /// The centre.
    pub position: Vec2,
    /// Width and height.
    pub size: Vec2,
}

impl Terrain {
    /// How the piece is set up in the physics engine: a static rectangle.
    pub fn body_setup(&self) -> (r: BodySetup)
        ensures
            r.kind == BodyKind::Static,
            r.collider == (ColliderShape::Rectangle { width: self.size.x, height: self.size.y }),
            !r.rotation_locked,
            r.gravity_scale is None,
            !r.reports_contacts,
    {
        BodySetup {
            kind: BodyKind::Static,
            collider: ColliderShape::Rectangle { width: self.size.x, height: self.size.y },
            rotation_locked: false,
            gravity_scale: None,
            reports_contacts: false,
        }
    }

    /// The layers that the physics engine is to give the piece.
    pub fn collision_layers(&self) -> (r: CollisionLayers)
        ensures
            self.kind == TerrainKind::Wall ==> memberships_of(r) == mask_of(
                CollisionGroup::walls_memberships(),
            ) && filters_of(r) == mask_of(CollisionGroup::walls_filters()),
            self.kind == TerrainKind::MagnetPassthrough ==> memberships_of(r) == mask_of(
                CollisionGroup::magnet_passthrough_memberships(),
            ) && filters_of(r) == mask_of(CollisionGroup::magnet_passthrough_filters()),
    {
        match self.kind {
            TerrainKind::Wall => CollisionGroup::walls(),
            TerrainKind::MagnetPassthrough => CollisionGroup::magnet_passthrough(),
        }
    }
}

/// Every identifier in `bullets` is below `bound`.
pub open spec fn ids_below(bullets: Seq<Bullet>, bound: u64) -> bool {
    forall|i: int| 0 <= i < bullets.len() ==> (#[trigger] bullets[i]).id < bound
}

/// No two of `bullets` share an identifier.
pub open spec fn ids_distinct(bullets: Seq<Bullet>) -> bool {
    forall|i: int, j: int|
        0 <= i < j < bullets.len() ==> (#[trigger] bullets[i]).id != (#[trigger] bullets[j]).id
}

/// None of `bullets` has the identifier `id`.
pub open spec fn id_absent(bullets: Seq<Bullet>, id: u64) -> bool {
    forall|i: int| 0 <= i < bullets.len() ==> (#[trigger] bullets[i]).id != id
}

/// What is left of the lifetime of each of `bullets` is within the lifetime.
pub open spec fn lifetimes_wf(bullets: Seq<Bullet>) -> bool {
    forall|i: int| 0 <= i < bullets.len() ==> (#[trigger] bullets[i]).lifetime.wf()
}

/// Everything that the simulation keeps from tick to tick. There is room
/// for one magnet only.
pub struct World {
    pub player: Player,
    /// Where the camera looks.
    pub camera: Vec2,
    pub weapons: Vec<ShootProjectiles>,
    pub bullets: Vec<Bullet>,
    pub magnet: Option<Magnet>,
    pub terrain: Vec<Terrain>,
    /// The identifier that the next projectile gets.
    pub next_id: u64,
}

/// A [`World`] as a mathematical value.
pub struct WorldView {
    pub player: Player,
    pub camera: Vec2,
    pub weapons: Seq<ShootProjectiles>,
    pub bullets: Seq<Bullet>,
    pub magnet: Option<Magnet>,
    pub terrain: Seq<Terrain>,
    pub next_id: u64,
}

impl View for World {
    type V = WorldView;

    open spec fn view(&self) -> WorldView {
        WorldView {
            player: self.player,
            camera: self.camera,
            weapons: self.weapons@,
            bullets: self.bullets@,
            magnet: self.magnet,
            terrain: self.terrain@,
            next_id: self.next_id,
        }
    }
}

impl WorldView {
    /// No two projectiles share an identifier, and none has one that is
    /// still to be given out.
    pub open spec fn ids_wf(self) -> bool {
        &&& ids_below(self.bullets, self.next_id)
        &&& ids_distinct(self.bullets)
        &&& self.magnet matches Some(magnet) ==> magnet.id < self.next_id && id_absent(
            self.bullets,
            magnet.id,
        )
    }

    /// How many magnets there are: one or none.
    pub open spec fn magnets(self) -> nat {
        if self.magnet is Some {
            1
        } else {
            0
        }
    }

    /// Every weapon's wait is within its cooldown.
    pub open spec fn cooldowns_wf(self) -> bool {
        forall|i: int| 0 <= i < self.weapons.len() ==> (#[trigger] self.weapons[i]).cooldown.wf()
    }

    /// Every bullet's lifetime is in bounds, and the magnet carries its age
    /// exactly as long as it is not a static body.
    pub open spec fn projectiles_wf(self) -> bool {
        &&& lifetimes_wf(self.bullets)
        &&& self.magnet matches Some(magnet) ==> magnet.wf()
    }

    /// What every step of the simulation keeps true.
    pub open spec fn wf(self) -> bool {
        self.ids_wf() && self.cooldowns_wf() && self.projectiles_wf()
    }
}

/// The world after everything in a tick of length `dt` but the weapons:
/// the player moves; the magnet brakes or settles, pulls the bullets, and
/// ages; the bullets whose time is up are swept away.
pub open spec fn spec_before_shots(world: WorldView, keys: ButtonInputView, dt: u32) -> WorldView {
    let moved = spec_player_movement(world, keys, dt);
    let braked = spec_magnet_friction(moved);
    let pulled = spec_attract_bullets(braked, dt);
    let aged = spec_age_magnet(pulled, dt);
    spec_clean_projectiles(aged, dt)
}

/// The world after a tick of fixed length `dt`. The weapons come last, so
/// that what is launched in a tick is not pulled, aged or swept in it.
pub open spec fn spec_fixed_update(
    world: WorldView,
    keys: ButtonInputView,
    cursor: Option<Vec2>,
    dt: u32,
) -> WorldView {
    spec_shoot_projectiles(spec_before_shots(world, keys, dt), keys, cursor, dt)
}

/// The world after a frame: the player looks at the cursor, and the camera
/// is where the player is.
pub open spec fn spec_frame_update(world: WorldView, cursor: Option<Vec2>) -> WorldView {
    WorldView { camera: world.player.position, ..spec_watch_mouse(world, cursor) }
}

/// One tick of fixed length `dt`, with `keys` as the keyboard and `cursor`
/// as the place of the cursor in the world, if it has one. The physics
/// engine moves the bodies between two ticks.
pub fn fixed_update(world: &mut World, keys: &ButtonInput, cursor: Option<Vec2>, dt: u32)
    ensures
        final(world)@ == spec_fixed_update(old(world)@, keys@, cursor, dt),
        old(world)@.wf() ==> final(world)@.wf(),
{
    player_movement(world, keys, dt);
    magnet_friction(world);
    attract_bullets(world, dt);
    age_magnet(world, dt);
    clean_projectiles(world, dt);
    shoot_projectiles(world, keys, cursor, dt);
}

/// One frame, with `cursor` as the place of the cursor in the world, if it
/// has one.
pub fn frame_update(world: &mut World, cursor: Option<Vec2>)
    ensures
        final(world)@ == spec_frame_update(old(world)@, cursor),
        old(world)@.wf() ==> final(world)@.wf(),
{
    watch_mouse(world, cursor);
    camera_follow(world);
}

/// A tick leaves alone what it launches: after the tick, the bullets that
/// were there before the weapons' turn stand first, as the rest of the tick
/// left them; every bullet behind them is just launched, with its lifetime
/// whole; and the magnet is the one from before the weapons' turn or one
/// that is just launched and has not aged.
pub proof fn lemma_tick_leaves_the_launched_alone(
    world: WorldView,
    keys: ButtonInputView,
    cursor: Option<Vec2>,
    dt: u32,
)
    ensures
        ({
            let before = spec_before_shots(world, keys, dt);
            let after = spec_fixed_update(world, keys, cursor, dt);
            &&& after.player == before.player
            &&& after.bullets.len() >= before.bullets.len()
            &&& after.bullets.take(before.bullets.len() as int) == before.bullets
            &&& forall|k: int|
                before.bullets.len() <= k < after.bullets.len() ==> just_launched(
                    #[trigger] after.bullets[k],
                ) && before.next_id <= after.bullets[k].id < after.next_id
            &&& after.magnet == before.magnet || (after.magnet matches Some(magnet)
                && magnet_just_launched(magnet) && before.next_id <= magnet.id < after.next_id)
        }),
{
    let before = spec_before_shots(world, keys, dt);
    lemma_shoot_keeps_what_was_there(before, before.weapons.len(), keys, cursor, dt);
}

} // verus!
