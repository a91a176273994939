//! Collision layers: which category of entity may touch which.
//!
//! The physics engine decides from two bit masks per entity, its memberships
//! and its filters, whether a pair of entities is considered for contact.
//! This module fixes those masks for each category of entity in the game.

use vstd::prelude::*;
use avian2d::prelude::CollisionLayers;

verus! {

/// `avian2d`'s `CollisionLayers`: two sets of layers, each held as a mask of
/// bits. What a value holds is named by [`memberships_of`] and
/// [`filters_of`].
#[verifier::external_type_specification]
#[verifier::external_body]
pub struct ExCollisionLayers(CollisionLayers);

/// The layers that an entity with `layers` belongs to: the bits of the
/// public field `memberships` of `avian2d`'s `CollisionLayers`.
pub uninterp spec fn memberships_of(layers: CollisionLayers) -> u32;

/// The layers that an entity with `layers` may touch: the bits of the
/// public field `filters` of `avian2d`'s `CollisionLayers`.
pub uninterp spec fn filters_of(layers: CollisionLayers) -> u32;

/// `avian2d`'s `CollisionLayers::from_bits` returns the value whose
/// memberships and filters are its two arguments, bit for bit.
pub assume_specification[ CollisionLayers::from_bits ](memberships: u32, filters: u32) -> (r:
    CollisionLayers)
    ensures
        memberships_of(r) == memberships,
        filters_of(r) == filters,
;

/// `avian2d`'s `CollisionLayers::interacts_with` returns `true` exactly when
/// each of the two has a membership among the other's filters.
pub assume_specification[ CollisionLayers::interacts_with ](
    a: CollisionLayers,
    b: CollisionLayers,
) -> (r: bool)
    ensures
        r == interacts(a, b),
;

/// Whether the physics engine considers the pair for contact: each has a
/// membership that the other's filters admit.
pub open spec fn interacts(a: CollisionLayers, b: CollisionLayers) -> bool {
    (memberships_of(a) & filters_of(b)) != 0 && (memberships_of(b) & filters_of(a)) != 0
}

/// The named layers. Each owns one bit, in the order of declaration.
#[derive(Clone, Copy, PartialEq, Eq, Structural, Debug)]
pub enum GameLayer {
    Default,
    Player,
    Walls,
    Magnet,
    Projectiles,
    Bullets,
    MagnetPassthrough,
}

impl GameLayer {
    /// The layer's bit.
    pub open spec fn spec_to_bits(&self) -> u32 {
        match self {
            GameLayer::Default => 1,
            GameLayer::Player => 2,
            GameLayer::Walls => 4,
            GameLayer::Magnet => 8,
            GameLayer::Projectiles => 16,
            GameLayer::Bullets => 32,
            GameLayer::MagnetPassthrough => 64,
        }
    }

    /// The bits of all seven layers together.
    pub open spec fn spec_all_bits() -> u32 {
        127
    }

    #[verifier::when_used_as_spec(spec_to_bits)]
    pub fn to_bits(&self) -> (r: u32)
        ensures
            r == self.spec_to_bits(),
    {
        match self {
            GameLayer::Default => 1,
            GameLayer::Player => 2,
            GameLayer::Walls => 4,
            GameLayer::Magnet => 8,
            GameLayer::Projectiles => 16,
            GameLayer::Bullets => 32,
            GameLayer::MagnetPassthrough => 64,
        }
    }

    #[verifier::when_used_as_spec(spec_all_bits)]
    pub fn all_bits() -> (r: u32)
        ensures
            r == GameLayer::spec_all_bits(),
            r == mask_of(Set::full()),
    {
        127
    }
}

impl Default for GameLayer {
    fn default() -> (r: GameLayer)
        ensures
            r == GameLayer::Default,
    {
        GameLayer::Default
    }
}

/// The bit of `layer` if `layers` holds it, else no bit.
pub open spec fn bit_in(layers: Set<GameLayer>, layer: GameLayer) -> int {
    if layers.contains(layer) {
        layer.spec_to_bits() as int
    } else {
        0
    }
}

/// The mask that has exactly the bits of the layers in `layers`.
pub open spec fn mask_of(layers: Set<GameLayer>) -> u32 {
    (bit_in(layers, GameLayer::Default) + bit_in(layers, GameLayer::Player) + bit_in(
        layers,
        GameLayer::Walls,
    ) + bit_in(layers, GameLayer::Magnet) + bit_in(layers, GameLayer::Projectiles) + bit_in(
        layers,
        GameLayer::Bullets,
    ) + bit_in(layers, GameLayer::MagnetPassthrough)) as u32
}

/// The layers of each category of entity.
pub struct CollisionGroup;

impl CollisionGroup {
    /// The layers that the player belongs to.
    pub open spec fn player_memberships() -> Set<GameLayer> {
        set![GameLayer::Player]
    }

    /// The layers that the player touches.
    pub open spec fn player_filters() -> Set<GameLayer> {
        set![GameLayer::Default, GameLayer::Walls, GameLayer::Magnet, GameLayer::MagnetPassthrough]
    }

    /// The layers that a magnet belongs to.
    pub open spec fn magnet_memberships() -> Set<GameLayer> {
        set![GameLayer::Magnet, GameLayer::Projectiles]
    }

    /// The layers that a magnet touches.
    pub open spec fn magnet_filters() -> Set<GameLayer> {
        set![
            GameLayer::Default,
            GameLayer::Walls,
            GameLayer::Projectiles,
            GameLayer::Player,
            GameLayer::Bullets,
        ]
    }

    /// The layers that a bullet belongs to.
    pub open spec fn bullet_memberships() -> Set<GameLayer> {
        set![GameLayer::Bullets, GameLayer::Projectiles]
    }

    /// The layers that a bullet touches.
    pub open spec fn bullet_filters() -> Set<GameLayer> {
        set![
            GameLayer::Default,
            GameLayer::Walls,
            GameLayer::Projectiles,
            GameLayer::MagnetPassthrough,
        ]
    }

    /// The layers that terrain which lets magnets through belongs to.
    pub open spec fn magnet_passthrough_memberships() -> Set<GameLayer> {
        set![GameLayer::MagnetPassthrough]
    }

    /// The layers that terrain which lets magnets through touches.
    pub open spec fn magnet_passthrough_filters() -> Set<GameLayer> {
        set![
            GameLayer::Default,
            GameLayer::Walls,
            GameLayer::Projectiles,
            GameLayer::Player,
            GameLayer::Bullets,
        ]
    }

    /// The layers that a wall belongs to.
    pub open spec fn walls_memberships() -> Set<GameLayer> {
        set![GameLayer::Walls]
    }

    /// A wall touches every layer.
    pub open spec fn walls_filters() -> Set<GameLayer> {
        Set::full()
    }

    pub fn player() -> (r: CollisionLayers)
        ensures
            memberships_of(r) == mask_of(Self::player_memberships()),
            filters_of(r) == mask_of(Self::player_filters()),
    {
        let memberships: u32 = GameLayer::Player.to_bits();
        let filters: u32 = GameLayer::Default.to_bits() | GameLayer::Walls.to_bits()
            | GameLayer::Magnet.to_bits() | GameLayer::MagnetPassthrough.to_bits();
        assert(1u32 | 4u32 | 8u32 | 64u32 == 77u32) by (bit_vector);
        CollisionLayers::from_bits(memberships, filters)
    }

    pub fn magnet() -> (r: CollisionLayers)
        ensures
            memberships_of(r) == mask_of(Self::magnet_memberships()),
            filters_of(r) == mask_of(Self::magnet_filters()),
    {
        let memberships: u32 = GameLayer::Magnet.to_bits() | GameLayer::Projectiles.to_bits();
        let filters: u32 = GameLayer::Default.to_bits() | GameLayer::Walls.to_bits()
            | GameLayer::Projectiles.to_bits() | GameLayer::Player.to_bits()
            | GameLayer::Bullets.to_bits();
        assert(8u32 | 16u32 == 24u32) by (bit_vector);
        assert(1u32 | 4u32 | 16u32 | 2u32 | 32u32 == 55u32) by (bit_vector);
        CollisionLayers::from_bits(memberships, filters)
    }

    pub fn bullet() -> (r: CollisionLayers)
        ensures
            memberships_of(r) == mask_of(Self::bullet_memberships()),
            filters_of(r) == mask_of(Self::bullet_filters()),
    {
        let memberships: u32 = GameLayer::Bullets.to_bits() | GameLayer::Projectiles.to_bits();
        let filters: u32 = GameLayer::Default.to_bits() | GameLayer::Walls.to_bits()
            | GameLayer::Projectiles.to_bits() | GameLayer::MagnetPassthrough.to_bits();
        assert(32u32 | 16u32 == 48u32) by (bit_vector);
        assert(1u32 | 4u32 | 16u32 | 64u32 == 85u32) by (bit_vector);
        CollisionLayers::from_bits(memberships, filters)
    }

    pub fn magnet_passthrough() -> (r: CollisionLayers)
        ensures
            memberships_of(r) == mask_of(Self::magnet_passthrough_memberships()),
            filters_of(r) == mask_of(Self::magnet_passthrough_filters()),
    {
        let memberships: u32 = GameLayer::MagnetPassthrough.to_bits();
        let filters: u32 = GameLayer::Default.to_bits() | GameLayer::Walls.to_bits()
            | GameLayer::Projectiles.to_bits() | GameLayer::Player.to_bits()
            | GameLayer::Bullets.to_bits();
        assert(1u32 | 4u32 | 16u32 | 2u32 | 32u32 == 55u32) by (bit_vector);
        CollisionLayers::from_bits(memberships, filters)
    }

    pub fn walls() -> (r: CollisionLayers)
        ensures
            memberships_of(r) == mask_of(Self::walls_memberships()),
            filters_of(r) == mask_of(Self::walls_filters()),
    {
        let memberships: u32 = GameLayer::Walls.to_bits();
        let filters: u32 = GameLayer::all_bits();
        CollisionLayers::from_bits(memberships, filters)
    }

    /// Whether the physics engine considers a pair with these layers for
    /// contact.
    pub fn interact(a: CollisionLayers, b: CollisionLayers) -> (r: bool)
        ensures
            r == interacts(a, b),
    {
        a.interacts_with(b)
    }
}

/// A bullet and the player never touch: no entity with the bullet's layers
/// is considered for contact with one that has the player's layers.
pub proof fn lemma_bullet_passes_player(bullet: CollisionLayers, player: CollisionLayers)
    requires
        memberships_of(bullet) == mask_of(CollisionGroup::bullet_memberships()),
        filters_of(bullet) == mask_of(CollisionGroup::bullet_filters()),
        memberships_of(player) == mask_of(CollisionGroup::player_memberships()),
        filters_of(player) == mask_of(CollisionGroup::player_filters()),
    ensures
        !interacts(bullet, player),
        !interacts(player, bullet),
{
    assert(48u32 & 77u32 == 0u32) by (bit_vector);
    assert(2u32 & 85u32 == 0u32) by (bit_vector);
}

/// A magnet and the player touch: an entity with the magnet's layers is
/// considered for contact with one that has the player's layers.
pub proof fn lemma_magnet_hits_player(magnet: CollisionLayers, player: CollisionLayers)
    requires
        memberships_of(magnet) == mask_of(CollisionGroup::magnet_memberships()),
        filters_of(magnet) == mask_of(CollisionGroup::magnet_filters()),
        memberships_of(player) == mask_of(CollisionGroup::player_memberships()),
        filters_of(player) == mask_of(CollisionGroup::player_filters()),
    ensures
        interacts(magnet, player),
        interacts(player, magnet),
{
    assert(24u32 & 77u32 == 8u32) by (bit_vector);
    assert(2u32 & 55u32 == 2u32) by (bit_vector);
}

/// Magnets pass through the terrain made for it, while bullets and the
/// player touch it.
pub proof fn lemma_magnet_passthrough(
    terrain: CollisionLayers,
    magnet: CollisionLayers,
    bullet: CollisionLayers,
    player: CollisionLayers,
)
    requires
        memberships_of(terrain) == mask_of(CollisionGroup::magnet_passthrough_memberships()),
        filters_of(terrain) == mask_of(CollisionGroup::magnet_passthrough_filters()),
        memberships_of(magnet) == mask_of(CollisionGroup::magnet_memberships()),
        filters_of(magnet) == mask_of(CollisionGroup::magnet_filters()),
        memberships_of(bullet) == mask_of(CollisionGroup::bullet_memberships()),
        filters_of(bullet) == mask_of(CollisionGroup::bullet_filters()),
        memberships_of(player) == mask_of(CollisionGroup::player_memberships()),
        filters_of(player) == mask_of(CollisionGroup::player_filters()),
    ensures
        !interacts(magnet, terrain),
        interacts(bullet, terrain),
        interacts(player, terrain),
{
    assert(64u32 & 55u32 == 0u32) by (bit_vector);
    assert(48u32 & 55u32 == 48u32) by (bit_vector);
    assert(64u32 & 85u32 == 64u32) by (bit_vector);
    assert(2u32 & 55u32 == 2u32) by (bit_vector);
    assert(64u32 & 77u32 == 64u32) by (bit_vector);
}

} // verus!
