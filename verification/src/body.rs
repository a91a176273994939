//! What the physics engine is told about a body when the body is created.

use vstd::prelude::*;

verus! {

/// How the physics engine treats a body.
#[derive(Clone, Copy, PartialEq, Eq, Structural, Debug)]
pub enum BodyKind {
    /// Moved by forces and contacts.
    Dynamic,
    /// Moved by its velocity alone.
    Kinematic,
    /// Never moved.
    Static,
}

/// The shape of a collider, in fixed-point units.
#[derive(Clone, Copy, PartialEq, Eq, Structural, Debug)]
pub enum ColliderShape {
    Circle { radius: i64 },
    Rectangle { width: i64, height: i64 },
}

/// How a body is set up in the physics engine.
#[derive(Clone, Copy, Debug)]
pub struct BodySetup {
    pub kind: BodyKind,
    pub collider: ColliderShape,
    /// Whether the body is kept from turning.
    pub rotation_locked: bool,
    /// The share of gravity that the body feels, as a fixed-point factor.
    /// `None` leaves it to the engine.
    pub gravity_scale: Option<i64>,
    /// Whether the engine is to report when the body begins to touch
    /// another.
    pub reports_contacts: bool,
}

} // verus!
