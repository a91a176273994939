//! Simulation core of a top-down arena shooter.
//!
//! A player carries weapons that fire bullets, weak bullets and a magnet.
//! The magnet pulls the bullets toward itself, slows down as it ages and
//! settles for good once it is slow. The core decides; a physics engine
//! moves the bodies and finds the contacts, and a host shows the result.
//!
//! The host keeps a [`world::World`]. In every tick of fixed length it
//! copies the positions and velocities that the engine has computed into the
//! world, calls [`world::fixed_update`], and hands the velocities, the new
//! projectiles and the removals back to the engine. In every frame it calls
//! [`world::frame_update`]. When the engine reports that a projectile has
//! begun to touch something, the host calls [`gun::on_collision_start`].
//!
//! Numbers are integers throughout. Lengths, speeds and factors count
//! millionths of a unit ([`fixed::SCALE`]); times count microseconds. No
//! function of the core panics, and none asks anything of its arguments.
//!
//! - [`fixed`] and [`vec2`]: the arithmetic.
//! - [`input`]: the keyboard as a tick sees it.
//! - [`layers`]: which kind of entity can touch which.
//! - [`body`]: how a body is set up in the physics engine.
//! - [`gun`]: cooldowns, lifetimes, firing, the sweep of expired bullets.
//! - [`magnet`]: friction, settling, aging and the pull on the bullets.
//! - [`player`]: movement from the keyboard, facing the cursor, the scene at
//!   the start.
//! - [`world`]: the state, and the order of the steps of a tick.

pub mod body;
pub mod fixed;
pub mod gun;
pub mod input;
pub mod layers;
pub mod magnet;
pub mod player;
pub mod vec2;
pub mod world;
