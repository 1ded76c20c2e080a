//! Core of a top-down survival-combat simulation: a player fends off
//! escalating waves of pursuing enemies with a cooldown-gated ranged weapon,
//! collects experience orbs, and the run ends when player health reaches zero.
//!
//! The library is the combat-and-progression loop itself: wave spawning, enemy
//! pursuit and attacks, projectile lifecycle and hit resolution, deferred
//! damage application, experience pickup, and the top-level game-state
//! machine. Rendering, input devices, UI widgets and the rigid-body physics
//! engine are external collaborators: positions integrated by physics,
//! contact pairs and spatial-query results enter each tick as plain values,
//! and velocities computed here are read back out of the entity store.
//!
//! All geometry is in integer world units and all time is in integer
//! milliseconds, so every tick is exact and deterministic.

pub mod damage;
pub mod enemy;
pub mod geom;
pub mod guns;
pub mod player;
pub mod store;
pub mod timer;
pub mod world;
