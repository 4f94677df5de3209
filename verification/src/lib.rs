//! Per-tick combat-and-loot simulation core for an arcade survival game.
//!
//! A single player entity fends off a swarm of enemies. Each simulation tick
//! runs a fixed pipeline: movement, enemy spawning, weapon targeting,
//! collision resolution, damage application, loot drops, and animation
//! timers. Positions are plain integers in milli-units (one thousandth of a
//! world unit) and time is measured in milliseconds, so every rule of the
//! simulation is stated and proved exactly.

pub mod collision;
pub mod combat;
pub mod entities;
pub mod events;
pub mod geometry;
pub mod loot;
pub mod movement;
pub mod rng;
pub mod targeting;
pub mod timer;
pub mod wheel;
pub mod world;
