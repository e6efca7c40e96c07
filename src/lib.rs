//! Horde spatial store and combat resolution for a top-down arena game.
//!
//! All quantities are integers: positions are fixed-point world units,
//! times are microseconds, and health and damage are whole points.

pub mod arms;
pub mod damage;
pub mod enemies;
pub mod errors;
pub mod geometry;
pub mod input;
pub mod model;
pub mod player;
pub mod proximity;
pub mod renderer;
pub mod rolls;
pub mod weapons;
pub mod world;
