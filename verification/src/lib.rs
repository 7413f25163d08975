//! Server-side simulation core of a territory-control strategy game.
//!
//! Players occupy towers on a shared world grid. Towers generate units,
//! deploy forces along paths, and are upgraded through a dependency
//! lattice. This crate holds the verified core: the tower-type catalog,
//! the per-tower runtime entity, spatial identities and flood fills, and
//! the world-level player operations.

pub mod flood;
pub mod id;
pub mod math;
pub mod message;
pub mod path;
pub mod player;
mod rng;
pub mod service;
pub mod tower;
pub mod tower_type;
pub mod towerset;
pub mod unit;
pub mod units;
pub mod world;

pub use math::integer_sqrt;
