//! Chunk-streaming core for a top-down tile RPG: coordinate translation,
//! per-chunk tile maps with walkability, monster spawning from templates,
//! a chunk manager that keeps the chunks around the player resident,
//! axis-sliding movement resolution, and contact combat with respawns.
//!
//! All positions are integer world units; the presentation layer picks the
//! scale (for example, milli-pixels) and converts at the boundary.

pub mod geom;
pub mod tilemap;
pub mod monster;
pub mod player;
pub mod world;
pub mod chunks;
pub mod movement;
pub mod simulation;
pub mod biome;
pub mod color;
pub mod laws;
pub mod combat;

pub use geom::Vec2i;
