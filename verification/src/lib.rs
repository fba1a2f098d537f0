//! Verified core of the RTGC driving-game engine: the pieces of its logic that
//! work on integers, booleans, strings and collections.

pub mod arena_allocator;
pub mod mission_system;
pub mod save_system;
pub mod ecs;
pub mod terrain_generator;
pub mod menu;
pub mod hud;
pub mod input;
pub mod rhi;
pub mod opengl;
pub mod audio;
pub mod spatial_hash;
