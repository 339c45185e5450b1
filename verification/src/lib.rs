//! The level of a voxel world: which chunks are in memory, who watches them,
//! which entity chunks are still to be generated, and which ticks are due.

pub mod blocks;
pub mod chunk_map;
pub mod cleaning;
pub mod entity;
pub mod fetch;
pub mod folder;
pub mod level;
pub mod math;
pub mod memory;
pub mod shutdown;
pub mod threads;
pub mod tick;
pub mod watch;
