//! The voxel-world core of a block game: packed blocks, per-chunk block
//! storage, chunk regions, the chunk registry, region diffing for loaders,
//! greedy meshing and the task hand-off state machine.

pub mod types;
pub mod blocks;
pub mod world;
pub mod meshing;
pub mod task;
pub mod worldgen;
pub mod items;
pub mod render;
