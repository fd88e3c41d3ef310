//! Chunks, regions of chunks, the chunk registry and the loaders that keep
//! regions of it resident.

pub mod chunk;
pub mod chunk_loader;
pub mod chunk_map;
pub mod chunk_region;
pub mod dirty_queue;
pub mod locked_chunk_area;
pub mod world;

pub use chunk::{Chunk, ChunkData};
pub use chunk_loader::{region_difference, ChunkLoader, LoaderUpdate};
pub use chunk_region::{ChunkRegion, ChunkRegionIterator};
pub use dirty_queue::DirtyQueue;
pub use locked_chunk_area::LockedChunkArea;
pub use world::{ChunkLoad, ChunkUnload, RemeshJob, World, WorldView};
