//! Voxel world engine: voxels, chunks, a chunked world with terrain
//! generation, prefabricated structures and room effects, with their
//! behaviour proved.

pub mod voxel;
pub mod chunk;
pub mod world;
pub mod terrain;
pub mod structures;
pub mod room;

pub use voxel::Voxel;
pub use chunk::{Chunk, VoxelCounts, CHUNK_SIZE, CHUNK_VOLUME};
pub use world::World;
pub use structures::{BuildPattern, build_structure};
pub use room::{apply_room_vibe, room_vibe_fits};
