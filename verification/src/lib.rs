pub mod ao;
pub mod collider;
pub mod coverage;
pub mod file_name;
pub mod generator;
pub mod geometry;
pub mod mesher;
pub mod plugin;
pub mod quads;
pub mod save_load;
pub mod store;
pub mod streamer;
pub mod tracker;
pub mod voxel;
