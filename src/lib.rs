//! Spatially prioritised chunk streaming for a voxel world: the resident
//! chunk map, the load and unload queues, the demand estimator and the
//! eviction detector, all stated over integer models; with the chunk store,
//! block edits, terrain block rules, the player's inventory and the data
//! types of the noise engine and its editor.

pub mod coord;
pub mod storage;
pub mod store;
pub mod chunk;
pub mod terrain;
pub mod inventory;
pub mod ranking;
pub mod queues;
pub mod motion;
pub mod demand;
pub mod eviction;
pub mod streamer;
pub mod laws;
pub mod noise_api;
pub mod editor_strings;
pub mod workers;
pub mod edits;
pub mod faces;
