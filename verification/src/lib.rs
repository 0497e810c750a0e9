//! Voxel volumes and their cube meshes.
//!
//! A volume is a flat sequence of occupancy flags over a square footprint of
//! `chunk_size` by `chunk_size` cells and `max_height` layers. The crate
//! thresholds noise levels into such a volume and turns every occupied cell
//! into the six faces of a unit cube, as parallel position, normal and colour
//! buffers that a renderer can take over as a triangle list.

pub mod cube;
pub mod error;
pub mod grid;
pub mod level;
pub mod mesh_instance;
pub mod palette;
pub mod volume;
