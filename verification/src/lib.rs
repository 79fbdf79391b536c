//! Redstone wire: connectivity, power and update scheduling in a voxel world.

pub mod text;
pub mod geometry;
pub mod wire_side;
pub mod wire;
pub mod block;
pub mod plot;
pub mod turbo;
pub mod lemmas;
pub mod propagation;
pub mod commands;
