//! Verified decision logic of a voxel world: the per-frame decisions of the
//! floating creatures' actions, the shader flags of the chunk material, the
//! L-system tree generator's branching turtle, leaf shapes and productions,
//! and the integer side of lattice sampling.

pub mod behavior;
pub mod turtle;
pub mod tree;
pub mod material;
pub mod lattice;
pub mod queries;
