# voxel_world

The decision logic of a voxel game, written in Verus and proved against its
contracts.

- `src/behavior.rs` - one frame of the floating creatures' wander and float
  actions: next action phase and the effect on the world.
- `src/turtle.rs` - the turtle that draws L-system trees: which head each
  instruction starts from, branch mismatches, and the laws of branching.
- `src/tree.rs` - where trees may grow, the short tree's productions and
  their selection, and the ball of leaves.
- `src/material.rs` - the chunk material's settings, shader flags, pipeline
  key and texture-array layers.
- `src/lattice.rs` - the integer side of trilinear lattice sampling.
- `src/queries.rs` - the SQL statements of chunk storage.

`app/` holds the engine side (ECS systems, render material, float geometry)
that calls the library; `tests/` runs the library on concrete values.
