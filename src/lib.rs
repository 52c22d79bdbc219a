//! Storage and update logic for Conway's Game of Life: a dense 8×8 block,
//! a flat bounded grid, a growable quadtree of blocks, the generation
//! update rule, the double-buffered generation store, and the control state
//! and scheduling decisions of the simulation and render loops.

pub mod game;
pub mod generation;
pub mod life_matrix;
pub mod matrix;
