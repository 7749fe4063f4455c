//! Conway's Game of Life on a fixed-size, non-wrapping grid.
//!
//! The crate owns the simulation core: the cell buffer with bounds-checked
//! reads and writes, the per-generation B3/S23 transition, and the
//! deterministic seeding of a catalog of well-known organisms. Rendering and
//! windowing are left to the host program.

pub mod grid;
pub mod laws;
pub mod patterns;
