//! A grid visibility library: a viewer occupies a cell on a two-dimensional
//! grid of floor and wall tiles, and the library keeps track of which cells
//! are visible from the viewer's position, recomputing that set exactly once
//! per batch of mutations.
//!
//! The core is the line-of-sight computation: given a grid of opaque and
//! transparent cells, an in-bounds origin and a radius, it produces the set
//! of visible coordinates by propagating sight outward from the origin,
//! quadrant by quadrant, with walls casting shadows over the cells behind
//! them. A dirty-flag trigger coalesces any number of grid or viewer
//! mutations into a single recomputation per scheduled check.

pub mod coords;
pub mod map;
pub mod current_position;
pub mod line_of_sight;
pub mod engine;
pub mod laws;
