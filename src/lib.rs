//! Verified core of a PIC/FLIP fluid solver: the bounds-checked grids, the
//! cell classification and wall rule of the staggered (MAC) grid, the spatial
//! hash used to find particles that may overlap, and pair identifiers.
pub mod collisions;
pub mod grid;
pub mod spatial_hash;
pub mod staggered_grid;
