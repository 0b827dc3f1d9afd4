//! Freehand stylus ink on a fixed sudoku grid: pointer state tracking,
//! stroke tessellation, grid-masked rasterization, and refresh scheduling.

pub mod geometry;
pub mod grid;
pub mod raster;
pub mod session;
