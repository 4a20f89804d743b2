//! Shared drawing operations for figures, on a raster canvas of pixels and
//! on a vector canvas of shapes.

pub mod figure;
