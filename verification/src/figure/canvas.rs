//! The two drawing surfaces and their ghost models.

pub mod geometry;
pub mod pixelcanvas;
pub mod raster;
pub mod svgcanvas;
