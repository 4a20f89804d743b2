//! Canvases, configuration and the drawing contract of a figure.

pub mod canvas;
pub mod configuration;
pub mod drawers;
pub mod utilities;
