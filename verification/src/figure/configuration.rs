//! What a figure is configured with.

pub mod figureconfig;
