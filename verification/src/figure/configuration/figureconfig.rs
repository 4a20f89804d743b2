use vstd::prelude::*;

verus! {

/// The settings of one figure. The drawing operations only read it.
#[derive(Clone, Debug)]
pub struct FigureConfig {
    /// Width of the figure, in device units.
    pub figure_width: u32,
    /// Height of the figure, in device units.
    pub figure_height: u32,
    /// Width of the border kept free around the plot.
    pub margin: u32,
    /// Colour of the plot's background.
    pub color_background: [u8; 3],
    /// Colour of the title.
    pub color_title: [u8; 3],
    /// Colour of axis lines, labels and tick values.
    pub color_axis: [u8; 3],
    /// Colour of grid lines.
    pub color_grid: [u8; 3],
    /// Number of horizontal grid lines.
    pub num_grid_horizontal: u32,
    /// Number of vertical grid lines.
    pub num_grid_vertical: u32,
    /// Path of the font file for the title, if one is set.
    pub font_title: Option<String>,
    /// Path of the font file for labels and tick values, if one is set.
    pub font_label: Option<String>,
    /// Size of the title's text, in whole pixels.
    pub font_size_title: u32,
    /// Size of a label's text, in whole pixels.
    pub font_size_label: u32,
    /// Size of a tick value's text, in whole pixels.
    pub font_size_axis: u32,
}

} // verus!
