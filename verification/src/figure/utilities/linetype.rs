use vstd::prelude::*;

verus! {

/// The stroke pattern of a line.
#[derive(Clone, Copy, Debug, PartialEq, Eq, Structural)]
pub enum LineType {
    /// Every point of the line is drawn.
    Solid,
    /// Points are drawn in runs of four, with gaps of four between the runs.
    Dashed,
}

impl LineType {
    /// Whether the `i`-th point of a line is drawn in this style.
    pub open spec fn draws(self, i: int) -> bool {
        match self {
            LineType::Solid => true,
            LineType::Dashed => (i / 4) % 2 == 0,
        }
    }
}

} // verus!
