use vstd::prelude::*;

verus! {

/// The axis a tick value belongs to.
#[derive(Clone, Copy, Debug, PartialEq, Eq, Structural)]
pub enum AxisType {
    /// The horizontal axis: tick values sit below it, centred on the tick.
    AxisX,
    /// The vertical axis: tick values sit left of it, centred on the tick.
    AxisY,
}

} // verus!
