use vstd::prelude::*;

verus! {

/// Why a drawing operation drew nothing.
#[derive(Clone, Copy, Debug, PartialEq, Eq, Structural)]
pub enum DrawError {
    /// The configuration names no font file for the text to be drawn.
    FontPathMissing,
    /// The font file could not be read.
    FontUnreadable,
    /// The font file holds no font.
    FontInvalid,
}

} // verus!
