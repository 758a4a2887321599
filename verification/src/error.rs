//! What can be wrong with the configuration of a rendering run.

use vstd::prelude::*;

verus! {

/// A fault of the configuration, found before anything is drawn.
#[derive(Clone, Copy, Debug, PartialEq, Eq, Structural)]
pub enum ConfigurationError {
    /// A plane of a frame does not hold `width * height` samples.
    PlaneSize,
    /// The glyph ramp holds no glyph.
    EmptyRamp,
    /// The screen has no column.
    NoColumns,
    /// The number of columns is not the length of a row of the frame.
    StrideMismatch,
}

} // verus!
