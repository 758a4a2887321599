//! The rendering strategies and the way a picture is fitted to the screen.

use vstd::prelude::*;

verus! {

/// How one terminal cell is drawn from the picture.
#[derive(Clone, Copy, Debug, PartialEq, Eq, Structural)]
pub enum PixelStyle {
    /// One sample per cell: a glyph of the ramp in the sample's colour, on black.
    Char,
    /// One sample per cell: a solid block in the sample's colour.
    Pixel,
    /// Two samples per cell, one above the other, drawn with a half block.
    DoublePixel,
}

/// How a picture whose shape differs from the screen's is fitted to it.
#[derive(Clone, Copy, Debug, PartialEq, Eq, Structural)]
pub enum DisplayMode {
    /// The whole picture is shown, with bars on the sides left over.
    Pad,
    /// The screen is filled, and what sticks out is cut off.
    Crop,
}

impl DisplayMode {
    /// The name the mode is written with.
    pub open spec fn name(self) -> Seq<char> {
        match self {
            DisplayMode::Pad => seq!['p', 'a', 'd'],
            DisplayMode::Crop => seq!['c', 'r', 'o', 'p'],
        }
    }

    /// The name the mode is written with: `pad` or `crop`.
    pub fn as_str(&self) -> (s: &'static str)
        ensures
            s@ == self.name(),
    {
        match self {
            DisplayMode::Pad => {
                proof {
                    reveal_strlit("pad");
                }
                "pad"
            },
            DisplayMode::Crop => {
                proof {
                    reveal_strlit("crop");
                }
                "crop"
            },
        }
    }
}

} // verus!
