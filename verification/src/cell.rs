//! Terminal cells, and the cell that each rendering strategy draws.

use vstd::prelude::*;
use crate::color::Rgb;
use crate::frame::{Frame, FrameView};
use crate::ramp::{get_item_from_brightness, ramp_index};
use crate::style::PixelStyle;

verus! {

/// The glyph whose lower half takes the foreground colour and whose upper
/// half shows the background.
pub const HALF_BLOCK: char = '\u{2584}';

/// A colour of a cell: the terminal's black, or a 24-bit colour.
#[derive(Clone, Copy, Debug, PartialEq, Eq, Structural)]
pub enum CellColor {
    Black,
    Rgb(Rgb),
}

/// What is drawn in one terminal cell.
#[derive(Clone, Copy, Debug, PartialEq, Eq, Structural)]
pub struct Cell {
    pub fg: CellColor,
    pub bg: CellColor,
    pub glyph: char,
}

/// The cell that `style` draws for the sample at position `i` of the planes.
/// With two samples per cell, `i` is the lower one, and the one above it
/// lies a row earlier.
pub open spec fn cell_at(
    frame: FrameView,
    ramp: Seq<char>,
    colored: bool,
    style: PixelStyle,
    i: int,
) -> Cell {
    let color = CellColor::Rgb(frame.color_at(colored, i));
    match style {
        PixelStyle::Char => Cell {
            fg: color,
            bg: CellColor::Black,
            glyph: ramp[ramp_index(frame.y[i] as int, ramp.len() as int)],
        },
        PixelStyle::Pixel => Cell { fg: color, bg: color, glyph: ' ' },
        PixelStyle::DoublePixel => Cell {
            fg: color,
            bg: CellColor::Rgb(frame.color_at(colored, i - frame.width)),
            glyph: HALF_BLOCK,
        },
    }
}

/// Draws the cell of the sample at position `i`.
pub fn compose_cell(
    frame: &Frame,
    display_chars: &[char],
    colored: bool,
    pixel_style: PixelStyle,
    i: usize,
) -> (cell: Cell)
    requires
        pixel_style == PixelStyle::Char ==> display_chars@.len() >= 1,
        i < frame@.len(),
        pixel_style == PixelStyle::DoublePixel ==> i >= frame@.width,
    ensures
        cell == cell_at(frame@, display_chars@, colored, pixel_style, i as int),
{
    let color = CellColor::Rgb(frame.color(colored, i));
    match pixel_style {
        PixelStyle::Char => {
            let luma: u8 = frame.luma(i);
            Cell {
                fg: color,
                bg: CellColor::Black,
                glyph: get_item_from_brightness(&luma, display_chars),
            }
        },
        PixelStyle::Pixel => Cell { fg: color, bg: color, glyph: ' ' },
        PixelStyle::DoublePixel => {
            let above: usize = i - frame.width();
            Cell { fg: color, bg: CellColor::Rgb(frame.color(colored, above)), glyph: HALF_BLOCK }
        },
    }
}

} // verus!
