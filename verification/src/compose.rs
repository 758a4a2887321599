//! The compositor: one buffer of styled glyphs for a whole frame.

use vstd::prelude::*;
use vstd::arithmetic::div_mod::lemma_fundamental_div_mod_converse;
use crate::cell::{cell_at, compose_cell, Cell, CellColor, HALF_BLOCK};
use crate::error::ConfigurationError;
use crate::escape::{cells_text, lemma_cells_text_push, push_cell};
use crate::frame::{Frame, FrameView};
use crate::style::PixelStyle;

verus! {

/// The number of terminal rows that `height` rows of samples fill: with two
/// samples per cell every second row, else every row.
pub open spec fn terminal_rows(style: PixelStyle, height: nat) -> nat {
    match style {
        PixelStyle::DoublePixel => height / 2,
        _ => height,
    }
}

/// The row of samples that the terminal row `row` is drawn from. With two
/// samples per cell it is the lower of the pair, an odd row.
pub open spec fn anchor_row(style: PixelStyle, row: int) -> int {
    match style {
        PixelStyle::DoublePixel => 2 * row + 1,
        _ => row,
    }
}

/// The position in the planes of the sample that the cell `k` of the
/// buffer is drawn from.
pub open spec fn anchor(style: PixelStyle, width: nat, k: int) -> int {
    anchor_row(style, k / (width as int)) * width + k % (width as int)
}

/// The number of cells that a frame is drawn with.
pub open spec fn cell_count(style: PixelStyle, frame: FrameView) -> nat {
    terminal_rows(style, frame.height) * frame.width
}

/// The cells of a frame, row after row.
pub open spec fn frame_cells(
    frame: FrameView,
    ramp: Seq<char>,
    colored: bool,
    style: PixelStyle,
) -> Seq<Cell> {
    Seq::new(
        cell_count(style, frame),
        |k: int| cell_at(frame, ramp, colored, style, anchor(style, frame.width, k)),
    )
}

/// The text that a frame is drawn with.
pub open spec fn frame_text(
    frame: FrameView,
    ramp: Seq<char>,
    colored: bool,
    style: PixelStyle,
) -> Seq<char> {
    cells_text(frame_cells(frame, ramp, colored, style))
}

/// The fault of a configuration, if it has one: an empty ramp, a screen
/// without columns, or a number of columns that is not the frame's width.
pub open spec fn configuration_fault(frame: FrameView, ramp: Seq<char>, cols: nat) -> Option<
    ConfigurationError,
> {
    if ramp.len() == 0 {
        Some(ConfigurationError::EmptyRamp)
    } else if cols == 0 {
        Some(ConfigurationError::NoColumns)
    } else if cols != frame.width {
        Some(ConfigurationError::StrideMismatch)
    } else {
        None
    }
}

/// The cell at column `col` of the terminal row `row` is the cell
/// `row * width + col` of the buffer.
proof fn lemma_cell_position(style: PixelStyle, width: nat, rows: nat, row: nat, col: nat)
    requires
        row < rows,
        col < width,
    ensures
        row * width + col < rows * width,
        anchor(style, width, (row * width + col) as int) == anchor_row(style, row as int) * width
            + col,
{
    lemma_fundamental_div_mod_converse(
        (row * width + col) as int,
        width as int,
        row as int,
        col as int,
    );
    assert((row + 1) * width <= rows * width) by (nonlinear_arith)
        requires
            row + 1 <= rows,
    ;
    assert((row + 1) * width == row * width + width) by (nonlinear_arith);
}

/// With two samples per cell, a frame of `height` rows is drawn in
/// `height / 2` terminal rows, and every cell is drawn from an odd row and
/// the row above it, at the cell's column: the lower sample gives the
/// foreground, the upper one the background, and the first row is never
/// the lower one of a pair.
pub proof fn lemma_double_pixel_rows(frame: FrameView, ramp: Seq<char>, colored: bool)
    requires
        frame.wf(),
    ensures
        terminal_rows(PixelStyle::DoublePixel, frame.height) == frame.height / 2,
        frame_cells(frame, ramp, colored, PixelStyle::DoublePixel).len() == (frame.height / 2)
            * frame.width,
        forall|k: int|
            #![trigger anchor(PixelStyle::DoublePixel, frame.width, k)]
            0 <= k < frame_cells(frame, ramp, colored, PixelStyle::DoublePixel).len() ==> {
                let i = anchor(PixelStyle::DoublePixel, frame.width, k);
                &&& frame.width <= i < frame.len()
                &&& (i / (frame.width as int)) % 2 == 1
                &&& i % (frame.width as int) == k % (frame.width as int)
                &&& frame_cells(frame, ramp, colored, PixelStyle::DoublePixel)[k] == (Cell {
                    fg: CellColor::Rgb(frame.color_at(colored, i)),
                    bg: CellColor::Rgb(frame.color_at(colored, i - frame.width)),
                    glyph: HALF_BLOCK,
                })
            },
{
    let width = frame.width;
    let rows = frame.height / 2;
    assert forall|k: int| 0 <= k < rows * width implies {
        let i = #[trigger] anchor(PixelStyle::DoublePixel, width, k);
        &&& width <= i < frame.len()
        &&& (i / (width as int)) % 2 == 1
        &&& i % (width as int) == k % (width as int)
        &&& frame_cells(frame, ramp, colored, PixelStyle::DoublePixel)[k] == (Cell {
            fg: CellColor::Rgb(frame.color_at(colored, i)),
            bg: CellColor::Rgb(frame.color_at(colored, i - width)),
            glyph: HALF_BLOCK,
        })
    } by {
        if width == 0 {
            assert(rows * width == 0) by (nonlinear_arith)
                requires
                    width == 0,
            ;
        } else {
            let row = k / (width as int);
            let col = k % (width as int);
            vstd::arithmetic::div_mod::lemma_fundamental_div_mod(k, width as int);
            vstd::arithmetic::div_mod::lemma_mod_bound(k, width as int);
            assert(0 <= row < rows) by (nonlinear_arith)
                requires
                    0 <= k < rows * width,
                    k == width * row + col,
                    0 <= col < width,
            ;
            let i = anchor(PixelStyle::DoublePixel, width, k);
            lemma_fundamental_div_mod_converse(i, width as int, 2 * row + 1, col);
            assert((2 * row + 1) * width >= width) by (nonlinear_arith)
                requires
                    row >= 0,
                    width >= 0,
            ;
            assert((2 * row + 1) * width + col < frame.height * width) by (nonlinear_arith)
                requires
                    2 * row + 1 < frame.height,
                    0 <= col < width,
            ;
            assert(frame.height * width == width * frame.height) by (nonlinear_arith);
        }
    }
}

/// With a solid block per sample, every cell has its foreground as its
/// background, and a space as its glyph.
pub proof fn lemma_pixel_cells_are_solid(frame: FrameView, ramp: Seq<char>, colored: bool)
    ensures
        forall|k: int|
            0 <= k < frame_cells(frame, ramp, colored, PixelStyle::Pixel).len() ==> {
                let cell = #[trigger] frame_cells(frame, ramp, colored, PixelStyle::Pixel)[k];
                cell.fg == cell.bg && cell.glyph == ' '
            },
{
}

/// Draws a whole frame into a fresh buffer, cell after cell and row after
/// row, or reports the fault of the configuration without drawing anything.
pub fn render_frame(
    frame: &Frame,
    display_chars: &[char],
    colored: bool,
    pixel_style: PixelStyle,
    cols: u16,
) -> (out: Result<String, ConfigurationError>)
    ensures
        match out {
            Ok(buf) => {
                &&& configuration_fault(frame@, display_chars@, cols as nat) is None
                &&& buf@ == frame_text(frame@, display_chars@, colored, pixel_style)
            },
            Err(e) => configuration_fault(frame@, display_chars@, cols as nat) == Some(e),
        },
{
    if display_chars.len() == 0 {
        return Err(ConfigurationError::EmptyRamp);
    }
    if cols == 0 {
        return Err(ConfigurationError::NoColumns);
    }
    let width: usize = frame.width();
    let height: usize = frame.height();
    if cols as usize != width {
        return Err(ConfigurationError::StrideMismatch);
    }
    let samples: usize = frame.samples();
    assert(samples == height * width) by (nonlinear_arith)
        requires
            samples == width * height,
    ;
    let ghost cells = frame_cells(frame@, display_chars@, colored, pixel_style);
    let ghost rows = terminal_rows(pixel_style, height as nat);
    let mut buf = String::new();
    let mut row: usize = 0;
    while row < height
        invariant
            row <= height,
            width == frame@.width,
            height == frame@.height,
            width >= 1,
            frame@.wf(),
            samples == height * width,
            samples == frame@.len(),
            display_chars@.len() >= 1,
            cells == frame_cells(frame@, display_chars@, colored, pixel_style),
            rows == terminal_rows(pixel_style, height as nat),
            terminal_rows(pixel_style, row as nat) <= rows,
            buf@ == cells_text(cells.take(terminal_rows(pixel_style, row as nat) * width)),
        decreases height - row,
    {
        let ghost done = terminal_rows(pixel_style, row as nat);
        if pixel_style == PixelStyle::DoublePixel && row % 2 != 1 {
            // The upper row of a pair: it is drawn with the row below it.
        } else {
            let mut col: usize = 0;
            proof {
                lemma_cell_position(pixel_style, width as nat, rows, done, 0);
            }
            while col < width
                invariant
                    col <= width,
                    row < height,
                    width == frame@.width,
                    height == frame@.height,
                    frame@.wf(),
                    samples == height * width,
                    samples == frame@.len(),
                    display_chars@.len() >= 1,
                    cells == frame_cells(frame@, display_chars@, colored, pixel_style),
                    rows == terminal_rows(pixel_style, height as nat),
                    done == terminal_rows(pixel_style, row as nat),
                    done < rows,
                    anchor_row(pixel_style, done as int) == row,
                    buf@ == cells_text(cells.take(done * width + col)),
                decreases width - col,
            {
                proof {
                    lemma_cell_position(pixel_style, width as nat, rows, done, col as nat);
                    lemma_cell_position(
                        pixel_style,
                        width as nat,
                        height as nat,
                        row as nat,
                        col as nat,
                    );
                    if row >= 1 {
                        assert(row * width >= width) by (nonlinear_arith)
                            requires
                                row >= 1,
                        ;
                    }
                }
                let i: usize = row * width + col;
                let cell = compose_cell(frame, display_chars, colored, pixel_style, i);
                push_cell(&mut buf, &cell);
                proof {
                    let k = done * width + col;
                    assert(cells.take(k + 1) =~= cells.take(k).push(cell));
                    lemma_cells_text_push(cells.take(k), cell);
                }
                col += 1;
            }
            assert((done + 1) * width == done * width + width) by (nonlinear_arith);
        }
        row += 1;
    }
    assert(cells.take(cells.len() as int) =~= cells);
    Ok(buf)
}

} // verus!
