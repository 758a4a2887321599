//! The escape codes that style a cell, and their emission into a buffer.

use vstd::prelude::*;
use vstd::utf8::{encode_scalar, encode_utf8, is_ascii_chars, is_ascii_chars_encode_utf8};
use crate::cell::{Cell, CellColor};
use crate::text::{decimal, lemma_decimal_digits};

verus! {

/// The code of a colour, as it follows the `3` of a foreground or the `4` of
/// a background: `0` for black, `8;2;R;G;B` for a 24-bit colour.
pub open spec fn color_code(color: CellColor) -> Seq<char> {
    match color {
        CellColor::Black => seq!['0'],
        CellColor::Rgb(c) => seq!['8', ';', '2', ';'] + decimal(c.r as nat) + seq![';'] + decimal(
            c.g as nat,
        ) + seq![';'] + decimal(c.b as nat),
    }
}

/// The escape sequence that sets the background to `bg` and the foreground
/// to `fg`: `ESC [ 4<bg> ; 3<fg> m`.
pub open spec fn style_prefix(fg: CellColor, bg: CellColor) -> Seq<char> {
    seq!['\x1B', '[', '4'] + color_code(bg) + seq![';', '3'] + color_code(fg) + seq!['m']
}

/// The text of a cell: its style, then its glyph.
pub open spec fn cell_text(cell: Cell) -> Seq<char> {
    style_prefix(cell.fg, cell.bg).push(cell.glyph)
}

/// The text of a run of cells, one after the other.
pub open spec fn cells_text(cells: Seq<Cell>) -> Seq<char>
    decreases cells.len(),
{
    if cells.len() == 0 {
        Seq::<char>::empty()
    } else {
        cells_text(cells.drop_last()) + cell_text(cells.last())
    }
}

/// `yansi::Style::fmt_prefix`, called on a style that has `fg` as its
/// foreground, `bg` as its background and no other property, with the
/// buffer as the place to write to. The contract claims what the method
/// writes for such a style: the introducer `ESC [`, a `4` and the code of
/// the background, a `;`, a `3` and the code of the foreground, and a
/// closing `m`, where the code of black is `0` and that of a 24-bit colour
/// is `8;2;` and its three components in decimal, with `;` between them.
/// The method writes this whether painting is switched on or off. It hands
/// on the errors of the place it writes to; a `String` gives none, so the
/// buffer always grows by the whole sequence.
#[verifier::external_body]
fn write_style_prefix(buf: &mut String, fg: CellColor, bg: CellColor)
    ensures
        final(buf)@ == old(buf)@ + style_prefix(fg, bg),
{
    let fg = match fg {
        CellColor::Black => yansi::Color::Black,
        CellColor::Rgb(c) => yansi::Color::RGB(c.r, c.g, c.b),
    };
    let bg = match bg {
        CellColor::Black => yansi::Color::Black,
        CellColor::Rgb(c) => yansi::Color::RGB(c.r, c.g, c.b),
    };
    let _ = yansi::Style::new(fg).bg(bg).fmt_prefix(buf);
}

/// Appends a cell to the buffer: the style first, then the glyph.
pub fn push_cell(buf: &mut String, cell: &Cell)
    ensures
        final(buf)@ == old(buf)@ + cell_text(*cell),
{
    write_style_prefix(buf, cell.fg, cell.bg);
    buf.push(cell.glyph);
}

/// The text of a run of cells grows by the text of a cell appended to it.
pub proof fn lemma_cells_text_push(cells: Seq<Cell>, cell: Cell)
    ensures
        cells_text(cells.push(cell)) == cells_text(cells) + cell_text(cell),
{
    assert(cells.push(cell).drop_last() =~= cells);
}

/// At position `i` of `s` stands `ESC [ ?`, the opening of a private mode
/// sequence such as the markers of a synchronized update.
pub open spec fn opens_private_mode(s: Seq<u8>, i: int) -> bool {
    &&& 0 <= i
    &&& i + 2 < s.len()
    &&& s[i] == 0x1B
    &&& s[i + 1] == 0x5B
    &&& s[i + 2] == 0x3F
}

/// Nowhere in `s` stands the opening of a private mode sequence.
pub open spec fn free_of_private_mode(s: Seq<u8>) -> bool {
    forall|i: int| !#[trigger] opens_private_mode(s, i)
}

/// A character that a style's escape sequence holds after its first: the
/// bracket, a digit, a semicolon or the closing letter.
pub open spec fn is_prefix_tail(c: char) -> bool {
    c == '[' || c == 'm' || c == ';' || ('0' <= c <= '9')
}

/// The encoding of a text is the encoding of its parts, one after the other.
proof fn lemma_encode_concat(a: Seq<char>, b: Seq<char>)
    ensures
        encode_utf8(a + b) == encode_utf8(a) + encode_utf8(b),
    decreases a.len(),
{
    if a.len() == 0 {
    } else {
        assert((a + b).drop_first() =~= a.drop_first() + b);
        lemma_encode_concat(a.drop_first(), b);
    }
}

/// A character is encoded in one to four bytes, and where it takes more
/// than one, none of them is an ASCII byte.
proof fn lemma_encoded_char(c: char)
    ensures
        encode_utf8(seq![c]) == encode_scalar(c as u32),
        1 <= encode_scalar(c as u32).len() <= 4,
        encode_scalar(c as u32).len() >= 2 ==> forall|j: int|
            0 <= j < encode_scalar(c as u32).len() ==> #[trigger] encode_scalar(c as u32)[j]
                >= 0x80,
{
    let s = c as u32;
    assert(encode_utf8(seq![c].drop_first()) =~= Seq::<u8>::empty());
    assert(forall|x: u8| #[trigger] (0x80u8 | x) >= 0x80) by (bit_vector);
    assert(forall|x: u8| #[trigger] (0xC0u8 | x) >= 0x80) by (bit_vector);
    assert(forall|x: u8| #[trigger] (0xE0u8 | x) >= 0x80) by (bit_vector);
    assert(forall|x: u8| #[trigger] (0xF0u8 | x) >= 0x80) by (bit_vector);
}

/// The code of a colour holds digits and semicolons only.
proof fn lemma_color_code_chars(color: CellColor)
    ensures
        color_code(color).len() >= 1,
        forall|i: int|
            0 <= i < color_code(color).len() ==> is_prefix_tail(#[trigger] color_code(color)[i])
                && color_code(color)[i] != '[' && color_code(color)[i] != 'm',
{
    match color {
        CellColor::Black => {},
        CellColor::Rgb(c) => {
            lemma_decimal_digits(c.r as nat);
            lemma_decimal_digits(c.g as nat);
            lemma_decimal_digits(c.b as nat);
        },
    }
}

/// The shape of a style's escape sequence: it opens with `ESC [ 4`, and
/// after the first character come only brackets, digits, semicolons and
/// the closing letter.
proof fn lemma_style_prefix_shape(fg: CellColor, bg: CellColor)
    ensures
        style_prefix(fg, bg).len() >= 3,
        style_prefix(fg, bg)[0] == '\x1B',
        style_prefix(fg, bg)[1] == '[',
        style_prefix(fg, bg)[2] == '4',
        forall|i: int|
            1 <= i < style_prefix(fg, bg).len() ==> is_prefix_tail(
                #[trigger] style_prefix(fg, bg)[i],
            ),
        is_ascii_chars(style_prefix(fg, bg)),
{
    lemma_color_code_chars(fg);
    lemma_color_code_chars(bg);
}

/// The bytes of a cell open with `ESC [` and hold no opening of a private
/// mode sequence.
proof fn lemma_cell_bytes(cell: Cell)
    ensures
        encode_utf8(cell_text(cell)).len() >= 2,
        encode_utf8(cell_text(cell))[0] == 0x1B,
        encode_utf8(cell_text(cell))[1] == 0x5B,
        free_of_private_mode(encode_utf8(cell_text(cell))),
{
    let prefix = style_prefix(cell.fg, cell.bg);
    let head = encode_utf8(prefix);
    let tail = encode_scalar(cell.glyph as u32);
    let bytes = encode_utf8(cell_text(cell));
    lemma_style_prefix_shape(cell.fg, cell.bg);
    is_ascii_chars_encode_utf8(prefix);
    lemma_encoded_char(cell.glyph);
    assert(cell_text(cell) =~= prefix + seq![cell.glyph]);
    lemma_encode_concat(prefix, seq![cell.glyph]);
    assert(bytes == head + tail);
    assert forall|i: int| !#[trigger] opens_private_mode(bytes, i) by {
        if opens_private_mode(bytes, i) {
            if i == 0 {
                assert(bytes[2] == head[2]);
            } else if i < head.len() {
                assert(bytes[i] == head[i]);
            } else {
                assert(bytes[i] == tail[i - head.len()]);
            }
        }
    }
}

/// A text free of private mode sequences stays so when bytes that open with
/// `ESC [` and are free of them are put behind it.
proof fn lemma_free_of_private_mode_concat(a: Seq<u8>, b: Seq<u8>)
    requires
        free_of_private_mode(a),
        free_of_private_mode(b),
        b.len() >= 2,
        b[0] == 0x1B,
        b[1] == 0x5B,
    ensures
        free_of_private_mode(a + b),
{
    assert forall|i: int| !#[trigger] opens_private_mode(a + b, i) by {
        if opens_private_mode(a + b, i) {
            if i + 2 < a.len() {
                assert(opens_private_mode(a, i));
            } else if i >= a.len() {
                assert(opens_private_mode(b, i - a.len()));
            } else if i + 2 == a.len() {
                assert((a + b)[i + 2] == b[0]);
            } else {
                assert((a + b)[i + 1] == b[0]);
            }
        }
    }
}

/// The bytes of a run of cells hold no opening of a private mode sequence.
pub proof fn lemma_cells_free_of_private_mode(cells: Seq<Cell>)
    ensures
        free_of_private_mode(encode_utf8(cells_text(cells))),
    decreases cells.len(),
{
    if cells.len() > 0 {
        lemma_cells_free_of_private_mode(cells.drop_last());
        lemma_cell_bytes(cells.last());
        lemma_encode_concat(cells_text(cells.drop_last()), cell_text(cells.last()));
        lemma_free_of_private_mode_concat(
            encode_utf8(cells_text(cells.drop_last())),
            encode_utf8(cell_text(cells.last())),
        );
    }
}

} // verus!
