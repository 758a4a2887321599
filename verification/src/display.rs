//! The synchronized update: a frame's text between the markers that make the
//! terminal present it at once.

use vstd::prelude::*;
use vstd::string::*;
use vstd::utf8::encode_utf8;
use crate::compose::{configuration_fault, frame_cells, frame_text, render_frame};
use crate::error::ConfigurationError;
use crate::escape::{lemma_cells_free_of_private_mode, opens_private_mode};
use crate::frame::{Frame, FrameView};
use crate::style::PixelStyle;

verus! {

/// `ESC [ ? 2026 h`: the terminal holds back what follows until the update ends.
pub const BEGIN_SYNC: [u8; 8] = [27, 91, 63, 50, 48, 50, 54, 104];

/// `ESC [ ? 2026 l`: the terminal presents what it held back.
pub const END_SYNC: [u8; 8] = [27, 91, 63, 50, 48, 50, 54, 108];

/// `ESC [ 0 ; 0 H`: the cursor goes to the top left corner.
pub const CURSOR_HOME: [u8; 6] = [27, 91, 48, 59, 48, 72];

/// The bytes of one synchronized update around `body`: the opening marker,
/// the move of the cursor to the top left, the body, the closing marker.
pub open spec fn update_bytes(body: Seq<u8>) -> Seq<u8> {
    BEGIN_SYNC@ + CURSOR_HOME@ + body + END_SYNC@
}

/// Appends the bytes of `part` to `bytes`.
fn append_bytes(bytes: &mut Vec<u8>, part: &[u8])
    ensures
        final(bytes)@ == old(bytes)@ + part@,
{
    let mut i: usize = 0;
    while i < part.len()
        invariant
            i <= part@.len(),
            bytes@ == old(bytes)@ + part@.take(i as int),
        decreases part@.len() - i,
    {
        bytes.push(part[i]);
        i += 1;
    }
}

/// The bytes that present the buffer of a frame as one synchronized update.
pub fn flush_sequence(buf: &String) -> (bytes: Vec<u8>)
    ensures
        bytes@ == update_bytes(encode_utf8(buf@)),
{
    let mut bytes: Vec<u8> = Vec::new();
    append_bytes(&mut bytes, &BEGIN_SYNC);
    append_bytes(&mut bytes, &CURSOR_HOME);
    append_bytes(&mut bytes, buf.as_str().as_bytes());
    append_bytes(&mut bytes, &END_SYNC);
    bytes
}

/// The bytes that draw `frame` on the terminal as one synchronized update,
/// or the fault of the configuration; then nothing is to be written.
pub fn display(
    frame: Frame,
    display_chars: &[char],
    colored: bool,
    pixel_style: PixelStyle,
    cols: u16,
) -> (out: Result<Vec<u8>, ConfigurationError>)
    ensures
        match out {
            Ok(bytes) => {
                &&& configuration_fault(frame@, display_chars@, cols as nat) is None
                &&& bytes@ == update_bytes(
                    encode_utf8(frame_text(frame@, display_chars@, colored, pixel_style)),
                )
            },
            Err(e) => configuration_fault(frame@, display_chars@, cols as nat) == Some(e),
        },
{
    match render_frame(&frame, display_chars, colored, pixel_style, cols) {
        Ok(buf) => Ok(flush_sequence(&buf)),
        Err(e) => Err(e),
    }
}

/// `pattern` stands somewhere in `s`, as a run of consecutive bytes.
pub open spec fn occurs_in(pattern: Seq<u8>, s: Seq<u8>) -> bool {
    exists|i: int|
        0 <= i && i + pattern.len() <= s.len() && #[trigger] s.subrange(i, i + pattern.len())
            == pattern
}

/// The text of a frame holds neither marker of a synchronized update,
/// whatever the frame, the ramp and the strategy.
pub proof fn lemma_frame_text_holds_no_marker(
    frame: FrameView,
    ramp: Seq<char>,
    colored: bool,
    style: PixelStyle,
)
    ensures
        !occurs_in(BEGIN_SYNC@, encode_utf8(frame_text(frame, ramp, colored, style))),
        !occurs_in(END_SYNC@, encode_utf8(frame_text(frame, ramp, colored, style))),
{
    let body = encode_utf8(frame_text(frame, ramp, colored, style));
    lemma_cells_free_of_private_mode(frame_cells(frame, ramp, colored, style));
    assert forall|i: int| 0 <= i && i + 8 <= body.len() implies #[trigger] body.subrange(i, i + 8)
        != BEGIN_SYNC@ && body.subrange(i, i + 8) != END_SYNC@ by {
        let window = body.subrange(i, i + 8);
        assert(!opens_private_mode(body, i));
        assert(window[0] == body[i] && window[1] == body[i + 1] && window[2] == body[i + 2]);
    }
}

/// In the bytes that show a frame, the opening marker stands at the start
/// and nowhere else, and the closing marker at the end and nowhere else:
/// a terminal sees one update, which holds the whole frame.
pub proof fn lemma_update_is_bracketed_once(
    frame: FrameView,
    ramp: Seq<char>,
    colored: bool,
    style: PixelStyle,
)
    ensures
        ({
            let update = update_bytes(encode_utf8(frame_text(frame, ramp, colored, style)));
            &&& update.len() >= 22
            &&& update.subrange(0, 8) == BEGIN_SYNC@
            &&& update.subrange(update.len() - 8, update.len() as int) == END_SYNC@
            &&& forall|i: int|
                0 <= i && i + 8 <= update.len() && #[trigger] update.subrange(i, i + 8)
                    == BEGIN_SYNC@ ==> i == 0
            &&& forall|i: int|
                0 <= i && i + 8 <= update.len() && #[trigger] update.subrange(i, i + 8)
                    == END_SYNC@ ==> i == update.len() - 8
        }),
{
    let body = encode_utf8(frame_text(frame, ramp, colored, style));
    let update = update_bytes(body);
    let end = update.len() - 8;
    lemma_cells_free_of_private_mode(frame_cells(frame, ramp, colored, style));
    assert(update.subrange(0, 8) =~= BEGIN_SYNC@);
    assert(update.subrange(end, update.len() as int) =~= END_SYNC@);
    assert forall|i: int| 0 < i && i + 8 <= update.len() implies #[trigger] update.subrange(
        i,
        i + 8,
    ) != BEGIN_SYNC@ && (i != end ==> update.subrange(i, i + 8) != END_SYNC@) by {
        let window = update.subrange(i, i + 8);
        assert(window[0] == update[i] && window[1] == update[i + 1] && window[2] == update[i + 2]
            && window[7] == update[i + 7]);
        if 14 <= i && i + 2 < end {
            assert(!opens_private_mode(body, i - 14));
            assert(update[i] == body[i - 14] && update[i + 1] == body[i - 13] && update[i + 2]
                == body[i - 12]);
        }
    }
    assert(update.subrange(0, 8)[7] != END_SYNC@[7]);
}

} // verus!
