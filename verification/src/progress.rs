//! The progress that a converting decoder reports: the number of the frame
//! it has reached, read from what it last wrote.

use vstd::prelude::*;
use vstd::string::*;
use crate::text::{parse_u32, parse_u32_spec};

verus! {

/// Why a report of the decoder could not be read.
#[derive(Clone, Copy, Debug, PartialEq, Eq, Structural)]
pub enum ProgressError {
    /// The report does not begin with a frame count.
    NoFrameCount,
    /// The frame count is no number that fits in 32 bits.
    BadFrameCount,
}

/// Whether `c` has the Unicode property White_Space, as
/// `char::is_whitespace` tells.
pub uninterp spec fn white_space(c: char) -> bool;

/// The digits that the pattern `^frame= *(\d+)` captures in `line`, if it
/// matches: what stands at the start of the line behind `frame=` and any
/// number of spaces.
pub uninterp spec fn frame_digits(line: Seq<char>) -> Option<Seq<char>>;

/// `char::is_whitespace` depends on the character alone.
pub assume_specification[ char::is_whitespace ](c: char) -> (b: bool)
    ensures
        b == white_space(c),
;

/// `regex::Regex::captures_iter`, asked for the first match of the pattern
/// `^frame= *(\d+)` in `line` and for the text of its group. Whether the
/// pattern matches and what the group holds depend on the line alone.
#[verifier::external_body]
fn capture_frame_digits(line: &str) -> (digits: Option<String>)
    ensures
        match digits {
            Some(d) => frame_digits(line@) == Some(d@),
            None => frame_digits(line@) is None,
        },
{
    let pattern = regex::Regex::new(r"^frame= *(\d+)").unwrap();
    let first = pattern.captures_iter(line).next();
    match first {
        Some(found) => Some(found[1].to_string()),
        None => None,
    }
}

/// What follows the last line break of a text; the whole text where it
/// has none.
pub open spec fn last_line_spec(s: Seq<char>) -> Seq<char>
    decreases s.len(),
{
    if s.len() == 0 || s.last() == '\n' {
        Seq::<char>::empty()
    } else {
        last_line_spec(s.drop_last()).push(s.last())
    }
}

/// `s` without the white space that it begins with.
pub open spec fn trim_start_spec(s: Seq<char>) -> Seq<char>
    decreases s.len(),
{
    if s.len() > 0 && white_space(s[0]) {
        trim_start_spec(s.drop_first())
    } else {
        s
    }
}

/// `s` without the white space that it ends with.
pub open spec fn trim_end_spec(s: Seq<char>) -> Seq<char>
    decreases s.len(),
{
    if s.len() > 0 && white_space(s.last()) {
        trim_end_spec(s.drop_last())
    } else {
        s
    }
}

/// `s` without the white space at both ends.
pub open spec fn trim_spec(s: Seq<char>) -> Seq<char> {
    trim_end_spec(trim_start_spec(s))
}

/// What a capture says of the progress: the frame that the decoder has
/// reached, or why none can be read.
pub open spec fn captured_frame_spec(digits: Option<Seq<char>>) -> Result<u32, ProgressError> {
    match digits {
        None => Err(ProgressError::NoFrameCount),
        Some(d) => match parse_u32_spec(d) {
            Some(n) => Ok(n),
            None => Err(ProgressError::BadFrameCount),
        },
    }
}

/// What a piece of the decoder's output says of the progress. Only its
/// last line counts, without the white space around it: an empty one says
/// nothing, any other has to begin with a frame count.
pub open spec fn progress_frame_spec(chunk: Seq<char>) -> Result<Option<u32>, ProgressError> {
    let line = trim_spec(last_line_spec(chunk));
    if line.len() == 0 {
        Ok(None)
    } else {
        match captured_frame_spec(frame_digits(line)) {
            Ok(n) => Ok(Some(n)),
            Err(e) => Err(e),
        }
    }
}

/// The end of a text from `from` on is its last line, if no line break
/// stands there and one stands just before, or the text begins there.
proof fn lemma_last_line(s: Seq<char>, from: int)
    requires
        0 <= from <= s.len(),
        forall|j: int| from <= j < s.len() ==> s[j] != '\n',
        from > 0 ==> s[from - 1] == '\n',
    ensures
        last_line_spec(s) == s.subrange(from, s.len() as int),
    decreases s.len(),
{
    if from < s.len() {
        let head = s.drop_last();
        lemma_last_line(head, from);
        assert(head.subrange(from, head.len() as int).push(s.last()) =~= s.subrange(
            from,
            s.len() as int,
        ));
    }
}

/// A text that begins with `from` characters of white space, and then has
/// another character or ends, is trimmed at its start to what follows them.
proof fn lemma_trim_start(s: Seq<char>, from: int)
    requires
        0 <= from <= s.len(),
        forall|j: int| 0 <= j < from ==> white_space(#[trigger] s[j]),
        from < s.len() ==> !white_space(s[from]),
    ensures
        trim_start_spec(s) == s.subrange(from, s.len() as int),
    decreases from,
{
    if from > 0 {
        let tail = s.drop_first();
        assert forall|j: int| 0 <= j < from - 1 implies white_space(#[trigger] tail[j]) by {
            assert(tail[j] == s[j + 1]);
        }
        lemma_trim_start(tail, from - 1);
    }
}

/// A text that ends with white space from `to` on, and has another
/// character before it or begins there, is trimmed at its end to what
/// comes before.
proof fn lemma_trim_end(s: Seq<char>, to: int)
    requires
        0 <= to <= s.len(),
        forall|j: int| to <= j < s.len() ==> white_space(#[trigger] s[j]),
        to > 0 ==> !white_space(s[to - 1]),
    ensures
        trim_end_spec(s) == s.subrange(0, to),
    decreases s.len(),
{
    if to < s.len() {
        lemma_trim_end(s.drop_last(), to);
    }
}

/// The last line of a text.
pub fn last_line(chunk: &str) -> (line: &str)
    ensures
        line@ == last_line_spec(chunk@),
{
    let len: usize = chunk.unicode_len();
    let mut from: usize = len;
    while from > 0 && chunk.get_char(from - 1) != '\n'
        invariant
            from <= len,
            len == chunk@.len(),
            forall|j: int| from <= j < len ==> chunk@[j] != '\n',
        decreases from,
    {
        from -= 1;
    }
    proof {
        lemma_last_line(chunk@, from as int);
    }
    chunk.substring_char(from, len)
}

/// A text without the white space at both ends.
pub fn trim(text: &str) -> (trimmed: &str)
    ensures
        trimmed@ == trim_spec(text@),
{
    let len: usize = text.unicode_len();
    let mut from: usize = 0;
    while from < len && text.get_char(from).is_whitespace()
        invariant
            from <= len,
            len == text@.len(),
            forall|j: int| 0 <= j < from ==> white_space(#[trigger] text@[j]),
        decreases len - from,
    {
        from += 1;
    }
    let mut to: usize = len;
    while to > from && text.get_char(to - 1).is_whitespace()
        invariant
            from <= to <= len,
            len == text@.len(),
            forall|j: int| to <= j < len ==> white_space(#[trigger] text@[j]),
        decreases to,
    {
        to -= 1;
    }
    proof {
        let rest = text@.subrange(from as int, len as int);
        lemma_trim_start(text@, from as int);
        assert forall|j: int| to - from <= j < rest.len() implies white_space(
            #[trigger] rest[j],
        ) by {
            assert(rest[j] == text@[j + from]);
        }
        lemma_trim_end(rest, to - from);
    }
    text.substring_char(from, to)
}

/// Reads the frame count that was captured in a report.
pub fn captured_frame(digits: Option<&str>) -> (frame: Result<u32, ProgressError>)
    ensures
        frame == captured_frame_spec(
            match digits {
                Some(d) => Some(d@),
                None => None,
            },
        ),
{
    match digits {
        None => Err(ProgressError::NoFrameCount),
        Some(d) => match parse_u32(d) {
            Some(n) => Ok(n),
            None => Err(ProgressError::BadFrameCount),
        },
    }
}

/// Reads the frame that the decoder has reached from a piece of its
/// output, or `None` where the piece ends in an empty line.
pub fn progress_frame(chunk: &str) -> (frame: Result<Option<u32>, ProgressError>)
    ensures
        frame == progress_frame_spec(chunk@),
{
    let line = trim(last_line(chunk));
    if line.is_empty() {
        return Ok(None);
    }
    let frame = match capture_frame_digits(line) {
        Some(digits) => captured_frame(Some(digits.as_str())),
        None => captured_frame(None),
    };
    match frame {
        Ok(n) => Ok(Some(n)),
        Err(e) => Err(e),
    }
}

} // verus!
