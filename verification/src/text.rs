//! Numbers and words in text: decimal notation, written and read, and the
//! splitting of a line at its spaces.

use vstd::prelude::*;
use vstd::string::*;

verus! {

/// The character of the decimal digit `d`.
pub open spec fn digit(d: int) -> char
    recommends
        0 <= d <= 9,
{
    (48 + d) as char
}

/// A number written in decimal, without leading zeros.
pub open spec fn decimal(n: nat) -> Seq<char>
    decreases n,
{
    if n < 10 {
        seq![digit(n as int)]
    } else {
        decimal(n / 10).push(digit((n % 10) as int))
    }
}

/// `c` is one of the ten decimal digits.
pub open spec fn is_digit(c: char) -> bool {
    '0' <= c <= '9'
}

/// The number that a run of digits stands for.
pub open spec fn digits_value(s: Seq<char>) -> nat
    decreases s.len(),
{
    if s.len() == 0 {
        0
    } else {
        10 * digits_value(s.drop_last()) + ((s.last() as int - 48) as nat)
    }
}

/// Every character of `s` is a digit.
pub open spec fn all_digits(s: Seq<char>) -> bool {
    forall|i: int| 0 <= i < s.len() ==> is_digit(#[trigger] s[i])
}

/// `s` without the plus sign that it may begin with.
pub open spec fn without_plus(s: Seq<char>) -> Seq<char> {
    if s.len() > 0 && s[0] == '+' {
        s.drop_first()
    } else {
        s
    }
}

/// The number that a text stands for as a `u32`: digits only, at least one
/// of them, after an optional plus sign, and a value that fits.
pub open spec fn parse_u32_spec(s: Seq<char>) -> Option<u32> {
    let body = without_plus(s);
    if body.len() > 0 && all_digits(body) && digits_value(body) <= u32::MAX {
        Some(digits_value(body) as u32)
    } else {
        None
    }
}

/// The words of a text: its longest runs of characters other than the
/// space, in their order.
pub open spec fn words(s: Seq<char>) -> Seq<Seq<char>>
    decreases s.len(),
{
    if s.len() == 0 {
        Seq::<Seq<char>>::empty()
    } else if s.last() == ' ' {
        words(s.drop_last())
    } else if s.len() >= 2 && s[s.len() - 2] != ' ' {
        let before = words(s.drop_last());
        before.drop_last().push(before.last().push(s.last()))
    } else {
        words(s.drop_last()).push(seq![s.last()])
    }
}

/// `String::push` appends the character to the end of the string.
pub assume_specification[ String::push ](s: &mut String, ch: char)
    ensures
        final(s)@ == old(s)@.push(ch),
;

/// A number is written with at least one character, all of them digits.
pub proof fn lemma_decimal_digits(n: nat)
    ensures
        decimal(n).len() >= 1,
        forall|i: int| 0 <= i < decimal(n).len() ==> is_digit(#[trigger] decimal(n)[i]),
    decreases n,
{
    if n >= 10 {
        lemma_decimal_digits(n / 10);
    }
}

/// The digits that a number is written with stand for that number.
proof fn lemma_decimal_value(n: nat)
    ensures
        digits_value(decimal(n)) == n,
    decreases n,
{
    if n < 10 {
        assert(digits_value(decimal(n).drop_last()) == 0);
    } else {
        lemma_decimal_value(n / 10);
        assert(decimal(n).drop_last() =~= decimal(n / 10));
    }
}

/// Reading what was written gives the number back.
pub proof fn lemma_parse_reads_decimal(n: u32)
    ensures
        parse_u32_spec(decimal(n as nat)) == Some(n),
{
    lemma_decimal_digits(n as nat);
    lemma_decimal_value(n as nat);
}

/// No word is empty, and no word holds a space.
pub proof fn lemma_words_hold_no_space(s: Seq<char>)
    ensures
        forall|k: int|
            0 <= k < words(s).len() ==> (#[trigger] words(s)[k]).len() > 0 && !words(s)[k].contains(
                ' ',
            ),
        s.len() > 0 && s.last() != ' ' ==> words(s).len() > 0,
    decreases s.len(),
{
    if s.len() > 0 {
        lemma_words_hold_no_space(s.drop_last());
        let before = words(s.drop_last());
        if s.last() != ' ' && s.len() >= 2 && s[s.len() - 2] != ' ' {
            let grown = before.last().push(s.last());
            assert forall|c: char| grown.contains(c) implies c != ' ' by {
                let j = choose|j: int| 0 <= j < grown.len() && grown[j] == c;
                if j < before.last().len() {
                    assert(before.last().contains(c));
                }
            }
        } else if s.last() != ' ' {
            assert forall|c: char| seq![s.last()].contains(c) implies c != ' ' by {}
        }
    }
}

/// A run of digits stands for no less than any of its beginnings.
proof fn lemma_digits_value_grows(s: Seq<char>, k: int)
    requires
        0 <= k <= s.len(),
    ensures
        digits_value(s.take(k)) <= digits_value(s),
    decreases s.len() - k,
{
    if k < s.len() {
        lemma_digits_value_grows(s, k + 1);
        assert(s.take(k + 1).drop_last() =~= s.take(k));
    } else {
        assert(s.take(k) =~= s);
    }
}

/// Appends `n` in decimal to the buffer.
pub fn push_decimal(buf: &mut String, n: u32)
    ensures
        final(buf)@ == old(buf)@ + decimal(n as nat),
    decreases n,
{
    if n >= 10 {
        push_decimal(buf, n / 10);
    }
    let d: u8 = (n % 10) as u8;
    buf.push((48 + d) as char);
}

/// Reads a `u32` written in decimal, as `str::parse` does: `None` for a
/// text that is empty, holds anything but digits after an optional plus
/// sign, or stands for a number that does not fit.
pub fn parse_u32(s: &str) -> (n: Option<u32>)
    ensures
        n == parse_u32_spec(s@),
{
    let len: usize = s.unicode_len();
    let start: usize = if len > 0 && s.get_char(0) == '+' {
        1
    } else {
        0
    };
    if start == len {
        return None;
    }
    let ghost body = without_plus(s@);
    let mut value: u64 = 0;
    let mut i: usize = start;
    while i < len
        invariant
            start <= i <= len,
            len == s@.len(),
            body == without_plus(s@),
            body.len() == len - start,
            forall|j: int| 0 <= j < i - start ==> is_digit(#[trigger] body[j]),
            value == digits_value(body.take(i - start)),
            value <= u32::MAX,
        decreases len - i,
    {
        let c: char = s.get_char(i);
        if !(c >= '0' && c <= '9') {
            assert(!is_digit(body[i - start]));
            return None;
        }
        let d: u64 = (c as u32 - 48) as u64;
        value = value * 10 + d;
        proof {
            assert(body.take(i - start + 1).drop_last() =~= body.take(i - start));
            if value > u32::MAX {
                lemma_digits_value_grows(body, i - start + 1);
            }
        }
        if value > 0xFFFF_FFFF {
            return None;
        }
        i += 1;
    }
    assert(body.take(len - start) =~= body);
    Some(value as u32)
}

/// Splits a line at its spaces and gives the pieces that are not empty.
pub fn split_words(line: &str) -> (out: Vec<String>)
    ensures
        out.deep_view() == words(line@),
{
    let len: usize = line.unicode_len();
    let mut out: Vec<String> = Vec::new();
    let mut word = String::new();
    let mut i: usize = 0;
    while i < len
        invariant
            i <= len,
            len == line@.len(),
            word@.len() > 0 <==> (i > 0 && line@[i - 1] != ' '),
            words(line@.take(i as int)) == if word@.len() > 0 {
                out.deep_view().push(word@)
            } else {
                out.deep_view()
            },
        decreases len - i,
    {
        let c: char = line.get_char(i);
        assert(line@.take(i + 1).drop_last() =~= line@.take(i as int));
        if c == ' ' {
            if !word.as_str().is_empty() {
                let finished = word;
                word = String::new();
                out.push(finished);
            }
        } else {
            let ghost open = word@;
            word.push(c);
            assert(open.len() == 0 ==> word@ =~= seq![c]);
        }
        i += 1;
    }
    assert(line@.take(len as int) =~= line@);
    if !word.as_str().is_empty() {
        out.push(word);
    }
    out
}

} // verus!
