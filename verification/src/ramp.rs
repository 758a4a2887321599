//! Lookup of a glyph on a brightness ramp.

use vstd::prelude::*;

verus! {

/// The position on a ramp of `len` glyphs that a brightness falls on:
/// `floor(brightness / 255 * (len - 1))`.
pub open spec fn ramp_index(brightness: int, len: int) -> int {
    (brightness * (len - 1)) / 255
}

/// The glyph of `display_chars` that stands for `brightness`: the darkest
/// byte gives the first glyph, the brightest the last, and the bytes between
/// fall into buckets of equal width.
pub fn get_item_from_brightness<T>(brightness: &u8, display_chars: &[T]) -> (item: T) where
    T: Copy,

    requires
        display_chars@.len() >= 1,
    ensures
        0 <= ramp_index(*brightness as int, display_chars@.len() as int) < display_chars@.len(),
        item == display_chars@[ramp_index(*brightness as int, display_chars@.len() as int)],
{
    let len: usize = display_chars.len();
    let last: u128 = (len - 1) as u128;
    proof {
        lemma_ramp_index_bounds(*brightness as int, len as int);
        assert(*brightness as int * last as int <= 255 * last as int) by (nonlinear_arith)
            requires
                0 <= *brightness as int <= 255,
                0 <= last as int,
        ;
    }
    let index: u128 = (*brightness as u128 * last) / 255;
    display_chars[index as usize]
}

/// A brightness falls on a position of the ramp.
pub proof fn lemma_ramp_index_bounds(brightness: int, len: int)
    requires
        0 <= brightness <= 255,
        len >= 1,
    ensures
        0 <= ramp_index(brightness, len) < len,
{
    assert(0 <= brightness * (len - 1) <= 255 * (len - 1)) by (nonlinear_arith)
        requires
            0 <= brightness <= 255,
            len >= 1,
    ;
}

/// The darkest byte falls on the first position, the brightest on the last.
pub proof fn lemma_ramp_index_ends(len: int)
    requires
        len >= 1,
    ensures
        ramp_index(0, len) == 0,
        ramp_index(255, len) == len - 1,
{
}

/// A brighter byte never falls on an earlier position.
pub proof fn lemma_ramp_index_monotonic(darker: int, brighter: int, len: int)
    requires
        0 <= darker <= brighter <= 255,
        len >= 1,
    ensures
        ramp_index(darker, len) <= ramp_index(brighter, len),
{
    assert(darker * (len - 1) <= brighter * (len - 1)) by (nonlinear_arith)
        requires
            darker <= brighter,
            len >= 1,
    ;
}

/// On a ramp whose glyphs are in order under `precedes`, a brighter byte
/// never gets a glyph that comes before that of a darker byte.
pub proof fn lemma_lookup_monotonic<T>(
    ramp: Seq<T>,
    precedes: spec_fn(T, T) -> bool,
    darker: int,
    brighter: int,
)
    requires
        ramp.len() >= 1,
        0 <= darker <= brighter <= 255,
        forall|i: int, j: int| 0 <= i <= j < ramp.len() ==> #[trigger] precedes(ramp[i], ramp[j]),
    ensures
        precedes(
            ramp[ramp_index(darker, ramp.len() as int)],
            ramp[ramp_index(brighter, ramp.len() as int)],
        ),
{
    lemma_ramp_index_bounds(darker, ramp.len() as int);
    lemma_ramp_index_bounds(brighter, ramp.len() as int);
    lemma_ramp_index_monotonic(darker, brighter, ramp.len() as int);
}

} // verus!
