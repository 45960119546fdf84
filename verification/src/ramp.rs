//! The fixed character ramp: eight printable glyphs ordered from visually
//! lightest (space) to densest (`@`), indexed by quantized intensity.

use vstd::prelude::*;

verus! {

/// Ramp index for an intensity value: integer division by 32, so each
/// band of 32 intensity values shares one glyph. Intensities in [0, 255]
/// map to indices 0 through 7.
pub open spec fn ramp_index(i: int) -> int {
    i / 32
}

/// The glyph at a ramp index, as a character sequence. Indices at or
/// below 0 give the lightest glyph, indices at or above 7 the densest.
pub open spec fn glyph_seq(idx: int) -> Seq<char> {
    if idx <= 0 {
        " "@
    } else if idx == 1 {
        "."@
    } else if idx == 2 {
        ","@
    } else if idx == 3 {
        "-"@
    } else if idx == 4 {
        "~"@
    } else if idx == 5 {
        "+"@
    } else if idx == 6 {
        "="@
    } else {
        "@"@
    }
}

/// The glyph for a quantized intensity, borrowed from the fixed ramp.
pub fn get_str_ascii(intent: u8) -> (r: &'static str)
    ensures
        r@ == glyph_seq(ramp_index(intent as int)),
{
    let index: u8 = intent / 32;
    if index == 0 {
        " "
    } else if index == 1 {
        "."
    } else if index == 2 {
        ","
    } else if index == 3 {
        "-"
    } else if index == 4 {
        "~"
    } else if index == 5 {
        "+"
    } else if index == 6 {
        "="
    } else {
        "@"
    }
}

/// Every intensity in [0, 255] lands on a ramp index in [0, 7], and the
/// densest glyph (index 7) is reached exactly by intensities at or above 224.
pub proof fn lemma_ramp_index_bounds(i: int)
    requires
        0 <= i <= 255,
    ensures
        0 <= ramp_index(i) <= 7,
        ramp_index(i) == 7 <==> i >= 224,
{
}

/// Every ramp glyph is a single character, so a row's empty-string
/// terminator is distinguishable from every glyph in it.
pub proof fn lemma_glyph_len(idx: int)
    ensures
        glyph_seq(idx).len() == 1,
{
    reveal_strlit(" ");
    reveal_strlit(".");
    reveal_strlit(",");
    reveal_strlit("-");
    reveal_strlit("~");
    reveal_strlit("+");
    reveal_strlit("=");
    reveal_strlit("@");
}

} // verus!
