//! Turning iteration counts into packed ARGB colors.
//!
//! Counts are normalised against the lowest and highest value of the grid
//! and mapped onto a fixed ramp: red rises linearly with the normalised
//! count, green and blue rise at double speed and saturate halfway — a run
//! from near-black over red to white. Degenerate statistics
//! (`highest == lowest`, where the ratio would be `0/0`) fall back to the
//! fixed colour of the ramp's origin instead.

use vstd::arithmetic::div_mod::{lemma_div_pos_is_pos, lemma_fundamental_div_mod_converse};
use vstd::prelude::*;

verus! {

/// Red channel of a count: `255 * (count - lowest) / (highest - lowest)`,
/// clamped to `255`; `0` on degenerate statistics.
pub open spec fn red_channel(count: int, lowest: int, highest: int) -> int {
    if highest <= lowest {
        0
    } else {
        let t = (255 * (count - lowest)) / (highest - lowest);
        if t > 255 {
            255
        } else {
            t
        }
    }
}

/// Green and blue channel of a count: the double-speed ramp
/// `510 * (count - lowest) / (highest - lowest)`, clamped to `255`;
/// `0` on degenerate statistics.
pub open spec fn greenblue_channel(count: int, lowest: int, highest: int) -> int {
    if highest <= lowest {
        0
    } else {
        let t = (510 * (count - lowest)) / (highest - lowest);
        if t > 255 {
            255
        } else {
            t
        }
    }
}

/// A fully opaque packed ARGB value: alpha `255`, then the red byte, then
/// the green and blue bytes, which always agree on this palette.
pub open spec fn packed_argb(red: int, greenblue: int) -> int {
    0xFF000000 + red * 0x10000 + greenblue * 0x100 + greenblue
}

/// The colour of a count under grid statistics `(lowest, highest)`.
pub open spec fn color_spec(count: int, lowest: int, highest: int) -> int {
    packed_argb(
        red_channel(count, lowest, highest),
        greenblue_channel(count, lowest, highest),
    )
}

/// Law: every colour channel stays within `[0, 255]`, whatever count and
/// statistics are handed in, degenerate ones included.
pub proof fn lemma_channels_in_range(count: int, lowest: int, highest: int)
    requires
        lowest <= count,
    ensures
        0 <= red_channel(count, lowest, highest) <= 255,
        0 <= greenblue_channel(count, lowest, highest) <= 255,
{
    if lowest < highest {
        lemma_div_pos_is_pos(255 * (count - lowest), highest - lowest);
        lemma_div_pos_is_pos(510 * (count - lowest), highest - lowest);
    }
}

/// Law: reading the packed value back byte by byte yields alpha `255` and
/// the two channels unchanged — the packing loses nothing and each
/// extracted byte lies within `[0, 255]`.
pub proof fn lemma_packed_argb_bytes(red: int, greenblue: int)
    requires
        0 <= red <= 255,
        0 <= greenblue <= 255,
    ensures
        packed_argb(red, greenblue) / 0x1000000 == 255,
        (packed_argb(red, greenblue) / 0x10000) % 0x100 == red,
        (packed_argb(red, greenblue) / 0x100) % 0x100 == greenblue,
        packed_argb(red, greenblue) % 0x100 == greenblue,
        0xFF000000 <= packed_argb(red, greenblue) <= 0xFFFFFFFF,
{
    let p = packed_argb(red, greenblue);
    lemma_fundamental_div_mod_converse(
        p,
        0x1000000,
        255,
        red * 0x10000 + greenblue * 0x100 + greenblue,
    );
    lemma_fundamental_div_mod_converse(p, 0x10000, 0xFF00 + red, greenblue * 0x100 + greenblue);
    lemma_fundamental_div_mod_converse(0xFF00 + red, 0x100, 0xFF, red);
    lemma_fundamental_div_mod_converse(p, 0x100, 0xFF0000 + red * 0x100 + greenblue, greenblue);
    lemma_fundamental_div_mod_converse(
        0xFF0000 + red * 0x100 + greenblue,
        0x100,
        0xFF00 + red,
        greenblue,
    );
}

/// The colour of one count, computed exactly as [`color_spec`] states.
pub fn color_pixel(count: u32, lowest: u32, highest: u32) -> (r: u32)
    requires
        lowest <= count,
    ensures
        r == color_spec(count as int, lowest as int, highest as int),
{
    if highest <= lowest {
        return 0xFF000000u32;
    }
    let num: u64 = (count - lowest) as u64;
    let span: u64 = (highest - lowest) as u64;
    let mut red: u64 = (255 * num) / span;
    if red > 255 {
        red = 255;
    }
    let mut greenblue: u64 = (510 * num) / span;
    if greenblue > 255 {
        greenblue = 255;
    }
    proof {
        lemma_channels_in_range(count as int, lowest as int, highest as int);
    }
    0xFF000000u32 + (red as u32) * 0x10000 + (greenblue as u32) * 0x100 + (greenblue as u32)
}

/// One colour per grid entry, each exactly as [`color_spec`] states under
/// the given statistics.
pub fn colorize(grid: &Vec<u32>, lowest: u32, highest: u32) -> (r: Vec<u32>)
    requires
        forall|k: int| 0 <= k < grid@.len() ==> lowest <= grid@[k],
    ensures
        r@.len() == grid@.len(),
        forall|k: int|
            0 <= k < grid@.len() ==> r@[k] == color_spec(
                grid@[k] as int,
                lowest as int,
                highest as int,
            ),
{
    let mut out: Vec<u32> = Vec::new();
    let mut idx: usize = 0;
    while idx < grid.len()
        invariant
            forall|k: int| 0 <= k < grid@.len() ==> lowest <= grid@[k],
            idx <= grid@.len(),
            out@.len() == idx,
            forall|k: int|
                0 <= k < idx ==> out@[k] == color_spec(
                    grid@[k] as int,
                    lowest as int,
                    highest as int,
                ),
        decreases grid@.len() - idx,
    {
        let px = color_pixel(grid[idx], lowest, highest);
        out.push(px);
        idx = idx + 1;
    }
    out
}

/// The packed buffer flattened to the 8-bit RGB triples an export encoder
/// consumes: for each pixel the red, green and blue bytes in order, the
/// alpha byte dropped.
pub fn to_rgb_bytes(buffer: &Vec<u32>) -> (r: Vec<u8>)
    ensures
        r@.len() == 3 * buffer@.len(),
        forall|k: int|
            0 <= k < buffer@.len() ==> {
                &&& r@[3 * k] == (buffer@[k] as int / 0x10000) % 0x100
                &&& r@[3 * k + 1] == (buffer@[k] as int / 0x100) % 0x100
                &&& r@[3 * k + 2] == buffer@[k] as int % 0x100
            },
{
    let mut out: Vec<u8> = Vec::new();
    let mut idx: usize = 0;
    while idx < buffer.len()
        invariant
            idx <= buffer@.len(),
            out@.len() == 3 * idx,
            forall|k: int|
                0 <= k < idx ==> {
                    &&& out@[3 * k] == (buffer@[k] as int / 0x10000) % 0x100
                    &&& out@[3 * k + 1] == (buffer@[k] as int / 0x100) % 0x100
                    &&& out@[3 * k + 2] == buffer@[k] as int % 0x100
                },
        decreases buffer@.len() - idx,
    {
        let px: u32 = buffer[idx];
        out.push(((px / 0x10000) % 0x100) as u8);
        out.push(((px / 0x100) % 0x100) as u8);
        out.push((px % 0x100) as u8);
        idx = idx + 1;
    }
    out
}

} // verus!
