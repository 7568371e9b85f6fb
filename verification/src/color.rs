//! Conversion from accumulated linear radiance to 8-bit output channels:
//! average over the sample count, a square-root tone curve, a clamp, and
//! decimal formatting of the resulting triples.

use vstd::prelude::*;
use crate::fixed::{FX_ONE, tdiv, sqrt_floor, isqrt};
use crate::vec3::Color;
use crate::SAMPLES_PER_PIXEL;
use vstd::arithmetic::div_mod::{lemma_div_pos_is_pos, lemma_div_is_ordered, lemma_div_nonincreasing};

verus! {

/// The clamp ceiling: just below one, so a full channel maps to 255.
pub const CLAMP_MAX: i64 = 65470;

/// The exact 8-bit value of one accumulated channel: divide by the sample
/// count, take the fixed-point square root (gamma 2), clamp to
/// `[0, 0.999]`, and keep the top eight bits.
pub open spec fn spec_channel_byte(sum: int) -> int {
    let scaled = tdiv(sum, SAMPLES_PER_PIXEL as int);
    let g = sqrt_floor(scaled * 65536);
    let cl = if g > CLAMP_MAX {
        CLAMP_MAX as int
    } else {
        g
    };
    cl / 256
}

/// Converts one non-negative accumulated channel to its 8-bit value.
pub fn channel_byte(sum: i64) -> (b: u8)
    requires
        0 <= sum,
    ensures
        b as int == spec_channel_byte(sum as int),
{
    proof {
        lemma_div_pos_is_pos(sum as int, SAMPLES_PER_PIXEL as int);
        lemma_div_nonincreasing(sum as int, SAMPLES_PER_PIXEL as int);
    }
    let scaled: i64 = ((sum as u64) / (SAMPLES_PER_PIXEL as u64)) as i64;
    let g: u128 = isqrt((scaled as u128) * 65536);
    let cl: u64 = if g > CLAMP_MAX as u128 {
        CLAMP_MAX as u64
    } else {
        g as u64
    };
    proof {
        lemma_div_pos_is_pos(cl as int, 256);
        lemma_div_is_ordered(cl as int, CLAMP_MAX as int, 256);
    }
    (cl / 256) as u8
}

/// The ASCII decimal digits of a byte value, most significant first.
pub open spec fn spec_dec_bytes(n: int) -> Seq<u8> {
    if n < 10 {
        seq![(48 + n) as u8]
    } else if n < 100 {
        seq![(48 + n / 10) as u8, (48 + n % 10) as u8]
    } else {
        seq![(48 + n / 100) as u8, (48 + (n / 10) % 10) as u8, (48 + n % 10) as u8]
    }
}

/// Appends the decimal digits of `n` to the byte buffer.
pub fn push_dec_byte(out: &mut Vec<u8>, n: u8)
    ensures
        final(out)@ == old(out)@ + spec_dec_bytes(n as int),
{
    if n < 10 {
        out.push(48 + n);
    } else if n < 100 {
        out.push(48 + n / 10);
        out.push(48 + n % 10);
    } else {
        out.push(48 + n / 100);
        out.push(48 + (n / 10) % 10);
        out.push(48 + n % 10);
    }
    proof {
        assert(final(out)@ =~= old(out)@ + spec_dec_bytes(n as int));
    }
}

/// The full output line for one pixel: three decimal channel values
/// separated by spaces, ending in a newline.
pub open spec fn spec_pixel_line(r: int, g: int, b: int) -> Seq<u8> {
    spec_dec_bytes(r) + seq![32u8] + spec_dec_bytes(g) + seq![32u8] + spec_dec_bytes(b)
        + seq![10u8]
}

/// Converts an accumulated color to its three 8-bit channel values and
/// appends the pixel's output line to the byte buffer.
pub fn add_color_to_string(str: &mut Vec<u8>, color: &Color)
    requires
        0 <= color.x,
        0 <= color.y,
        0 <= color.z,
    ensures
        final(str)@ == old(str)@ + spec_pixel_line(
            spec_channel_byte(color.x as int),
            spec_channel_byte(color.y as int),
            spec_channel_byte(color.z as int),
        ),
{
    let r = channel_byte(color.x);
    let g = channel_byte(color.y);
    let b = channel_byte(color.z);
    push_dec_byte(str, r);
    str.push(32);
    push_dec_byte(str, g);
    str.push(32);
    push_dec_byte(str, b);
    str.push(10);
    proof {
        assert(final(str)@ =~= old(str)@ + spec_pixel_line(r as int, g as int, b as int));
    }
}

} // verus!
