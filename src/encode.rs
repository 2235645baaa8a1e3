use vstd::prelude::*;
use crate::color::{channels, Color};
use crate::complex::ONE;

verus! {

/// The 8-bit value of a fixed-point channel: `channel * 255` rounded to the
/// nearest integer (halves upwards), saturating at 255 for channels above
/// full intensity.
pub open spec fn channel_byte(channel: int) -> int {
    let v = (channel * 255 + ONE as int / 2) / ONE as int;
    if v > 255 {
        255
    } else {
        v
    }
}

/// The four bytes of a colour, in the order red, green, blue, alpha.
pub open spec fn color_bytes(c: Color) -> Seq<u8> {
    let ch = channels(c);
    seq![
        channel_byte(ch.0) as u8,
        channel_byte(ch.1) as u8,
        channel_byte(ch.2) as u8,
        channel_byte(ch.3) as u8,
    ]
}

pub fn to_byte(channel: u64) -> (b: u8)
    ensures
        b == channel_byte(channel as int),
{
    let v: u128 = ((channel as u128) * 255 + (ONE as u128) / 2) / (ONE as u128);
    if v > 255 {
        255
    } else {
        v as u8
    }
}

/// The RGBA bytes of a row-major buffer, four per pixel, ready for an
/// image encoder.
pub fn rgba_bytes(buffer: &[Color]) -> (bytes: Vec<u8>)
    requires
        4 * buffer.len() <= usize::MAX,
    ensures
        bytes.len() == 4 * buffer.len(),
        forall|p: int, k: int|
            0 <= p < buffer.len() && 0 <= k < 4 ==> #[trigger] bytes[4 * p + k] == color_bytes(buffer[p])[k],
{
    let mut bytes: Vec<u8> = Vec::new();
    let mut p: usize = 0;
    while p < buffer.len()
        invariant
            p <= buffer.len(),
            4 * buffer.len() <= usize::MAX,
            bytes.len() == 4 * p,
            forall|q: int, k: int|
                0 <= q < p && 0 <= k < 4 ==> #[trigger] bytes[4 * q + k] == color_bytes(buffer[q])[k],
        decreases buffer.len() - p,
    {
        let c = buffer[p];
        bytes.push(to_byte(c.r));
        bytes.push(to_byte(c.g));
        bytes.push(to_byte(c.b));
        bytes.push(to_byte(c.a));
        p = p + 1;
    }
    bytes
}

/// A channel in `[0, 1]` converts without saturating, to a byte in `[0, 255]`.
pub proof fn lemma_unit_channel_byte(channel: int)
    requires
        0 <= channel <= ONE,
    ensures
        channel_byte(channel) == (channel * 255 + ONE as int / 2) / ONE as int,
        0 <= channel_byte(channel) <= 255,
{
    assert(0 <= (channel * 255 + ONE as int / 2) / ONE as int <= 255) by (nonlinear_arith)
        requires
            0 <= channel <= ONE,
            ONE == 16777216,
    ;
}

} // verus!
