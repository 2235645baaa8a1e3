use vstd::prelude::*;
use crate::complex::ONE;

verus! {

/// Number of entries of a palette.
pub const PALETTE_SIZE: usize = 16;

/// A colour with four fixed-point channels; `ONE` is full intensity.
#[derive(Clone, Copy, Debug, PartialEq, Eq, Structural)]
pub struct Color {
    pub r: u64,
    pub g: u64,
    pub b: u64,
    pub a: u64,
}

/// The channels as a tuple `(r, g, b, a)`.
pub open spec fn channels(c: Color) -> (int, int, int, int) {
    (c.r as int, c.g as int, c.b as int, c.a as int)
}

/// Every channel lies in `[0, 1]`.
pub open spec fn is_unit(c: Color) -> bool {
    c.r <= ONE && c.g <= ONE && c.b <= ONE && c.a <= ONE
}

/// Channelwise sum of a sequence of colours.
pub open spec fn sum_colors(cs: Seq<Color>) -> (int, int, int, int)
    decreases cs.len(),
{
    if cs.len() == 0 {
        (0, 0, 0, 0)
    } else {
        let s = sum_colors(cs.drop_last());
        let c = cs.last();
        (s.0 + c.r, s.1 + c.g, s.2 + c.b, s.3 + c.a)
    }
}

/// Channelwise quotient, rounded down.
pub open spec fn scale_down(s: (int, int, int, int), n: int) -> (int, int, int, int) {
    (s.0 / n, s.1 / n, s.2 / n, s.3 / n)
}

/// The palette entry for an iteration count: the palette is indexed cyclically.
pub open spec fn palette_entry(palette: Seq<Color>, iterations: int) -> Color {
    palette[iterations % (PALETTE_SIZE as int)]
}

/// Every entry of the palette has its channels in `[0, 1]`.
pub open spec fn is_unit_palette(palette: Seq<Color>) -> bool {
    forall|i: int| 0 <= i < palette.len() ==> is_unit(#[trigger] palette[i])
}

impl Color {
    /// The zero colour, where an accumulation starts.
    pub fn new() -> (c: Color)
        ensures
            channels(c) == (0int, 0int, 0int, 0int),
    {
        Color { r: 0, g: 0, b: 0, a: 0 }
    }

    /// Adds `rhs` channel by channel.
    pub fn add(&mut self, rhs: Color)
        requires
            old(self).r + rhs.r <= u64::MAX,
            old(self).g + rhs.g <= u64::MAX,
            old(self).b + rhs.b <= u64::MAX,
            old(self).a + rhs.a <= u64::MAX,
        ensures
            channels(*final(self)) == (
                old(self).r + rhs.r,
                old(self).g + rhs.g,
                old(self).b + rhs.b,
                old(self).a + rhs.a,
            ),
    {
        self.r = self.r + rhs.r;
        self.g = self.g + rhs.g;
        self.b = self.b + rhs.b;
        self.a = self.a + rhs.a;
    }

    /// Divides every channel by `value`, rounding down.
    pub fn divide(&mut self, value: u64)
        requires
            value > 0,
        ensures
            channels(*final(self)) == scale_down(channels(*old(self)), value as int),
    {
        self.r = self.r / value;
        self.g = self.g / value;
        self.b = self.b / value;
        self.a = self.a / value;
    }
}

/// The colour that the palette gives to an iteration count.
pub fn palette_color(palette: &[Color; 16], iterations: u32) -> (c: Color)
    ensures
        c == palette_entry(palette@, iterations as int),
{
    palette[(iterations % 16) as usize]
}

/// Two iteration counts congruent modulo the palette size get the same colour.
pub proof fn lemma_palette_cyclic(palette: Seq<Color>, k1: int, k2: int)
    requires
        palette.len() == PALETTE_SIZE,
        k1 % (PALETTE_SIZE as int) == k2 % (PALETTE_SIZE as int),
    ensures
        palette_entry(palette, k1) == palette_entry(palette, k2),
{
}

} // verus!
