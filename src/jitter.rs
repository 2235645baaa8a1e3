use vstd::prelude::*;
use rand::Rng;
use rand::rngs::ThreadRng;

verus! {

/// Half the width of a pixel's footprint in fixed point: offsets lie in `[-HALF_PIXEL, HALF_PIXEL)`.
pub const HALF_PIXEL: i64 = 8388608;

/// The offset lies inside the pixel's footprint, `[-0.5, 0.5)`.
pub open spec fn in_footprint(j: i64) -> bool {
    -HALF_PIXEL <= j < HALF_PIXEL
}

/// rand's thread-local generator, carried opaquely by `JitterSource::Random`.
#[verifier::external_type_specification]
#[verifier::external_body]
pub struct ExThreadRng(ThreadRng);

/// Relies on rand::thread_rng, which hands out the thread's generator.
pub assume_specification[ rand::thread_rng ]() -> ThreadRng;

/// Relies on rand::Rng::gen_range (rand 0.7): a value drawn from `[low, high)`;
/// it panics when `low >= high`, which `requires` rules out.
#[verifier::external_body]
fn gen_range_i64(rng: &mut ThreadRng, low: i64, high: i64) -> (v: i64)
    requires
        low < high,
    ensures
        low <= v < high,
{
    rng.gen_range(low, high)
}

/// Where the sub-pixel offsets of the samples come from.
pub enum JitterSource {
    /// Every sample sits at the centre of its pixel: rendering is deterministic.
    Centered,
    /// Offsets drawn uniformly from the footprint by the thread's generator.
    Random(ThreadRng),
}

impl JitterSource {
    pub open spec fn is_centered(&self) -> bool {
        self is Centered
    }

    pub fn centered() -> (s: JitterSource)
        ensures
            s.is_centered(),
    {
        JitterSource::Centered
    }

    pub fn random() -> (s: JitterSource)
        ensures
            !s.is_centered(),
    {
        JitterSource::Random(rand::thread_rng())
    }

    /// Draws the offsets `(dx, dy)` of one sample, in fixed point.
    pub fn draw(&mut self) -> (j: (i64, i64))
        ensures
            in_footprint(j.0),
            in_footprint(j.1),
            old(self).is_centered() ==> j == (0i64, 0i64),
            final(self).is_centered() == old(self).is_centered(),
    {
        match self {
            JitterSource::Centered => (0, 0),
            JitterSource::Random(rng) => {
                let dx = gen_range_i64(rng, -HALF_PIXEL, HALF_PIXEL);
                let dy = gen_range_i64(rng, -HALF_PIXEL, HALF_PIXEL);
                (dx, dy)
            },
        }
    }
}

} // verus!
