use vstd::prelude::*;

verus! {

/// The fixed-point value 1.0: every quantity carries 24 fractional bits.
pub const ONE: i64 = 16777216;

/// Largest squared magnitude (in squared fixed-point units) that `squared` accepts:
/// both components of the square then fit in an `i64`.
pub const MAX_SQUARABLE: u128 = 77371252455336267181195264;

/// Rescales a product of two fixed-point values back to fixed point,
/// rounding towards zero, so that `fx_div(-x) == -fx_div(x)`.
pub open spec fn fx_div(x: int) -> int {
    if x >= 0 {
        x / (ONE as int)
    } else {
        -((-x) / (ONE as int))
    }
}

/// The square of a complex value, each component rounded towards zero once.
pub open spec fn square(z: (int, int)) -> (int, int) {
    (fx_div(z.0 * z.0 - z.1 * z.1), fx_div(2 * (z.0 * z.1)))
}

/// Componentwise sum of two complex values.
pub open spec fn sum(a: (int, int), b: (int, int)) -> (int, int) {
    (a.0 + b.0, a.1 + b.1)
}

/// Squared Euclidean magnitude, in squared fixed-point units.
pub open spec fn norm_sqr(z: (int, int)) -> int {
    z.0 * z.0 + z.1 * z.1
}

/// The value fits in an `i64`.
pub open spec fn in_i64(x: int) -> bool {
    i64::MIN <= x <= i64::MAX
}

/// A point of the complex plane in fixed point: `r / ONE + (i / ONE)·i`.
#[derive(Clone, Copy, Debug, PartialEq, Eq, Structural)]
pub struct Complex {
    pub r: i64,
    pub i: i64,
}

impl View for Complex {
    type V = (int, int);

    open spec fn view(&self) -> (int, int) {
        (self.r as int, self.i as int)
    }
}

proof fn lemma_square_bounds(r: int, i: int)
    ensures
        0 <= r * r <= norm_sqr((r, i)),
        0 <= i * i <= norm_sqr((r, i)),
        -norm_sqr((r, i)) <= 2 * (r * i) <= norm_sqr((r, i)),
{
    assert(0 <= r * r) by (nonlinear_arith);
    assert(0 <= i * i) by (nonlinear_arith);
    assert(0 <= (r - i) * (r - i)) by (nonlinear_arith);
    assert(0 <= (r + i) * (r + i)) by (nonlinear_arith);
    assert((r - i) * (r - i) == r * r - 2 * (r * i) + i * i) by (nonlinear_arith);
    assert((r + i) * (r + i) == r * r + 2 * (r * i) + i * i) by (nonlinear_arith);
}

proof fn lemma_square_i64(x: int)
    requires
        in_i64(x),
    ensures
        0 <= x * x <= 0x4000_0000_0000_0000_0000_0000_0000_0000,
{
    assert(0 <= x * x <= 0x4000_0000_0000_0000_0000_0000_0000_0000) by (nonlinear_arith)
        requires
            -0x8000_0000_0000_0000 <= x <= 0x7fff_ffff_ffff_ffff,
    ;
}

/// The rescaled value is no farther from zero than `m / ONE` when `x` is
/// within `m` of zero.
pub proof fn lemma_fx_div_bound(x: int, m: int)
    requires
        -m <= x <= m,
    ensures
        -(m / (ONE as int)) <= fx_div(x) <= m / (ONE as int),
        x >= 0 ==> fx_div(x) >= 0,
        x <= 0 ==> fx_div(x) <= 0,
{
}

/// `fx_div` computed on `i128`.
pub fn rescale(x: i128) -> (r: i128)
    requires
        x > i128::MIN,
    ensures
        r == fx_div(x as int),
{
    if x >= 0 {
        x.checked_div_euclid(ONE as i128).unwrap()
    } else {
        -((-x).checked_div_euclid(ONE as i128).unwrap())
    }
}

/// Squaring commutes with conjugation: the square of `(r, -i)` is the
/// square of `(r, i)` with its imaginary part negated.
pub proof fn lemma_square_conjugate(r: int, i: int)
    ensures
        square((r, -i)) == (square((r, i)).0, -square((r, i)).1),
{
    assert((-i) * (-i) == i * i) by (nonlinear_arith);
    assert(r * (-i) == -(r * i)) by (nonlinear_arith);
    let x = 2 * (r * i);
    assert(fx_div(-x) == -fx_div(x));
}

impl Complex {
    pub fn new(r: i64, i: i64) -> (z: Complex)
        ensures
            z@ == (r as int, i as int),
    {
        Complex { r, i }
    }

    /// The complex square `(r² − i², 2ri)`, rescaled to fixed point with
    /// rounding towards zero.
    pub fn squared(&self) -> (z: Complex)
        requires
            norm_sqr(self@) <= MAX_SQUARABLE,
        ensures
            z@ == square(self@),
    {
        proof {
            lemma_square_bounds(self.r as int, self.i as int);
        }
        let rr: i128 = (self.r as i128) * (self.r as i128);
        let ii: i128 = (self.i as i128) * (self.i as i128);
        let ri: i128 = (self.r as i128) * (self.i as i128);
        let re = rescale(rr - ii);
        let im = rescale(2 * ri);
        proof {
            lemma_fx_div_bound(rr - ii, MAX_SQUARABLE as int);
            lemma_fx_div_bound(2 * ri, MAX_SQUARABLE as int);
        }
        Complex { r: re as i64, i: im as i64 }
    }

    /// Componentwise sum.
    pub fn add(&self, rhs: &Complex) -> (z: Complex)
        requires
            in_i64(self.r + rhs.r),
            in_i64(self.i + rhs.i),
        ensures
            z@ == sum(self@, rhs@),
    {
        Complex { r: self.r + rhs.r, i: self.i + rhs.i }
    }

    /// The squared magnitude, exact: comparing it with the square of a bound
    /// decides `|z| > bound` without a square root.
    pub fn norm_sqr(&self) -> (n: u128)
        ensures
            n == norm_sqr(self@),
    {
        proof {
            lemma_square_i64(self.r as int);
            lemma_square_i64(self.i as int);
        }
        let rr: i128 = (self.r as i128) * (self.r as i128);
        let ii: i128 = (self.i as i128) * (self.i as i128);
        (rr as u128) + (ii as u128)
    }
}

} // verus!
