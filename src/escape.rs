use vstd::prelude::*;
use crate::complex::{lemma_fx_div_bound, norm_sqr, rescale, square, sum, Complex};

verus! {

/// `z_n` of the recurrence `z_0 = 0`, `z_{n+1} = z_n² + c`.
pub open spec fn orbit(c: (int, int), n: nat) -> (int, int)
    decreases n,
{
    if n == 0 {
        (0, 0)
    } else {
        sum(square(orbit(c, (n - 1) as nat)), c)
    }
}

/// `|z| > bound`, decided on squares.
pub open spec fn escaped(z: (int, int), bound: int) -> bool {
    norm_sqr(z) > bound * bound
}

/// The escape time counted from iteration `k` on: the first `n >= k` at
/// which the orbit has escaped or the cap is reached.
pub open spec fn escape_time_from(c: (int, int), max: nat, bound: int, k: nat) -> nat
    decreases max - k,
{
    if k >= max || escaped(orbit(c, k), bound) {
        k
    } else {
        escape_time_from(c, max, bound, k + 1)
    }
}

/// The escape time of `c`: iterations until `|z| > bound`, capped at `max`.
pub open spec fn escape_time(c: (int, int), max: nat, bound: int) -> nat {
    escape_time_from(c, max, bound, 0)
}

/// `k` is the escape time of `c` under the cap `max`: no iterate before `k`
/// has escaped, and `k` is either the first escaped iterate or the cap.
pub open spec fn is_escape_time(c: (int, int), max: nat, bound: int, k: nat) -> bool {
    is_escape_time_from(c, max, bound, 0, k)
}

proof fn lemma_orbit_one(c: (int, int))
    ensures
        orbit(c, 1) == c,
{
    assert(orbit(c, 0) == (0int, 0int));
    assert(0int * 0int - 0int * 0int == 0int);
    assert(2 * (0int * 0int) == 0int);
    assert(square((0, 0)) == (0int, 0int));
}

proof fn lemma_wide_component_escapes(x: int, y: int, b: int)
    requires
        0 < b <= i64::MAX,
        !(i64::MIN <= x <= i64::MAX),
    ensures
        norm_sqr((x, y)) > b * b,
{
    assert(0 <= y * y) by (nonlinear_arith);
    assert(x * x > b * b) by (nonlinear_arith)
        requires
            0 < b <= i64::MAX,
            x > i64::MAX || x < i64::MIN,
    ;
}

proof fn lemma_not_escaped_bounds(z: (int, int), b: int)
    requires
        0 < b <= i64::MAX,
        norm_sqr(z) <= b * b,
    ensures
        norm_sqr(z) < 0x4000_0000_0000_0000_0000_0000_0000_0000,
        0 <= z.0 * z.0 <= norm_sqr(z),
        0 <= z.1 * z.1 <= norm_sqr(z),
        -norm_sqr(z) <= 2 * (z.0 * z.1) <= norm_sqr(z),
{
    assert(b * b < 0x4000_0000_0000_0000_0000_0000_0000_0000) by (nonlinear_arith)
        requires
            0 < b <= i64::MAX,
    ;
    assert(0 <= z.0 * z.0) by (nonlinear_arith);
    assert(0 <= z.1 * z.1) by (nonlinear_arith);
    assert(0 <= (z.0 - z.1) * (z.0 - z.1)) by (nonlinear_arith);
    assert(0 <= (z.0 + z.1) * (z.0 + z.1)) by (nonlinear_arith);
    assert((z.0 - z.1) * (z.0 - z.1) == z.0 * z.0 - 2 * (z.0 * z.1) + z.1 * z.1)
        by (nonlinear_arith);
    assert((z.0 + z.1) * (z.0 + z.1) == z.0 * z.0 + 2 * (z.0 * z.1) + z.1 * z.1)
        by (nonlinear_arith);
}

/// One step `z² + c` of the recurrence, computed on `i128` so that it
/// cannot overflow while `z` has not escaped.
fn step_wide(z: &Complex, c: &Complex) -> (w: (i128, i128))
    requires
        norm_sqr(z@) < 0x4000_0000_0000_0000_0000_0000_0000_0000,
        0 <= z@.0 * z@.0 <= norm_sqr(z@),
        0 <= z@.1 * z@.1 <= norm_sqr(z@),
        -norm_sqr(z@) <= 2 * (z@.0 * z@.1) <= norm_sqr(z@),
    ensures
        (w.0 as int, w.1 as int) == sum(square(z@), c@),
{
    let rr: i128 = (z.r as i128) * (z.r as i128);
    let ii: i128 = (z.i as i128) * (z.i as i128);
    let ri: i128 = (z.r as i128) * (z.i as i128);
    let re = rescale(rr - ii);
    let im = rescale(2 * ri);
    proof {
        lemma_fx_div_bound(rr - ii, 0x4000_0000_0000_0000_0000_0000_0000_0000);
        lemma_fx_div_bound(2 * ri, 0x4000_0000_0000_0000_0000_0000_0000_0000);
    }
    (re + c.r as i128, im + c.i as i128)
}

/// The escape time of `point`: the number of iterations of `z ← z² + point`,
/// from `z = 0`, after which `|z|` first exceeds `bound`, or `max_iterations`
/// when that does not happen sooner.
pub fn evaluate(point: Complex, max_iterations: u32, bound: i64) -> (k: u32)
    requires
        0 < bound,
    ensures
        k == escape_time(point@, max_iterations as nat, bound as int),
{
    proof {
        assert((bound as int) * (bound as int) < 0x4000_0000_0000_0000_0000_0000_0000_0000) by (nonlinear_arith)
            requires
                0 < bound <= i64::MAX,
        ;
    }
    let b2: u128 = (bound as u128) * (bound as u128);
    let mut z = Complex { r: 0, i: 0 };
    let mut k: u32 = 0;
    while z.norm_sqr() <= b2 && k < max_iterations
        invariant
            0 < bound,
            b2 == bound * bound,
            k <= max_iterations,
            z@ == orbit(point@, k as nat),
            escape_time(point@, max_iterations as nat, bound as int) == escape_time_from(
                point@,
                max_iterations as nat,
                bound as int,
                k as nat,
            ),
        decreases max_iterations - k,
    {
        proof {
            lemma_not_escaped_bounds(z@, bound as int);
        }
        let (re, im) = step_wide(&z, &point);
        if re < i64::MIN as i128 || re > i64::MAX as i128 || im < i64::MIN as i128 || im > i64::MAX as i128 {
            proof {
                let w = orbit(point@, (k + 1) as nat);
                assert(w == (re as int, im as int));
                if re < i64::MIN as i128 || re > i64::MAX as i128 {
                    lemma_wide_component_escapes(re as int, im as int, bound as int);
                } else {
                    lemma_wide_component_escapes(im as int, re as int, bound as int);
                }
                assert(escaped(w, bound as int));
                assert(!escaped(orbit(point@, k as nat), bound as int));
                assert(escape_time_from(point@, max_iterations as nat, bound as int, (k + 1) as nat) == k + 1);
                assert(escape_time_from(point@, max_iterations as nat, bound as int, k as nat) == k + 1);
            }
            return k + 1;
        }
        z = Complex { r: re as i64, i: im as i64 };
        k = k + 1;
    }
    k
}

proof fn lemma_escape_time_from(c: (int, int), max: nat, bound: int, k: nat)
    requires
        k <= max,
        forall|j: nat| 1 <= j < k ==> !escaped(#[trigger] orbit(c, j), bound),
    ensures
        is_escape_time_from(c, max, bound, k, escape_time_from(c, max, bound, k)),
    decreases max - k,
{
    if k == 0 {
        lemma_orbit_zero_not_escaped(c, bound);
    }
    if !(k >= max || escaped(orbit(c, k), bound)) {
        lemma_escape_time_from(c, max, bound, k + 1);
    }
}

proof fn lemma_orbit_zero_not_escaped(c: (int, int), bound: int)
    ensures
        !escaped(orbit(c, 0), bound),
{
    assert(orbit(c, 0) == (0int, 0int));
    assert(!escaped((0, 0), bound)) by (nonlinear_arith);
}

pub open spec fn is_escape_time_from(c: (int, int), max: nat, bound: int, k: nat, r: nat) -> bool {
    &&& k <= r <= max
    &&& forall|j: nat| 1 <= j < r ==> !escaped(#[trigger] orbit(c, j), bound)
    &&& (r == max || escaped(orbit(c, r), bound))
    &&& (k == 0 && max >= 1 ==> r >= 1)
}

/// The escape time is the first escaped iterate, or the cap.
pub proof fn lemma_escape_time_characterized(c: (int, int), max: nat, bound: int)
    ensures
        is_escape_time(c, max, bound, escape_time(c, max, bound)),
{
    lemma_escape_time_from(c, max, bound, 0);
}

/// At the origin the orbit stays at zero, so the cap is always reached.
pub proof fn lemma_origin_never_escapes(max_iterations: u32, bound: i64)
    requires
        0 < bound,
    ensures
        escape_time((0, 0), max_iterations as nat, bound as int) == max_iterations,
{
    let k = escape_time((0, 0), max_iterations as nat, bound as int);
    lemma_escape_time_characterized((0, 0), max_iterations as nat, bound as int);
    lemma_orbit_of_origin(k);
    assert(!escaped(orbit((0, 0), k), bound as int)) by (nonlinear_arith)
        requires
            orbit((0, 0), k) == (0int, 0int),
            0 < bound,
    ;
}

proof fn lemma_orbit_of_origin(n: nat)
    ensures
        orbit((0, 0), n) == (0int, 0int),
    decreases n,
{
    if n > 0 {
        lemma_orbit_of_origin((n - 1) as nat);
    }
}

/// A point farther than `bound` from the origin escapes after one iteration,
/// since `0² + point = point`.
pub proof fn lemma_far_point_escapes_at_once(point: (int, int), max_iterations: u32, bound: i64)
    requires
        max_iterations >= 1,
        escaped(point, bound as int),
    ensures
        escape_time(point, max_iterations as nat, bound as int) == 1,
{
    let k = escape_time(point, max_iterations as nat, bound as int);
    lemma_escape_time_characterized(point, max_iterations as nat, bound as int);
    lemma_orbit_one(point);
    if k > 1 {
        assert(!escaped(orbit(point, 1), bound as int));
    }
}

/// The escape time never exceeds the cap, and is at least one iteration
/// whenever the cap allows one.
pub proof fn lemma_escape_time_bounded(point: (int, int), max_iterations: u32, bound: i64)
    ensures
        0 <= escape_time(point, max_iterations as nat, bound as int) <= max_iterations,
        max_iterations >= 1 ==> escape_time(point, max_iterations as nat, bound as int) >= 1,
{
    lemma_escape_time_characterized(point, max_iterations as nat, bound as int);
}

} // verus!
