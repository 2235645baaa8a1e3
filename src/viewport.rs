use vstd::prelude::*;
use crate::complex::{Complex, ONE};

verus! {

/// Largest magnitude of a viewport's centre coordinates, in fixed point (65536.0).
pub const MAX_COORD: i64 = 1099511627776;

/// Largest extent of a viewport, in fixed point (65536.0).
pub const MAX_SPAN: i64 = 1099511627776;

/// A rectangle of the complex plane: its centre and its extents.
#[derive(Clone, Copy, Debug, PartialEq, Eq, Structural)]
pub struct Viewport {
    pub center: Complex,
    pub plane_width: i64,
    pub plane_height: i64,
}

/// Ways in which a configuration is refused.
#[derive(Clone, Copy, Debug, PartialEq, Eq, Structural)]
pub enum RenderError {
    InvalidConfiguration,
}

/// The aspect-correct width for a plane height on a raster.
pub open spec fn aspect_width(plane_height: int, raster_width: int, raster_height: int) -> int {
    plane_height * raster_width / raster_height
}

/// The viewport that `with_aspect` builds from these values is valid.
pub open spec fn aspect_viewport_valid(center: Complex, plane_height: int, raster_width: int, raster_height: int) -> bool {
    &&& -MAX_COORD <= center.r <= MAX_COORD
    &&& -MAX_COORD <= center.i <= MAX_COORD
    &&& 0 < plane_height <= MAX_SPAN
    &&& 0 < aspect_width(plane_height, raster_width, raster_height) <= MAX_SPAN
}

impl Viewport {
    /// The centre and both extents lie in the range that the fixed-point
    /// arithmetic of sampling is proved for.
    pub open spec fn is_valid(&self) -> bool {
        &&& -MAX_COORD <= self.center.r <= MAX_COORD
        &&& -MAX_COORD <= self.center.i <= MAX_COORD
        &&& 0 < self.plane_width <= MAX_SPAN
        &&& 0 < self.plane_height <= MAX_SPAN
    }

    pub fn is_valid_exec(&self) -> (b: bool)
        ensures
            b == self.is_valid(),
    {
        -MAX_COORD <= self.center.r && self.center.r <= MAX_COORD && -MAX_COORD <= self.center.i
            && self.center.i <= MAX_COORD && 0 < self.plane_width && self.plane_width <= MAX_SPAN
            && 0 < self.plane_height && self.plane_height <= MAX_SPAN
    }

    /// A viewport of the given height whose width follows the raster's aspect
    /// ratio, `plane_width = plane_height * raster_width / raster_height`
    /// (rounded down), so that circles of the plane stay circles on the raster.
    pub fn with_aspect(center: Complex, plane_height: i64, raster_width: usize, raster_height: usize) -> (r: Result<Viewport, RenderError>)
        ensures
            r is Ok <==> raster_height > 0 && aspect_viewport_valid(center, plane_height as int, raster_width as int, raster_height as int),
            r matches Ok(v) ==> v.center == center && v.plane_height == plane_height
                && v.plane_width == aspect_width(plane_height as int, raster_width as int, raster_height as int),
            r matches Err(e) ==> e == RenderError::InvalidConfiguration,
    {
        if raster_height == 0 || plane_height <= 0 || plane_height > MAX_SPAN {
            return Err(RenderError::InvalidConfiguration);
        }
        proof {
            assert(plane_height * raster_width <= MAX_SPAN * 0xffff_ffff_ffff_ffff) by (nonlinear_arith)
                requires
                    0 < plane_height <= MAX_SPAN,
                    0 <= raster_width <= 0xffff_ffff_ffff_ffff,
            ;
            assert(0 <= plane_height * raster_width) by (nonlinear_arith)
                requires
                    0 < plane_height,
                    0 <= raster_width,
            ;
        }
        let prod: i128 = (plane_height as i128) * (raster_width as i128);
        let w: i128 = prod / (raster_height as i128);
        if w <= 0 || w > MAX_SPAN as i128 {
            return Err(RenderError::InvalidConfiguration);
        }
        let v = Viewport { center, plane_width: w as i64, plane_height };
        if v.is_valid_exec() {
            Ok(v)
        } else {
            Err(RenderError::InvalidConfiguration)
        }
    }
}

/// Normalized device coordinate of a sample, in fixed point: the pixel index
/// `p` plus the offset `j`, divided by the raster extent, times two, minus one.
pub open spec fn ndc(p: int, j: int, extent: int) -> int {
    (2 * (p * ONE + j)) / extent - ONE
}

/// Plane coordinate for a normalized device coordinate: `center + ndc * span / 2`.
pub open spec fn to_plane(center: int, ndc: int, span: int) -> int {
    center + (ndc * span) / (2 * ONE)
}

/// The plane point sampled at offset `j` inside raster cell `(x, y)`.
pub open spec fn sample_point(v: Viewport, width: int, height: int, x: int, y: int, j: (i64, i64)) -> (int, int) {
    (
        to_plane(v.center.r as int, ndc(x, j.0 as int, width), v.plane_width as int),
        to_plane(v.center.i as int, ndc(y, j.1 as int, height), v.plane_height as int),
    )
}

proof fn lemma_ndc_bounds(p: int, j: int, extent: int)
    requires
        0 <= p < extent,
        -ONE / 2 <= j < ONE / 2,
    ensures
        -2 * ONE <= ndc(p, j, extent) < ONE,
{
    let n = 2 * (p * ONE + j);
    assert(-ONE <= n) by (nonlinear_arith)
        requires
            0 <= p,
            -ONE / 2 <= j,
            n == 2 * (p * ONE + j),
    ;
    assert(n < 2 * extent * ONE) by (nonlinear_arith)
        requires
            p < extent,
            j < ONE / 2,
            n == 2 * (p * ONE + j),
    ;
    assert(n / extent < 2 * ONE) by (nonlinear_arith)
        requires
            n < 2 * extent * ONE,
            0 < extent,
    ;
    assert(n / extent >= -ONE) by (nonlinear_arith)
        requires
            -ONE <= n,
            0 < extent,
    ;
}

proof fn lemma_plane_bounds(center: int, d: int, span: int)
    requires
        -MAX_COORD <= center <= MAX_COORD,
        0 < span <= MAX_SPAN,
        -2 * ONE <= d < ONE,
    ensures
        -MAX_COORD - 2 * MAX_SPAN <= to_plane(center, d, span) <= MAX_COORD + MAX_SPAN,
{
    assert(-2 * ONE * MAX_SPAN <= d * span <= ONE * MAX_SPAN) by (nonlinear_arith)
        requires
            0 < span <= MAX_SPAN,
            -2 * ONE <= d < ONE,
    ;
    let q = (d * span) / (2 * ONE);
    assert(-MAX_SPAN <= q <= MAX_SPAN) by (nonlinear_arith)
        requires
            -2 * ONE * MAX_SPAN <= d * span <= ONE * MAX_SPAN,
            q == (d * span) / (2 * ONE),
            ONE == 16777216,
    ;
}

/// Maps offset `(jx, jy)` inside raster cell `(x, y)` to its plane point.
pub fn sample_to_plane(v: &Viewport, width: usize, height: usize, x: usize, y: usize, jx: i64, jy: i64) -> (c: Complex)
    requires
        v.is_valid(),
        x < width,
        y < height,
        -ONE / 2 <= jx < ONE / 2,
        -ONE / 2 <= jy < ONE / 2,
    ensures
        c@ == sample_point(*v, width as int, height as int, x as int, y as int, (jx, jy)),
        -MAX_COORD - 2 * MAX_SPAN <= c.r <= MAX_COORD + MAX_SPAN,
        -MAX_COORD - 2 * MAX_SPAN <= c.i <= MAX_COORD + MAX_SPAN,
{
    proof {
        lemma_ndc_bounds(x as int, jx as int, width as int);
        lemma_ndc_bounds(y as int, jy as int, height as int);
        lemma_plane_bounds(v.center.r as int, ndc(x as int, jx as int, width as int), v.plane_width as int);
        lemma_plane_bounds(v.center.i as int, ndc(y as int, jy as int, height as int), v.plane_height as int);
    }
    let nx: i128 = (2 * ((x as i128) * (ONE as i128) + jx as i128)).checked_div_euclid(width as i128).unwrap() - ONE as i128;
    let ny: i128 = (2 * ((y as i128) * (ONE as i128) + jy as i128)).checked_div_euclid(height as i128).unwrap() - ONE as i128;
    let pr: i128 = (v.center.r as i128) + (nx * (v.plane_width as i128)).checked_div_euclid(2 * ONE as i128).unwrap();
    let pi: i128 = (v.center.i as i128) + (ny * (v.plane_height as i128)).checked_div_euclid(2 * ONE as i128).unwrap();
    Complex { r: pr as i64, i: pi as i64 }
}

} // verus!
