use vstd::prelude::*;
use vstd::arithmetic::div_mod::{lemma_fundamental_div_mod, lemma_fundamental_div_mod_converse};
use crate::color::{
    channels, is_unit, is_unit_palette, palette_color, palette_entry, scale_down, sum_colors, Color,
};
use crate::complex::ONE;
use crate::escape::{escape_time, evaluate};
use crate::jitter::{in_footprint, JitterSource};
use crate::viewport::{sample_point, sample_to_plane, RenderError, Viewport};

verus! {

/// What a rendering is asked for: the viewport, the raster, the number of
/// samples per pixel, the iteration cap and the escape bound.
#[derive(Clone, Copy, Debug, PartialEq, Eq, Structural)]
pub struct RenderConfig {
    pub viewport: Viewport,
    pub raster_width: usize,
    pub raster_height: usize,
    pub samples_per_pixel: u32,
    pub max_iterations: u32,
    pub bound: i64,
}

impl RenderConfig {
    /// Positive raster and sample count, a buffer size that fits in memory
    /// addresses, a valid viewport and a positive escape bound.
    pub open spec fn is_valid(&self) -> bool {
        &&& self.viewport.is_valid()
        &&& self.raster_width > 0
        &&& self.raster_height > 0
        &&& self.raster_width * self.raster_height <= usize::MAX
        &&& self.samples_per_pixel > 0
        &&& 0 < self.bound
    }

    /// Number of pixels of the raster.
    pub open spec fn pixel_count(&self) -> int {
        self.raster_width * self.raster_height
    }
}

/// The colour of one sample: the palette entry of the escape time of the
/// plane point under offset `j` in cell `(x, y)`.
pub open spec fn sample_color(cfg: RenderConfig, palette: Seq<Color>, x: int, y: int, j: (i64, i64)) -> Color {
    let c = sample_point(cfg.viewport, cfg.raster_width as int, cfg.raster_height as int, x, y, j);
    palette_entry(palette, escape_time(c, cfg.max_iterations as nat, cfg.bound as int) as int)
}

/// The sample colours of cell `(x, y)` for the offsets `js`, in order.
pub open spec fn sample_colors(cfg: RenderConfig, palette: Seq<Color>, x: int, y: int, js: Seq<(i64, i64)>) -> Seq<Color> {
    js.map_values(|j: (i64, i64)| sample_color(cfg, palette, x, y, j))
}

/// The colour of cell `(x, y)`: the mean of its sample colours, rounded down.
pub open spec fn pixel_value(cfg: RenderConfig, palette: Seq<Color>, x: int, y: int, js: Seq<(i64, i64)>) -> (int, int, int, int) {
    scale_down(sum_colors(sample_colors(cfg, palette, x, y, js)), js.len() as int)
}

/// Every offset lies in the pixel footprint.
pub open spec fn jitters_in_footprint(js: Seq<(i64, i64)>) -> bool {
    forall|s: int| 0 <= s < js.len() ==> in_footprint(#[trigger] js[s].0) && in_footprint(js[s].1)
}

/// Offsets that a jitter source may hand out for one pixel of `n` samples.
pub open spec fn drawable_jitters(js: Seq<(i64, i64)>, n: nat, centered: bool) -> bool {
    &&& js.len() == n
    &&& jitters_in_footprint(js)
    &&& centered ==> forall|s: int| 0 <= s < js.len() ==> #[trigger] js[s] == (0i64, 0i64)
}

/// `c` is the colour of cell `(x, y)` for offsets that the source could draw.
pub open spec fn is_rendered(cfg: RenderConfig, palette: Seq<Color>, centered: bool, x: int, y: int, c: Color) -> bool {
    exists|js: Seq<(i64, i64)>|
        drawable_jitters(js, cfg.samples_per_pixel as nat, centered)
            && channels(c) == #[trigger] pixel_value(cfg, palette, x, y, js)
}

/// The buffer is a finished rendering: cell `(x, y)` at index `y * raster_width + x`.
pub open spec fn is_rendering(cfg: RenderConfig, palette: Seq<Color>, centered: bool, buf: Seq<Color>) -> bool {
    &&& buf.len() == cfg.pixel_count()
    &&& forall|i: int| 0 <= i < buf.len() ==> is_rendered(
        cfg,
        palette,
        centered,
        i % cfg.raster_width as int,
        i / cfg.raster_width as int,
        #[trigger] buf[i],
    )
}

/// The offsets of `n` samples at the centre of their pixel.
pub open spec fn centered_jitters(n: nat) -> Seq<(i64, i64)> {
    Seq::new(n, |s: int| (0i64, 0i64))
}

/// With centred samples a rendering is determined: each cell holds exactly
/// the sum of the palette colours of its samples, divided by their number.
pub proof fn lemma_centered_rendering_exact(cfg: RenderConfig, palette: Seq<Color>, buf: Seq<Color>, i: int)
    requires
        is_rendering(cfg, palette, true, buf),
        0 <= i < buf.len(),
    ensures
        channels(buf[i]) == pixel_value(
            cfg,
            palette,
            i % cfg.raster_width as int,
            i / cfg.raster_width as int,
            centered_jitters(cfg.samples_per_pixel as nat),
        ),
{
    let x = i % cfg.raster_width as int;
    let y = i / cfg.raster_width as int;
    assert(is_rendered(cfg, palette, true, x, y, buf[i]));
    let js = choose|js: Seq<(i64, i64)>|
        drawable_jitters(js, cfg.samples_per_pixel as nat, true)
            && channels(buf[i]) == #[trigger] pixel_value(cfg, palette, x, y, js);
    assert(js =~= centered_jitters(cfg.samples_per_pixel as nat));
}

proof fn lemma_sum_push(cs: Seq<Color>, c: Color)
    ensures
        sum_colors(cs.push(c)) == ({
            let s = sum_colors(cs);
            (s.0 + c.r, s.1 + c.g, s.2 + c.b, s.3 + c.a)
        }),
{
    assert(cs.push(c).drop_last() =~= cs);
}

proof fn lemma_sum_bounded(cs: Seq<Color>)
    requires
        forall|i: int| 0 <= i < cs.len() ==> is_unit(#[trigger] cs[i]),
    ensures
        ({
            let s = sum_colors(cs);
            &&& 0 <= s.0 <= cs.len() * ONE
            &&& 0 <= s.1 <= cs.len() * ONE
            &&& 0 <= s.2 <= cs.len() * ONE
            &&& 0 <= s.3 <= cs.len() * ONE
        }),
    decreases cs.len(),
{
    if cs.len() > 0 {
        lemma_sum_bounded(cs.drop_last());
    }
}

/// Sum of the sample colours of cell `(x, y)`, channel by channel, before
/// the division by the number of samples.
pub fn accumulate_samples(cfg: &RenderConfig, palette: &[Color; 16], x: usize, y: usize, jitters: &Vec<(i64, i64)>) -> (c: Color)
    requires
        cfg.is_valid(),
        is_unit_palette(palette@),
        x < cfg.raster_width,
        y < cfg.raster_height,
        jitters.len() <= u32::MAX,
        jitters_in_footprint(jitters@),
    ensures
        channels(c) == sum_colors(sample_colors(*cfg, palette@, x as int, y as int, jitters@)),
{
    let mut acc = Color::new();
    let mut s: usize = 0;
    while s < jitters.len()
        invariant
            cfg.is_valid(),
            is_unit_palette(palette@),
            x < cfg.raster_width,
            y < cfg.raster_height,
            jitters.len() <= u32::MAX,
            jitters_in_footprint(jitters@),
            s <= jitters.len(),
            channels(acc) == sum_colors(sample_colors(*cfg, palette@, x as int, y as int, jitters@.take(s as int))),
            acc.r <= s * ONE && acc.g <= s * ONE && acc.b <= s * ONE && acc.a <= s * ONE,
        decreases jitters.len() - s,
    {
        let (jx, jy) = jitters[s];
        proof {
            assert(in_footprint(jitters@[s as int].0));
        }
        let point = sample_to_plane(&cfg.viewport, cfg.raster_width, cfg.raster_height, x, y, jx, jy);
        let k = evaluate(point, cfg.max_iterations, cfg.bound);
        let c = palette_color(palette, k);
        proof {
            let cs = sample_colors(*cfg, palette@, x as int, y as int, jitters@.take(s as int));
            assert(sample_colors(*cfg, palette@, x as int, y as int, jitters@.take(s + 1)) =~= cs.push(c));
            lemma_sum_push(cs, c);
            assert(is_unit(palette@[(k % 16) as int]));
        }
        acc.add(c);
        s = s + 1;
    }
    proof {
        assert(jitters@.take(s as int) =~= jitters@);
    }
    acc
}

/// The colour of cell `(x, y)`: the mean of its sample colours, each channel
/// rounded down.
pub fn shade_pixel(cfg: &RenderConfig, palette: &[Color; 16], x: usize, y: usize, jitters: &Vec<(i64, i64)>) -> (c: Color)
    requires
        cfg.is_valid(),
        is_unit_palette(palette@),
        x < cfg.raster_width,
        y < cfg.raster_height,
        0 < jitters.len() <= u32::MAX,
        jitters_in_footprint(jitters@),
    ensures
        channels(c) == pixel_value(*cfg, palette@, x as int, y as int, jitters@),
{
    let mut c = accumulate_samples(cfg, palette, x, y, jitters);
    c.divide(jitters.len() as u64);
    c
}

/// Draws the offsets of the samples of one pixel.
fn draw_jitters(jitter: &mut JitterSource, n: u32) -> (js: Vec<(i64, i64)>)
    ensures
        drawable_jitters(js@, n as nat, old(jitter).is_centered()),
        final(jitter).is_centered() == old(jitter).is_centered(),
{
    let mut js: Vec<(i64, i64)> = Vec::new();
    let mut s: u32 = 0;
    while s < n
        invariant
            s <= n,
            drawable_jitters(js@, s as nat, old(jitter).is_centered()),
            jitter.is_centered() == old(jitter).is_centered(),
        decreases n - s,
    {
        let j = jitter.draw();
        js.push(j);
        s = s + 1;
    }
    js
}

/// Renders row `y` into the buffer and leaves every other row as it was.
pub fn render_row(cfg: &RenderConfig, palette: &[Color; 16], jitter: &mut JitterSource, buf: &mut Vec<Color>, y: usize)
    requires
        cfg.is_valid(),
        is_unit_palette(palette@),
        old(buf).len() == cfg.pixel_count(),
        y < cfg.raster_height,
    ensures
        final(buf).len() == old(buf).len(),
        final(jitter).is_centered() == old(jitter).is_centered(),
        forall|i: int|
            0 <= i < final(buf).len() && i / cfg.raster_width as int == y ==> is_rendered(
                *cfg,
                palette@,
                old(jitter).is_centered(),
                i % cfg.raster_width as int,
                y as int,
                #[trigger] final(buf)[i],
            ),
        forall|i: int|
            0 <= i < final(buf).len() && i / cfg.raster_width as int != y ==> #[trigger] final(buf)[i] == old(buf)[i],
{
    let w = cfg.raster_width;
    let ghost centered = jitter.is_centered();
    let mut x: usize = 0;
    while x < w
        invariant
            cfg.is_valid(),
            is_unit_palette(palette@),
            w == cfg.raster_width,
            y < cfg.raster_height,
            x <= w,
            buf.len() == old(buf).len(),
            buf.len() == cfg.pixel_count(),
            centered == old(jitter).is_centered(),
            jitter.is_centered() == centered,
            forall|i: int|
                0 <= i < buf.len() && i / w as int == y && (i % (w as int)) < x ==> is_rendered(
                    *cfg,
                    palette@,
                    centered,
                    i % w as int,
                    y as int,
                    #[trigger] buf[i],
                ),
            forall|i: int|
                0 <= i < buf.len() && !(i / w as int == y && (i % (w as int)) < x) ==> #[trigger] buf[i] == old(buf)[i],
        decreases w - x,
    {
        let js = draw_jitters(jitter, cfg.samples_per_pixel);
        let c = shade_pixel(cfg, palette, x, y, &js);
        proof {
            assert(y * w + x < cfg.pixel_count()) by (nonlinear_arith)
                requires
                    y < cfg.raster_height,
                    x < w,
                    w == cfg.raster_width,
                    cfg.pixel_count() == cfg.raster_width * cfg.raster_height,
            ;
        }
        let idx = y * w + x;
        proof {
            lemma_fundamental_div_mod_converse(idx as int, w as int, y as int, x as int);
            assert(drawable_jitters(js@, cfg.samples_per_pixel as nat, centered));
            assert(channels(c) == pixel_value(*cfg, palette@, x as int, y as int, js@));
        }
        buf[idx] = c;
        proof {
            assert forall|i: int| 0 <= i < buf.len() && i / (w as int) == y && #[trigger] (i % (w as int)) == x implies i == idx by {
                lemma_fundamental_div_mod(i, w as int);
                assert((w as int) * (y as int) == (y as int) * (w as int)) by (nonlinear_arith);
            }
        }
        x = x + 1;
    }
}

/// Renders the whole raster, row by row, into a row-major buffer; refuses a
/// configuration with an empty raster, no samples, a bound or viewport out
/// of range, or a palette colour brighter than full intensity.
pub fn render(cfg: &RenderConfig, palette: &[Color; 16], jitter: &mut JitterSource) -> (r: Result<Vec<Color>, RenderError>)
    ensures
        r is Ok <==> cfg.is_valid() && is_unit_palette(palette@),
        r matches Err(e) ==> e == RenderError::InvalidConfiguration,
        r matches Ok(buf) ==> is_rendering(*cfg, palette@, old(jitter).is_centered(), buf@),
        final(jitter).is_centered() == old(jitter).is_centered(),
{
    if !validate(cfg, palette) {
        return Err(RenderError::InvalidConfiguration);
    }
    let w = cfg.raster_width;
    let n = w * cfg.raster_height;
    let ghost centered = jitter.is_centered();
    let mut buf: Vec<Color> = Vec::new();
    while buf.len() < n
        invariant
            buf.len() <= n,
        decreases n - buf.len(),
    {
        buf.push(Color::new());
    }
    let mut y: usize = 0;
    while y < cfg.raster_height
        invariant
            cfg.is_valid(),
            is_unit_palette(palette@),
            w == cfg.raster_width,
            n == cfg.pixel_count(),
            buf.len() == n,
            y <= cfg.raster_height,
            jitter.is_centered() == centered,
            centered == old(jitter).is_centered(),
            forall|i: int| 0 <= i < buf.len() && (i / (w as int)) < y ==> is_rendered(
                *cfg,
                palette@,
                centered,
                i % w as int,
                i / w as int,
                #[trigger] buf[i],
            ),
        decreases cfg.raster_height - y,
    {
        render_row(cfg, palette, jitter, &mut buf, y);
        y = y + 1;
    }
    proof {
        assert forall|i: int| 0 <= i < buf.len() implies #[trigger] (i / (w as int)) < y by {
            lemma_fundamental_div_mod(i, w as int);
            assert((i / (w as int)) < cfg.raster_height as int) by (nonlinear_arith)
                requires
                    0 <= i < w * cfg.raster_height,
                    i == w * (i / w as int) + i % w as int,
                    0 <= i % w as int,
                    w > 0,
            ;
        }
    }
    Ok(buf)
}

/// Checks a configuration and a palette before rendering.
pub fn validate(cfg: &RenderConfig, palette: &[Color; 16]) -> (ok: bool)
    ensures
        ok == (cfg.is_valid() && is_unit_palette(palette@)),
{
    if !cfg.viewport.is_valid_exec() || cfg.raster_width == 0 || cfg.raster_height == 0
        || cfg.samples_per_pixel == 0 || cfg.bound <= 0 {
        return false;
    }
    if cfg.raster_width.checked_mul(cfg.raster_height).is_none() {
        return false;
    }
    let mut i: usize = 0;
    while i < 16
        invariant
            i <= 16,
            forall|k: int| 0 <= k < i ==> is_unit(#[trigger] palette@[k]),
        decreases 16 - i,
    {
        let c = palette[i];
        if c.r > ONE as u64 || c.g > ONE as u64 || c.b > ONE as u64 || c.a > ONE as u64 {
            return false;
        }
        i = i + 1;
    }
    true
}

} // verus!
