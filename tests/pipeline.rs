use escape_render::{
    accumulate_samples, palette_color, render, render_row, sample_to_plane, shade_pixel, validate,
    Color, Complex, JitterSource, RenderConfig, RenderError, Viewport, HALF_PIXEL, ONE,
};

const U: u64 = ONE as u64;

fn distinct_palette() -> [Color; 16] {
    let mut p = [Color::new(); 16];
    for (i, c) in p.iter_mut().enumerate() {
        let i = i as u64;
        *c = Color { r: i * U / 16, g: U - i * U / 16, b: (i % 4) * U / 4, a: U };
    }
    p
}

fn square_view(side: i64) -> Viewport {
    Viewport { center: Complex::new(0, 0), plane_width: side, plane_height: side }
}

fn config(view: Viewport, w: usize, h: usize, samples: u32, max: u32) -> RenderConfig {
    RenderConfig {
        viewport: view,
        raster_width: w,
        raster_height: h,
        samples_per_pixel: samples,
        max_iterations: max,
        bound: 2 * ONE,
    }
}

#[test]
fn palette_lookup_is_cyclic() {
    let p = distinct_palette();
    for k in 0u32..64 {
        assert_eq!(palette_color(&p, k), palette_color(&p, k + 16));
        assert_eq!(palette_color(&p, k), p[(k % 16) as usize]);
    }
    assert_ne!(palette_color(&p, 1), palette_color(&p, 2));
}

#[test]
fn color_accumulates_and_divides() {
    let mut c = Color::new();
    c.add(Color { r: 3, g: 5, b: 7, a: 9 });
    c.add(Color { r: 4, g: 5, b: 6, a: 7 });
    assert_eq!(c, Color { r: 7, g: 10, b: 13, a: 16 });
    c.divide(2);
    assert_eq!(c, Color { r: 3, g: 5, b: 6, a: 8 });
}

#[test]
fn corner_sample_maps_to_viewport_corner() {
    let v = square_view(4 * ONE);
    assert_eq!(sample_to_plane(&v, 2, 2, 0, 0, 0, 0), Complex::new(-2 * ONE, -2 * ONE));
    assert_eq!(sample_to_plane(&v, 2, 2, 1, 0, 0, 0), Complex::new(0, -2 * ONE));
    assert_eq!(sample_to_plane(&v, 2, 2, 1, 1, 0, 0), Complex::new(0, 0));
    // half a pixel to the left of cell (1, 1): ndc -0.5, plane -1.
    assert_eq!(sample_to_plane(&v, 2, 2, 1, 1, -HALF_PIXEL, 0), Complex::new(-ONE, 0));
}

#[test]
fn viewport_width_follows_aspect_ratio() {
    let v = Viewport::with_aspect(Complex::new(-ONE, ONE / 8), 4 * ONE, 1366, 768).unwrap();
    assert_eq!(v.plane_height, 4 * ONE);
    assert_eq!(v.plane_width, 4 * ONE * 1366 / 768);
    assert_eq!(v.center, Complex::new(-ONE, ONE / 8));
    let square = Viewport::with_aspect(Complex::new(0, 0), 4 * ONE, 2, 2).unwrap();
    assert_eq!(square.plane_width, 4 * ONE);
    assert_eq!(Viewport::with_aspect(Complex::new(0, 0), 4 * ONE, 2, 0), Err(RenderError::InvalidConfiguration));
    assert_eq!(Viewport::with_aspect(Complex::new(0, 0), 0, 2, 2), Err(RenderError::InvalidConfiguration));
}

#[test]
fn accumulation_is_the_exact_sum_of_sample_colors() {
    let p = distinct_palette();
    // 2x2 raster over [-2, 2]^2, cap 3: cell (0, 0) samples (-2, -2), escape time 1.
    let cfg = config(square_view(4 * ONE), 2, 2, 3, 3);
    let js = vec![(0i64, 0i64); 3];
    let sum = accumulate_samples(&cfg, &p, 0, 0, &js);
    let e = p[1];
    assert_eq!(sum, Color { r: 3 * e.r, g: 3 * e.g, b: 3 * e.b, a: 3 * e.a });
    let mean = shade_pixel(&cfg, &p, 0, 0, &js);
    assert_eq!(mean, e);
}

#[test]
fn pixel_is_the_mean_of_its_samples() {
    let p = distinct_palette();
    // Cell (1, 1) of a 2x2 raster over [-2, 2]^2: the centred sample is the
    // origin, the one shifted by half a pixel on both axes is (-1, -1).
    let cfg = config(square_view(4 * ONE), 2, 2, 2, 2);
    let js = vec![(0i64, 0i64), (-HALF_PIXEL, -HALF_PIXEL)];
    // centre (0,0): cap 2; (-1,-1): 0 -> (-1,-1) -> (-1, 1): time 2, both palette[2].
    let c = shade_pixel(&cfg, &p, 1, 1, &js);
    assert_eq!(c, p[2]);
    let cfg1 = config(square_view(4 * ONE), 2, 2, 2, 5);
    // (0,0) reaches cap 5; (-1,-1): (-1,-1) -> (-1,1) -> (-1,-3) escapes at 3.
    let c1 = shade_pixel(&cfg1, &p, 1, 1, &js);
    let (a, b) = (p[5], p[3]);
    assert_eq!(c1, Color { r: (a.r + b.r) / 2, g: (a.g + b.g) / 2, b: (a.b + b.b) / 2, a: (a.a + b.a) / 2 });
}

#[test]
fn two_by_two_scenario_gives_palette_entry_one() {
    let p = distinct_palette();
    let view = Viewport::with_aspect(Complex::new(0, 0), 4 * ONE, 2, 2).unwrap();
    let cfg = config(view, 2, 2, 1, 1);
    let mut jitter = JitterSource::centered();
    let buf = render(&cfg, &p, &mut jitter).unwrap();
    assert_eq!(buf.len(), 4);
    for c in &buf {
        assert_eq!(*c, p[1]);
    }
}

#[test]
fn centred_rendering_of_a_larger_raster() {
    let p = distinct_palette();
    let cfg = config(square_view(4 * ONE), 4, 2, 2, 20);
    let buf = render(&cfg, &p, &mut JitterSource::centered()).unwrap();
    assert_eq!(buf.len(), 8);
    // Row 0 lies on Im = -2; cell (2, 0) is the point (0, -2), escape time 2.
    assert_eq!(buf[2], p[2]);
    // Cell (2, 1) is the origin: cap 20, palette[4].
    assert_eq!(buf[1 * 4 + 2], p[4]);
    // Cell (0, 1) is (-2, 0): the orbit 0, -2, 2, 2, ... never exceeds 2.
    assert_eq!(buf[4], p[4]);
}

#[test]
fn random_jitter_with_cap_one_gives_palette_entry_one() {
    let p = distinct_palette();
    let cfg = config(square_view(4 * ONE), 3, 2, 4, 1);
    let buf = render(&cfg, &p, &mut JitterSource::random()).unwrap();
    assert_eq!(buf.len(), 6);
    assert!(buf.iter().all(|c| *c == p[1]));
}

#[test]
fn render_row_touches_only_its_row() {
    let p = distinct_palette();
    let cfg = config(square_view(4 * ONE), 2, 3, 1, 1);
    let marker = Color { r: 1, g: 2, b: 3, a: 4 };
    let mut buf = vec![marker; 6];
    render_row(&cfg, &p, &mut JitterSource::centered(), &mut buf, 1);
    assert_eq!(buf[0], marker);
    assert_eq!(buf[1], marker);
    assert_eq!(buf[2], p[1]);
    assert_eq!(buf[3], p[1]);
    assert_eq!(buf[4], marker);
    assert_eq!(buf[5], marker);
}

#[test]
fn degenerate_configurations_are_refused() {
    let p = distinct_palette();
    let good = config(square_view(4 * ONE), 2, 2, 1, 1);
    assert!(validate(&good, &p));
    let cases = [
        RenderConfig { raster_width: 0, ..good },
        RenderConfig { raster_height: 0, ..good },
        RenderConfig { samples_per_pixel: 0, ..good },
        RenderConfig { bound: 0, ..good },
        RenderConfig { viewport: square_view(0), ..good },
        RenderConfig { raster_width: usize::MAX, raster_height: 2, ..good },
    ];
    for cfg in cases {
        assert!(!validate(&cfg, &p));
        assert_eq!(render(&cfg, &p, &mut JitterSource::centered()), Err(RenderError::InvalidConfiguration));
    }
    let mut bright = p;
    bright[7].g = U + 1;
    assert_eq!(render(&good, &bright, &mut JitterSource::centered()), Err(RenderError::InvalidConfiguration));
}

#[test]
fn random_offsets_stay_in_the_footprint_and_vary() {
    let mut source = JitterSource::random();
    let mut seen = std::collections::HashSet::new();
    for _ in 0..200 {
        let (dx, dy) = source.draw();
        assert!(-HALF_PIXEL <= dx && dx < HALF_PIXEL);
        assert!(-HALF_PIXEL <= dy && dy < HALF_PIXEL);
        seen.insert(dx);
    }
    assert!(seen.len() > 100);
    assert!(!seen.contains(&HALF_PIXEL));
    let mut centred = JitterSource::centered();
    assert_eq!(centred.draw(), (0, 0));
}
