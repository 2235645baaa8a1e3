use escape_render::{
    elapsed_parts, progress_bar, progress_marks, progress_percent, rgba_bytes, to_byte, Color, BAR_WIDTH, ONE,
};

const U: u64 = ONE as u64;

#[test]
fn progress_of_ten_rows() {
    assert_eq!(progress_marks(10), vec![0, 10, 20, 30, 40, 50, 60, 70, 80, 90, 100]);
}

#[test]
fn progress_is_non_decreasing_and_ends_at_100() {
    for h in [1usize, 3, 7, 768] {
        let m = progress_marks(h);
        assert_eq!(m.len(), h + 1);
        assert!(m.windows(2).all(|w| w[0] <= w[1]));
        assert_eq!(*m.last().unwrap(), 100);
    }
    assert_eq!(progress_percent(767, 768), 99);
    assert_eq!(progress_percent(1, 3), 33);
    assert_eq!(progress_percent(3, 3), 100);
}

#[test]
fn progress_bar_cells() {
    let full = progress_bar(100);
    assert_eq!(full, format!("[{}]", "=".repeat(BAR_WIDTH)));
    let empty = progress_bar(0);
    assert_eq!(empty, format!("[={}]", " ".repeat(BAR_WIDTH - 1)));
    let half = progress_bar(50);
    assert_eq!(half, format!("[{}{}]", "=".repeat(26), " ".repeat(24)));
}

#[test]
fn elapsed_time_parts() {
    assert_eq!(elapsed_parts(3725), (1, 2, 5));
    assert_eq!(elapsed_parts(7199), (1, 59, 59));
    assert_eq!(elapsed_parts(59), (0, 0, 59));
    assert_eq!(elapsed_parts(0), (0, 0, 0));
}

#[test]
fn channel_bytes_round_to_nearest() {
    assert_eq!(to_byte(0), 0);
    assert_eq!(to_byte(1), 0);
    assert_eq!(to_byte(U), 255);
    assert_eq!(to_byte(U - 1), 255);
    assert_eq!(to_byte(U / 2), 128);
    assert_eq!(to_byte(U / 4), 64);
    assert_eq!(to_byte(U + 1), 255);
    assert_eq!(to_byte(10 * U), 255);
}

#[test]
fn unit_colors_convert_into_byte_range() {
    let buf = vec![
        Color { r: 0, g: U, b: U / 2, a: U },
        Color { r: U / 4, g: 1, b: U - 1, a: 0 },
    ];
    let bytes = rgba_bytes(&buf);
    assert_eq!(bytes, vec![0, 255, 128, 255, 64, 0, 255, 0]);
    for step in 0..=64u64 {
        let c = step * U / 64;
        let b = to_byte(c) as u64;
        assert_eq!(b, (c * 255 + U / 2) / U);
        assert!(b <= 255);
    }
}

#[test]
fn nearest_fixed_point_channels_give_their_bytes() {
    // 1.0, 0.0, 0.2 and 0.6, each at its nearest fixed-point value.
    let c = Color { r: U, g: 0, b: 3355443, a: 10066330 };
    assert_eq!(rgba_bytes(&[c]), vec![255, 0, 51, 153]);
}

#[test]
fn empty_buffer_has_no_bytes() {
    assert!(rgba_bytes(&Vec::new()).is_empty());
}
