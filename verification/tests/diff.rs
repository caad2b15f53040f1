use fovea_rs::{calculate_diff, BoundingBox};

/// A solid `width * height` RGBA frame filled with one color.
fn solid(width: u32, height: u32, r: u8, g: u8, b: u8, a: u8) -> Vec<u8> {
    let mut buf: Vec<u8> = Vec::new();
    for _ in 0..(width as usize) * (height as usize) {
        buf.push(r);
        buf.push(g);
        buf.push(b);
        buf.push(a);
    }
    buf
}

/// Overwrite the pixel at `(x, y)` with the given RGBA samples.
fn set_pixel(buf: &mut Vec<u8>, width: u32, x: u32, y: u32, r: u8, g: u8, b: u8, a: u8) {
    let i = 4 * (y as usize * width as usize + x as usize);
    buf[i] = r;
    buf[i + 1] = g;
    buf[i + 2] = b;
    buf[i + 3] = a;
}

#[test]
fn identity_reports_no_change() {
    let frame = solid(5, 4, 10, 200, 30, 255);
    for threshold in [0u8, 1, 17, 255] {
        let r = calculate_diff(&frame, &frame, 5, 4, threshold);
        assert_eq!(
            r,
            BoundingBox { min_x: 0, max_x: 0, min_y: 0, max_y: 0, changed: false }
        );
    }
}

#[test]
fn threshold_monotone_shrinks_box() {
    let width = 6;
    let height = 5;
    let prev = solid(width, height, 0, 0, 0, 255);
    let mut cur = prev.clone();
    // A faint change at (0, 0) and a strong one at (4, 3).
    set_pixel(&mut cur, width, 0, 0, 10, 0, 0, 255);
    set_pixel(&mut cur, width, 4, 3, 200, 0, 0, 255);
    let lo = calculate_diff(&cur, &prev, width, height, 5);
    let hi = calculate_diff(&cur, &prev, width, height, 50);
    assert!(lo.changed && hi.changed);
    // The low-threshold box spans both changes; the high one only the strong.
    assert_eq!(
        lo,
        BoundingBox { min_x: 0, max_x: 4, min_y: 0, max_y: 3, changed: true }
    );
    assert_eq!(
        hi,
        BoundingBox { min_x: 4, max_x: 4, min_y: 3, max_y: 3, changed: true }
    );
    // Nesting, as the monotonicity law states.
    assert!(lo.min_x <= hi.min_x && hi.max_x <= lo.max_x);
    assert!(lo.min_y <= hi.min_y && hi.max_y <= lo.max_y);
    // And with a threshold above every delta, nothing is reported.
    let none = calculate_diff(&cur, &prev, width, height, 255);
    assert!(!none.changed);
}

#[test]
fn single_pixel_exact() {
    let width = 7;
    let height = 3;
    let prev = solid(width, height, 100, 100, 100, 255);
    let mut cur = prev.clone();
    set_pixel(&mut cur, width, 5, 2, 100, 100, 180, 255);
    let r = calculate_diff(&cur, &prev, width, height, 20);
    assert_eq!(
        r,
        BoundingBox { min_x: 5, max_x: 5, min_y: 2, max_y: 2, changed: true }
    );
}

#[test]
fn corners_span_whole_frame() {
    let width = 8;
    let height = 6;
    let prev = solid(width, height, 0, 0, 0, 255);
    let mut cur = prev.clone();
    for (x, y) in [(0, 0), (width - 1, 0), (0, height - 1), (width - 1, height - 1)] {
        set_pixel(&mut cur, width, x, y, 255, 255, 255, 255);
    }
    let r = calculate_diff(&cur, &prev, width, height, 30);
    assert_eq!(
        r,
        BoundingBox { min_x: 0, max_x: 7, min_y: 0, max_y: 5, changed: true }
    );
}

#[test]
fn alpha_only_differences_ignored() {
    let width = 4;
    let height = 4;
    let prev = solid(width, height, 50, 60, 70, 255);
    // Same colors, alpha changed by the largest possible amount everywhere.
    let cur = solid(width, height, 50, 60, 70, 0);
    let r = calculate_diff(&cur, &prev, width, height, 0);
    assert_eq!(
        r,
        BoundingBox { min_x: 0, max_x: 0, min_y: 0, max_y: 0, changed: false }
    );
}

#[test]
fn sum_of_channels_beats_threshold() {
    let threshold = 40u8;
    let prev = solid(1, 1, 0, 0, 0, 255);
    // Deltas (40, 1, 0): no single channel exceeds the threshold, the sum does.
    let cur = solid(1, 1, 40, 1, 0, 255);
    let r = calculate_diff(&cur, &prev, 1, 1, threshold);
    assert_eq!(
        r,
        BoundingBox { min_x: 0, max_x: 0, min_y: 0, max_y: 0, changed: true }
    );
}

#[test]
fn sum_equal_to_threshold_is_unchanged() {
    // The comparison is strict: a combined delta equal to the threshold
    // does not count as changed.
    let prev = solid(2, 2, 0, 0, 0, 255);
    let cur = solid(2, 2, 20, 15, 5, 255);
    let r = calculate_diff(&cur, &prev, 2, 2, 40);
    assert!(!r.changed);
    let r = calculate_diff(&cur, &prev, 2, 2, 39);
    assert!(r.changed);
}

#[test]
fn two_pixel_scenario() {
    let prev: Vec<u8> = vec![0, 0, 0, 255, 0, 0, 0, 255];
    let cur: Vec<u8> = vec![0, 0, 0, 255, 50, 50, 50, 255];
    let r = calculate_diff(&cur, &prev, 2, 1, 10);
    assert_eq!(
        r,
        BoundingBox { min_x: 1, max_x: 1, min_y: 0, max_y: 0, changed: true }
    );
}

#[test]
fn full_frame_change() {
    let width = 3;
    let height = 2;
    let prev = solid(width, height, 0, 0, 0, 255);
    let cur = solid(width, height, 255, 255, 255, 255);
    let r = calculate_diff(&cur, &prev, width, height, 100);
    assert_eq!(
        r,
        BoundingBox { min_x: 0, max_x: 2, min_y: 0, max_y: 1, changed: true }
    );
}

#[test]
fn maximal_threshold_never_triggers_single_channel() {
    // With threshold 255 a single channel alone can never exceed it.
    let prev = solid(3, 3, 0, 0, 0, 0);
    let cur = solid(3, 3, 255, 0, 0, 0);
    let r = calculate_diff(&cur, &prev, 3, 3, 255);
    assert!(!r.changed);
    // But two saturated channels can.
    let cur2 = solid(3, 3, 255, 1, 0, 0);
    let r2 = calculate_diff(&cur2, &prev, 3, 3, 255);
    assert!(r2.changed);
}

#[test]
fn one_pixel_frame() {
    let prev = solid(1, 1, 9, 9, 9, 9);
    let cur = solid(1, 1, 9, 9, 9, 200);
    let r = calculate_diff(&cur, &prev, 1, 1, 0);
    assert!(!r.changed);
    let cur2 = solid(1, 1, 9, 9, 10, 9);
    let r2 = calculate_diff(&cur2, &prev, 1, 1, 0);
    assert_eq!(
        r2,
        BoundingBox { min_x: 0, max_x: 0, min_y: 0, max_y: 0, changed: true }
    );
}

#[test]
fn tall_column_and_wide_row() {
    // Changes along one column of a tall frame.
    let width = 5;
    let height = 9;
    let prev = solid(width, height, 0, 0, 0, 255);
    let mut cur = prev.clone();
    set_pixel(&mut cur, width, 2, 1, 90, 0, 0, 255);
    set_pixel(&mut cur, width, 2, 7, 0, 90, 0, 255);
    let r = calculate_diff(&cur, &prev, width, height, 10);
    assert_eq!(
        r,
        BoundingBox { min_x: 2, max_x: 2, min_y: 1, max_y: 7, changed: true }
    );
}
