use umst_core::imaging::{
    cluster_extent, count_luma, date_from_pixels_at, detect_cement_bag_weight,
    detect_date_from_pixels, detect_mix_design, detect_scale_brightness, detect_tape_measurement,
    luma,
};

fn image(n: usize, dark: usize, bright: usize) -> Vec<u8> {
    let mut v = Vec::new();
    for i in 0..n {
        let px: [u8; 3] = if i < dark {
            [0, 0, 0]
        } else if i < dark + bright {
            [255, 255, 255]
        } else {
            [128, 128, 128]
        };
        v.extend_from_slice(&px);
    }
    v
}

#[test]
fn luminance_weights() {
    assert_eq!(luma(255, 255, 255), 255);
    assert_eq!(luma(0, 0, 0), 0);
    assert_eq!(luma(255, 0, 0), 76);
    assert_eq!(luma(0, 255, 0), 149);
    assert_eq!(luma(0, 0, 255), 29);
    let img = image(10, 3, 2);
    assert_eq!(count_luma(&img, 100, false), 3);
    assert_eq!(count_luma(&img, 180, true), 2);
}

#[test]
fn date_reading_at_clock() {
    // 10% dark pixels: a printed label.
    let img = image(100, 10, 0);
    // 2024-02-01 = day 19754 since 1970 -> day 31 of the reference year.
    assert_eq!(date_from_pixels_at(&img, 10, 10, 19754 * 86400 + 5), Some(31));
    // far in the future clamps to 365, before the reference to 1
    assert_eq!(date_from_pixels_at(&img, 10, 10, 30000 * 86400), Some(365));
    assert_eq!(date_from_pixels_at(&img, 10, 10, 0), Some(1));
    // image smaller than declared
    assert_eq!(date_from_pixels_at(&img, 11, 10, 19754 * 86400), None);
    // exactly 2% dark is not enough, 30% is too much
    assert_eq!(date_from_pixels_at(&image(100, 2, 0), 10, 10, 19754 * 86400), None);
    assert_eq!(date_from_pixels_at(&image(100, 3, 0), 10, 10, 19754 * 86400), Some(31));
    assert_eq!(date_from_pixels_at(&image(100, 30, 0), 10, 10, 19754 * 86400), None);
    assert_eq!(date_from_pixels_at(&[], 0, 0, 19754 * 86400), None);
}

#[test]
fn date_from_wall_clock() {
    let img = image(100, 10, 0);
    let d = detect_date_from_pixels(&img, 10, 10);
    assert!(matches!(d, Some(x) if (1..=365).contains(&x)));
    assert_eq!(detect_date_from_pixels(&image(100, 50, 0), 10, 10), None);
}

#[test]
fn bag_and_mix_sheet() {
    assert_eq!(detect_cement_bag_weight(&image(100, 0, 5), 10, 10), Some(25));
    assert_eq!(detect_cement_bag_weight(&image(100, 0, 1), 10, 10), None);
    assert_eq!(detect_cement_bag_weight(&image(100, 0, 40), 10, 10), None);
    assert!(detect_mix_design(&image(100, 35, 0), 10, 10));
    assert!(!detect_mix_design(&image(100, 40, 0), 10, 10));
    assert!(!detect_mix_design(&[], 0, 0));
}

#[test]
fn scale_display() {
    let img = image(100, 0, 60);
    assert_eq!(detect_scale_brightness(&img, 10, 10), Some(60 * 255 + 40 * 128));
    assert_eq!(detect_scale_brightness(&image(100, 0, 49), 10, 10), None);
    assert_eq!(detect_scale_brightness(&img, 20, 10), None);
}

#[test]
fn clusters_of_marked_rows() {
    let m = vec![false, true, true, false, false, true, false, true];
    assert_eq!(cluster_extent(&m), Some((1, 6)));
    // a single closed cluster is not enough; an open one is not counted
    assert_eq!(cluster_extent(&vec![false, true, false, true, true]), None);
    assert_eq!(cluster_extent(&vec![]), None);
    assert_eq!(cluster_extent(&vec![true, false, true, false]), Some((0, 3)));
}

fn tape(width: usize, height: usize, marked_rows: &[usize]) -> Vec<u8> {
    // alternate black/white rows at the marked rows so that they differ from the row above
    let mut v = Vec::new();
    for y in 0..height {
        let val = if marked_rows.contains(&y) { if y % 2 == 0 { 255 } else { 0 } } else if y > 0 && marked_rows.contains(&(y - 1)) { 128 } else { 128 };
        for _ in 0..width {
            v.extend_from_slice(&[val, val, val]);
        }
    }
    v
}

#[test]
fn tape_measurement() {
    // rows 10 and 80 differ strongly from the rows above them; 81 returns to grey
    let img = tape(4, 200, &[10, 80]);
    assert_eq!(detect_tape_measurement(&img, 4, 200), Some(5));
    // span too short
    let img = tape(4, 200, &[10, 40]);
    assert_eq!(detect_tape_measurement(&img, 4, 200), None);
    // span beyond half the height
    let img = tape(4, 120, &[5, 70]);
    assert_eq!(detect_tape_measurement(&img, 4, 120), None);
    assert_eq!(detect_tape_measurement(&img, 4, 121), None);
}
