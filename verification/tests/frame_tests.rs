use waystone_overlay::frame::{
    bgra_buffer_is_blank, capture_extent, capture_window_is_blank, ScreenRect,
};

fn solid_bgra(width: usize, height: usize, b: u8, g: u8, r: u8) -> Vec<u8> {
    let mut buf = vec![0u8; width * height * 4];
    for px in buf.chunks_exact_mut(4) {
        px[0] = b;
        px[1] = g;
        px[2] = r;
        px[3] = 255;
    }
    buf
}

#[test]
fn a_solid_black_buffer_is_reported_blank() {
    let buf = solid_bgra(64, 64, 0, 0, 0);
    assert_eq!(bgra_buffer_is_blank(&buf, 64, 64), Some(true));
}

#[test]
fn a_solid_bright_buffer_is_not_blank() {
    // The panel's own gold-on-dark palette is nowhere near uniform black —
    // a solid mid-tone stands in for "the frame clearly isn't blank".
    let buf = solid_bgra(64, 64, 74, 184, 240);
    assert_eq!(bgra_buffer_is_blank(&buf, 64, 64), Some(false));
}

#[test]
fn a_mostly_black_frame_with_real_ui_content_is_not_blank() {
    // Overwhelmingly near-black background with a minority of bright pixels
    // (text/borders) must not trip the blank detector.
    let mut buf = solid_bgra(64, 64, 5, 5, 5);
    // Paint roughly 10% of the sampled grid points bright.
    for y in (0..64).step_by(8) {
        for x in (0..64).step_by(8) {
            if (x / 8 + y / 8) % 3 == 0 {
                let i = (y * 64 + x) * 4;
                buf[i] = 240;
                buf[i + 1] = 200;
                buf[i + 2] = 74;
            }
        }
    }
    assert_eq!(bgra_buffer_is_blank(&buf, 64, 64), Some(false));
}

#[test]
fn an_empty_buffer_reports_no_verdict_rather_than_a_wrong_one() {
    assert_eq!(bgra_buffer_is_blank(&[], 0, 0), None);
}

#[test]
fn near_black_limit_is_inclusive() {
    // Every channel at exactly 12 still counts as near black; 13 does not.
    let buf = solid_bgra(16, 16, 12, 12, 12);
    assert_eq!(bgra_buffer_is_blank(&buf, 16, 16), Some(true));
    let buf = solid_bgra(16, 16, 12, 13, 12);
    assert_eq!(bgra_buffer_is_blank(&buf, 16, 16), Some(false));
}

#[test]
fn exactly_ninety_seven_percent_dark_is_blank() {
    // 100 columns x 8 rows: one sampled row, 13 samples (x = 0, 8, .., 96).
    // With 400 rows there are 50 sampled rows: 650 samples.
    let width = 100;
    let height = 400;
    let mut buf = solid_bgra(width, height, 0, 0, 0);
    // Make 19 samples bright: 631 / 650 = 97.07% dark, still blank.
    let mut bright = 0;
    'outer: for y in (0..height).step_by(8) {
        for x in (0..width).step_by(8) {
            if bright == 19 {
                break 'outer;
            }
            let i = (y * width + x) * 4;
            buf[i] = 255;
            bright += 1;
        }
    }
    assert_eq!(bgra_buffer_is_blank(&buf, width, height), Some(true));
    // One more bright sample: 630 / 650 = 96.92% dark, not blank.
    let i = (48 * width + 8 * 8) * 4;
    buf[i] = 255;
    assert_eq!(bgra_buffer_is_blank(&buf, width, height), Some(false));
}

#[test]
fn a_buffer_shorter_than_its_size_samples_only_what_it_holds() {
    // 16 x 16 declared, but only the first row is present: samples at
    // x = 0 and x = 8 of row 0 only.
    let mut buf = solid_bgra(16, 1, 0, 0, 0);
    assert_eq!(bgra_buffer_is_blank(&buf, 16, 16), Some(true));
    buf[0] = 200;
    // One of two samples bright: 50% dark.
    assert_eq!(bgra_buffer_is_blank(&buf, 16, 16), Some(false));
    // A buffer too short for even one pixel's colour bytes gives no verdict.
    assert_eq!(bgra_buffer_is_blank(&[0, 0], 16, 16), None);
}

#[test]
fn a_zero_width_image_gives_no_verdict() {
    let buf = solid_bgra(8, 8, 0, 0, 0);
    assert_eq!(bgra_buffer_is_blank(&buf, 0, 8), None);
    assert_eq!(bgra_buffer_is_blank(&buf, 8, 0), None);
}

#[test]
fn capture_extent_rejects_empty_rectangles() {
    let rect = ScreenRect { left: 100, top: 50, right: 720, bottom: 456 };
    assert_eq!(capture_extent(Some(rect)), Some((620, 406)));
    let flat = ScreenRect { left: 100, top: 50, right: 100, bottom: 456 };
    assert_eq!(capture_extent(Some(flat)), None);
    let inverted = ScreenRect { left: 10, top: 50, right: 5, bottom: 60 };
    assert_eq!(capture_extent(Some(inverted)), None);
    assert_eq!(capture_extent(None), None);
}

#[test]
fn a_failed_capture_is_never_reported_blank() {
    let buf = solid_bgra(8, 8, 0, 0, 0);
    assert_eq!(capture_window_is_blank(Some((8, 8)), Some(&buf)), Some(true));
    assert_eq!(capture_window_is_blank(Some((8, 8)), None), None);
    assert_eq!(capture_window_is_blank(None, Some(&buf)), None);
}
