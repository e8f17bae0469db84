use myde_wrap::{paint_fits, paint_frame, DrawRequest, OutputSize};

fn white(buf: &[u8], stride: usize, px: usize, py: usize) -> bool {
    let i = py * stride + px * 4;
    buf[i..i + 4].iter().all(|b| *b == 255)
}

#[test]
fn paints_clipped_rectangle_white() {
    // 4x3 screen, stride 16
    let buf = paint_frame(48, 16, 4, 3, 1, 1, 2, 5);
    assert_eq!(buf.len(), 48);
    for py in 0..3 {
        for px in 0..4 {
            let inside = (1..3).contains(&px) && (1..3).contains(&py);
            assert_eq!(white(&buf, 16, px, py), inside, "pixel {} {}", px, py);
            if !inside {
                let i = py * 16 + px * 4;
                assert!(buf[i..i + 4].iter().all(|b| *b == 0));
            }
        }
    }
}

#[test]
fn negative_origin_cuts_the_rectangle() {
    // x = -10, width 20 covers columns 0..10 of a 30x1 screen
    let buf = paint_frame(120, 120, 30, 1, -10, 0, 20, 1);
    for px in 0..30 {
        assert_eq!(white(&buf, 120, px, 0), px < 10, "column {}", px);
    }
    // a rectangle wholly left of or above the screen paints nothing
    assert!(paint_frame(16, 8, 2, 2, -5, -5, 1, 1).iter().all(|b| *b == 0));
    let buf = paint_frame(16, 8, 2, 2, -5, -5, 6, 6);
    assert!(white(&buf, 8, 0, 0));
    assert_eq!(buf.iter().filter(|b| **b == 255).count(), 4);
}

#[test]
fn pixels_past_the_buffer_stay_black() {
    // buffer smaller than the screen: only the first pixel fits
    let buf = paint_frame(6, 8, 2, 2, 0, 0, 2, 2);
    assert_eq!(buf, vec![255, 255, 255, 255, 0, 0]);
}

#[test]
fn empty_rectangle_paints_nothing() {
    let buf = paint_frame(32, 16, 4, 2, 10, 0, 5, 5);
    assert!(buf.iter().all(|b| *b == 0));
}

#[test]
fn paint_fits_checks_ranges() {
    let size = OutputSize { width: 1920, height: 1080 };
    let req = DrawRequest { output: 0, x: 0, y: 0, width: 100, height: 100 };
    assert!(paint_fits(7680, size, &req));
    let far = DrawRequest { output: 0, x: i32::MAX, y: 0, width: u32::MAX, height: 1 };
    assert!(paint_fits(7680, size, &far));
    let huge = OutputSize { width: u32::MAX, height: u32::MAX };
    let big = DrawRequest { output: 0, x: 0, y: 0, width: u32::MAX, height: u32::MAX };
    assert!(!paint_fits(usize::MAX, huge, &big));
}
