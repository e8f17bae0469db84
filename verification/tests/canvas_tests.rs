use myde_wrap::{
    canvas_rects, draw_order, needs_recreate, region_pairs, screen_regions, Rect, ScreenConfig,
    Transform,
    WindowExtent,
};

fn window(gx: i32, gy: i32, bx: i32, by: i32, bw: i32, bh: i32) -> WindowExtent {
    WindowExtent { geometry_x: gx, geometry_y: gy, bbox_x: bx, bbox_y: by, bbox_width: bw, bbox_height: bh }
}

#[test]
fn no_window_no_declared_canvas() {
    let (off, app) = canvas_rects(&[], None);
    assert_eq!(app, Rect::new(0, 0, 0, 0));
    assert_eq!(off, Rect::new(0, 0, 0, 0));
    assert!(!off.has_area());
}

#[test]
fn declared_canvas_only() {
    let (off, app) = canvas_rects(&[], Some((1920, 1080)));
    assert_eq!(app, Rect::new(0, 0, 0, 0));
    assert_eq!(off, Rect::new(0, 0, 1920, 1080));
    assert!(off.has_area());
}

#[test]
fn window_with_shadow_margin() {
    // geometry at (10, 10) inside a surface tree of 820x620 at the origin
    let w = window(10, 10, 0, 0, 820, 620);
    let (off, app) = canvas_rects(&[w], None);
    assert_eq!(app, Rect::new(-10, -10, 820, 620));
    assert_eq!(off, Rect::new(-10, -10, 820, 620));
    let (off, _) = canvas_rects(&[w], Some((1920, 1080)));
    assert_eq!(off, Rect::new(-10, -10, 1930, 1090));
}

#[test]
fn union_of_windows() {
    let ws = [window(0, 0, 0, 0, 100, 100), window(0, 0, 50, -20, 200, 50)];
    let (off, app) = canvas_rects(&ws, Some((10, 10)));
    assert_eq!(app, Rect::new(0, -20, 250, 120));
    assert_eq!(off, Rect::new(0, -20, 250, 120));
}

#[test]
fn huge_declared_width_wraps_like_a_cast() {
    // a declared width above i32::MAX is read as a negative edge
    let (off, _) = canvas_rects(&[], Some((u32::MAX, 5)));
    assert_eq!(off, Rect::new(0, 0, 0, 5));
}

fn config(i: usize, rects: Vec<Rect>, transforms: Vec<Transform>) -> ScreenConfig {
    ScreenConfig { screen_index: i, rects, transforms }
}

#[test]
fn pairs_default_to_whole_content() {
    let app = Rect::new(-10, -10, 800, 600);
    assert_eq!(region_pairs(&[], 0, app), vec![(app, Transform::default())]);
    let configs = vec![config(0, vec![], vec![Transform { rotation_bits: 1 }])];
    assert_eq!(region_pairs(&configs, 0, app), vec![(app, Transform::default())]);
    assert_eq!(region_pairs(&configs, 1, app), vec![(app, Transform::default())]);
}

#[test]
fn pairs_match_rects_with_transforms() {
    let app = Rect::new(0, 0, 10, 10);
    let r0 = Rect::new(0, 0, 400, 300);
    let r1 = Rect::new(400, 0, 400, 300);
    let t0 = Transform { rotation_bits: 45.0f64.to_bits() };
    let configs = vec![
        config(1, vec![Rect::new(9, 9, 9, 9)], vec![]),
        config(0, vec![r0, r1], vec![t0]),
    ];
    assert_eq!(region_pairs(&configs, 0, app), vec![(r0, t0), (r1, Transform::default())]);
    assert_eq!(
        region_pairs(&configs, 1, app),
        vec![(Rect::new(9, 9, 9, 9), Transform::default())]
    );
}

#[test]
fn draw_order_puts_first_region_at_the_bottom() {
    let a = (Rect::new(0, 0, 1, 1), Transform::default());
    let b = (Rect::new(1, 1, 1, 1), Transform { rotation_bits: 2 });
    let c = (Rect::new(2, 2, 1, 1), Transform { rotation_bits: 3 });
    assert_eq!(draw_order(&[a, b, c]), vec![c, b, a]);
    assert!(draw_order(&[]).is_empty());
}

#[test]
fn recreate_texture_only_when_needed() {
    assert!(needs_recreate(false, None, (10, 10)));
    assert!(needs_recreate(true, None, (10, 10)));
    assert!(needs_recreate(false, Some((10, 10)), (10, 10)));
    assert!(needs_recreate(true, Some((10, 11)), (10, 10)));
    assert!(!needs_recreate(true, Some((10, 10)), (10, 10)));
}

#[test]
fn screen_without_regions_shows_the_whole_canvas() {
    let w = window(10, 10, 0, 0, 820, 620);
    let canvas = Rect::new(-10, -10, 1930, 1090);
    assert_eq!(screen_regions(&[w], Some((1920, 1080)), &[], 0), vec![(canvas, Transform::default())]);
    let configs = vec![config(0, vec![], vec![])];
    assert_eq!(screen_regions(&[w], Some((1920, 1080)), &configs, 0), vec![(canvas, Transform::default())]);
    let r = Rect::new(0, 0, 100, 100);
    let configs = vec![config(1, vec![r], vec![])];
    assert_eq!(screen_regions(&[w], None, &configs, 1), vec![(r, Transform::default())]);
}
