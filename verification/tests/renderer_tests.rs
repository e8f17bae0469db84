use myde_wrap::{
    ClientMessage, Compositor, Rect, RenderError, Renderer, ScreenInfo, ServerResponse, Transform,
};

fn screen(name: &str, width: u32, height: u32) -> ScreenInfo {
    ScreenInfo { name: name.to_string(), width, height, refresh_rate: 60 }
}

fn two_screens() -> Renderer {
    Renderer::new(vec![screen("Screen-0", 1920, 1080), screen("Screen-1", 1280, 720)])
}

#[test]
fn new_renderer_defaults() {
    let r = two_screens();
    assert_eq!(r.get_canvas_size(), None);
    assert!(r.get_captured_rects().is_empty());
    assert_eq!(r.get_transforms(), &[Transform { rotation_bits: 0 }]);
    assert!(r.is_input_enabled());
    assert!(r.get_screen_configs().is_empty());
    let s = r.get_screens();
    assert_eq!(s.len(), 2);
    assert_eq!(s[0].name, "Screen-0");
    assert_eq!(s[1].width, 1280);
    assert_eq!(s[1].height, 720);
    assert_eq!(s[1].refresh_rate, 60);
}

#[test]
fn set_window_size_then_get_canvas_size() {
    let mut r = two_screens();
    r.set_window_size(3840, 1080);
    assert_eq!(r.get_canvas_size(), Some((3840, 1080)));
    r.set_window_size(100, 200);
    assert_eq!(r.get_canvas_size(), Some((100, 200)));
}

#[test]
fn capture_rects_returns_and_records() {
    let mut r = two_screens();
    let rects = vec![Rect::new(0, 0, 100, 100), Rect::new(200, 200, 150, 150)];
    let back = r.capture_rects(rects.clone());
    assert_eq!(back, rects);
    assert_eq!(r.get_captured_rects(), rects.as_slice());
}

#[test]
fn transform_rects_records() {
    let mut r = two_screens();
    let ts = vec![Transform { rotation_bits: 15.0f64.to_bits() }];
    r.transform_rects(ts.clone());
    assert_eq!(r.get_transforms(), ts.as_slice());
    assert_eq!(f64::from_bits(r.get_transforms()[0].rotation_bits), 15.0);
}

#[test]
fn render_to_screen_invalid_index_changes_nothing() {
    let mut r = two_screens();
    let res = r.render_to_screen(2, vec![Rect::new(1, 2, 3, 4)], vec![]);
    assert_eq!(res, Err(RenderError::InvalidScreenIndex(2)));
    assert!(r.get_screen_configs().is_empty());
    assert!(r.get_captured_rects().is_empty());
    assert_eq!(RenderError::InvalidScreenIndex(2).message(), "Invalid screen index: 2");
    assert_eq!(RenderError::InvalidScreenIndex(1234).message(), "Invalid screen index: 1234");
}

#[test]
fn render_to_screen_adds_then_replaces() {
    let mut r = two_screens();
    let a = vec![Rect::new(0, 0, 800, 600)];
    let t = vec![Transform { rotation_bits: 90.0f64.to_bits() }];
    assert_eq!(r.render_to_screen(1, a.clone(), t.clone()), Ok(()));
    assert_eq!(r.get_screen_configs().len(), 1);
    assert_eq!(r.get_screen_configs()[0].screen_index, 1);
    assert_eq!(r.get_screen_configs()[0].rects, a);
    assert_eq!(r.get_captured_rects(), a.as_slice());
    assert_eq!(r.get_transforms(), t.as_slice());

    let b = vec![Rect::new(10, 20, 30, 40)];
    assert_eq!(r.render_to_screen(0, b.clone(), vec![]), Ok(()));
    assert_eq!(r.get_screen_configs().len(), 2);
    assert_eq!(r.get_screen_configs()[1].screen_index, 0);

    let c = vec![Rect::new(5, 5, 5, 5), Rect::new(6, 6, 6, 6)];
    assert_eq!(r.render_to_screen(1, c.clone(), vec![]), Ok(()));
    let configs = r.get_screen_configs();
    assert_eq!(configs.len(), 2);
    assert_eq!(configs[0].screen_index, 1);
    assert_eq!(configs[0].rects, c);
    assert!(configs[0].transforms.is_empty());
    assert_eq!(configs[1].rects, b);
}

#[test]
fn default_fullscreen_config_and_transformed_rect() {
    let r = two_screens();
    let c = r.get_default_fullscreen_config(1);
    assert_eq!(c.screen_index, 1);
    assert!(c.rects.is_empty());
    assert_eq!(c.transforms, vec![Transform::default()]);
    let rect = Rect::new(-3, 4, 5, 6);
    let t = Transform { rotation_bits: 30.0f64.to_bits() };
    assert_eq!(Renderer::compute_transformed_rect(&rect, &t), (-3, 4, 5, 6));
}

#[test]
fn input_enabled_toggle() {
    let mut r = two_screens();
    r.set_input_enabled(false);
    assert!(!r.is_input_enabled());
    r.set_input_enabled(true);
    assert!(r.is_input_enabled());
}

#[test]
fn compositor_answers_each_request() {
    let mut c = Compositor::new(two_screens());
    match c.handle_message(ClientMessage::SetWindowSize { width: 1920, height: 1080 }) {
        ServerResponse::WindowSizeSet { width, height } => assert_eq!((width, height), (1920, 1080)),
        other => panic!("unexpected {:?}", other),
    }
    assert_eq!(c.renderer.get_canvas_size(), Some((1920, 1080)));

    let rects = vec![Rect::new(0, 0, 100, 100)];
    match c.handle_message(ClientMessage::CaptureRects { rects: rects.clone() }) {
        ServerResponse::RectsCaptured { rects: got } => assert_eq!(got, rects),
        other => panic!("unexpected {:?}", other),
    }

    assert!(matches!(
        c.handle_message(ClientMessage::TransformRects { transforms: vec![] }),
        ServerResponse::RectsTransformed
    ));
    assert!(c.renderer.get_transforms().is_empty());

    match c.handle_message(ClientMessage::RenderToScreen {
        screen_index: 0,
        rects: rects.clone(),
        transforms: vec![Transform::default()],
    }) {
        ServerResponse::RenderedToScreen { screen_index } => assert_eq!(screen_index, 0),
        other => panic!("unexpected {:?}", other),
    }
    match c.handle_message(ClientMessage::RenderToScreen {
        screen_index: 7,
        rects: vec![],
        transforms: vec![],
    }) {
        ServerResponse::Error { message } => assert_eq!(message, "Invalid screen index: 7"),
        other => panic!("unexpected {:?}", other),
    }
    assert_eq!(c.renderer.get_screen_configs().len(), 1);

    match c.handle_message(ClientMessage::GetScreens) {
        ServerResponse::Screens { screens } => {
            assert_eq!(screens.len(), 2);
            assert_eq!(screens[0].name, "Screen-0");
            assert_eq!(screens[0].width, 1920);
        },
        other => panic!("unexpected {:?}", other),
    }
    match c.handle_message(ClientMessage::SetInputEnabled { enabled: false }) {
        ServerResponse::InputState { enabled } => assert!(!enabled),
        other => panic!("unexpected {:?}", other),
    }
    assert!(!c.renderer.is_input_enabled());
    assert!(matches!(c.handle_message(ClientMessage::Ping), ServerResponse::Pong));
}

#[test]
fn render_to_screen_without_screens_is_refused() {
    let mut c = Compositor::new(Renderer::new(vec![]));
    match c.handle_message(ClientMessage::RenderToScreen {
        screen_index: 0,
        rects: vec![],
        transforms: vec![],
    }) {
        ServerResponse::Error { message } => assert_eq!(message, "Invalid screen index: 0"),
        other => panic!("unexpected {:?}", other),
    }
}

#[test]
fn default_fullscreen_on_every_screen() {
    let mut r = two_screens();
    r.render_to_screen(1, vec![Rect::new(1, 1, 1, 1)], vec![]).unwrap();
    r.apply_default_fullscreen(3);
    let configs = r.get_screen_configs();
    assert_eq!(configs.len(), 2);
    assert_eq!(configs[0].screen_index, 1);
    assert!(configs[0].rects.is_empty());
    assert_eq!(configs[0].transforms, vec![Transform::default()]);
    assert_eq!(configs[1].screen_index, 0);
    assert!(configs[1].rects.is_empty());
    assert!(r.get_captured_rects().is_empty());
    assert_eq!(r.get_transforms(), &[Transform::default()]);

    let mut r = two_screens();
    r.set_window_size(5, 6);
    r.apply_default_fullscreen(0);
    assert!(r.get_screen_configs().is_empty());
    assert_eq!(r.get_canvas_size(), Some((5, 6)));
}
