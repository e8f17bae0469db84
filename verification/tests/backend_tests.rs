use myde_wrap::{
    select_outputs, ConnectorProbe, DrawRequest, DrmBackend, DrmOutput, NoOutputs, OutputChoice,
    OutputSize, Transform, WaylandCompositor, WinitBackend,
};

fn probe(connected: bool, has_mode: bool, encs: Vec<Vec<u32>>) -> ConnectorProbe {
    ConnectorProbe { connected, has_mode, encoder_crtcs: encs }
}

#[test]
fn first_connector_uses_first_crtc_of_its_encoders() {
    let ps = vec![
        probe(false, true, vec![vec![1]]),
        probe(true, false, vec![vec![2]]),
        probe(true, true, vec![vec![], vec![41, 40], vec![42]]),
    ];
    assert_eq!(select_outputs(&ps), vec![OutputChoice { connector: 2, crtc: 41 }]);
}

#[test]
fn every_connected_screen_gets_its_own_crtc() {
    // the second connector's first encoder offers nothing, its second one does
    let ps = vec![probe(true, true, vec![vec![1]]), probe(true, true, vec![vec![], vec![2]])];
    assert_eq!(
        select_outputs(&ps),
        vec![OutputChoice { connector: 0, crtc: 1 }, OutputChoice { connector: 1, crtc: 2 }]
    );
    // a CRTC taken by an earlier output is skipped
    let ps = vec![probe(true, true, vec![vec![1, 2]]), probe(true, true, vec![vec![1, 2]])];
    assert_eq!(
        select_outputs(&ps),
        vec![OutputChoice { connector: 0, crtc: 1 }, OutputChoice { connector: 1, crtc: 2 }]
    );
    // no free CRTC left: no output for that connector
    let ps = vec![probe(true, true, vec![vec![1]]), probe(true, true, vec![vec![1]])];
    assert_eq!(select_outputs(&ps), vec![OutputChoice { connector: 0, crtc: 1 }]);
    assert!(select_outputs(&[]).is_empty());
    assert!(select_outputs(&[probe(true, true, vec![vec![]])]).is_empty());
}

fn out(name: &str, crtc: u32, w: u32, h: u32) -> DrmOutput {
    DrmOutput { name: name.to_string(), crtc, width: w, height: h, refresh_rate: 60 }
}

#[test]
fn drm_backend_adopts_outputs() {
    let mut b = DrmBackend::new();
    assert_eq!((b.get_width(), b.get_height(), b.get_output_count()), (1920, 1080, 0));
    assert_eq!(b.name(), "drm");
    assert_eq!(b.adopt_outputs(vec![]), Err(NoOutputs));
    assert_eq!((b.get_width(), b.get_height()), (1920, 1080));
    assert_eq!(b.adopt_outputs(vec![out("DRM-a", 41, 2560, 1440), out("DRM-b", 42, 1280, 1024)]), Ok(()));
    assert_eq!((b.get_width(), b.get_height(), b.get_output_count()), (2560, 1440, 2));
    let s = b.get_screens();
    assert_eq!(s.len(), 2);
    assert_eq!(s[1].name, "DRM-b");
    assert_eq!((s[1].width, s[1].height, s[1].refresh_rate), (1280, 1024, 60));
    assert!(b.render_rect(1, 0, 0, 1, 1, &Transform::default()));
    assert!(!b.render_rect(2, 0, 0, 1, 1, &Transform::default()));
    assert_eq!(b.output_crtc(1), 42);
}

#[test]
fn vblank_releases_the_queued_output() {
    let mut b = DrmBackend::new();
    b.adopt_outputs(vec![out("a", 41, 10, 10), out("b", 42, 10, 10)]).unwrap();
    assert!(b.may_render(0) && b.may_render(1));
    b.frame_queued(1);
    assert!(b.may_render(0));
    assert!(!b.may_render(1));
    assert_eq!(b.on_vblank(99), None);
    assert!(!b.may_render(1));
    assert_eq!(b.on_vblank(42), Some(1));
    assert!(b.may_render(1));
}

#[test]
fn winit_backend_state() {
    let mut w = WinitBackend::new();
    assert_eq!((w.get_width(), w.get_height(), w.get_output_count()), (800, 600, 0));
    assert!(w.get_screens().is_empty());
    assert_eq!(w.name(), "winit");
    w.output_created(1024, 768);
    assert_eq!((w.get_width(), w.get_height(), w.get_output_count()), (1024, 768, 1));
    let s = w.get_screens();
    assert_eq!((s[0].name.as_str(), s[0].width, s[0].height, s[0].refresh_rate), ("winit", 1024, 768, 60));
    w.render_rect(0, 1, 2, 3, 4, &Transform::default());
}

#[test]
fn wayland_compositor_requests() {
    let mut c = WaylandCompositor::new();
    assert_eq!((c.get_width(), c.get_height(), c.get_output_count()), (1920, 1080, 0));
    assert_eq!(c.render_rect(1, 2, 3, 4), None);
    assert_eq!(c.adopt_outputs(vec![]), Err(NoOutputs));
    assert_eq!(c.adopt_outputs(vec![OutputSize { width: 1366, height: 768 }]), Ok(()));
    assert_eq!((c.get_width(), c.get_height(), c.get_output_count()), (1366, 768, 1));
    c.set_size(640, 480);
    c.clear_buffer();
    assert_eq!((c.get_width(), c.get_height()), (640, 480));
    assert_eq!(
        c.render_rect_to_screen(0, -1, 2, 30, 40, &Transform::default()),
        Some(DrawRequest { output: 0, x: -1, y: 2, width: 30, height: 40 })
    );
    assert_eq!(c.render_rect_to_screen(1, 0, 0, 1, 1, &Transform::default()), None);
    assert_eq!(c.render_rect(5, 6, 7, 8), Some(DrawRequest { output: 0, x: 5, y: 6, width: 7, height: 8 }));
    assert_eq!(c.output_size(0), Some(OutputSize { width: 1366, height: 768 }));
}
