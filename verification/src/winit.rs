use vstd::prelude::*;

use crate::protocol::{screens_view, ScreenInfo, ScreenInfoView, Transform};

verus! {

/// Abstract value of a [`WinitBackend`].
pub struct WinitBackendView {
    pub width: u32,
    pub height: u32,
    pub has_output: bool,
}

/// The state of the nested (windowed) backend: the size of its window and
/// whether its single output exists yet.
pub struct WinitBackend {
    width: u32,
    height: u32,
    has_output: bool,
}

impl View for WinitBackend {
    type V = WinitBackendView;

    closed spec fn view(&self) -> WinitBackendView {
        WinitBackendView { width: self.width, height: self.height, has_output: self.has_output }
    }
}

/// Refresh rate of the windowed output, in Hz.
pub const WINIT_REFRESH_RATE: u32 = 60;

impl WinitBackend {
    /// The backend before initialisation: size 800x600, no output.
    pub fn new() -> (b: WinitBackend)
        ensures
            b@ == (WinitBackendView { width: 800, height: 600, has_output: false }),
    {
        WinitBackend { width: 800, height: 600, has_output: false }
    }

    /// The backend's name.
    pub fn name(&self) -> (r: &'static str)
        ensures
            r@ == "winit"@,
    {
        "winit"
    }

    /// Records that the window and its output exist, with the window's size.
    pub fn output_created(&mut self, width: u32, height: u32)
        ensures
            final(self)@ == (WinitBackendView { width, height, has_output: true }),
    {
        self.width = width;
        self.height = height;
        self.has_output = true;
    }

    /// Rendering happens on the window's redraw events, so a request to show
    /// a rectangle is only reported.
    pub fn render_rect(
        &self,
        screen_index: usize,
        x: i32,
        y: i32,
        width: u32,
        height: u32,
        transform: &Transform,
    ) {
    }

    /// The window width.
    pub fn get_width(&self) -> (r: u32)
        ensures
            r == self@.width,
    {
        self.width
    }

    /// The window height.
    pub fn get_height(&self) -> (r: u32)
        ensures
            r == self@.height,
    {
        self.height
    }

    /// One output once the window exists, none before.
    pub fn get_output_count(&self) -> (r: usize)
        ensures
            r == (if self@.has_output { 1usize } else { 0usize }),
    {
        if self.has_output {
            1
        } else {
            0
        }
    }

    /// The window's output as a screen ("winit", the window size, 60 Hz),
    /// once it exists.
    pub fn get_screens(&self) -> (r: Vec<ScreenInfo>)
        ensures
            self@.has_output ==> screens_view(r@) == seq![
                ScreenInfoView {
                    name: "winit"@,
                    width: self@.width,
                    height: self@.height,
                    refresh_rate: WINIT_REFRESH_RATE,
                },
            ],
            !self@.has_output ==> r@.len() == 0,
    {
        let mut r: Vec<ScreenInfo> = Vec::new();
        if self.has_output {
            r.push(
                ScreenInfo {
                    name: String::from_str("winit"),
                    width: self.width,
                    height: self.height,
                    refresh_rate: WINIT_REFRESH_RATE,
                },
            );
            assert(screens_view(r@) =~= seq![
                ScreenInfoView {
                    name: "winit"@,
                    width: self@.width,
                    height: self@.height,
                    refresh_rate: WINIT_REFRESH_RATE,
                },
            ]);
        }
        r
    }
}

} // verus!
