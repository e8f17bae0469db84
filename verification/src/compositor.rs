use vstd::prelude::*;

use crate::protocol::{screens_view, ClientMessage, ServerResponse};
use crate::renderer::{
    invalid_screen_index_text, store_config, Renderer, RendererView, ScreenConfigView,
};

verus! {

/// Answers the control requests by driving a [`Renderer`].
pub struct Compositor {
    /// The renderer state that the requests read and change.
    pub renderer: Renderer,
}

impl Compositor {
    /// A compositor over the given renderer.
    pub fn new(renderer: Renderer) -> (c: Compositor)
        ensures
            c.renderer@ == renderer@,
    {
        Compositor { renderer }
    }

    /// Applies one request to the renderer and returns the answer:
    /// - `SetWindowSize` declares the canvas size and echoes it;
    /// - `CaptureRects` records the regions and returns them;
    /// - `TransformRects` records the transforms;
    /// - `RenderToScreen` configures the screen and echoes its index, or, for
    ///   an index that names no screen, answers `Error` with the message
    ///   "Invalid screen index: N" and changes nothing;
    /// - `GetScreens` returns the screens; `SetInputEnabled` sets and echoes
    ///   the input state; `Ping` answers `Pong`.
    pub fn handle_message(&mut self, msg: ClientMessage) -> (r: ServerResponse)
        ensures
            match msg {
                ClientMessage::SetWindowSize { width, height } => {
                    &&& r == ServerResponse::WindowSizeSet { width, height }
                    &&& final(self).renderer@ == (RendererView {
                        canvas_size: Some((width, height)),
                        ..old(self).renderer@
                    })
                },
                ClientMessage::CaptureRects { rects } => {
                    &&& r matches ServerResponse::RectsCaptured { rects: out } && out@ == rects@
                    &&& final(self).renderer@ == (RendererView {
                        captured_rects: rects@,
                        ..old(self).renderer@
                    })
                },
                ClientMessage::TransformRects { transforms } => {
                    &&& r == ServerResponse::RectsTransformed
                    &&& final(self).renderer@ == (RendererView {
                        transforms: transforms@,
                        ..old(self).renderer@
                    })
                },
                ClientMessage::RenderToScreen { screen_index, rects, transforms } => {
                    if screen_index < old(self).renderer@.screens.len() {
                        &&& r == ServerResponse::RenderedToScreen { screen_index }
                        &&& final(self).renderer@ == (RendererView {
                            screen_configs: store_config(
                                old(self).renderer@.screen_configs,
                                ScreenConfigView {
                                    screen_index,
                                    rects: rects@,
                                    transforms: transforms@,
                                },
                            ),
                            captured_rects: rects@,
                            transforms: transforms@,
                            ..old(self).renderer@
                        })
                    } else {
                        &&& r matches ServerResponse::Error { message } && message@
                            == invalid_screen_index_text(screen_index)
                        &&& final(self).renderer@ == old(self).renderer@
                    }
                },
                ClientMessage::GetScreens => {
                    &&& r matches ServerResponse::Screens { screens } && screens_view(screens@)
                        == old(self).renderer@.screens
                    &&& final(self).renderer@ == old(self).renderer@
                },
                ClientMessage::SetInputEnabled { enabled } => {
                    &&& r == ServerResponse::InputState { enabled }
                    &&& final(self).renderer@ == (RendererView {
                        input_enabled: enabled,
                        ..old(self).renderer@
                    })
                },
                ClientMessage::Ping => {
                    &&& r == ServerResponse::Pong
                    &&& final(self).renderer@ == old(self).renderer@
                },
            },
    {
        match msg {
            ClientMessage::SetWindowSize { width, height } => {
                self.renderer.set_window_size(width, height);
                ServerResponse::WindowSizeSet { width, height }
            },
            ClientMessage::CaptureRects { rects } => {
                let captured = self.renderer.capture_rects(rects);
                ServerResponse::RectsCaptured { rects: captured }
            },
            ClientMessage::TransformRects { transforms } => {
                self.renderer.transform_rects(transforms);
                ServerResponse::RectsTransformed
            },
            ClientMessage::RenderToScreen { screen_index, rects, transforms } => {
                match self.renderer.render_to_screen(screen_index, rects, transforms) {
                    Ok(()) => ServerResponse::RenderedToScreen { screen_index },
                    Err(e) => ServerResponse::Error { message: e.message() },
                }
            },
            ClientMessage::GetScreens => {
                let screens = self.renderer.get_screens();
                ServerResponse::Screens { screens }
            },
            ClientMessage::SetInputEnabled { enabled } => {
                self.renderer.set_input_enabled(enabled);
                ServerResponse::InputState { enabled }
            },
            ClientMessage::Ping => ServerResponse::Pong,
        }
    }
}

} // verus!
