//! Control-plane logic of a single-application Wayland wrapper compositor:
//! the socket protocol's value types and framing, the renderer state that the
//! control socket drives, the canvas geometry and layering used when the
//! captured regions are drawn onto the outputs, output discovery, frame
//! scheduling and the software fallback frame painter.
pub mod canvas;
pub mod compositor;
pub mod drm;
pub mod frame;
pub mod framing;
pub mod outputs;
pub mod protocol;
pub mod renderer;
pub mod text;
pub mod wayland;
pub mod winit;

pub use canvas::{
    canvas_fits, canvas_rects, draw_order, needs_recreate, region_pairs, screen_regions, WindowExtent,
};
pub use compositor::Compositor;
pub use drm::{DrmBackend, DrmOutput};
pub use frame::paint_frame;
pub use framing::{encode_frame, frame_header, frame_length, FrameError, MAX_MESSAGE_LEN};
pub use outputs::{select_outputs, ConnectorProbe, OutputChoice};
pub use protocol::{
    clone_screens, ClientMessage, Rect, ScreenInfo, ScreenInfoView, ServerResponse, Transform,
};
pub use renderer::{RenderError, Renderer, ScreenConfig};
pub use text::decimal_string;
pub use wayland::{paint_fits, DrawRequest, NoOutputs, OutputSize, WaylandCompositor};
pub use winit::WinitBackend;
