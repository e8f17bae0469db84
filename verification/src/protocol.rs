use vstd::prelude::*;

verus! {

/// A rectangle in content coordinates (origin at the top-left corner of the
/// application window's content, as given by its xdg window geometry).
#[derive(Debug, Clone, Copy, PartialEq, Eq, Structural)]
pub struct Rect {
    /// Left edge (x of the top-left corner).
    pub x: i32,
    /// Top edge (y of the top-left corner).
    pub y: i32,
    /// Width in pixels.
    pub width: u32,
    /// Height in pixels.
    pub height: u32,
}

impl Rect {
    /// Builds a rectangle from its four components.
    pub fn new(x: i32, y: i32, width: u32, height: u32) -> (r: Rect)
        ensures
            r == (Rect { x, y, width, height }),
    {
        Rect { x, y, width, height }
    }
}

/// Per-region capture parameters.
///
/// The region is captured around its anchor `(rect.x, rect.y)`, turned by the
/// rotation angle (in degrees), then stretched to fill the target screen.
/// The angle is a floating-point number; this library never computes with
/// it, so it keeps the angle's exact IEEE-754 bit pattern (`f64::to_bits`),
/// which the embedding program converts back with `f64::from_bits`.
/// A bit pattern of `0` is the angle `0.0`.
#[derive(Debug, Clone, Copy, PartialEq, Eq, Structural)]
pub struct Transform {
    /// IEEE-754 bit pattern of the rotation angle in degrees.
    pub rotation_bits: u64,
}

/// The transform that does not rotate: angle `0.0`.
pub open spec fn identity_transform() -> Transform {
    Transform { rotation_bits: 0 }
}

impl Transform {
    /// The transform that does not rotate (angle `0.0`, bit pattern `0`).
    pub fn identity() -> (t: Transform)
        ensures
            t == identity_transform(),
    {
        Transform { rotation_bits: 0 }
    }
}

impl Default for Transform {
    fn default() -> (t: Transform)
        ensures
            t == identity_transform(),
    {
        Transform { rotation_bits: 0 }
    }
}

/// Abstract value of a [`ScreenInfo`].
pub struct ScreenInfoView {
    pub name: Seq<char>,
    pub width: u32,
    pub height: u32,
    pub refresh_rate: u32,
}

/// Description of one physical output.
#[derive(Debug)]
pub struct ScreenInfo {
    /// Output name (for example "DRM-crtc::Handle(41)" or "winit").
    pub name: String,
    /// Width in pixels.
    pub width: u32,
    /// Height in pixels.
    pub height: u32,
    /// Refresh rate in Hz.
    pub refresh_rate: u32,
}

impl View for ScreenInfo {
    type V = ScreenInfoView;

    open spec fn view(&self) -> ScreenInfoView {
        ScreenInfoView {
            name: self.name@,
            width: self.width,
            height: self.height,
            refresh_rate: self.refresh_rate,
        }
    }
}

impl Clone for ScreenInfo {
    fn clone(&self) -> (r: ScreenInfo)
        ensures
            r@ == self@,
    {
        ScreenInfo {
            name: self.name.clone(),
            width: self.width,
            height: self.height,
            refresh_rate: self.refresh_rate,
        }
    }
}

/// The abstract values of a sequence of screens.
pub open spec fn screens_view(s: Seq<ScreenInfo>) -> Seq<ScreenInfoView> {
    s.map_values(|x: ScreenInfo| x@)
}

pub proof fn lemma_screens_view_push(s: Seq<ScreenInfo>, x: ScreenInfo)
    ensures
        screens_view(s.push(x)) == screens_view(s).push(x@),
{
    assert(screens_view(s.push(x)) =~= screens_view(s).push(x@));
}

/// Copies a list of screen descriptions.
pub fn clone_screens(screens: &Vec<ScreenInfo>) -> (r: Vec<ScreenInfo>)
    ensures
        screens_view(r@) == screens_view(screens@),
{
    let mut r: Vec<ScreenInfo> = Vec::new();
    let n = screens.len();
    for i in 0..n
        invariant
            n == screens@.len(),
            r@.len() == i,
            forall|j: int| 0 <= j < i ==> #[trigger] r@[j]@ == screens@[j]@,
    {
        r.push(screens[i].clone());
    }
    assert(screens_view(r@) =~= screens_view(screens@));
    r
}

/// A request sent by a control client.
#[derive(Debug)]
pub enum ClientMessage {
    /// Declare the size of the virtual canvas.
    SetWindowSize { width: u32, height: u32 },
    /// Record the regions to capture.
    CaptureRects { rects: Vec<Rect> },
    /// Record the per-region transforms.
    TransformRects { transforms: Vec<Transform> },
    /// Show the given regions on one screen: `rects[i]` pairs with
    /// `transforms[i]` (a missing transform means no rotation); an empty
    /// `rects` means the whole canvas; earlier regions lie below later ones.
    RenderToScreen { screen_index: usize, rects: Vec<Rect>, transforms: Vec<Transform> },
    /// Ask for the list of screens.
    GetScreens,
    /// Turn input forwarding on or off.
    SetInputEnabled { enabled: bool },
    /// Liveness check.
    Ping,
}

/// The answer sent back for a [`ClientMessage`].
#[derive(Debug)]
pub enum ServerResponse {
    WindowSizeSet { width: u32, height: u32 },
    RectsCaptured { rects: Vec<Rect> },
    RectsTransformed,
    RenderedToScreen { screen_index: usize },
    Screens { screens: Vec<ScreenInfo> },
    InputState { enabled: bool },
    Pong,
    Error { message: String },
}

} // verus!
