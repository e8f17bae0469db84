use vstd::prelude::*;

use crate::frame::{clip, paint_in_range};
use crate::protocol::{Rect, Transform};
use crate::renderer::Renderer;

verus! {

/// Size of a display output in pixels.
#[derive(Debug, Clone, Copy, PartialEq, Eq, Structural)]
pub struct OutputSize {
    pub width: u32,
    pub height: u32,
}

/// A rectangle to paint on one output with the software frame painter.
#[derive(Debug, Clone, Copy, PartialEq, Eq, Structural)]
pub struct DrawRequest {
    /// Position of the output among the compositor's outputs.
    pub output: usize,
    pub x: i32,
    pub y: i32,
    pub width: u32,
    pub height: u32,
}

/// Output discovery found no usable output.
#[derive(Debug, Clone, Copy, PartialEq, Eq, Structural)]
pub struct NoOutputs;

/// Abstract value of a [`WaylandCompositor`].
pub struct WaylandCompositorView {
    pub width: u32,
    pub height: u32,
    pub outputs: Seq<OutputSize>,
}

/// The software-rendering compositor's sizes and outputs: the render size
/// and, in discovery order, the size of each output it paints on.
pub struct WaylandCompositor {
    width: u32,
    height: u32,
    outputs: Vec<OutputSize>,
}

impl View for WaylandCompositor {
    type V = WaylandCompositorView;

    closed spec fn view(&self) -> WaylandCompositorView {
        WaylandCompositorView { width: self.width, height: self.height, outputs: self.outputs@ }
    }
}

impl WaylandCompositor {
    /// A compositor with the default render size 1920x1080 and no output.
    pub fn new() -> (c: WaylandCompositor)
        ensures
            c@ == (WaylandCompositorView { width: 1920, height: 1080, outputs: Seq::empty() }),
    {
        WaylandCompositor { width: 1920, height: 1080, outputs: Vec::new() }
    }

    /// Takes the outputs found by discovery. Fails, with the sizes left as
    /// they were, when the compositor then has no output at all; otherwise
    /// the render size becomes that of its first output.
    pub fn adopt_outputs(&mut self, found: Vec<OutputSize>) -> (r: Result<(), NoOutputs>)
        ensures
            final(self)@.outputs == old(self)@.outputs + found@,
            final(self)@.outputs.len() == 0 ==> {
                &&& r == Err::<(), NoOutputs>(NoOutputs)
                &&& final(self)@.width == old(self)@.width
                &&& final(self)@.height == old(self)@.height
            },
            final(self)@.outputs.len() > 0 ==> {
                &&& r is Ok
                &&& final(self)@.width == final(self)@.outputs[0].width
                &&& final(self)@.height == final(self)@.outputs[0].height
            },
    {
        let n = found.len();
        let ghost start = self.outputs@;
        for i in 0..n
            invariant
                n == found@.len(),
                self.outputs@ == start + found@.take(i as int),
                self.width == old(self).width,
                self.height == old(self).height,
        {
            self.outputs.push(found[i]);
            assert(self.outputs@ =~= start + found@.take(i + 1));
        }
        assert(found@.take(n as int) =~= found@);
        if self.outputs.len() == 0 {
            return Err(NoOutputs);
        }
        self.width = self.outputs[0].width;
        self.height = self.outputs[0].height;
        Ok(())
    }

    /// Sets the render size.
    pub fn set_size(&mut self, width: u32, height: u32)
        ensures
            final(self)@ == (WaylandCompositorView { width, height, ..old(self)@ }),
    {
        self.width = width;
        self.height = height;
    }

    /// What to paint for a request to show the rectangle on screen
    /// `screen_index`: nothing when no output has that index, otherwise the
    /// rectangle as [`Renderer::compute_transformed_rect`] gives it, on that
    /// output.
    pub fn render_rect_to_screen(
        &self,
        screen_index: usize,
        x: i32,
        y: i32,
        width: u32,
        height: u32,
        transform: &Transform,
    ) -> (r: Option<DrawRequest>)
        ensures
            screen_index >= self@.outputs.len() ==> r is None,
            screen_index < self@.outputs.len() ==> r == Some(
                DrawRequest { output: screen_index, x, y, width, height },
            ),
    {
        if screen_index >= self.outputs.len() {
            return None;
        }
        let (tx, ty, tw, th) = Renderer::compute_transformed_rect(
            &Rect { x, y, width, height },
            transform,
        );
        Some(DrawRequest { output: screen_index, x: tx, y: ty, width: tw, height: th })
    }

    /// What to paint for a request to show the rectangle on the first
    /// output: nothing when there is no output.
    pub fn render_rect(&self, x: i32, y: i32, width: u32, height: u32) -> (r: Option<DrawRequest>)
        ensures
            self@.outputs.len() == 0 ==> r is None,
            self@.outputs.len() > 0 ==> r == Some(DrawRequest { output: 0, x, y, width, height }),
    {
        if self.outputs.len() == 0 {
            None
        } else {
            Some(DrawRequest { output: 0, x, y, width, height })
        }
    }

    /// The size of output `index`, if there is such an output.
    pub fn output_size(&self, index: usize) -> (r: Option<OutputSize>)
        ensures
            index < self@.outputs.len() ==> r == Some(self@.outputs[index as int]),
            index >= self@.outputs.len() ==> r is None,
    {
        if index < self.outputs.len() {
            Some(self.outputs[index])
        } else {
            None
        }
    }

    /// Clearing the buffer does nothing: every frame is painted anew.
    pub fn clear_buffer(&mut self)
        ensures
            final(self)@ == old(self)@,
    {
    }

    /// The render width.
    pub fn get_width(&self) -> (r: u32)
        ensures
            r == self@.width,
    {
        self.width
    }

    /// The render height.
    pub fn get_height(&self) -> (r: u32)
        ensures
            r == self@.height,
    {
        self.height
    }

    /// The number of outputs.
    pub fn get_output_count(&self) -> (r: usize)
        ensures
            r == self@.outputs.len(),
    {
        self.outputs.len()
    }
}

/// Whether [`crate::frame::paint_frame`] can paint the request on an output
/// of the given size and row stride without leaving `usize`.
pub fn paint_fits(stride: usize, size: OutputSize, req: &DrawRequest) -> (r: bool)
    ensures
        r == paint_in_range(stride, size.width, size.height, req.x, req.y, req.width, req.height),
{
    let x0: i64 = if req.x < 0 { 0 } else { req.x as i64 };
    let y0: i64 = if req.y < 0 { 0 } else { req.y as i64 };
    let xe: i64 = req.x as i64 + req.width as i64;
    let ye: i64 = req.y as i64 + req.height as i64;
    let xm: i64 = if xe <= size.width as i64 { xe } else { size.width as i64 };
    let ym: i64 = if ye <= size.height as i64 { ye } else { size.height as i64 };
    let x1: i64 = if xm <= x0 { x0 } else { xm };
    let y1: i64 = if ym <= y0 { y0 } else { ym };
    let ghost c = clip(req.x, req.y, req.width, req.height, size.width, size.height);
    assert(c == (x0 as int, y0 as int, x1 as int, y1 as int));
    if !(x0 < x1 && y0 < y1) {
        return true;
    }
    let row = (y1 - 1) as usize;
    let col = (x1 - 1) as usize;
    match row.checked_mul(stride) {
        None => false,
        Some(a) => match col.checked_mul(4) {
            None => false,
            Some(b) => match a.checked_add(b) {
                None => false,
                Some(ab) => match ab.checked_add(4) {
                    None => false,
                    Some(_) => true,
                },
            },
        },
    }
}

} // verus!
