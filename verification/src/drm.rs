use vstd::prelude::*;

use crate::protocol::{screens_view, ScreenInfo, ScreenInfoView, Transform};
use crate::wayland::NoOutputs;

verus! {

/// A display output driven through a CRTC.
#[derive(Debug)]
pub struct DrmOutput {
    /// Output name shown to clients.
    pub name: String,
    /// Identifier of the CRTC that scans the output out.
    pub crtc: u32,
    pub width: u32,
    pub height: u32,
    /// Vertical refresh rate in Hz.
    pub refresh_rate: u32,
}

/// Abstract value of a [`DrmOutput`].
pub struct DrmOutputView {
    pub name: Seq<char>,
    pub crtc: u32,
    pub width: u32,
    pub height: u32,
    pub refresh_rate: u32,
}

impl View for DrmOutput {
    type V = DrmOutputView;

    open spec fn view(&self) -> DrmOutputView {
        DrmOutputView {
            name: self.name@,
            crtc: self.crtc,
            width: self.width,
            height: self.height,
            refresh_rate: self.refresh_rate,
        }
    }
}

impl Clone for DrmOutput {
    fn clone(&self) -> (r: DrmOutput)
        ensures
            r@ == self@,
    {
        DrmOutput {
            name: self.name.clone(),
            crtc: self.crtc,
            width: self.width,
            height: self.height,
            refresh_rate: self.refresh_rate,
        }
    }
}

/// The abstract values of a sequence of outputs.
pub open spec fn outputs_view(s: Seq<DrmOutput>) -> Seq<DrmOutputView> {
    s.map_values(|o: DrmOutput| o@)
}

proof fn lemma_outputs_view_push(s: Seq<DrmOutput>, x: DrmOutput)
    ensures
        outputs_view(s.push(x)) == outputs_view(s).push(x@),
{
    assert(outputs_view(s.push(x)) =~= outputs_view(s).push(x@));
}

/// The screen description of an output.
pub open spec fn screen_of(o: DrmOutputView) -> ScreenInfoView {
    ScreenInfoView { name: o.name, width: o.width, height: o.height, refresh_rate: o.refresh_rate }
}

/// Abstract value of a [`DrmBackend`].
pub struct DrmBackendView {
    pub width: u32,
    pub height: u32,
    pub outputs: Seq<DrmOutputView>,
    /// For each output, whether a queued frame still waits for its vertical
    /// blank, so that no new frame may be rendered on it.
    pub waiting: Seq<bool>,
}

/// The position of the first output scanned out by CRTC `crtc`.
pub open spec fn is_first_with_crtc(outputs: Seq<DrmOutputView>, crtc: u32, i: int) -> bool {
    &&& 0 <= i < outputs.len()
    &&& outputs[i].crtc == crtc
    &&& forall|j: int| 0 <= j < i ==> #[trigger] outputs[j].crtc != crtc
}

/// The state of the DRM display backend that its decisions read: the
/// default size, the outputs, and which outputs wait for a vertical blank.
pub struct DrmBackend {
    width: u32,
    height: u32,
    outputs: Vec<DrmOutput>,
    waiting: Vec<bool>,
}

impl View for DrmBackend {
    type V = DrmBackendView;

    closed spec fn view(&self) -> DrmBackendView {
        DrmBackendView {
            width: self.width,
            height: self.height,
            outputs: outputs_view(self.outputs@),
            waiting: self.waiting@,
        }
    }
}

impl DrmBackend {
    #[verifier::type_invariant]
    spec fn inv(self) -> bool {
        self.waiting@.len() == self.outputs@.len()
    }

    /// The backend before initialisation: size 1920x1080, no output.
    pub fn new() -> (b: DrmBackend)
        ensures
            b@ == (DrmBackendView {
                width: 1920,
                height: 1080,
                outputs: Seq::empty(),
                waiting: Seq::empty(),
            }),
    {
        let b = DrmBackend { width: 1920, height: 1080, outputs: Vec::new(), waiting: Vec::new() };
        assert(outputs_view(b.outputs@) =~= Seq::empty());
        b
    }

    /// The backend's name.
    pub fn name(&self) -> (r: &'static str)
        ensures
            r@ == "drm"@,
    {
        "drm"
    }

    /// Takes the outputs found by discovery, none of them waiting for a
    /// vertical blank. Fails, with the size left as it was, when there is
    /// then no output; otherwise the size becomes that of the first output.
    pub fn adopt_outputs(&mut self, found: Vec<DrmOutput>) -> (r: Result<(), NoOutputs>)
        ensures
            final(self)@.waiting.len() == final(self)@.outputs.len(),
            final(self)@.outputs == old(self)@.outputs + outputs_view(found@),
            final(self)@.waiting == old(self)@.waiting + Seq::new(found@.len(), |i: int| false),
            final(self)@.outputs.len() == 0 ==> {
                &&& r == Err::<(), NoOutputs>(NoOutputs)
                &&& final(self)@.width == old(self)@.width
                &&& final(self)@.height == old(self)@.height
            },
            final(self)@.outputs.len() > 0 ==> {
                &&& r is Ok
                &&& final(self)@.width == final(self)@.outputs[0].width
                &&& final(self)@.height == final(self)@.outputs[0].height
            },
    {
        proof {
            use_type_invariant(&*self);
        }
        let ghost start = old(self)@;
        let mut outputs: Vec<DrmOutput> = Vec::new();
        let mut waiting: Vec<bool> = Vec::new();
        let n0 = self.outputs.len();
        for i in 0..n0
            invariant
                n0 == self.outputs@.len(),
                self@ == start,
                self.waiting@.len() == n0,
                outputs_view(outputs@) == start.outputs.take(i as int),
                waiting@ == start.waiting.take(i as int),
        {
            assert(start.outputs[i as int] == self.outputs@[i as int]@);
            let o = self.outputs[i].clone();
            proof {
                lemma_outputs_view_push(outputs@, o);
            }
            outputs.push(o);
            waiting.push(self.waiting[i]);
            assert(outputs_view(outputs@) =~= start.outputs.take(i + 1));
            assert(waiting@ =~= start.waiting.take(i + 1));
        }
        assert(start.outputs.take(n0 as int) =~= start.outputs);
        assert(start.waiting.take(n0 as int) =~= start.waiting);
        let ghost fv = outputs_view(found@);
        let n = found.len();
        for i in 0..n
            invariant
                n == found@.len(),
                fv == outputs_view(found@),
                outputs_view(outputs@) == start.outputs + fv.take(i as int),
                waiting@ == start.waiting + Seq::new(i as nat, |k: int| false),
        {
            assert(fv[i as int] == found@[i as int]@);
            let o = found[i].clone();
            proof {
                lemma_outputs_view_push(outputs@, o);
            }
            outputs.push(o);
            waiting.push(false);
            assert(outputs_view(outputs@) =~= start.outputs + fv.take(i + 1));
            assert(waiting@ =~= start.waiting + Seq::new((i + 1) as nat, |k: int| false));
        }
        assert(fv.take(n as int) =~= fv);
        let count = outputs.len();
        if count == 0 {
            return Err(NoOutputs);
        }
        let w = outputs[0].width;
        let h = outputs[0].height;
        assert(outputs_view(outputs@)[0] == outputs@[0]@);
        *self = DrmBackend { width: w, height: h, outputs, waiting };
        Ok(())
    }

    /// Whether a request to show a rectangle on screen `screen_index` names
    /// an output (the request itself is only reported).
    pub fn render_rect(
        &self,
        screen_index: usize,
        x: i32,
        y: i32,
        width: u32,
        height: u32,
        transform: &Transform,
    ) -> (r: bool)
        ensures
            r == (screen_index < self@.outputs.len()),
    {
        screen_index < self.outputs.len()
    }

    /// Handles the vertical blank of CRTC `crtc`: the first output that it
    /// scans out no longer waits, and its position is returned so that the
    /// frame can be marked as presented; nothing changes when no output
    /// uses that CRTC.
    pub fn on_vblank(&mut self, crtc: u32) -> (r: Option<usize>)
        ensures
            final(self)@.waiting.len() == final(self)@.outputs.len(),
            r matches Some(i) ==> {
                &&& is_first_with_crtc(old(self)@.outputs, crtc, i as int)
                &&& final(self)@ == (DrmBackendView {
                    waiting: old(self)@.waiting.update(i as int, false),
                    ..old(self)@
                })
            },
            r is None ==> {
                &&& forall|j: int|
                    0 <= j < old(self)@.outputs.len() ==> #[trigger] old(self)@.outputs[j].crtc
                        != crtc
                &&& final(self)@ == old(self)@
            },
    {
        proof {
            use_type_invariant(&*self);
        }
        let ghost ov = outputs_view(self.outputs@);
        let n = self.outputs.len();
        let mut k: usize = 0;
        while k < n
            invariant
                n == self.outputs@.len(),
                self.waiting@.len() == n,
                self@ == old(self)@,
                ov == old(self)@.outputs,
                ov == outputs_view(self.outputs@),
                k <= n,
                forall|j: int| 0 <= j < k ==> #[trigger] ov[j].crtc != crtc,
            decreases n - k,
        {
            assert(ov[k as int] == self.outputs@[k as int]@);
            if self.outputs[k].crtc == crtc {
                assert(is_first_with_crtc(ov, crtc, k as int));
                self.waiting[k] = false;
                return Some(k);
            }
            k = k + 1;
        }
        None
    }

    /// Whether a new frame may be rendered on output `index` now: it does
    /// not wait for a vertical blank.
    pub fn may_render(&self, index: usize) -> (r: bool)
        requires
            index < self@.outputs.len(),
        ensures
            r == !self@.waiting[index as int],
    {
        proof {
            use_type_invariant(self);
        }
        !self.waiting[index]
    }

    /// Records that a frame was queued on output `index`: it now waits for
    /// its vertical blank.
    pub fn frame_queued(&mut self, index: usize)
        requires
            index < old(self)@.outputs.len(),
        ensures
            final(self)@.waiting.len() == final(self)@.outputs.len(),
            final(self)@ == (DrmBackendView {
                waiting: old(self)@.waiting.update(index as int, true),
                ..old(self)@
            }),
    {
        proof {
            use_type_invariant(&*self);
        }
        self.waiting[index] = true;
    }

    /// The default width (that of the first output after initialisation).
    pub fn get_width(&self) -> (r: u32)
        ensures
            r == self@.width,
    {
        self.width
    }

    /// The default height (that of the first output after initialisation).
    pub fn get_height(&self) -> (r: u32)
        ensures
            r == self@.height,
    {
        self.height
    }

    /// The number of outputs.
    pub fn get_output_count(&self) -> (r: usize)
        ensures
            r == self@.outputs.len(),
            self@.waiting.len() == self@.outputs.len(),
    {
        proof {
            use_type_invariant(self);
        }
        self.outputs.len()
    }

    /// The CRTC of output `index`.
    pub fn output_crtc(&self, index: usize) -> (r: u32)
        requires
            index < self@.outputs.len(),
        ensures
            r == self@.outputs[index as int].crtc,
    {
        assert(self@.outputs[index as int] == self.outputs@[index as int]@);
        self.outputs[index].crtc
    }

    /// The screens, one per output in order: name, size and refresh rate.
    pub fn get_screens(&self) -> (r: Vec<ScreenInfo>)
        ensures
            screens_view(r@) == self@.outputs.map_values(|o: DrmOutputView| screen_of(o)),
    {
        let mut r: Vec<ScreenInfo> = Vec::new();
        let n = self.outputs.len();
        let ghost want = self@.outputs.map_values(|o: DrmOutputView| screen_of(o));
        for i in 0..n
            invariant
                n == self.outputs@.len(),
                want == self@.outputs.map_values(|o: DrmOutputView| screen_of(o)),
                self@.outputs == outputs_view(self.outputs@),
                screens_view(r@) == want.take(i as int),
        {
            let o = &self.outputs[i];
            assert(self@.outputs[i as int] == self.outputs@[i as int]@);
            let si = ScreenInfo {
                name: o.name.clone(),
                width: o.width,
                height: o.height,
                refresh_rate: o.refresh_rate,
            };
            proof {
                crate::protocol::lemma_screens_view_push(r@, si);
            }
            r.push(si);
            assert(screens_view(r@) =~= want.take(i + 1));
        }
        assert(want.take(n as int) =~= want);
        r
    }
}

/// Law: once a frame is queued on an output, the vertical blank of that
/// output's CRTC makes it ready for the next frame again, and no other
/// output's state changes. Stated over the two steps' contracts: `queued` is
/// the state after [`DrmBackend::frame_queued`] on output `i`, whose CRTC is
/// scanned out by no earlier output, and `after` the state after
/// [`DrmBackend::on_vblank`] with that CRTC.
pub proof fn lemma_vblank_after_queue(
    before: DrmBackendView,
    i: int,
    queued: DrmBackendView,
    after: DrmBackendView,
    found: Option<usize>,
)
    requires
        0 <= i < before.outputs.len(),
        before.waiting.len() == before.outputs.len(),
        is_first_with_crtc(before.outputs, before.outputs[i].crtc, i),
        queued == (DrmBackendView { waiting: before.waiting.update(i, true), ..before }),
        found matches Some(k) ==> {
            &&& is_first_with_crtc(queued.outputs, before.outputs[i].crtc, k as int)
            &&& after == (DrmBackendView { waiting: queued.waiting.update(k as int, false), ..queued })
        },
        found is None ==> {
            &&& forall|j: int|
                0 <= j < queued.outputs.len() ==> #[trigger] queued.outputs[j].crtc
                    != before.outputs[i].crtc
            &&& after == queued
        },
    ensures
        found == Some(i as usize),
        !after.waiting[i],
        forall|j: int| 0 <= j < before.waiting.len() && j != i ==> after.waiting[j] == before.waiting[j],
        after.outputs == before.outputs,
{
    match found {
        Some(k) => {
            if (k as int) < i {
                assert(before.outputs[k as int].crtc != before.outputs[i].crtc);
            } else if (k as int) > i {
                assert(queued.outputs[i].crtc != before.outputs[i].crtc);
            }
        },
        None => {
            assert(queued.outputs[i].crtc != before.outputs[i].crtc);
        },
    }
}

} // verus!
