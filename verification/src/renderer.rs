use vstd::prelude::*;

use crate::protocol::{
    clone_screens, identity_transform, screens_view, Rect, ScreenInfo, ScreenInfoView, Transform,
};
use crate::text::{decimal_digits, push_decimal};

verus! {

/// What one screen shows: the regions `rects[i]` paired with `transforms[i]`
/// (a missing transform means no rotation). No regions means the whole canvas.
#[derive(Debug)]
pub struct ScreenConfig {
    pub screen_index: usize,
    pub rects: Vec<Rect>,
    pub transforms: Vec<Transform>,
}

/// Abstract value of a [`ScreenConfig`].
pub struct ScreenConfigView {
    pub screen_index: usize,
    pub rects: Seq<Rect>,
    pub transforms: Seq<Transform>,
}

impl View for ScreenConfig {
    type V = ScreenConfigView;

    open spec fn view(&self) -> ScreenConfigView {
        ScreenConfigView {
            screen_index: self.screen_index,
            rects: self.rects@,
            transforms: self.transforms@,
        }
    }
}

/// Copies a list of rectangles.
pub fn clone_rects(v: &Vec<Rect>) -> (r: Vec<Rect>)
    ensures
        r@ == v@,
{
    let mut r: Vec<Rect> = Vec::new();
    let n = v.len();
    for i in 0..n
        invariant
            n == v@.len(),
            r@ == v@.take(i as int),
    {
        r.push(v[i]);
        assert(r@ =~= v@.take(i + 1));
    }
    assert(v@.take(n as int) =~= v@);
    r
}

/// Copies a list of transforms.
pub fn clone_transforms(v: &Vec<Transform>) -> (r: Vec<Transform>)
    ensures
        r@ == v@,
{
    let mut r: Vec<Transform> = Vec::new();
    let n = v.len();
    for i in 0..n
        invariant
            n == v@.len(),
            r@ == v@.take(i as int),
    {
        r.push(v[i]);
        assert(r@ =~= v@.take(i + 1));
    }
    assert(v@.take(n as int) =~= v@);
    r
}

impl Clone for ScreenConfig {
    fn clone(&self) -> (r: ScreenConfig)
        ensures
            r@ == self@,
    {
        ScreenConfig {
            screen_index: self.screen_index,
            rects: clone_rects(&self.rects),
            transforms: clone_transforms(&self.transforms),
        }
    }
}

/// The abstract values of a sequence of screen configurations.
pub open spec fn configs_view(s: Seq<ScreenConfig>) -> Seq<ScreenConfigView> {
    s.map_values(|c: ScreenConfig| c@)
}

/// Some configuration in `configs` is for screen `screen_index`.
pub open spec fn has_config(configs: Seq<ScreenConfigView>, screen_index: usize) -> bool {
    exists|i: int| 0 <= i < configs.len() && #[trigger] configs[i].screen_index == screen_index
}

/// `i` is the position of the first configuration for screen `screen_index`.
pub open spec fn is_first_config(configs: Seq<ScreenConfigView>, screen_index: usize, i: int) -> bool {
    &&& 0 <= i < configs.len()
    &&& configs[i].screen_index == screen_index
    &&& forall|j: int| 0 <= j < i ==> #[trigger] configs[j].screen_index != screen_index
}

/// The position of the first configuration for screen `screen_index`
/// (meaningful when [`has_config`] holds).
pub open spec fn first_config(configs: Seq<ScreenConfigView>, screen_index: usize) -> int {
    choose|i: int| is_first_config(configs, screen_index, i)
}

/// The configuration that screen `screen_index` uses, if any: the first one
/// recorded for it.
pub open spec fn config_for(configs: Seq<ScreenConfigView>, screen_index: usize) -> Option<
    ScreenConfigView,
> {
    if has_config(configs, screen_index) {
        Some(configs[first_config(configs, screen_index)])
    } else {
        None
    }
}

/// Recording `c`: it replaces the configuration of the same screen, or is
/// appended when that screen has none.
pub open spec fn store_config(configs: Seq<ScreenConfigView>, c: ScreenConfigView) -> Seq<
    ScreenConfigView,
> {
    if has_config(configs, c.screen_index) {
        configs.update(first_config(configs, c.screen_index), c)
    } else {
        configs.push(c)
    }
}

/// Every configuration names an existing screen, and no screen has two.
pub open spec fn configs_well_formed(configs: Seq<ScreenConfigView>, screen_count: nat) -> bool {
    &&& forall|i: int| 0 <= i < configs.len() ==> #[trigger] configs[i].screen_index < screen_count
    &&& forall|i: int, j: int|
        0 <= i < j < configs.len() ==> #[trigger] configs[i].screen_index
            != #[trigger] configs[j].screen_index
}

/// When a first configuration exists, the chosen position is it.
pub proof fn lemma_first_config(configs: Seq<ScreenConfigView>, screen_index: usize)
    requires
        has_config(configs, screen_index),
    ensures
        is_first_config(configs, screen_index, first_config(configs, screen_index)),
{
    let k = choose|i: int| 0 <= i < configs.len() && #[trigger] configs[i].screen_index == screen_index;
    lemma_first_exists(configs, screen_index, k);
}

proof fn lemma_first_exists(configs: Seq<ScreenConfigView>, screen_index: usize, k: int)
    requires
        0 <= k < configs.len(),
        configs[k].screen_index == screen_index,
    ensures
        exists|i: int| is_first_config(configs, screen_index, i),
    decreases k,
{
    if exists|j: int| 0 <= j < k && #[trigger] configs[j].screen_index == screen_index {
        let j = choose|j: int| 0 <= j < k && #[trigger] configs[j].screen_index == screen_index;
        lemma_first_exists(configs, screen_index, j);
    } else {
        assert(is_first_config(configs, screen_index, k));
    }
}

/// Law: recording a configuration for an existing screen keeps the list well
/// formed, makes that configuration the one the screen uses, and leaves the
/// configuration of every other screen as it was.
pub proof fn lemma_store_config(
    configs: Seq<ScreenConfigView>,
    c: ScreenConfigView,
    screen_count: nat,
)
    requires
        configs_well_formed(configs, screen_count),
        c.screen_index < screen_count,
    ensures
        configs_well_formed(store_config(configs, c), screen_count),
        config_for(store_config(configs, c), c.screen_index) == Some(c),
        forall|k: usize|
            k != c.screen_index ==> #[trigger] config_for(store_config(configs, c), k)
                == config_for(configs, k),
{
    let s = store_config(configs, c);
    if has_config(configs, c.screen_index) {
        lemma_first_config(configs, c.screen_index);
        let p = first_config(configs, c.screen_index);
        assert(s == configs.update(p, c));
        assert(configs_well_formed(s, screen_count)) by {
            assert forall|i: int, j: int| 0 <= i < j < s.len() implies #[trigger] s[i].screen_index
                != #[trigger] s[j].screen_index by {
                if i != p && j != p {
                    assert(configs[i].screen_index != configs[j].screen_index);
                } else if i == p {
                    assert(configs[p].screen_index != configs[j].screen_index);
                } else {
                    assert(configs[i].screen_index != configs[p].screen_index);
                }
            }
        }
        assert(is_first_config(s, c.screen_index, p));
        assert(has_config(s, c.screen_index));
        lemma_first_config(s, c.screen_index);
        lemma_first_unique(s, c.screen_index, p, first_config(s, c.screen_index));
        assert forall|k: usize| k != c.screen_index implies #[trigger] config_for(s, k) == config_for(
            configs,
            k,
        ) by {
            if has_config(configs, k) {
                lemma_first_config(configs, k);
                let q = first_config(configs, k);
                assert(q != p);
                assert(is_first_config(s, k, q));
                assert(has_config(s, k));
                lemma_first_config(s, k);
                lemma_first_unique(s, k, q, first_config(s, k));
            } else {
                if has_config(s, k) {
                    let i = choose|i: int| 0 <= i < s.len() && #[trigger] s[i].screen_index == k;
                    assert(i != p);
                    assert(configs[i].screen_index == k);
                }
            }
        }
    } else {
        assert(s == configs.push(c));
        let p = configs.len() as int;
        assert(is_first_config(s, c.screen_index, p));
        assert(has_config(s, c.screen_index));
        lemma_first_config(s, c.screen_index);
        lemma_first_unique(s, c.screen_index, p, first_config(s, c.screen_index));
        assert forall|k: usize| k != c.screen_index implies #[trigger] config_for(s, k) == config_for(
            configs,
            k,
        ) by {
            if has_config(configs, k) {
                lemma_first_config(configs, k);
                let q = first_config(configs, k);
                assert(is_first_config(s, k, q));
                assert(has_config(s, k));
                lemma_first_config(s, k);
                lemma_first_unique(s, k, q, first_config(s, k));
            } else {
                if has_config(s, k) {
                    let i = choose|i: int| 0 <= i < s.len() && #[trigger] s[i].screen_index == k;
                    assert(i != p);
                    assert(configs[i].screen_index == k);
                }
            }
        }
    }
}

pub(crate) proof fn lemma_first_unique(configs: Seq<ScreenConfigView>, screen_index: usize, a: int, b: int)
    requires
        is_first_config(configs, screen_index, a),
        is_first_config(configs, screen_index, b),
    ensures
        a == b,
{
    if a < b {
        assert(configs[a].screen_index != screen_index);
    } else if b < a {
        assert(configs[b].screen_index != screen_index);
    }
}

/// Why a request to the renderer was refused.
#[derive(Debug, Clone, Copy, PartialEq, Eq, Structural)]
pub enum RenderError {
    /// The screen index names no screen.
    InvalidScreenIndex(usize),
}

/// The text of the message for an invalid screen index.
pub open spec fn invalid_screen_index_text(screen_index: usize) -> Seq<char> {
    "Invalid screen index: "@ + decimal_digits(screen_index as nat)
}

impl RenderError {
    /// The human-readable message of the error.
    pub fn message(&self) -> (s: String)
        ensures
            match *self {
                RenderError::InvalidScreenIndex(i) => s@ == invalid_screen_index_text(i),
            },
    {
        match *self {
            RenderError::InvalidScreenIndex(i) => {
                let mut s = String::from_str("Invalid screen index: ");
                push_decimal(&mut s, i);
                s
            },
        }
    }
}

/// Abstract value of a [`Renderer`].
pub struct RendererView {
    /// The canvas size declared by `SetWindowSize`, if any.
    pub canvas_size: Option<(u32, u32)>,
    pub captured_rects: Seq<Rect>,
    pub transforms: Seq<Transform>,
    pub screens: Seq<ScreenInfoView>,
    pub input_enabled: bool,
    pub screen_configs: Seq<ScreenConfigView>,
}

/// The state that the control socket drives: the declared canvas size, the
/// captured regions and transforms, the screens and what each one shows.
pub struct Renderer {
    canvas_size: Option<(u32, u32)>,
    captured_rects: Vec<Rect>,
    transforms: Vec<Transform>,
    screens: Vec<ScreenInfo>,
    input_enabled: bool,
    screen_configs: Vec<ScreenConfig>,
}

impl View for Renderer {
    type V = RendererView;

    closed spec fn view(&self) -> RendererView {
        RendererView {
            canvas_size: self.canvas_size,
            captured_rects: self.captured_rects@,
            transforms: self.transforms@,
            screens: screens_view(self.screens@),
            input_enabled: self.input_enabled,
            screen_configs: configs_view(self.screen_configs@),
        }
    }
}

/// The configuration that shows the whole canvas, unrotated, on screen
/// `screen_index`: no regions and one identity transform.
pub open spec fn default_config(screen_index: usize) -> ScreenConfigView {
    ScreenConfigView {
        screen_index,
        rects: Seq::empty(),
        transforms: seq![identity_transform()],
    }
}

/// The configurations after recording the default configuration of screens
/// `0, 1, ..., n - 1`, in that order.
pub open spec fn apply_defaults(configs: Seq<ScreenConfigView>, n: nat) -> Seq<ScreenConfigView>
    decreases n,
{
    if n == 0 {
        configs
    } else {
        store_config(apply_defaults(configs, (n - 1) as nat), default_config((n - 1) as usize))
    }
}

/// A call that changes a renderer, with its arguments' abstract values.
pub enum RendererOp {
    SetWindowSize { width: u32, height: u32 },
    CaptureRects { rects: Seq<Rect> },
    TransformRects { transforms: Seq<Transform> },
    RenderToScreen { screen_index: usize, rects: Seq<Rect>, transforms: Seq<Transform> },
    SetInputEnabled { enabled: bool },
    ApplyDefaultFullscreen { output_count: usize },
}

/// The renderer state right after start-up, for the given screens.
pub open spec fn initial_renderer_view(screens: Seq<ScreenInfoView>) -> RendererView {
    RendererView {
        canvas_size: None,
        captured_rects: Seq::empty(),
        transforms: seq![identity_transform()],
        screens,
        input_enabled: true,
        screen_configs: Seq::empty(),
    }
}

/// The state after one call, as the renderer's methods state it.
pub open spec fn renderer_step(v: RendererView, op: RendererOp) -> RendererView {
    match op {
        RendererOp::SetWindowSize { width, height } => RendererView {
            canvas_size: Some((width, height)),
            ..v
        },
        RendererOp::CaptureRects { rects } => RendererView { captured_rects: rects, ..v },
        RendererOp::TransformRects { transforms } => RendererView { transforms, ..v },
        RendererOp::RenderToScreen { screen_index, rects, transforms } => {
            if screen_index < v.screens.len() {
                RendererView {
                    screen_configs: store_config(
                        v.screen_configs,
                        ScreenConfigView { screen_index, rects, transforms },
                    ),
                    captured_rects: rects,
                    transforms,
                    ..v
                }
            } else {
                v
            }
        },
        RendererOp::SetInputEnabled { enabled } => RendererView { input_enabled: enabled, ..v },
        RendererOp::ApplyDefaultFullscreen { output_count } => {
            let m: nat = if output_count <= v.screens.len() {
                output_count as nat
            } else {
                v.screens.len()
            };
            if m == 0 {
                v
            } else {
                RendererView {
                    screen_configs: apply_defaults(v.screen_configs, m),
                    captured_rects: Seq::empty(),
                    transforms: seq![identity_transform()],
                    ..v
                }
            }
        },
    }
}

/// The state after a sequence of calls.
pub open spec fn renderer_run(v: RendererView, ops: Seq<RendererOp>) -> RendererView
    decreases ops.len(),
{
    if ops.len() == 0 {
        v
    } else {
        renderer_step(renderer_run(v, ops.drop_last()), ops.last())
    }
}

/// The canvas size declared by the last `SetWindowSize` among the calls.
pub open spec fn last_declared_size(ops: Seq<RendererOp>) -> Option<(u32, u32)>
    decreases ops.len(),
{
    if ops.len() == 0 {
        None
    } else {
        match ops.last() {
            RendererOp::SetWindowSize { width, height } => Some((width, height)),
            _ => last_declared_size(ops.drop_last()),
        }
    }
}

/// The input state set by the last `SetInputEnabled` among the calls.
pub open spec fn last_input_setting(ops: Seq<RendererOp>) -> Option<bool>
    decreases ops.len(),
{
    if ops.len() == 0 {
        None
    } else {
        match ops.last() {
            RendererOp::SetInputEnabled { enabled } => Some(enabled),
            _ => last_input_setting(ops.drop_last()),
        }
    }
}

proof fn lemma_apply_defaults_well_formed(configs: Seq<ScreenConfigView>, n: nat, count: nat)
    requires
        configs_well_formed(configs, count),
        n <= count,
    ensures
        configs_well_formed(apply_defaults(configs, n), count),
    decreases n,
{
    if n > 0 {
        lemma_apply_defaults_well_formed(configs, (n - 1) as nat, count);
        lemma_store_config(
            apply_defaults(configs, (n - 1) as nat),
            default_config((n - 1) as usize),
            count,
        );
    }
}

/// Law: after any sequence of calls, the canvas size is the one declared
/// last (or the starting one when none was declared), the screens are the
/// starting ones, input is enabled as the last setting says (or as at the
/// start when there was none), and the configurations stay well formed.
pub proof fn lemma_renderer_run(v: RendererView, ops: Seq<RendererOp>)
    requires
        configs_well_formed(v.screen_configs, v.screens.len()),
    ensures
        renderer_run(v, ops).canvas_size == match last_declared_size(ops) {
            Some(s) => Some(s),
            None => v.canvas_size,
        },
        renderer_run(v, ops).screens == v.screens,
        renderer_run(v, ops).input_enabled == match last_input_setting(ops) {
            Some(e) => e,
            None => v.input_enabled,
        },
        configs_well_formed(renderer_run(v, ops).screen_configs, v.screens.len()),
    decreases ops.len(),
{
    if ops.len() > 0 {
        lemma_renderer_run(v, ops.drop_last());
        let w = renderer_run(v, ops.drop_last());
        match ops.last() {
            RendererOp::RenderToScreen { screen_index, rects, transforms } => {
                if screen_index < w.screens.len() {
                    lemma_store_config(
                        w.screen_configs,
                        ScreenConfigView { screen_index, rects, transforms },
                        w.screens.len(),
                    );
                }
            },
            RendererOp::ApplyDefaultFullscreen { output_count } => {
                let m: nat = if output_count <= w.screens.len() {
                    output_count as nat
                } else {
                    w.screens.len()
                };
                lemma_apply_defaults_well_formed(w.screen_configs, m, w.screens.len());
            },
            _ => {},
        }
    }
}

/// Law: for a renderer created for screens `s` and then driven by any
/// sequence of calls, the canvas size is the one declared last (none when
/// none was declared), the screens are `s`, and input is enabled unless the
/// last input setting turned it off.
pub proof fn lemma_renderer_from_start(s: Seq<ScreenInfoView>, ops: Seq<RendererOp>)
    ensures
        renderer_run(initial_renderer_view(s), ops).canvas_size == last_declared_size(ops),
        renderer_run(initial_renderer_view(s), ops).screens == s,
        renderer_run(initial_renderer_view(s), ops).input_enabled == match last_input_setting(ops) {
            Some(e) => e,
            None => true,
        },
{
    lemma_renderer_run(initial_renderer_view(s), ops);
}

impl Renderer {
    #[verifier::type_invariant]
    spec fn inv(self) -> bool {
        configs_well_formed(configs_view(self.screen_configs@), self.screens@.len())
    }

    /// The state right after start-up, for the given screens: no declared
    /// canvas, no captured regions, one identity transform, input enabled,
    /// no screen configured.
    pub fn new(screens: Vec<ScreenInfo>) -> (r: Renderer)
        ensures
            r@ == initial_renderer_view(screens_view(screens@)),
            r@ == (RendererView {
                canvas_size: None,
                captured_rects: Seq::empty(),
                transforms: seq![identity_transform()],
                screens: screens_view(screens@),
                input_enabled: true,
                screen_configs: Seq::empty(),
            }),
    {
        let mut transforms: Vec<Transform> = Vec::new();
        transforms.push(Transform::identity());
        let r = Renderer {
            canvas_size: None,
            captured_rects: Vec::new(),
            transforms,
            screens,
            input_enabled: true,
            screen_configs: Vec::new(),
        };
        assert(configs_view(r.screen_configs@) =~= Seq::empty());
        assert(r.transforms@ =~= seq![identity_transform()]);
        r
    }

    /// Declares the virtual canvas size.
    pub fn set_window_size(&mut self, width: u32, height: u32)
        ensures
            final(self)@ == renderer_step(old(self)@, RendererOp::SetWindowSize { width, height }),
            final(self)@ == (RendererView { canvas_size: Some((width, height)), ..old(self)@ }),
    {
        proof {
            use_type_invariant(&*self);
        }
        self.canvas_size = Some((width, height));
    }

    /// The canvas size declared last, if any.
    pub fn get_canvas_size(&self) -> (r: Option<(u32, u32)>)
        ensures
            r == self@.canvas_size,
    {
        self.canvas_size
    }

    /// Records the regions to capture and hands them back.
    pub fn capture_rects(&mut self, rects: Vec<Rect>) -> (r: Vec<Rect>)
        ensures
            final(self)@ == renderer_step(old(self)@, RendererOp::CaptureRects { rects: rects@ }),
            r@ == rects@,
            final(self)@ == (RendererView { captured_rects: rects@, ..old(self)@ }),
    {
        proof {
            use_type_invariant(&*self);
        }
        self.captured_rects = clone_rects(&rects);
        rects
    }

    /// Records the per-region transforms.
    pub fn transform_rects(&mut self, transforms: Vec<Transform>)
        ensures
            final(self)@ == renderer_step(
                old(self)@,
                RendererOp::TransformRects { transforms: transforms@ },
            ),
            final(self)@ == (RendererView { transforms: transforms@, ..old(self)@ }),
    {
        proof {
            use_type_invariant(&*self);
        }
        self.transforms = transforms;
    }

    /// Sets what screen `screen_index` shows. Refused, with nothing changed,
    /// when no screen has that index; otherwise the configuration replaces
    /// that screen's previous one (or is added), and the regions and
    /// transforms also become the captured ones.
    pub fn render_to_screen(
        &mut self,
        screen_index: usize,
        rects: Vec<Rect>,
        transforms: Vec<Transform>,
    ) -> (r: Result<(), RenderError>)
        ensures
            final(self)@ == renderer_step(
                old(self)@,
                RendererOp::RenderToScreen { screen_index, rects: rects@, transforms: transforms@ },
            ),
            screen_index >= old(self)@.screens.len() ==> {
                &&& r == Err::<(), RenderError>(RenderError::InvalidScreenIndex(screen_index))
                &&& final(self)@ == old(self)@
            },
            screen_index < old(self)@.screens.len() ==> {
                &&& r is Ok
                &&& final(self)@ == (RendererView {
                    screen_configs: store_config(
                        old(self)@.screen_configs,
                        ScreenConfigView {
                            screen_index,
                            rects: rects@,
                            transforms: transforms@,
                        },
                    ),
                    captured_rects: rects@,
                    transforms: transforms@,
                    ..old(self)@
                })
            },
    {
        proof {
            use_type_invariant(&*self);
        }
        if screen_index >= self.screens.len() {
            return Err(RenderError::InvalidScreenIndex(screen_index));
        }
        let config = ScreenConfig {
            screen_index,
            rects: clone_rects(&rects),
            transforms: clone_transforms(&transforms),
        };
        let ghost c = config@;
        let mut configs: Vec<ScreenConfig> = Vec::new();
        std::mem::swap(&mut configs, &mut self.screen_configs);
        let ghost before = configs_view(configs@);
        let n = configs.len();
        let mut found: Option<usize> = None;
        let mut k: usize = 0;
        while k < n
            invariant_except_break
                n == configs@.len(),
                k <= n,
                found is None,
                before == configs_view(configs@),
                forall|j: int| 0 <= j < k ==> #[trigger] before[j].screen_index != screen_index,
            ensures
                n == configs@.len(),
                found matches Some(i) ==> i < n && is_first_config(before, screen_index, i as int),
                found is None ==> !has_config(before, screen_index),
            decreases n - k,
        {
            assert(before[k as int] == configs@[k as int]@);
            if configs[k].screen_index == screen_index {
                found = Some(k);
                assert(is_first_config(before, screen_index, k as int));
                break;
            }
            k = k + 1;
        }
        proof {
            lemma_store_config(before, c, self.screens@.len());
        }
        match found {
            Some(i) => {
                proof {
                    lemma_first_config(before, screen_index);
                    lemma_first_unique(before, screen_index, i as int, first_config(before, screen_index));
                }
                configs[i] = config;
            },
            None => {
                configs.push(config);
            },
        }
        assert(configs_view(configs@) =~= store_config(before, c));
        self.screen_configs = configs;
        self.captured_rects = rects;
        self.transforms = transforms;
        Ok(())
    }

    /// The screens, as given at start-up.
    pub fn get_screens(&self) -> (r: Vec<ScreenInfo>)
        ensures
            screens_view(r@) == self@.screens,
    {
        clone_screens(&self.screens)
    }

    /// Turns input forwarding on or off.
    pub fn set_input_enabled(&mut self, enabled: bool)
        ensures
            final(self)@ == renderer_step(old(self)@, RendererOp::SetInputEnabled { enabled }),
            final(self)@ == (RendererView { input_enabled: enabled, ..old(self)@ }),
    {
        proof {
            use_type_invariant(&*self);
        }
        self.input_enabled = enabled;
    }

    /// Whether input forwarding is on.
    pub fn is_input_enabled(&self) -> (r: bool)
        ensures
            r == self@.input_enabled,
    {
        self.input_enabled
    }

    /// The captured regions.
    pub fn get_captured_rects(&self) -> (r: &[Rect])
        ensures
            r@ == self@.captured_rects,
    {
        self.captured_rects.as_slice()
    }

    /// The transforms.
    pub fn get_transforms(&self) -> (r: &[Transform])
        ensures
            r@ == self@.transforms,
    {
        self.transforms.as_slice()
    }

    /// What each configured screen shows. Every entry names an existing
    /// screen and no screen appears twice.
    pub fn get_screen_configs(&self) -> (r: &[ScreenConfig])
        ensures
            configs_view(r@) == self@.screen_configs,
            configs_well_formed(self@.screen_configs, self@.screens.len()),
    {
        proof {
            use_type_invariant(self);
        }
        self.screen_configs.as_slice()
    }

    /// The configuration that shows the whole canvas, unrotated, on screen
    /// `screen_index`: no regions and one identity transform.
    pub fn get_default_fullscreen_config(&self, screen_index: usize) -> (r: ScreenConfig)
        ensures
            r@ == (ScreenConfigView {
                screen_index,
                rects: Seq::empty(),
                transforms: seq![identity_transform()],
            }),
    {
        let mut transforms: Vec<Transform> = Vec::new();
        transforms.push(Transform::identity());
        let r = ScreenConfig { screen_index, rects: Vec::new(), transforms };
        assert(r@.rects =~= Seq::empty());
        assert(r@.transforms =~= seq![identity_transform()]);
        r
    }

    /// Shows the whole canvas, unrotated, on each of the first `output_count`
    /// screens: records the default configuration of screens `0, 1, ...` in
    /// turn, as [`Renderer::render_to_screen`] does; indices that name no
    /// screen are refused and change nothing.
    pub fn apply_default_fullscreen(&mut self, output_count: usize)
        ensures
            final(self)@ == renderer_step(
                old(self)@,
                RendererOp::ApplyDefaultFullscreen { output_count },
            ),
    {
        let ghost start = old(self)@;
        for i in 0..output_count
            invariant
                self@ == renderer_step(start, RendererOp::ApplyDefaultFullscreen { output_count: i }),
        {
            let c = self.get_default_fullscreen_config(i);
            assert(c@ == default_config(i));
            let _ = self.render_to_screen(i, c.rects, c.transforms);
            assert(self@ =~~= renderer_step(
                start,
                RendererOp::ApplyDefaultFullscreen { output_count: (i + 1) as usize },
            ));
        }
    }

    /// The rectangle that a transform gives: the region itself, since the
    /// stretch to the screen is done when the region is drawn.
    pub fn compute_transformed_rect(rect: &Rect, transform: &Transform) -> (r: (i32, i32, u32, u32))
        ensures
            r == (rect.x, rect.y, rect.width, rect.height),
    {
        (rect.x, rect.y, rect.width, rect.height)
    }
}

} // verus!
