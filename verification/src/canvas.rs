use vstd::prelude::*;

use crate::protocol::{identity_transform, Rect, Transform};
use crate::renderer::{
    config_for, configs_view, configs_well_formed, lemma_store_config, store_config, ScreenConfig,
    ScreenConfigView,
};

verus! {

/// What the canvas computation reads of one mapped window: the location of
/// its window geometry and the bounding box of its surface tree (both in the
/// window's surface-tree coordinates).
#[derive(Debug, Clone, Copy, PartialEq, Eq, Structural)]
pub struct WindowExtent {
    pub geometry_x: i32,
    pub geometry_y: i32,
    pub bbox_x: i32,
    pub bbox_y: i32,
    pub bbox_width: i32,
    pub bbox_height: i32,
}

/// Left edge of the window's surface tree in content coordinates.
pub open spec fn left(w: WindowExtent) -> int {
    w.bbox_x - w.geometry_x
}

/// Top edge of the window's surface tree in content coordinates.
pub open spec fn top(w: WindowExtent) -> int {
    w.bbox_y - w.geometry_y
}

/// Right edge of the window's surface tree in content coordinates.
pub open spec fn right(w: WindowExtent) -> int {
    left(w) + w.bbox_width
}

/// Bottom edge of the window's surface tree in content coordinates.
pub open spec fn bottom(w: WindowExtent) -> int {
    top(w) + w.bbox_height
}

pub open spec fn min(a: int, b: int) -> int {
    if a <= b { a } else { b }
}

pub open spec fn max(a: int, b: int) -> int {
    if a >= b { a } else { b }
}

/// Smallest left edge over the windows (0 when there is none).
pub open spec fn union_left(ws: Seq<WindowExtent>) -> int
    decreases ws.len(),
{
    if ws.len() == 0 {
        0
    } else if ws.len() == 1 {
        left(ws[0])
    } else {
        min(union_left(ws.drop_last()), left(ws.last()))
    }
}

/// Smallest top edge over the windows (0 when there is none).
pub open spec fn union_top(ws: Seq<WindowExtent>) -> int
    decreases ws.len(),
{
    if ws.len() == 0 {
        0
    } else if ws.len() == 1 {
        top(ws[0])
    } else {
        min(union_top(ws.drop_last()), top(ws.last()))
    }
}

/// Largest right edge over the windows (0 when there is none).
pub open spec fn union_right(ws: Seq<WindowExtent>) -> int
    decreases ws.len(),
{
    if ws.len() == 0 {
        0
    } else if ws.len() == 1 {
        right(ws[0])
    } else {
        max(union_right(ws.drop_last()), right(ws.last()))
    }
}

/// Largest bottom edge over the windows (0 when there is none).
pub open spec fn union_bottom(ws: Seq<WindowExtent>) -> int
    decreases ws.len(),
{
    if ws.len() == 0 {
        0
    } else if ws.len() == 1 {
        bottom(ws[0])
    } else {
        max(union_bottom(ws.drop_last()), bottom(ws.last()))
    }
}

pub open spec fn fits_i32(v: int) -> bool {
    i32::MIN <= v <= i32::MAX
}

/// A `u32` reinterpreted as an `i32` (two's complement).
pub open spec fn as_i32(v: u32) -> int {
    if v <= i32::MAX { v as int } else { v - 4294967296 }
}

/// The declared canvas size, `(0, 0)` when none was declared.
pub open spec fn declared(canvas_size: Option<(u32, u32)>) -> (u32, u32) {
    match canvas_size {
        Some(s) => s,
        None => (0, 0),
    }
}

/// The computation stays within `i32`: each window's edges and the spans of
/// both resulting rectangles fit.
pub open spec fn canvas_in_range(ws: Seq<WindowExtent>, canvas_size: Option<(u32, u32)>) -> bool {
    let (dw, dh) = declared(canvas_size);
    &&& forall|i: int|
        0 <= i < ws.len() ==> {
            &&& fits_i32(left(#[trigger] ws[i]))
            &&& fits_i32(top(ws[i]))
            &&& fits_i32(right(ws[i]))
            &&& fits_i32(bottom(ws[i]))
        }
    &&& fits_i32(union_right(ws) - union_left(ws))
    &&& fits_i32(union_bottom(ws) - union_top(ws))
    &&& fits_i32(max(union_right(ws), as_i32(dw)) - min(union_left(ws), 0))
    &&& fits_i32(max(union_bottom(ws), as_i32(dh)) - min(union_top(ws), 0))
}

/// The application's content rectangle: the union of the windows' surface
/// trees (empty at the origin when there is no window).
pub open spec fn app_rect_spec(ws: Seq<WindowExtent>) -> Rect {
    Rect {
        x: union_left(ws) as i32,
        y: union_top(ws) as i32,
        width: max(union_right(ws) - union_left(ws), 0) as u32,
        height: max(union_bottom(ws) - union_top(ws), 0) as u32,
    }
}

/// The off-screen canvas rectangle: the application's content rectangle
/// joined with the declared canvas `(0, 0, w, h)`.
pub open spec fn offscreen_rect_spec(ws: Seq<WindowExtent>, canvas_size: Option<(u32, u32)>) -> Rect {
    let (dw, dh) = declared(canvas_size);
    let x0 = min(union_left(ws), 0);
    let y0 = min(union_top(ws), 0);
    let x1 = max(union_right(ws), as_i32(dw));
    let y1 = max(union_bottom(ws), as_i32(dh));
    Rect {
        x: x0 as i32,
        y: y0 as i32,
        width: max(x1 - x0, 0) as u32,
        height: max(y1 - y0, 0) as u32,
    }
}

proof fn lemma_union_in_range(ws: Seq<WindowExtent>)
    requires
        forall|i: int|
            0 <= i < ws.len() ==> {
                &&& fits_i32(left(#[trigger] ws[i]))
                &&& fits_i32(top(ws[i]))
                &&& fits_i32(right(ws[i]))
                &&& fits_i32(bottom(ws[i]))
            },
    ensures
        fits_i32(union_left(ws)),
        fits_i32(union_top(ws)),
        fits_i32(union_right(ws)),
        fits_i32(union_bottom(ws)),
    decreases ws.len(),
{
    if ws.len() > 1 {
        let p = ws.drop_last();
        assert forall|i: int| 0 <= i < p.len() implies {
            &&& fits_i32(left(#[trigger] p[i]))
            &&& fits_i32(top(p[i]))
            &&& fits_i32(right(p[i]))
            &&& fits_i32(bottom(p[i]))
        } by {
            assert(p[i] == ws[i]);
        }
        lemma_union_in_range(p);
        assert(ws.last() == ws[ws.len() - 1]);
    } else if ws.len() == 1 {
        assert(fits_i32(left(ws[0])));
    }
}

/// The off-screen canvas rectangle and the application's content rectangle,
/// in content coordinates (origin at the top-left corner of the window
/// content). The content rectangle is the union of the windows' surface
/// trees; the canvas joins it with the declared canvas `(0, 0, w, h)`.
pub fn canvas_rects(windows: &[WindowExtent], canvas_size: Option<(u32, u32)>) -> (r: (Rect, Rect))
    requires
        canvas_in_range(windows@, canvas_size),
    ensures
        r.0 == offscreen_rect_spec(windows@, canvas_size),
        r.1 == app_rect_spec(windows@),
{
    let ghost ws = windows@;
    proof {
        lemma_union_in_range(ws);
    }
    let mut x0: i32 = 0;
    let mut y0: i32 = 0;
    let mut x1: i32 = 0;
    let mut y1: i32 = 0;
    let mut has_window = false;
    let n = windows.len();
    for i in 0..n
        invariant
            n == ws.len(),
            windows@ == ws,
            canvas_in_range(ws, canvas_size),
            has_window == (i > 0),
            x0 == union_left(ws.take(i as int)),
            y0 == union_top(ws.take(i as int)),
            x1 == union_right(ws.take(i as int)),
            y1 == union_bottom(ws.take(i as int)),
    {
        let w = windows[i];
        assert(fits_i32(left(ws[i as int])) && fits_i32(top(ws[i as int])) && fits_i32(
            right(ws[i as int]),
        ) && fits_i32(bottom(ws[i as int])));
        let wx0 = w.bbox_x - w.geometry_x;
        let wy0 = w.bbox_y - w.geometry_y;
        let wx1 = wx0 + w.bbox_width;
        let wy1 = wy0 + w.bbox_height;
        let ghost t = ws.take(i + 1);
        assert(t.drop_last() =~= ws.take(i as int));
        assert(t.last() == ws[i as int]);
        if has_window {
            if wx0 < x0 {
                x0 = wx0;
            }
            if wy0 < y0 {
                y0 = wy0;
            }
            if wx1 > x1 {
                x1 = wx1;
            }
            if wy1 > y1 {
                y1 = wy1;
            }
        } else {
            x0 = wx0;
            y0 = wy0;
            x1 = wx1;
            y1 = wy1;
            has_window = true;
            assert(t.len() == 1);
            assert(t[0] == ws[0]);
        }
    }
    assert(ws.take(n as int) =~= ws);
    let w = x1 - x0;
    let h = y1 - y0;
    let app_rect = Rect {
        x: x0,
        y: y0,
        width: if w > 0 { w as u32 } else { 0 },
        height: if h > 0 { h as u32 } else { 0 },
    };
    let (decl_w, decl_h) = match canvas_size {
        Some(s) => s,
        None => (0u32, 0u32),
    };
    let dw = reinterpret_i32(decl_w);
    let dh = reinterpret_i32(decl_h);
    let ox0 = if x0 < 0 { x0 } else { 0 };
    let oy0 = if y0 < 0 { y0 } else { 0 };
    let ox1 = if x1 >= dw { x1 } else { dw };
    let oy1 = if y1 >= dh { y1 } else { dh };
    let ow = ox1 - ox0;
    let oh = oy1 - oy0;
    let offscreen_rect = Rect {
        x: ox0,
        y: oy0,
        width: if ow > 0 { ow as u32 } else { 0 },
        height: if oh > 0 { oh as u32 } else { 0 },
    };
    (offscreen_rect, app_rect)
}

/// Whether [`canvas_rects`] can compute the rectangles for these windows
/// without leaving `i32` (see [`canvas_in_range`]).
pub fn canvas_fits(windows: &[WindowExtent], canvas_size: Option<(u32, u32)>) -> (r: bool)
    ensures
        r == canvas_in_range(windows@, canvas_size),
{
    let ghost ws = windows@;
    let n = windows.len();
    let mut x0: i64 = 0;
    let mut y0: i64 = 0;
    let mut x1: i64 = 0;
    let mut y1: i64 = 0;
    for i in 0..n
        invariant
            n == ws.len(),
            windows@ == ws,
            forall|j: int|
                0 <= j < i ==> {
                    &&& fits_i32(left(#[trigger] ws[j]))
                    &&& fits_i32(top(ws[j]))
                    &&& fits_i32(right(ws[j]))
                    &&& fits_i32(bottom(ws[j]))
                },
            x0 == union_left(ws.take(i as int)),
            y0 == union_top(ws.take(i as int)),
            x1 == union_right(ws.take(i as int)),
            y1 == union_bottom(ws.take(i as int)),
    {
        let w = windows[i];
        let wx0 = w.bbox_x as i64 - w.geometry_x as i64;
        let wy0 = w.bbox_y as i64 - w.geometry_y as i64;
        let wx1 = wx0 + w.bbox_width as i64;
        let wy1 = wy0 + w.bbox_height as i64;
        if wx0 < -2147483648 || wx0 > 2147483647 || wy0 < -2147483648 || wy0 > 2147483647 || wx1
            < -2147483648 || wx1 > 2147483647 || wy1 < -2147483648 || wy1 > 2147483647 {
            assert(!(fits_i32(left(ws[i as int])) && fits_i32(top(ws[i as int])) && fits_i32(
                right(ws[i as int]),
            ) && fits_i32(bottom(ws[i as int]))));
            return false;
        }
        let ghost t = ws.take(i + 1);
        assert(t.drop_last() =~= ws.take(i as int));
        assert(t.last() == ws[i as int]);
        if i == 0 {
            assert(t.len() == 1);
            assert(t[0] == ws[0]);
            x0 = wx0;
            y0 = wy0;
            x1 = wx1;
            y1 = wy1;
        } else {
            if wx0 < x0 {
                x0 = wx0;
            }
            if wy0 < y0 {
                y0 = wy0;
            }
            if wx1 > x1 {
                x1 = wx1;
            }
            if wy1 > y1 {
                y1 = wy1;
            }
        }
        proof {
            lemma_union_in_range(t);
        }
    }
    assert(ws.take(n as int) =~= ws);
    proof {
        lemma_union_in_range(ws);
    }
    let (decl_w, decl_h) = match canvas_size {
        Some(s) => s,
        None => (0u32, 0u32),
    };
    let dw = reinterpret_i32(decl_w) as i64;
    let dh = reinterpret_i32(decl_h) as i64;
    let ox0 = if x0 < 0 { x0 } else { 0 };
    let oy0 = if y0 < 0 { y0 } else { 0 };
    let ox1 = if x1 >= dw { x1 } else { dw };
    let oy1 = if y1 >= dh { y1 } else { dh };
    x1 - x0 <= 2147483647 && x1 - x0 >= -2147483648 && y1 - y0 <= 2147483647 && y1 - y0
        >= -2147483648 && ox1 - ox0 <= 2147483647 && ox1 - ox0 >= -2147483648 && oy1 - oy0
        <= 2147483647 && oy1 - oy0 >= -2147483648
}

/// A `u32` reinterpreted as an `i32` (two's complement), as `v as i32` does.
fn reinterpret_i32(v: u32) -> (r: i32)
    ensures
        r == as_i32(v),
{
    if v <= 2147483647 {
        v as i32
    } else {
        (v - 2147483648) as i32 - 2147483647 - 1
    }
}

/// Law: the content rectangle covers every window's surface tree, and the
/// off-screen canvas covers the content rectangle and the declared canvas
/// (for windows whose bounding boxes have no negative size).
pub proof fn lemma_canvas_covers(ws: Seq<WindowExtent>, canvas_size: Option<(u32, u32)>)
    requires
        canvas_in_range(ws, canvas_size),
        forall|i: int|
            0 <= i < ws.len() ==> #[trigger] ws[i].bbox_width >= 0 && ws[i].bbox_height >= 0,
    ensures
        forall|i: int|
            0 <= i < ws.len() ==> {
                &&& app_rect_spec(ws).x <= left(#[trigger] ws[i])
                &&& app_rect_spec(ws).y <= top(ws[i])
                &&& right(ws[i]) <= app_rect_spec(ws).x + app_rect_spec(ws).width
                &&& bottom(ws[i]) <= app_rect_spec(ws).y + app_rect_spec(ws).height
            },
        ({
            let o = offscreen_rect_spec(ws, canvas_size);
            let a = app_rect_spec(ws);
            let (dw, dh) = declared(canvas_size);
            &&& o.x <= a.x
            &&& o.y <= a.y
            &&& a.x + a.width <= o.x + o.width
            &&& a.y + a.height <= o.y + o.height
            &&& o.x <= 0
            &&& o.y <= 0
            &&& as_i32(dw) <= o.x + o.width
            &&& as_i32(dh) <= o.y + o.height
        }),
{
    lemma_union_in_range(ws);
    lemma_union_bounds(ws);
    if ws.len() > 0 {
        assert(union_left(ws) <= union_right(ws));
        assert(union_top(ws) <= union_bottom(ws) || exists|i: int|
            0 <= i < ws.len() && bottom(#[trigger] ws[i]) < top(ws[i]));
    }
}

proof fn lemma_union_bounds(ws: Seq<WindowExtent>)
    ensures
        forall|i: int|
            0 <= i < ws.len() ==> {
                &&& union_left(ws) <= left(#[trigger] ws[i])
                &&& union_top(ws) <= top(ws[i])
                &&& right(ws[i]) <= union_right(ws)
                &&& bottom(ws[i]) <= union_bottom(ws)
            },
        ws.len() > 0 ==> union_left(ws) <= union_right(ws) || exists|i: int|
            0 <= i < ws.len() && right(#[trigger] ws[i]) < left(ws[i]),
        ws.len() > 0 ==> union_top(ws) <= union_bottom(ws) || exists|i: int|
            0 <= i < ws.len() && bottom(#[trigger] ws[i]) < top(ws[i]),
    decreases ws.len(),
{
    if ws.len() > 1 {
        let p = ws.drop_last();
        lemma_union_bounds(p);
        assert forall|i: int| 0 <= i < ws.len() implies {
            &&& union_left(ws) <= left(#[trigger] ws[i])
            &&& union_top(ws) <= top(ws[i])
            &&& right(ws[i]) <= union_right(ws)
            &&& bottom(ws[i]) <= union_bottom(ws)
        } by {
            if i < ws.len() - 1 {
                assert(p[i] == ws[i]);
            }
        }
        if union_left(ws) > union_right(ws) {
            if union_left(p) <= union_right(p) {
                assert(right(ws.last()) < left(ws.last()));
                assert(ws.last() == ws[ws.len() - 1]);
            } else {
                let j = choose|j: int| 0 <= j < p.len() && right(#[trigger] p[j]) < left(p[j]);
                assert(p[j] == ws[j]);
            }
        }
        if union_top(ws) > union_bottom(ws) {
            if union_top(p) <= union_bottom(p) {
                assert(bottom(ws.last()) < top(ws.last()));
                assert(ws.last() == ws[ws.len() - 1]);
            } else {
                let j = choose|j: int| 0 <= j < p.len() && bottom(#[trigger] p[j]) < top(p[j]);
                assert(p[j] == ws[j]);
            }
        }
    }
}

/// The regions that a screen with configuration `config` shows, each with
/// its transform: the configuration's regions paired by position with its
/// transforms (no rotation where a transform is missing), or the region
/// `whole`, unrotated, when the screen has no configuration or its
/// configuration names no region.
pub open spec fn region_pairs_spec(config: Option<ScreenConfigView>, whole: Rect) -> Seq<
    (Rect, Transform),
> {
    match config {
        Some(c) => if c.rects.len() > 0 {
            Seq::new(
                c.rects.len(),
                |i: int|
                    (
                        c.rects[i],
                        if i < c.transforms.len() {
                            c.transforms[i]
                        } else {
                            identity_transform()
                        },
                    ),
            )
        } else {
            seq![(whole, identity_transform())]
        },
        None => seq![(whole, identity_transform())],
    }
}

/// `shown` is what a screen with configuration `config` shows, position by
/// position: when the configuration names regions, exactly one pair per
/// region, the `i`-th being region `i` with transform `i` (no rotation when
/// there are fewer transforms than regions); otherwise the single region
/// `whole`, unrotated.
pub open spec fn shows_by_position(
    shown: Seq<(Rect, Transform)>,
    config: Option<ScreenConfigView>,
    whole: Rect,
) -> bool {
    match config {
        Some(c) if c.rects.len() > 0 => {
            &&& shown.len() == c.rects.len()
            &&& forall|i: int|
                0 <= i < c.rects.len() ==> #[trigger] shown[i].0 == c.rects[i] && (i
                    < c.transforms.len() ==> shown[i].1 == c.transforms[i]) && (i
                    >= c.transforms.len() ==> shown[i].1 == Transform { rotation_bits: 0 })
        },
        _ => {
            &&& shown.len() == 1
            &&& shown[0] == (whole, Transform { rotation_bits: 0 })
        },
    }
}

/// Law: a screen shows its configured regions in order, each paired with
/// the transform at the same position (unrotated where there is none), and
/// only the region `whole`, unrotated, when it has no configured region.
pub proof fn lemma_region_pairs_by_position(config: Option<ScreenConfigView>, whole: Rect)
    ensures
        shows_by_position(region_pairs_spec(config, whole), config, whole),
{
}

/// The regions that screen `screen_index` shows, in the order of the request
/// (see [`region_pairs_spec`]), with `whole` as the region of a screen
/// without regions; the configuration used is the first one for that screen.
pub fn region_pairs(configs: &[ScreenConfig], screen_index: usize, whole: Rect) -> (r: Vec<
    (Rect, Transform),
>)
    ensures
        r@ == region_pairs_spec(config_for(configs_view(configs@), screen_index), whole),
        shows_by_position(r@, config_for(configs_view(configs@), screen_index), whole),
{
    let r = region_pairs_inner(configs, screen_index, whole);
    proof {
        lemma_region_pairs_by_position(config_for(configs_view(configs@), screen_index), whole);
    }
    r
}

fn region_pairs_inner(configs: &[ScreenConfig], screen_index: usize, whole: Rect) -> (r: Vec<
    (Rect, Transform),
>)
    ensures
        r@ == region_pairs_spec(config_for(configs_view(configs@), screen_index), whole),
{
    let ghost cv = configs_view(configs@);
    let n = configs.len();
    let mut k: usize = 0;
    let mut found: Option<usize> = None;
    while k < n
        invariant_except_break
            n == configs@.len(),
            k <= n,
            found is None,
            cv == configs_view(configs@),
            forall|j: int| 0 <= j < k ==> #[trigger] cv[j].screen_index != screen_index,
        ensures
            found matches Some(i) ==> i < n && crate::renderer::is_first_config(
                cv,
                screen_index,
                i as int,
            ),
            found is None ==> !crate::renderer::has_config(cv, screen_index),
        decreases n - k,
    {
        assert(cv[k as int] == configs@[k as int]@);
        if configs[k].screen_index == screen_index {
            found = Some(k);
            break;
        }
        k = k + 1;
    }
    let mut r: Vec<(Rect, Transform)> = Vec::new();
    match found {
        Some(i) => {
            proof {
                crate::renderer::lemma_first_config(cv, screen_index);
                crate::renderer::lemma_first_unique(
                    cv,
                    screen_index,
                    i as int,
                    crate::renderer::first_config(cv, screen_index),
                );
            }
            let c = &configs[i];
            assert(config_for(cv, screen_index) == Some(c@));
            if c.rects.len() > 0 {
                let m = c.rects.len();
                let ghost want = region_pairs_spec(Some(c@), whole);
                for j in 0..m
                    invariant
                        m == c.rects@.len(),
                        m > 0,
                        want == region_pairs_spec(Some(c@), whole),
                        r@ == want.take(j as int),
                {
                    let t = if j < c.transforms.len() {
                        c.transforms[j]
                    } else {
                        Transform::identity()
                    };
                    r.push((c.rects[j], t));
                    assert(r@ =~= want.take(j + 1));
                }
                assert(want.take(m as int) =~= want);
            } else {
                r.push((whole, Transform::identity()));
                assert(r@ =~= seq![(whole, identity_transform())]);
            }
        },
        None => {
            r.push((whole, Transform::identity()));
            assert(r@ =~= seq![(whole, identity_transform())]);
        },
    }
    r
}

/// The order in which the regions are handed to the frame renderer, which
/// puts the first element on top: reversed, so that earlier regions lie
/// below later ones.
pub fn draw_order(pairs: &[(Rect, Transform)]) -> (r: Vec<(Rect, Transform)>)
    ensures
        r@ == pairs@.reverse(),
{
    let mut r: Vec<(Rect, Transform)> = Vec::new();
    let n = pairs.len();
    let mut k: usize = n;
    while k > 0
        invariant
            n == pairs@.len(),
            k <= n,
            r@ == pairs@.subrange(k as int, n as int).reverse(),
        decreases k,
    {
        k = k - 1;
        r.push(pairs[k]);
        assert(r@ =~= pairs@.subrange(k as int, n as int).reverse());
    }
    assert(pairs@.subrange(0, n as int) =~= pairs@);
    r
}

/// Whether the off-screen texture must be (re)created for a canvas of size
/// `wanted`: when there is no texture, no recorded size, or a different one.
pub fn needs_recreate(has_texture: bool, current: Option<(u32, u32)>, wanted: (u32, u32)) -> (r:
    bool)
    ensures
        r == !(has_texture && current == Some(wanted)),
{
    match current {
        Some(sz) => if has_texture {
            !(sz.0 == wanted.0 && sz.1 == wanted.1)
        } else {
            true
        },
        None => true,
    }
}

impl Rect {
    /// Whether the rectangle has a positive width and height.
    pub fn has_area(&self) -> (r: bool)
        ensures
            r == (self.width > 0 && self.height > 0),
    {
        self.width > 0 && self.height > 0
    }
}

/// Law: once a configuration is recorded for a screen, that screen shows
/// exactly the configuration's regions paired with its transforms (the
/// default region when it names no region), and every other screen shows
/// what it showed before.
pub proof fn lemma_recorded_config_shown(
    configs: Seq<ScreenConfigView>,
    c: ScreenConfigView,
    screen_count: nat,
    whole: Rect,
)
    requires
        configs_well_formed(configs, screen_count),
        c.screen_index < screen_count,
    ensures
        region_pairs_spec(config_for(store_config(configs, c), c.screen_index), whole)
            == region_pairs_spec(Some(c), whole),
        forall|k: usize|
            k != c.screen_index ==> #[trigger] region_pairs_spec(
                config_for(store_config(configs, c), k),
                whole,
            ) == region_pairs_spec(config_for(configs, k), whole),
{
    lemma_store_config(configs, c, screen_count);
    assert forall|k: usize| k != c.screen_index implies #[trigger] region_pairs_spec(
        config_for(store_config(configs, c), k),
        whole,
    ) == region_pairs_spec(config_for(configs, k), whole) by {
        assert(config_for(store_config(configs, c), k) == config_for(configs, k));
    }
}

/// The regions that screen `screen_index` shows for these windows and this
/// declared canvas size: those of its configuration, or the whole off-screen
/// canvas (the application content joined with the declared canvas),
/// unrotated, when it has no configuration or no region.
pub open spec fn screen_regions_spec(
    ws: Seq<WindowExtent>,
    canvas_size: Option<(u32, u32)>,
    configs: Seq<ScreenConfigView>,
    screen_index: usize,
) -> Seq<(Rect, Transform)> {
    region_pairs_spec(config_for(configs, screen_index), offscreen_rect_spec(ws, canvas_size))
}

/// The regions that screen `screen_index` shows (see
/// [`screen_regions_spec`]): by default the whole canvas.
pub fn screen_regions(
    windows: &[WindowExtent],
    canvas_size: Option<(u32, u32)>,
    configs: &[ScreenConfig],
    screen_index: usize,
) -> (r: Vec<(Rect, Transform)>)
    requires
        canvas_in_range(windows@, canvas_size),
    ensures
        r@ == screen_regions_spec(windows@, canvas_size, configs_view(configs@), screen_index),
        shows_by_position(
            r@,
            config_for(configs_view(configs@), screen_index),
            offscreen_rect_spec(windows@, canvas_size),
        ),
{
    let (offscreen_rect, _) = canvas_rects(windows, canvas_size);
    region_pairs(configs, screen_index, offscreen_rect)
}

/// Law: a screen without configuration, or whose configuration names no
/// region (as the default full-screen configuration does), shows the whole
/// canvas (the application content joined with the declared canvas),
/// unrotated; a configured region without a transform is shown unrotated.
pub proof fn lemma_default_regions(
    ws: Seq<WindowExtent>,
    canvas_size: Option<(u32, u32)>,
    configs: Seq<ScreenConfigView>,
    screen_index: usize,
    i: int,
)
    ensures
        (config_for(configs, screen_index) matches Some(c) ==> c.rects.len() == 0)
            ==> screen_regions_spec(ws, canvas_size, configs, screen_index) == seq![
            (offscreen_rect_spec(ws, canvas_size), identity_transform()),
        ],
        config_for(configs, screen_index) matches Some(c) ==> (c.transforms.len() <= i
            < c.rects.len() ==> screen_regions_spec(ws, canvas_size, configs, screen_index)[i] == (
            c.rects[i],
            identity_transform(),
        )),
{
}

} // verus!
