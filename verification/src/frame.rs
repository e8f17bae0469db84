use vstd::prelude::*;

verus! {

/// The pixel rectangle that gets painted: the requested rectangle (top-left
/// corner `(x, y)`, size `width x height`) cut to the screen. Returns
/// `(x0, y0, x1, y1)`, the columns `x0 <= px < x1` and rows `y0 <= py < y1`,
/// where `x0 = max(x, 0)` and `x1 = min(x + width, screen_w)` (and `x1` is
/// raised to `x0` when the cut leaves no column), likewise for the rows.
pub open spec fn clip(x: i32, y: i32, width: u32, height: u32, screen_w: u32, screen_h: u32) -> (
    int,
    int,
    int,
    int,
) {
    let x0: int = if x < 0 { 0 } else { x as int };
    let y0: int = if y < 0 { 0 } else { y as int };
    let xe: int = if x + width <= screen_w { x + width } else { screen_w as int };
    let ye: int = if y + height <= screen_h { y + height } else { screen_h as int };
    let x1: int = if xe <= x0 { x0 } else { xe };
    let y1: int = if ye <= y0 { y0 } else { ye };
    (x0, y0, x1, y1)
}

/// Byte `i` belongs to the 4-byte pixel at column `px`, row `py`, and that
/// pixel lies wholly inside a buffer of `len` bytes with `stride` bytes per
/// row.
pub open spec fn in_pixel(i: int, px: int, py: int, stride: int, len: int) -> bool {
    let base = py * stride + px * 4;
    &&& base <= i < base + 4
    &&& base + 4 <= len
}

/// Byte `i` is painted white: it belongs to some pixel of the clipped
/// rectangle that lies wholly inside the buffer.
pub open spec fn painted(i: int, c: (int, int, int, int), stride: int, len: int) -> bool {
    exists|px: int, py: int|
        c.0 <= px < c.2 && c.1 <= py < c.3 && #[trigger] in_pixel(i, px, py, stride, len)
}

/// Byte `i` belongs to a pixel of the clipped rectangle that comes before
/// column `cx` of row `cy` in row-major order.
pub open spec fn painted_before(
    i: int,
    c: (int, int, int, int),
    cx: int,
    cy: int,
    stride: int,
    len: int,
) -> bool {
    exists|px: int, py: int|
        c.0 <= px < c.2 && c.1 <= py && ((py < cy) || (py == cy && px < cx)) && #[trigger] in_pixel(
            i,
            px,
            py,
            stride,
            len,
        )
}

/// The painting's index arithmetic stays within `usize`.
pub open spec fn paint_in_range(
    stride: usize,
    screen_w: u32,
    screen_h: u32,
    x: i32,
    y: i32,
    width: u32,
    height: u32,
) -> bool {
    let c = clip(x, y, width, height, screen_w, screen_h);
    (c.0 < c.2 && c.1 < c.3) ==> (c.3 - 1) * stride + (c.2 - 1) * 4 + 4 <= usize::MAX
}

/// Pixel `(px, py)` lies in the requested rectangle (top-left corner
/// `(x, y)`, size `width x height`) and on the screen (`0 <= px < screen_w`,
/// `0 <= py < screen_h`).
pub open spec fn in_request(
    px: int,
    py: int,
    x: i32,
    y: i32,
    width: u32,
    height: u32,
    screen_w: u32,
    screen_h: u32,
) -> bool {
    &&& 0 <= px && x <= px && px < x + width && px < screen_w
    &&& 0 <= py && y <= py && py < y + height && py < screen_h
}

/// Law: the clipped rectangle holds exactly the pixels of the request that
/// lie on the screen, so a byte is painted exactly when it belongs to such a
/// pixel that fits wholly in the buffer.
pub proof fn lemma_clip_is_request(
    x: i32,
    y: i32,
    width: u32,
    height: u32,
    screen_w: u32,
    screen_h: u32,
    stride: int,
    len: int,
)
    ensures
        forall|px: int, py: int|
            #![trigger in_request(px, py, x, y, width, height, screen_w, screen_h)]
            ({
                let c = clip(x, y, width, height, screen_w, screen_h);
                c.0 <= px < c.2 && c.1 <= py < c.3
            }) <==> in_request(px, py, x, y, width, height, screen_w, screen_h),
        forall|i: int|
            #[trigger] painted(i, clip(x, y, width, height, screen_w, screen_h), stride, len)
                <==> exists|px: int, py: int|
                in_request(px, py, x, y, width, height, screen_w, screen_h) && #[trigger] in_pixel(
                    i,
                    px,
                    py,
                    stride,
                    len,
                ),
{
    let c = clip(x, y, width, height, screen_w, screen_h);
    assert forall|i: int|
        #[trigger] painted(i, c, stride, len) <==> exists|px: int, py: int|
            in_request(px, py, x, y, width, height, screen_w, screen_h) && #[trigger] in_pixel(
                i,
                px,
                py,
                stride,
                len,
            ) by {
        if painted(i, c, stride, len) {
            let (px, py) = choose|px: int, py: int|
                c.0 <= px < c.2 && c.1 <= py < c.3 && #[trigger] in_pixel(i, px, py, stride, len);
            assert(in_request(px, py, x, y, width, height, screen_w, screen_h));
        }
        if exists|px: int, py: int|
            in_request(px, py, x, y, width, height, screen_w, screen_h) && #[trigger] in_pixel(
                i,
                px,
                py,
                stride,
                len,
            ) {
            let (px, py) = choose|px: int, py: int|
                in_request(px, py, x, y, width, height, screen_w, screen_h) && #[trigger] in_pixel(
                    i,
                    px,
                    py,
                    stride,
                    len,
                );
            assert(c.0 <= px < c.2 && c.1 <= py < c.3);
        }
    }
}

/// The software frame for a screen: a buffer of `len` bytes, black (all
/// zero) except for the pixels of the requested rectangle, which are white
/// (all four bytes 255). The rectangle (top-left corner `(x, y)`, size
/// `width x height`) is cut to the screen, so only its pixels with
/// `0 <= px < screen_w` and `0 <= py < screen_h` are painted; pixel `(px, py)` starts
/// at byte `py * stride + px * 4`, and a pixel that would not fit wholly in
/// the buffer is left black.
pub fn paint_frame(
    len: usize,
    stride: usize,
    screen_w: u32,
    screen_h: u32,
    x: i32,
    y: i32,
    width: u32,
    height: u32,
) -> (r: Vec<u8>)
    requires
        paint_in_range(stride, screen_w, screen_h, x, y, width, height),
    ensures
        r@.len() == len,
        forall|i: int|
            0 <= i < len ==> #[trigger] r@[i] == if painted(
                i,
                clip(x, y, width, height, screen_w, screen_h),
                stride as int,
                len as int,
            ) {
                255u8
            } else {
                0u8
            },
        forall|i: int, px: int, py: int|
            0 <= i < len && in_request(px, py, x, y, width, height, screen_w, screen_h)
                && #[trigger] in_pixel(i, px, py, stride as int, len as int) ==> r@[i] == 255u8,
        forall|i: int|
            0 <= i < len && r@[i] != 0u8 ==> r@[i] == 255u8 && exists|px: int, py: int|
                in_request(px, py, x, y, width, height, screen_w, screen_h) && #[trigger] in_pixel(
                    i,
                    px,
                    py,
                    stride as int,
                    len as int,
                ),
{
    let ghost c = clip(x, y, width, height, screen_w, screen_h);
    let mut r: Vec<u8> = Vec::new();
    let mut k: usize = 0;
    while k < len
        invariant
            k <= len,
            r@.len() == k,
            forall|i: int| 0 <= i < k ==> #[trigger] r@[i] == 0u8,
        decreases len - k,
    {
        r.push(0u8);
        k = k + 1;
    }
    let x0: u32 = if x < 0 { 0 } else { x as u32 };
    let y0: u32 = if y < 0 { 0 } else { y as u32 };
    let xe: i64 = x as i64 + width as i64;
    let ye: i64 = y as i64 + height as i64;
    let xm: i64 = if xe <= screen_w as i64 { xe } else { screen_w as i64 };
    let ym: i64 = if ye <= screen_h as i64 { ye } else { screen_h as i64 };
    let end_x: u32 = if xm <= x0 as i64 { x0 } else { xm as u32 };
    let end_y: u32 = if ym <= y0 as i64 { y0 } else { ym as u32 };
    assert(c == (x0 as int, y0 as int, end_x as int, end_y as int));
    let mut py: u32 = y0;
    while py < end_y
        invariant
            c == (x0 as int, y0 as int, end_x as int, end_y as int),
            c == clip(x, y, width, height, screen_w, screen_h),
            paint_in_range(stride, screen_w, screen_h, x, y, width, height),
            y0 <= py,
            py <= end_y || y0 >= end_y,
            y0 >= end_y ==> py == y0,
            r@.len() == len,
            forall|i: int|
                0 <= i < len ==> #[trigger] r@[i] == if painted_before(
                    i,
                    c,
                    x0 as int,
                    py as int,
                    stride as int,
                    len as int,
                ) {
                    255u8
                } else {
                    0u8
                },
        decreases end_y - py,
    {
        let mut px: u32 = x0;
        while px < end_x
            invariant
                c == (x0 as int, y0 as int, end_x as int, end_y as int),
                c == clip(x, y, width, height, screen_w, screen_h),
                paint_in_range(stride, screen_w, screen_h, x, y, width, height),
                y0 <= py < end_y,
                x0 <= px,
                px <= end_x || x0 >= end_x,
                r@.len() == len,
                forall|i: int|
                    0 <= i < len ==> #[trigger] r@[i] == if painted_before(
                        i,
                        c,
                        px as int,
                        py as int,
                        stride as int,
                        len as int,
                    ) {
                        255u8
                    } else {
                        0u8
                    },
            decreases end_x - px,
        {
            proof {
                lemma_index_fits(py as int, px as int, stride as int, end_y as int, end_x as int);
            }
            let base: usize = py as usize * stride + px as usize * 4;
            let ghost old_r = r@;
            if base + 4 <= len {
                r[base] = 255u8;
                r[base + 1] = 255u8;
                r[base + 2] = 255u8;
                r[base + 3] = 255u8;
            }
            proof {
                assert forall|i: int| 0 <= i < len implies #[trigger] r@[i] == if painted_before(
                    i,
                    c,
                    px + 1,
                    py as int,
                    stride as int,
                    len as int,
                ) {
                    255u8
                } else {
                    0u8
                } by {
                    lemma_step(i, c, px as int, py as int, stride as int, len as int);
                    if in_pixel(i, px as int, py as int, stride as int, len as int) {
                        assert(base <= i < base + 4 && base + 4 <= len);
                    } else {
                        assert(r@[i] == old_r[i]);
                    }
                }
            }
            px = px + 1;
        }
        proof {
            assert forall|i: int| 0 <= i < len implies #[trigger] r@[i] == if painted_before(
                i,
                c,
                x0 as int,
                py + 1,
                stride as int,
                len as int,
            ) {
                255u8
            } else {
                0u8
            } by {
                lemma_next_row(i, c, py as int, stride as int, len as int);
            }
        }
        py = py + 1;
    }
    proof {
        assert forall|i: int| 0 <= i < len implies #[trigger] r@[i] == if painted(
            i,
            c,
            stride as int,
            len as int,
        ) {
            255u8
        } else {
            0u8
        } by {
            lemma_done(i, c, py as int, stride as int, len as int);
        }
        lemma_clip_is_request(x, y, width, height, screen_w, screen_h, stride as int, len as int);
        assert forall|i: int, px: int, py: int|
            0 <= i < len && in_request(px, py, x, y, width, height, screen_w, screen_h)
                && #[trigger] in_pixel(i, px, py, stride as int, len as int) implies r@[i] == 255u8 by {
            assert(painted(i, c, stride as int, len as int));
        }
        assert forall|i: int| 0 <= i < len && r@[i] != 0u8 implies r@[i] == 255u8 && exists|
            px: int,
            py: int,
        |
            in_request(px, py, x, y, width, height, screen_w, screen_h) && #[trigger] in_pixel(
                i,
                px,
                py,
                stride as int,
                len as int,
            ) by {
            assert(painted(i, c, stride as int, len as int));
        }
    }
    r
}

proof fn lemma_index_fits(py: int, px: int, stride: int, end_y: int, end_x: int)
    requires
        0 <= py < end_y,
        0 <= px < end_x,
        0 <= stride,
        (end_y - 1) * stride + (end_x - 1) * 4 + 4 <= usize::MAX,
    ensures
        py * stride + px * 4 + 4 <= usize::MAX,
        0 <= py * stride,
{
    assert(py * stride <= (end_y - 1) * stride) by (nonlinear_arith)
        requires
            0 <= py <= end_y - 1,
            0 <= stride,
    {
    }
    assert(0 <= py * stride) by (nonlinear_arith)
        requires
            0 <= py,
            0 <= stride,
    {
    }
}

proof fn lemma_step(i: int, c: (int, int, int, int), px: int, py: int, stride: int, len: int)
    requires
        c.0 <= px < c.2,
        c.1 <= py,
    ensures
        painted_before(i, c, px + 1, py, stride, len) == (painted_before(i, c, px, py, stride, len)
            || in_pixel(i, px, py, stride, len)),
{
    if painted_before(i, c, px + 1, py, stride, len) {
        let (qx, qy) = choose|qx: int, qy: int|
            c.0 <= qx < c.2 && c.1 <= qy && ((qy < py) || (qy == py && qx < px + 1))
                && #[trigger] in_pixel(i, qx, qy, stride, len);
        if !(qx == px && qy == py) {
            assert(c.0 <= qx < c.2 && c.1 <= qy && ((qy < py) || (qy == py && qx < px))
                && in_pixel(i, qx, qy, stride, len));
        }
    }
    if painted_before(i, c, px, py, stride, len) {
        let (qx, qy) = choose|qx: int, qy: int|
            c.0 <= qx < c.2 && c.1 <= qy && ((qy < py) || (qy == py && qx < px))
                && #[trigger] in_pixel(i, qx, qy, stride, len);
        assert(c.0 <= qx < c.2 && c.1 <= qy && ((qy < py) || (qy == py && qx < px + 1))
            && in_pixel(i, qx, qy, stride, len));
    }
    if in_pixel(i, px, py, stride, len) {
        assert(c.0 <= px < c.2 && c.1 <= py && ((py < py) || (py == py && px < px + 1))
            && in_pixel(i, px, py, stride, len));
    }
}

proof fn lemma_next_row(i: int, c: (int, int, int, int), py: int, stride: int, len: int)
    requires
        c.0 >= 0,
    ensures
        painted_before(i, c, c.0, py + 1, stride, len) == painted_before(
            i,
            c,
            c.2,
            py,
            stride,
            len,
        ),
{
    if painted_before(i, c, c.0, py + 1, stride, len) {
        let (qx, qy) = choose|qx: int, qy: int|
            c.0 <= qx < c.2 && c.1 <= qy && ((qy < py + 1) || (qy == py + 1 && qx < c.0))
                && #[trigger] in_pixel(i, qx, qy, stride, len);
        assert(c.0 <= qx < c.2 && c.1 <= qy && ((qy < py) || (qy == py && qx < c.2)) && in_pixel(
            i,
            qx,
            qy,
            stride,
            len,
        ));
    }
    if painted_before(i, c, c.2, py, stride, len) {
        let (qx, qy) = choose|qx: int, qy: int|
            c.0 <= qx < c.2 && c.1 <= qy && ((qy < py) || (qy == py && qx < c.2))
                && #[trigger] in_pixel(i, qx, qy, stride, len);
        assert(c.0 <= qx < c.2 && c.1 <= qy && ((qy < py + 1) || (qy == py + 1 && qx < c.0))
            && in_pixel(i, qx, qy, stride, len));
    }
}

proof fn lemma_done(i: int, c: (int, int, int, int), py: int, stride: int, len: int)
    requires
        c.1 < c.3 ==> py == c.3,
        c.1 >= c.3 ==> py == c.1,
    ensures
        painted_before(i, c, c.0, py, stride, len) == painted(i, c, stride, len),
{
    if painted_before(i, c, c.0, py, stride, len) {
        let (qx, qy) = choose|qx: int, qy: int|
            c.0 <= qx < c.2 && c.1 <= qy && ((qy < py) || (qy == py && qx < c.0))
                && #[trigger] in_pixel(i, qx, qy, stride, len);
        assert(c.0 <= qx < c.2 && c.1 <= qy < c.3 && in_pixel(i, qx, qy, stride, len));
    }
    if painted(i, c, stride, len) {
        let (qx, qy) = choose|qx: int, qy: int|
            c.0 <= qx < c.2 && c.1 <= qy < c.3 && #[trigger] in_pixel(i, qx, qy, stride, len);
        assert(c.0 <= qx < c.2 && c.1 <= qy && ((qy < py) || (qy == py && qx < c.0)) && in_pixel(
            i,
            qx,
            qy,
            stride,
            len,
        ));
    }
}

} // verus!
