//! The render target: a color buffer and a depth buffer.
//!
//! Colors are packed `0xAARRGGBB` values; depths are fixed-point
//! scalars, with `DEPTH_INF` standing for "nothing drawn yet".  Both
//! buffers always hold exactly `width * height` cells, row-major with
//! the origin at the top left.

use vstd::prelude::*;
use crate::fixed::{FX, tdiv, sabs, sclamp, lemma_mul_le, lemma_tdiv_abs, lemma_tdiv_exact};
use vstd::arithmetic::div_mod::lemma_div_is_ordered;

verus! {

/// The depth every cell is reset to: farther than any drawable depth,
/// so the first depth-tested write at a pixel always lands.
pub const DEPTH_INF: i64 = i64::MAX;

/// Widest render target the buffer accepts, per side.  The limit
/// keeps `width * height` inside a 32-bit `usize` and every pixel
/// coordinate comfortably inside the fixed-point working range.
pub const DIM_LIM: usize = 32768;

/// The flat index of pixel `(x, y)` in a row-major buffer of width `w`.
pub open spec fn pixel_index(x: int, y: int, w: int) -> int {
    y * w + x
}

/// The depth-tested write discipline, as a function of the buffer
/// contents: color and depth at `idx` are replaced only when `z` is
/// strictly nearer than the depth already stored there.
pub open spec fn depth_write(colors: Seq<u32>, depths: Seq<i64>, idx: int, c: u32, z: i64) -> (
    Seq<u32>,
    Seq<i64>,
) {
    if 0 <= idx < depths.len() && z < depths[idx] {
        (colors.update(idx, c), depths.update(idx, z))
    } else {
        (colors, depths)
    }
}

/// One cell painted with `color` when `(x, y)` lies inside a `w * h`
/// buffer; out-of-bounds cells are left alone.
pub open spec fn paint(buf: Seq<u32>, w: int, h: int, x: int, y: int, color: u32) -> Seq<u32> {
    if 0 <= x < w && 0 <= y < h {
        buf.update(pixel_index(x, y, w), color)
    } else {
        buf
    }
}

/// The eight octant reflections of `(x, y)` about `(ccx, ccy)`
/// painted in order.
pub open spec fn paint8(
    buf: Seq<u32>,
    w: int,
    h: int,
    ccx: int,
    ccy: int,
    x: int,
    y: int,
    color: u32,
) -> Seq<u32> {
    let b1 = paint(buf, w, h, ccx + x, ccy + y, color);
    let b2 = paint(b1, w, h, ccx - x, ccy + y, color);
    let b3 = paint(b2, w, h, ccx + x, ccy - y, color);
    let b4 = paint(b3, w, h, ccx - x, ccy - y, color);
    let b5 = paint(b4, w, h, ccx + y, ccy + x, color);
    let b6 = paint(b5, w, h, ccx - y, ccy + x, color);
    let b7 = paint(b6, w, h, ccx + y, ccy - x, color);
    paint(b7, w, h, ccx - y, ccy - x, color)
}

/// The color buffer after the Bresenham walk from `(cx, cy)` toward
/// `(tx, ty)` with the given error state: the current cell is painted,
/// then the walk steps by the classic integer error rule.  The step
/// budget `fuel` only bounds the recursion; `dx - dy + 1` steps always
/// reach the target.
pub open spec fn spec_line_walk(
    buf: Seq<u32>,
    w: int,
    h: int,
    cx: int,
    cy: int,
    tx: int,
    ty: int,
    dx: int,
    dy: int,
    sx: int,
    sy: int,
    err: int,
    fuel: nat,
    color: u32,
) -> Seq<u32>
    decreases fuel,
{
    let b1 = paint(buf, w, h, cx, cy, color);
    if (cx == tx && cy == ty) || fuel == 0 {
        b1
    } else {
        let e2 = 2 * err;
        let cx2 = if e2 >= dy { cx + sx } else { cx };
        let err1 = if e2 >= dy { err + dy } else { err };
        let cy2 = if e2 <= dx { cy + sy } else { cy };
        let err2 = if e2 <= dx { err1 + dx } else { err1 };
        spec_line_walk(b1, w, h, cx2, cy2, tx, ty, dx, dy, sx, sy, err2, (fuel - 1) as nat, color)
    }
}

/// The color buffer after the whole Bresenham line from `(x0, y0)` to
/// `(x1, y1)`.
pub open spec fn spec_draw_line(
    buf: Seq<u32>,
    w: int,
    h: int,
    x0: int,
    y0: int,
    x1: int,
    y1: int,
    color: u32,
) -> Seq<u32> {
    let dx = sabs(x1 - x0);
    let dy = -sabs(y1 - y0);
    spec_line_walk(
        buf,
        w,
        h,
        x0,
        y0,
        x1,
        y1,
        dx,
        dy,
        if x0 < x1 {
            1
        } else {
            -1
        },
        if y0 < y1 {
            1
        } else {
            -1
        },
        dx + dy,
        (dx - dy + 1) as nat,
        color,
    )
}

/// The color buffer after the midpoint-circle walk from octant state
/// `(x, y)` with decision value `d`: each step paints the eight
/// reflections of `(x, y)` about the center and advances the classic
/// integer decision rule until the octant is exhausted.
pub open spec fn spec_circle_walk(
    buf: Seq<u32>,
    w: int,
    h: int,
    ccx: int,
    ccy: int,
    x: int,
    y: int,
    d: int,
    color: u32,
) -> Seq<u32>
    decreases y - x + 2,
{
    if y < x {
        buf
    } else {
        let b1 = paint8(buf, w, h, ccx, ccy, x, y, color);
        let x1 = x + 1;
        if d > 0 {
            spec_circle_walk(b1, w, h, ccx, ccy, x1, y - 1, d + 4 * (x1 - (y - 1)) + 10, color)
        } else {
            spec_circle_walk(b1, w, h, ccx, ccy, x1, y, d + 4 * x1 + 6, color)
        }
    }
}

/// Row-major indexing stays inside a `w * h` buffer.
pub proof fn lemma_pixel_index(x: int, y: int, w: int, h: int)
    by (nonlinear_arith)
    requires
        0 <= x < w,
        0 <= y < h,
    ensures
        0 <= pixel_index(x, y, w) < w * h,
{
}

pub struct Framebuffer {
    pub width: usize,
    pub height: usize,
    pub buffer: Vec<u32>,
    pub zbuffer: Vec<i64>,
}

impl Framebuffer {
    /// Both buffers sized exactly to the target, which stays within
    /// `DIM_LIM` per side.
    pub open spec fn wf(&self) -> bool {
        &&& self.buffer.len() == self.width * self.height
        &&& self.zbuffer.len() == self.width * self.height
        &&& self.width <= DIM_LIM
        &&& self.height <= DIM_LIM
    }

    /// The number of pixels.
    pub open spec fn size(&self) -> int {
        self.width * self.height
    }

    /// True when the target's dimensions are unchanged between two
    /// states.
    pub open spec fn same_dims(&self, other: &Framebuffer) -> bool {
        self.width == other.width && self.height == other.height
    }

    pub fn new(width: usize, height: usize) -> (fb: Framebuffer)
        requires
            width <= DIM_LIM,
            height <= DIM_LIM,
        ensures
            fb.wf(),
            fb.width == width,
            fb.height == height,
            forall|i: int| 0 <= i < fb.size() ==> fb.buffer@[i] == 0u32,
            forall|i: int| 0 <= i < fb.size() ==> fb.zbuffer@[i] == DEPTH_INF,
    {
        proof {
            lemma_mul_le(width as int, height as int, 32768, 32768);
        }
        let size: usize = width * height;
        let mut buffer: Vec<u32> = Vec::new();
        while buffer.len() < size
            invariant
                buffer.len() <= size,
                forall|i: int| 0 <= i < buffer.len() ==> buffer@[i] == 0u32,
            decreases size - buffer.len(),
        {
            buffer.push(0);
        }
        let mut zbuffer: Vec<i64> = Vec::new();
        while zbuffer.len() < size
            invariant
                zbuffer.len() <= size,
                forall|i: int| 0 <= i < zbuffer.len() ==> zbuffer@[i] == DEPTH_INF,
            decreases size - zbuffer.len(),
        {
            zbuffer.push(DEPTH_INF);
        }
        Framebuffer { width, height, buffer, zbuffer }
    }

    /// Resets every color cell to `color` and every depth cell to
    /// `DEPTH_INF`.
    pub fn clear(&mut self, color: u32)
        requires
            old(self).wf(),
        ensures
            final(self).wf(),
            final(self).same_dims(old(self)),
            forall|i: int| 0 <= i < final(self).size() ==> final(self).buffer@[i] == color,
            forall|i: int| 0 <= i < final(self).size() ==> final(self).zbuffer@[i] == DEPTH_INF,
    {
        let n = self.buffer.len();
        let mut i: usize = 0;
        while i < n
            invariant
                n == self.buffer.len(),
                self.wf(),
                self.same_dims(old(self)),
                i <= n,
                forall|j: int| 0 <= j < i ==> self.buffer@[j] == color,
            decreases n - i,
        {
            self.buffer.set(i, color);
            i = i + 1;
        }
        let m = self.zbuffer.len();
        let mut k: usize = 0;
        while k < m
            invariant
                m == self.zbuffer.len(),
                self.wf(),
                self.same_dims(old(self)),
                k <= m,
                forall|j: int| 0 <= j < self.buffer.len() ==> self.buffer@[j] == color,
                forall|j: int| 0 <= j < k ==> self.zbuffer@[j] == DEPTH_INF,
            decreases m - k,
        {
            self.zbuffer.set(k, DEPTH_INF);
            k = k + 1;
        }
    }

    /// Writes `color` at `(x, y)` when in bounds; out-of-bounds writes
    /// are silently dropped.  The depth buffer is untouched.
    pub fn set_pixel(&mut self, x: usize, y: usize, color: u32)
        requires
            old(self).wf(),
        ensures
            final(self).wf(),
            final(self).same_dims(old(self)),
            final(self).zbuffer == old(self).zbuffer,
            x < old(self).width && y < old(self).height ==> final(self).buffer@ == old(
                self,
            ).buffer@.update(pixel_index(x as int, y as int, old(self).width as int), color),
            !(x < old(self).width && y < old(self).height) ==> final(self).buffer == old(
                self,
            ).buffer,
    {
        if x < self.width && y < self.height {
            proof {
                lemma_pixel_index(x as int, y as int, self.width as int, self.height as int);
                lemma_mul_le(y as int, self.width as int, 32768, 32768);
            }
            let index: usize = y * self.width + x;
            self.buffer.set(index, color);
        }
    }

    /// Depth-tested write: stores `color` and `z` at `(x, y)` only when
    /// `(x, y)` is in bounds and `z` is strictly nearer than the depth
    /// already there.
    pub fn set_pixel_with_depth(&mut self, x: usize, y: usize, color: u32, z: i64)
        requires
            old(self).wf(),
        ensures
            final(self).wf(),
            final(self).same_dims(old(self)),
            x < old(self).width && y < old(self).height ==> (
            final(self).buffer@,
            final(self).zbuffer@,
            ) == depth_write(
                old(self).buffer@,
                old(self).zbuffer@,
                pixel_index(x as int, y as int, old(self).width as int),
                color,
                z,
            ),
            !(x < old(self).width && y < old(self).height) ==> final(self).buffer == old(
                self,
            ).buffer && final(self).zbuffer == old(self).zbuffer,
    {
        if x < self.width && y < self.height {
            proof {
                lemma_pixel_index(x as int, y as int, self.width as int, self.height as int);
                lemma_mul_le(y as int, self.width as int, 32768, 32768);
            }
            let index: usize = y * self.width + x;
            if z < self.zbuffer[index] {
                self.buffer.set(index, color);
                self.zbuffer.set(index, z);
            }
        }
    }

    /// Reads the color at `(x, y)`, or `None` out of bounds.
    pub fn get_pixel(&self, x: usize, y: usize) -> (r: Option<u32>)
        requires
            self.wf(),
        ensures
            x < self.width && y < self.height ==> r == Some(
                self.buffer@[pixel_index(x as int, y as int, self.width as int)],
            ),
            !(x < self.width && y < self.height) ==> r is None,
    {
        if x < self.width && y < self.height {
            proof {
                lemma_pixel_index(x as int, y as int, self.width as int, self.height as int);
                lemma_mul_le(y as int, self.width as int, 32768, 32768);
            }
            Some(self.buffer[y * self.width + x])
        } else {
            None
        }
    }

    /// Draws the Bresenham line from `(x0, y0)` to `(x1, y1)` onto the
    /// color buffer, clipping silently at the buffer edges.  The
    /// resulting buffer is exactly the Bresenham walk painted over the
    /// old one; both endpoints are painted whenever they are in
    /// bounds, and the depth buffer is untouched.
    pub fn draw_line(&mut self, x0: i32, y0: i32, x1: i32, y1: i32, color: u32)
        requires
            old(self).wf(),
            -0x4000_0000 <= x0 <= 0x4000_0000,
            -0x4000_0000 <= y0 <= 0x4000_0000,
            -0x4000_0000 <= x1 <= 0x4000_0000,
            -0x4000_0000 <= y1 <= 0x4000_0000,
        ensures
            final(self).wf(),
            final(self).same_dims(old(self)),
            final(self).zbuffer == old(self).zbuffer,
            final(self).buffer@ == spec_draw_line(
                old(self).buffer@,
                old(self).width as int,
                old(self).height as int,
                x0 as int,
                y0 as int,
                x1 as int,
                y1 as int,
                color,
            ),
            forall|i: int|
                0 <= i < final(self).size() ==> final(self).buffer@[i] == old(self).buffer@[i]
                    || final(self).buffer@[i] == color,
            0 <= x0 && (x0 as int) < old(self).width as int && 0 <= y0 && (y0 as int) < old(
                self,
            ).height as int ==> final(self).buffer@[pixel_index(
                x0 as int,
                y0 as int,
                old(self).width as int,
            )] == color,
            0 <= x1 && (x1 as int) < old(self).width as int && 0 <= y1 && (y1 as int) < old(
                self,
            ).height as int ==> final(self).buffer@[pixel_index(
                x1 as int,
                y1 as int,
                old(self).width as int,
            )] == color,
    {
        let mut cx: i64 = x0 as i64;
        let mut cy: i64 = y0 as i64;
        let tx: i64 = x1 as i64;
        let ty: i64 = y1 as i64;
        let dx: i64 = if tx >= cx { tx - cx } else { cx - tx };
        let dy: i64 = if ty >= cy { cy - ty } else { ty - cy };
        let sx: i64 = if cx < tx { 1 } else { -1 };
        let sy: i64 = if cy < ty { 1 } else { -1 };
        let mut err: i64 = dx + dy;
        let ghost w = old(self).width as int;
        let ghost h = old(self).height as int;
        let ghost tgt = spec_draw_line(
            old(self).buffer@,
            w,
            h,
            x0 as int,
            y0 as int,
            x1 as int,
            y1 as int,
            color,
        );
        let ghost mut fuel: nat = (dx - dy + 1) as nat;
        let ghost start_index = pixel_index(x0 as int, y0 as int, w);
        let ghost start_in = 0 <= x0 && (x0 as int) < w && 0 <= y0 && (y0 as int) < h;
        proof {
            if start_in {
                lemma_pixel_index(x0 as int, y0 as int, w, h);
            }
            // Initially the whole distance remains on both axes, and
            // the two products in the error relation cancel.
            if (x0 as int) < x1 as int {
                assert(sx as int * (tx as int - cx as int) == tx as int - cx as int)
                    by (nonlinear_arith)
                    requires
                        sx as int == 1,
                ;
            } else {
                assert(sx as int * (tx as int - cx as int) == -(tx as int - cx as int))
                    by (nonlinear_arith)
                    requires
                        sx as int == -1,
                ;
            }
            assert(sx as int * (tx as int - cx as int) == dx);
            if (y0 as int) < y1 as int {
                assert(sy as int * (ty as int - cy as int) == ty as int - cy as int)
                    by (nonlinear_arith)
                    requires
                        sy as int == 1,
                ;
            } else {
                assert(sy as int * (ty as int - cy as int) == -(ty as int - cy as int))
                    by (nonlinear_arith)
                    requires
                        sy as int == -1,
                ;
            }
            assert(sy as int * (ty as int - cy as int) == -dy);
            assert((-dy as int) * (dx as int) == (dx as int) * (-dy as int)) by (nonlinear_arith);
        }
        loop
            invariant
                self.wf(),
                self.same_dims(old(self)),
                self.zbuffer == old(self).zbuffer,
                w == old(self).width as int,
                h == old(self).height as int,
                forall|i: int|
                    0 <= i < self.size() ==> self.buffer@[i] == old(self).buffer@[i]
                        || self.buffer@[i] == color,
                start_in ==> 0 <= start_index < self.size(),
                start_in ==> self.buffer@[start_index] == color || (cx == x0 as i64 && cy
                    == y0 as i64),
                -0x4000_0000 <= x0 <= 0x4000_0000,
                -0x4000_0000 <= y0 <= 0x4000_0000,
                -0x4000_0000 <= x1 <= 0x4000_0000,
                -0x4000_0000 <= y1 <= 0x4000_0000,
                start_in == (0 <= x0 && (x0 as int) < w && 0 <= y0 && (y0 as int) < h),
                start_index == pixel_index(x0 as int, y0 as int, w),
                tgt == spec_draw_line(
                    old(self).buffer@,
                    w,
                    h,
                    x0 as int,
                    y0 as int,
                    x1 as int,
                    y1 as int,
                    color,
                ),
                tx == x1 as i64,
                ty == y1 as i64,
                dx == sabs(x1 as int - x0 as int),
                dy == -sabs(y1 as int - y0 as int),
                sx == (if (x0 as int) < x1 as int { 1int } else { -1int }),
                sy == (if (y0 as int) < y1 as int { 1int } else { -1int }),
                0 <= sx * (tx - cx) <= dx,
                0 <= sy * (ty - cy) <= -dy,
                -0x4000_0000 <= cx <= 0x4000_0000,
                -0x4000_0000 <= cy <= 0x4000_0000,
                err == dx + dy + (-dy) * (sx * (tx - cx)) - dx * (sy * (ty - cy)),
                2 * dy <= err <= 2 * dx,
                sx * (tx - cx) + sy * (ty - cy) < fuel,
                tgt == spec_line_walk(
                    self.buffer@,
                    w,
                    h,
                    cx as int,
                    cy as int,
                    tx as int,
                    ty as int,
                    dx as int,
                    dy as int,
                    sx as int,
                    sy as int,
                    err as int,
                    fuel,
                    color,
                ),
            ensures
                self.wf(),
                self.same_dims(old(self)),
                self.zbuffer == old(self).zbuffer,
                w == old(self).width as int,
                h == old(self).height as int,
                forall|i: int|
                    0 <= i < self.size() ==> self.buffer@[i] == old(self).buffer@[i]
                        || self.buffer@[i] == color,
                self.buffer@ == tgt,
                tgt == spec_draw_line(
                    old(self).buffer@,
                    w,
                    h,
                    x0 as int,
                    y0 as int,
                    x1 as int,
                    y1 as int,
                    color,
                ),
                start_in == (0 <= x0 && (x0 as int) < w && 0 <= y0 && (y0 as int) < h),
                start_index == pixel_index(x0 as int, y0 as int, w),
                start_in ==> self.buffer@[start_index] == color,
                0 <= x1 && (x1 as int) < w && 0 <= y1 && (y1 as int) < h
                    ==> self.buffer@[pixel_index(x1 as int, y1 as int, w)] == color,
            decreases sx * (tx - cx) + sy * (ty - cy),
        {
            let ghost pre = self.buffer@;
            self.plot_clipped(cx, cy, color);
            proof {
                assert(self.buffer@ == paint(pre, w, h, cx as int, cy as int, color));
            }
            if cx == tx && cy == ty {
                proof {
                    // The walk ends at the target: the painted cell is
                    // its last action.
                    assert(tgt == self.buffer@);
                    if 0 <= tx && (tx as int) < w && 0 <= ty && (ty as int) < h {
                        lemma_pixel_index(tx as int, ty as int, w, h);
                        assert(self.buffer@[pixel_index(tx as int, ty as int, w)] == color);
                    }
                    if start_in {
                        if cx as int == x0 as int && cy as int == y0 as int {
                            assert(self.buffer@ == pre.update(start_index, color));
                            assert(self.buffer@[start_index] == color);
                        } else {
                            assert(pre[start_index] == color);
                            assert(self.buffer@[start_index] == color);
                        }
                    }
                }
                break;
            }
            let ghost cx0 = cx as int;
            let ghost cy0 = cy as int;
            let ghost err0 = err as int;
            let ghost rx0 = sx as int * (tx as int - cx0);
            let ghost ry0 = sy as int * (ty as int - cy0);
            proof {
                // Not at the target, so at least one coordinate still
                // has distance to cover, and the walk recurses.
                if cx0 != tx as int {
                    assert(rx0 >= 1) by (nonlinear_arith)
                        requires
                            sx as int == 1 || sx as int == -1,
                            rx0 == sx as int * (tx as int - cx0),
                            rx0 >= 0,
                            cx0 != tx as int,
                    ;
                } else {
                    assert(ry0 >= 1) by (nonlinear_arith)
                        requires
                            sy as int == 1 || sy as int == -1,
                            ry0 == sy as int * (ty as int - cy0),
                            ry0 >= 0,
                            cy0 != ty as int,
                    ;
                }
                assert(fuel >= 2);
                // When one axis is exhausted, its step condition is
                // provably off: the error value sits past the
                // threshold, so the walk never overshoots the target.
                if rx0 == 0 {
                    assert(dx * ry0 >= dx * 1) by (nonlinear_arith)
                        requires
                            ry0 >= 1,
                            dx >= 0,
                    ;
                    assert((-dy as int) * rx0 == 0) by (nonlinear_arith)
                        requires
                            rx0 == 0,
                    ;
                    assert(ry0 <= -dy);
                    assert(err0 <= dy);
                    assert(2 * err0 < dy);
                }
                if ry0 == 0 {
                    assert((-dy as int) * rx0 >= (-dy as int) * 1) by (nonlinear_arith)
                        requires
                            rx0 >= 1,
                            -dy >= 0,
                    ;
                    assert(dx * ry0 == 0) by (nonlinear_arith)
                        requires
                            ry0 == 0,
                    ;
                    assert(rx0 <= dx);
                    assert(err0 >= dx);
                    assert(2 * err0 > dx);
                }
            }
            let e2: i64 = 2 * err;
            let ghost stepx = 2 * err0 >= dy as int;
            let ghost stepy = 2 * err0 <= dx as int;
            if e2 >= dy {
                err = err + dy;
                cx = cx + sx;
            }
            if e2 <= dx {
                err = err + dx;
                cy = cy + sy;
            }
            proof {
                let rx1 = sx as int * (tx as int - cx as int);
                let ry1 = sy as int * (ty as int - cy as int);
                if stepx {
                    assert(rx1 == rx0 - 1) by (nonlinear_arith)
                        requires
                            sx as int == 1 || sx as int == -1,
                            cx as int == cx0 + sx as int,
                            rx0 == sx as int * (tx as int - cx0),
                            rx1 == sx as int * (tx as int - cx as int),
                    ;
                    assert((-dy as int) * rx1 == (-dy as int) * rx0 + dy) by (nonlinear_arith)
                        requires
                            rx1 == rx0 - 1,
                    ;
                } else {
                    assert(rx1 == rx0);
                }
                if stepy {
                    assert(ry1 == ry0 - 1) by (nonlinear_arith)
                        requires
                            sy as int == 1 || sy as int == -1,
                            cy as int == cy0 + sy as int,
                            ry0 == sy as int * (ty as int - cy0),
                            ry1 == sy as int * (ty as int - cy as int),
                    ;
                    assert(dx as int * ry1 == dx as int * ry0 - dx) by (nonlinear_arith)
                        requires
                            ry1 == ry0 - 1,
                    ;
                } else {
                    assert(ry1 == ry0);
                }
                assert(stepx || stepy);
                if stepx {
                    assert(rx0 >= 1);
                }
                if stepy {
                    assert(ry0 >= 1);
                }
                assert(0 <= rx1 && rx1 <= dx);
                assert(0 <= ry1 && ry1 <= -dy);
                // The walker stays between the endpoints.
                assert(dx as int == (if (x0 as int) < (x1 as int) {
                    x1 as int - x0 as int
                } else {
                    x0 as int - x1 as int
                }));
                assert(-dy as int == (if (y0 as int) < (y1 as int) {
                    y1 as int - y0 as int
                } else {
                    y0 as int - y1 as int
                }));
                assert(x0 as int <= cx as int <= x1 as int || x1 as int <= cx as int
                    <= x0 as int) by (nonlinear_arith)
                    requires
                        sx as int == (if (x0 as int) < (x1 as int) {
                            1int
                        } else {
                            -1int
                        }),
                        rx1 == sx as int * (tx as int - cx as int),
                        0 <= rx1,
                        rx1 <= dx as int,
                        dx as int == (if (x0 as int) < (x1 as int) {
                            x1 as int - x0 as int
                        } else {
                            x0 as int - x1 as int
                        }),
                        tx as int == x1 as int,
                ;
                assert(y0 as int <= cy as int <= y1 as int || y1 as int <= cy as int
                    <= y0 as int) by (nonlinear_arith)
                    requires
                        sy as int == (if (y0 as int) < (y1 as int) {
                            1int
                        } else {
                            -1int
                        }),
                        ry1 == sy as int * (ty as int - cy as int),
                        0 <= ry1,
                        ry1 <= -dy as int,
                        -dy as int == (if (y0 as int) < (y1 as int) {
                            y1 as int - y0 as int
                        } else {
                            y0 as int - y1 as int
                        }),
                        ty as int == y1 as int,
                ;
                assert(-0x4000_0000 <= cx as int <= 0x4000_0000);
                assert(-0x4000_0000 <= cy as int <= 0x4000_0000);
                if start_in {
                    if 0 <= cx0 && cx0 < w && 0 <= cy0 && cy0 < h {
                        lemma_pixel_index(cx0, cy0, w, h);
                    }
                    assert(self.buffer@ == paint(pre, w, h, cx0, cy0, color));
                    if cx0 == x0 as int && cy0 == y0 as int {
                        assert(self.buffer@ == pre.update(start_index, color));
                        assert(self.buffer@[start_index] == color);
                    } else {
                        assert(pre[start_index] == color);
                        assert(self.buffer@[start_index] == color);
                    }
                }
                fuel = (fuel - 1) as nat;
                assert(tgt == spec_line_walk(
                    self.buffer@,
                    w,
                    h,
                    cx as int,
                    cy as int,
                    tx as int,
                    ty as int,
                    dx as int,
                    dy as int,
                    sx as int,
                    sy as int,
                    err as int,
                    fuel,
                    color,
                ));
            }
        }
    }

    /// Draws a midpoint circle of the given radius centered at
    /// `(cx, cy)` onto the color buffer, clipping at the buffer edges.
    /// The resulting buffer is exactly the midpoint-circle walk
    /// painted over the old one; the depth buffer is untouched.
    pub fn draw_circle(&mut self, cx: i32, cy: i32, radius: i32, color: u32)
        requires
            old(self).wf(),
            -0x100000 <= cx <= 0x100000,
            -0x100000 <= cy <= 0x100000,
            0 <= radius <= 0x100000,
        ensures
            final(self).wf(),
            final(self).same_dims(old(self)),
            final(self).zbuffer == old(self).zbuffer,
            final(self).buffer@ == spec_circle_walk(
                old(self).buffer@,
                old(self).width as int,
                old(self).height as int,
                cx as int,
                cy as int,
                0,
                radius as int,
                3 - 2 * radius,
                color,
            ),
            forall|i: int|
                0 <= i < final(self).size() ==> final(self).buffer@[i] == old(self).buffer@[i]
                    || final(self).buffer@[i] == color,
    {
        let ccx: i64 = cx as i64;
        let ccy: i64 = cy as i64;
        let r: i64 = radius as i64;
        let mut x: i64 = 0;
        let mut y: i64 = r;
        let mut d: i64 = 3 - 2 * r;
        let ghost w = old(self).width as int;
        let ghost h = old(self).height as int;
        let ghost tgt = spec_circle_walk(
            old(self).buffer@,
            w,
            h,
            cx as int,
            cy as int,
            0,
            radius as int,
            3 - 2 * radius as int,
            color,
        );
        while y >= x
            invariant
                self.wf(),
                self.same_dims(old(self)),
                self.zbuffer == old(self).zbuffer,
                w == old(self).width as int,
                h == old(self).height as int,
                forall|i: int|
                    0 <= i < self.size() ==> self.buffer@[i] == old(self).buffer@[i]
                        || self.buffer@[i] == color,
                0 <= x <= r + 1,
                -1 <= y <= r,
                0 <= r <= 0x100000,
                -0x200000 <= ccx <= 0x200000,
                -0x200000 <= ccy <= 0x200000,
                sabs(d as int) <= 3 + 2 * r + x * (8 * r + 20),
                tgt == spec_circle_walk(
                    self.buffer@,
                    w,
                    h,
                    ccx as int,
                    ccy as int,
                    x as int,
                    y as int,
                    d as int,
                    color,
                ),
            decreases y - x + 2,
        {
            proof {
                lemma_mul_le(x as int, 8 * (r as int) + 20, 0x100001, 0x800014);
                lemma_mul_le(x as int + 1, 8 * (r as int) + 20, 0x100002, 0x800014);
                assert((x as int + 1) * (8 * (r as int) + 20) == x as int * (8 * (r as int) + 20)
                    + (8 * (r as int) + 20)) by (nonlinear_arith);
            }
            let ghost pre = self.buffer@;
            self.draw_circle_points(ccx, ccy, x, y, color);
            proof {
                assert(self.buffer@ == paint8(pre, w, h, ccx as int, ccy as int, x as int, y as int, color));
            }
            x = x + 1;
            if d > 0 {
                y = y - 1;
                d = d + 4 * (x - y) + 10;
            } else {
                d = d + 4 * x + 6;
            }
            proof {
                assert(tgt == spec_circle_walk(
                    self.buffer@,
                    w,
                    h,
                    ccx as int,
                    ccy as int,
                    x as int,
                    y as int,
                    d as int,
                    color,
                ));
            }
        }
    }

    /// Writes the eight octant reflections of `(x, y)` about the
    /// center, each clipped to the buffer.
    fn draw_circle_points(&mut self, cx: i64, cy: i64, x: i64, y: i64, color: u32)
        requires
            old(self).wf(),
            -0x200000 <= cx <= 0x200000,
            -0x200000 <= cy <= 0x200000,
            -0x200000 <= x <= 0x200000,
            -0x200000 <= y <= 0x200000,
        ensures
            final(self).wf(),
            final(self).same_dims(old(self)),
            final(self).zbuffer == old(self).zbuffer,
            final(self).buffer@ == paint8(
                old(self).buffer@,
                old(self).width as int,
                old(self).height as int,
                cx as int,
                cy as int,
                x as int,
                y as int,
                color,
            ),
            forall|i: int|
                0 <= i < final(self).size() ==> final(self).buffer@[i] == old(self).buffer@[i]
                    || final(self).buffer@[i] == color,
    {
        self.plot_clipped(cx + x, cy + y, color);
        self.plot_clipped(cx - x, cy + y, color);
        self.plot_clipped(cx + x, cy - y, color);
        self.plot_clipped(cx - x, cy - y, color);
        self.plot_clipped(cx + y, cy + x, color);
        self.plot_clipped(cx - y, cy + x, color);
        self.plot_clipped(cx + y, cy - x, color);
        self.plot_clipped(cx - y, cy - x, color);
    }

    /// Writes one pixel when `(px, py)` lies inside the buffer.
    fn plot_clipped(&mut self, px: i64, py: i64, color: u32)
        requires
            old(self).wf(),
        ensures
            final(self).wf(),
            final(self).same_dims(old(self)),
            final(self).zbuffer == old(self).zbuffer,
            final(self).buffer@ == paint(
                old(self).buffer@,
                old(self).width as int,
                old(self).height as int,
                px as int,
                py as int,
                color,
            ),
            forall|i: int|
                0 <= i < final(self).size() ==> final(self).buffer@[i] == old(self).buffer@[i]
                    || final(self).buffer@[i] == color,
    {
        if px >= 0 && px < self.width as i64 && py >= 0 && py < self.height as i64 {
            proof {
                lemma_pixel_index(px as int, py as int, self.width as int, self.height as int);
            }
            self.set_pixel(px as usize, py as usize, color);
        }
    }
}

/// Packs three channel bytes into a `0xAARRGGBB` color with a fully
/// opaque alpha channel.
pub fn color_from_rgb(r: u8, g: u8, b: u8) -> (c: u32)
    ensures
        c == (0xFF000000u32 | ((r as u32) << 16) | ((g as u32) << 8) | (b as u32)),
{
    0xFF000000 | ((r as u32) << 16) | ((g as u32) << 8) | (b as u32)
}

/// One color channel interpolated between `a` and `b` by the
/// fixed-point parameter `t`.
pub open spec fn lerp_channel(a: int, b: int, t: int) -> int {
    a + tdiv((b - a) * t, FX as int)
}

/// Interpolates two packed colors channel by channel; `t` is a
/// fixed-point parameter clamped to `[0, 1]`.
pub fn lerp_color(color1: u32, color2: u32, t: i64) -> (c: u32)
    ensures
        ({
            let tc = sclamp(t as int, FX as int);
            let tcl = if tc < 0 { 0int } else { tc };
            let r1 = (color1 >> 16) & 0xFF;
            let g1 = (color1 >> 8) & 0xFF;
            let b1 = color1 & 0xFF;
            let r2 = (color2 >> 16) & 0xFF;
            let g2 = (color2 >> 8) & 0xFF;
            let b2 = color2 & 0xFF;
            c == (0xFF000000u32 | ((lerp_channel(r1 as int, r2 as int, tcl) as u32) << 16) | ((
            lerp_channel(g1 as int, g2 as int, tcl) as u32) << 8) | (lerp_channel(
                b1 as int,
                b2 as int,
                tcl,
            ) as u32))
        }),
{
    let tc: i64 = if t < 0 {
        0
    } else if t > FX {
        FX
    } else {
        t
    };
    let r1: i64 = ((color1 >> 16) & 0xFF) as i64;
    let g1: i64 = ((color1 >> 8) & 0xFF) as i64;
    let b1: i64 = (color1 & 0xFF) as i64;
    let r2: i64 = ((color2 >> 16) & 0xFF) as i64;
    let g2: i64 = ((color2 >> 8) & 0xFF) as i64;
    let b2: i64 = (color2 & 0xFF) as i64;
    proof {
        assert(((color1 >> 16) & 0xFF) < 256 && ((color1 >> 8) & 0xFF) < 256 && (color1 & 0xFF)
            < 256) by (bit_vector);
        assert(((color2 >> 16) & 0xFF) < 256 && ((color2 >> 8) & 0xFF) < 256 && (color2 & 0xFF)
            < 256) by (bit_vector);
    }
    let r = lerp_channel_exec(r1, r2, tc);
    let g = lerp_channel_exec(g1, g2, tc);
    let b = lerp_channel_exec(b1, b2, tc);
    0xFF000000 | ((r as u32) << 16) | ((g as u32) << 8) | (b as u32)
}

/// Interpolates one channel value in `[0, 255]`.
fn lerp_channel_exec(a: i64, b: i64, t: i64) -> (r: i64)
    requires
        0 <= a <= 255,
        0 <= b <= 255,
        0 <= t <= FX,
    ensures
        r == lerp_channel(a as int, b as int, t as int),
        0 <= r <= 255,
{
    let delta: i64 = b - a;
    proof {
        lemma_mul_le(delta as int, t as int, 255, 65536);
        lemma_tdiv_abs(delta as int * t as int, 65536);
        if delta >= 0 {
            assert(0 <= delta as int * t as int <= delta as int * 65536) by (nonlinear_arith)
                requires
                    0 <= delta,
                    0 <= t <= 65536,
            ;
            lemma_div_is_ordered(delta as int * t as int, delta as int * 65536, 65536);
            lemma_tdiv_exact(delta as int, 65536);
        } else {
            assert(sabs(delta as int * t as int) == (-delta as int) * t as int)
                by (nonlinear_arith)
                requires
                    delta < 0,
                    t >= 0,
            ;
            assert((-delta as int) * t as int <= (-delta as int) * 65536) by (nonlinear_arith)
                requires
                    delta < 0,
                    0 <= t <= 65536,
            ;
            assert(delta as int * t as int <= 0) by (nonlinear_arith)
                requires
                    delta < 0,
                    t >= 0,
            ;
            lemma_div_is_ordered((-delta as int) * t as int, (-delta as int) * 65536, 65536);
            lemma_tdiv_exact(-delta as int, 65536);
        }
    }
    a + (delta * t) / FX
}

} // verus!
