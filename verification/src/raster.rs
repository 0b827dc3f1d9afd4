//! The masked rasterizer: walks a variable-width quadratic curve in a fixed
//! number of flattening steps, stamps pixels within the interpolated radius,
//! masks every candidate against the grid, and reports the bounding
//! rectangle of all pixels considered.
//!
//! All arithmetic is fixed-point over integers: curve coordinates are
//! doubled so midpoints of pixel positions stay exact, the eleven flattening
//! positions carry a further factor of 100 from the quadratic weights, and
//! widths carry the factor 4096 of the pressure scale.

use vstd::prelude::*;

use crate::geometry::{
    in_grid_extent, rect_contains, rect_is_empty, writable_pixel, Rect,
};
use crate::grid::GridMask;

verus! {

/// Number of flattening steps a curve is subdivided into.
pub const FLATTEN_STEPS: u32 = 10;

/// One tessellated curve segment: start, control and end points in doubled
/// pixel coordinates, and the three stroke widths scaled by 4096.
#[derive(Clone, Copy, Debug, PartialEq, Eq, Structural)]
pub struct Segment {
    pub sx2: i32,
    pub sy2: i32,
    pub cx2: i32,
    pub cy2: i32,
    pub ex2: i32,
    pub ey2: i32,
    pub ws: i32,
    pub wc: i32,
    pub we: i32,
}

impl Segment {
    /// Bounds under which the rasterizer's fixed-point arithmetic cannot
    /// overflow: doubled coordinates within twice the canvas, widths within
    /// the widest nib at full pressure.
    pub open spec fn valid(self) -> bool {
        &&& 0 <= self.sx2 <= 4000
        &&& 0 <= self.sy2 <= 4000
        &&& 0 <= self.cx2 <= 4000
        &&& 0 <= self.cy2 <= 4000
        &&& 0 <= self.ex2 <= 4000
        &&& 0 <= self.ey2 <= 4000
        &&& 0 <= self.ws <= 7_000_000
        &&& 0 <= self.wc <= 7_000_000
        &&& 0 <= self.we <= 7_000_000
    }

    /// Runtime test for `valid`, for callers outside verified code.
    pub fn check_valid(&self) -> (r: bool)
        ensures
            r == self.valid(),
    {
        0 <= self.sx2 && self.sx2 <= 4000 && 0 <= self.sy2 && self.sy2 <= 4000 && 0 <= self.cx2
            && self.cx2 <= 4000 && 0 <= self.cy2 && self.cy2 <= 4000 && 0 <= self.ex2 && self.ex2
            <= 4000 && 0 <= self.ey2 && self.ey2 <= 4000 && 0 <= self.ws && self.ws <= 7_000_000
            && 0 <= self.wc && self.wc <= 7_000_000 && 0 <= self.we && self.we <= 7_000_000
    }
}

/// Quadratic interpolation numerator at flattening step `i` of 10, over the
/// three anchor values `a` (start), `c` (control), `e` (end): the true
/// interpolated value times 100.
pub open spec fn bez_num(a: int, c: int, e: int, i: int) -> int {
    (10 - i) * (10 - i) * a + 2 * i * (10 - i) * c + i * i * e
}

/// X of the stamp center at step `i`, in pixels times 200.
pub open spec fn stamp_cx(seg: Segment, i: int) -> int {
    bez_num(seg.sx2 as int, seg.cx2 as int, seg.ex2 as int, i)
}

/// Y of the stamp center at step `i`, in pixels times 200.
pub open spec fn stamp_cy(seg: Segment, i: int) -> int {
    bez_num(seg.sy2 as int, seg.cy2 as int, seg.ey2 as int, i)
}

/// Stroke width at step `i`, in pixels times 409600.
pub open spec fn stamp_w(seg: Segment, i: int) -> int {
    bez_num(seg.ws as int, seg.wc as int, seg.we as int, i)
}

/// Whether the pixel lies within the interpolated stamp radius (half the
/// interpolated width) of the step-`i` stamp center: the distance test with
/// both sides brought to a common scale and squared.
pub open spec fn in_stamp(seg: Segment, i: int, px: int, py: int) -> bool {
    let dx = 4096 * (200 * px - stamp_cx(seg, i));
    let dy = 4096 * (200 * py - stamp_cy(seg, i));
    dx * dx + dy * dy <= stamp_w(seg, i) * stamp_w(seg, i)
}

/// A pixel the rasterizer considers: within some stamp of the curve and
/// within the grid extent. The bounding rectangle covers exactly these.
pub open spec fn considered(seg: Segment, px: int, py: int) -> bool {
    &&& in_grid_extent(px, py)
    &&& exists|i: int| 0 <= i <= 10 && in_stamp(seg, i, px, py)
}

/// A pixel considered by one of the first `n` stamps.
spec fn considered_upto(seg: Segment, n: int, px: int, py: int) -> bool {
    &&& in_grid_extent(px, py)
    &&& exists|i: int| 0 <= i < n && in_stamp(seg, i, px, py)
}

/// One pixel write the display driver owes for this segment.
#[derive(Clone, Copy, Debug, PartialEq, Eq, Structural)]
pub struct PixelWrite {
    pub x: u32,
    pub y: u32,
}

/// Whether a pixel position occurs in the write list.
pub open spec fn recorded(ws: Seq<PixelWrite>, px: int, py: int) -> bool {
    exists|k: int| 0 <= k < ws.len() && ws[k].x as int == px && ws[k].y as int == py
}

proof fn lemma_recorded_push(ws: Seq<PixelWrite>, p: PixelWrite, px: int, py: int)
    requires
        recorded(ws, px, py),
    ensures
        recorded(ws.push(p), px, py),
{
    let k = choose|k: int| 0 <= k < ws.len() && ws[k].x as int == px && ws[k].y as int == py;
    assert(ws.push(p)[k] == ws[k]);
}

/// An integer below a multiple of 200 is bounded by the floored quotient.
proof fn lemma_div_bound_upper(b: int, p: int)
    requires
        200 * p <= b,
    ensures
        p <= b / 200,
{
    assert((200 * p) / 200 == p) by {
        vstd::arithmetic::div_mod::lemma_div_multiples_vanish(p, 200);
    }
    vstd::arithmetic::div_mod::lemma_div_is_ordered(200 * p, b, 200);
}

/// An integer above a multiple of 200 is bounded by the floored quotient.
proof fn lemma_div_bound_lower(a: int, p: int)
    requires
        a <= 200 * p,
    ensures
        a / 200 <= p,
{
    assert((200 * p) / 200 == p) by {
        vstd::arithmetic::div_mod::lemma_div_multiples_vanish(p, 200);
    }
    vstd::arithmetic::div_mod::lemma_div_is_ordered(a, 200 * p, 200);
}

/// A pixel within the step-`i` stamp lies within the stamp's pixel box:
/// its distance to the center, in pixels times 200, is at most the scaled
/// radius `w / 4096`.
proof fn lemma_stamp_bounds(seg: Segment, i: int, px: int, py: int)
    requires
        in_stamp(seg, i, px, py),
        0 <= stamp_w(seg, i),
    ensures
        stamp_cx(seg, i) - stamp_w(seg, i) / 4096 <= 200 * px,
        200 * px <= stamp_cx(seg, i) + stamp_w(seg, i) / 4096,
        stamp_cy(seg, i) - stamp_w(seg, i) / 4096 <= 200 * py,
        200 * py <= stamp_cy(seg, i) + stamp_w(seg, i) / 4096,
{
    let w = stamp_w(seg, i);
    let dx = 200 * px - stamp_cx(seg, i);
    let dy = 200 * py - stamp_cy(seg, i);
    assert((4096 * dx) * (4096 * dx) + (4096 * dy) * (4096 * dy) <= w * w);
    assert(-(w) <= 4096 * dx <= w && -(w) <= 4096 * dy <= w) by (nonlinear_arith)
        requires
            (4096 * dx) * (4096 * dx) + (4096 * dy) * (4096 * dy) <= w * w,
            0 <= w,
    ;
    lemma_scaled_abs_bound(dx, w);
    lemma_scaled_abs_bound(dy, w);
}

/// A value whose 4096-fold lies within `w` of zero lies within the floored
/// quotient `w / 4096` of zero.
proof fn lemma_scaled_abs_bound(d: int, w: int)
    requires
        -(w) <= 4096 * d <= w,
        0 <= w,
    ensures
        -(w / 4096) <= d <= w / 4096,
{
    assert((4096 * d) / 4096 == d) by {
        vstd::arithmetic::div_mod::lemma_div_multiples_vanish(d, 4096);
    }
    vstd::arithmetic::div_mod::lemma_div_is_ordered(4096 * d, w, 4096);
    assert((4096 * (-d)) / 4096 == -d) by {
        vstd::arithmetic::div_mod::lemma_div_multiples_vanish(-d, 4096);
    }
    assert(4096 * (-d) == -(4096 * d));
    vstd::arithmetic::div_mod::lemma_div_is_ordered(4096 * (-d), w, 4096);
}

/// The flattening positions and width of one stamp, with the overflow
/// bounds the pixel loops need.
fn stamp_terms(seg: &Segment, i: u32) -> (t: (i64, i64, i64))
    requires
        seg.valid(),
        i <= FLATTEN_STEPS,
    ensures
        t.0 == stamp_cx(*seg, i as int),
        t.1 == stamp_cy(*seg, i as int),
        t.2 == stamp_w(*seg, i as int),
        0 <= t.0 <= 2_000_000,
        0 <= t.1 <= 2_000_000,
        0 <= t.2 <= 3_000_000_000,
{
    let u = (10 - i) as i64;
    let v = i as i64;
    assert(0 <= u * u <= 100 && 0 <= 2 * v * u <= 200 && 0 <= v * v <= 100) by (nonlinear_arith)
        requires
            0 <= u <= 10,
            0 <= v <= 10,
    ;
    let a = u * u;
    let b = 2 * v * u;
    let c = v * v;
    proof {
        lemma_basis_products(
            a as int, b as int, c as int, seg.sx2 as int, seg.cx2 as int, seg.ex2 as int, 4000,
        );
        lemma_basis_products(
            a as int, b as int, c as int, seg.sy2 as int, seg.cy2 as int, seg.ey2 as int, 4000,
        );
        lemma_basis_products(
            a as int, b as int, c as int, seg.ws as int, seg.wc as int, seg.we as int, 7_000_000,
        );
    }
    let nx = a * seg.sx2 as i64 + b * seg.cx2 as i64 + c * seg.ex2 as i64;
    let ny = a * seg.sy2 as i64 + b * seg.cy2 as i64 + c * seg.ey2 as i64;
    let w = a * seg.ws as i64 + b * seg.wc as i64 + c * seg.we as i64;
    (nx, ny, w)
}

/// Each quadratic weight times an anchor value bounded by `cap` stays
/// within the weight times `cap`.
proof fn lemma_basis_products(a: int, b: int, c: int, s: int, m: int, e: int, cap: int)
    requires
        0 <= a <= 100,
        0 <= b <= 200,
        0 <= c <= 100,
        0 <= s <= cap,
        0 <= m <= cap,
        0 <= e <= cap,
    ensures
        0 <= a * s <= 100 * cap,
        0 <= b * m <= 200 * cap,
        0 <= c * e <= 100 * cap,
{
    assert(0 <= a * s <= 100 * cap && 0 <= b * m <= 200 * cap && 0 <= c * e
        <= 100 * cap) by (nonlinear_arith)
        requires
            0 <= a <= 100,
            0 <= b <= 200,
            0 <= c <= 100,
            0 <= s <= cap,
            0 <= m <= cap,
            0 <= e <= cap,
    ;
}

/// The squared distance test of `in_stamp`, over the precomputed stamp
/// terms.
fn stamp_test(nx: i64, ny: i64, w: i64, px: i64, py: i64) -> (r: bool)
    requires
        0 <= nx <= 2_000_000,
        0 <= ny <= 2_000_000,
        0 <= w <= 3_000_000_000,
        100 <= px <= 1300,
        100 <= py <= 1300,
    ensures
        r == ({
            let dx = 4096 * (200 * px - nx);
            let dy = 4096 * (200 * py - ny);
            dx * dx + dy * dy <= w * w
        }),
{
    let dx: i64 = 4096 * (200 * px - nx);
    let dy: i64 = 4096 * (200 * py - ny);
    proof {
        lemma_square_bound(dx as int);
        lemma_square_bound(dy as int);
        lemma_square_bound(w as int);
    }
    let lhs: i128 = (dx as i128) * (dx as i128) + (dy as i128) * (dy as i128);
    let rhs: i128 = (w as i128) * (w as i128);
    lhs <= rhs
}

/// Squares of the fixed-point quantities stay far within the wide integer
/// range.
proof fn lemma_square_bound(d: int)
    requires
        -10_000_000_000 <= d <= 10_000_000_000,
    ensures
        0 <= d * d <= 0x10_0000_0000_0000_0000_0000,
{
    assert(0 <= d * d <= 0x10_0000_0000_0000_0000_0000) by (nonlinear_arith)
        requires
            -10_000_000_000 <= d <= 10_000_000_000,
    ;
}

/// Rasterize one curve segment against the grid mask.
///
/// The returned writes are exactly the considered pixels that pass the mask
/// (within the grid extent, clear of the border margin, in a cell without a
/// given digit), and the returned rectangle is the exact bounding box of
/// all considered pixels — empty, all zero, when the curve touches no pixel
/// of the grid extent at all.
#[verifier::loop_isolation(false)]
pub fn rasterize(mask: &GridMask, seg: &Segment) -> (out: (Vec<PixelWrite>, Rect))
    requires
        mask.wf(),
        seg.valid(),
    ensures
        forall|k: int|
            0 <= k < out.0@.len() ==> considered(*seg, #[trigger] out.0@[k].x as int, out.0@[k].y as int)
                && writable_pixel(mask@, out.0@[k].x as int, out.0@[k].y as int),
        forall|px: int, py: int|
            considered(*seg, px, py) && writable_pixel(mask@, px, py) ==> recorded(out.0@, px, py),
        forall|px: int, py: int| considered(*seg, px, py) ==> rect_contains(out.1, px, py),
        rect_is_empty(out.1) <==> !(exists|px: int, py: int| considered(*seg, px, py)),
        !rect_is_empty(out.1) ==> (exists|px: int, py: int|
            considered(*seg, px, py) && px == out.1.left as int),
        !rect_is_empty(out.1) ==> (exists|px: int, py: int|
            considered(*seg, px, py) && px == out.1.left + out.1.width - 1),
        !rect_is_empty(out.1) ==> (exists|px: int, py: int|
            considered(*seg, px, py) && py == out.1.top as int),
        !rect_is_empty(out.1) ==> (exists|px: int, py: int|
            considered(*seg, px, py) && py == out.1.top + out.1.height - 1),
{
    let mut writes: Vec<PixelWrite> = Vec::new();
    let mut any: bool = false;
    let mut minx: i64 = 0;
    let mut maxx: i64 = 0;
    let mut miny: i64 = 0;
    let mut maxy: i64 = 0;
    let mut i: u32 = 0;
    while i <= FLATTEN_STEPS
        invariant
            i <= 11,
            forall|k: int|
                0 <= k < writes@.len() ==> considered(
                    *seg,
                    #[trigger] writes@[k].x as int,
                    writes@[k].y as int,
                ) && writable_pixel(mask@, writes@[k].x as int, writes@[k].y as int),
            forall|px: int, py: int|
                considered_upto(*seg, i as int, px, py) ==> any && minx <= px <= maxx && miny <= py
                    <= maxy,
            forall|px: int, py: int|
                considered_upto(*seg, i as int, px, py) && writable_pixel(mask@, px, py)
                    ==> recorded(writes@, px, py),
            any ==> (exists|px: int, py: int| considered(*seg, px, py) && px == minx),
            any ==> (exists|px: int, py: int| considered(*seg, px, py) && px == maxx),
            any ==> (exists|px: int, py: int| considered(*seg, px, py) && py == miny),
            any ==> (exists|px: int, py: int| considered(*seg, px, py) && py == maxy),
            any ==> 117 <= minx <= maxx <= 1287 && 117 <= miny <= maxy <= 1287,
        decreases 11 - i,
    {
        let (nx, ny, w) = stamp_terms(seg, i);
        let r200 = w / 4096;
        let mut pxlo: i64 = 117;
        if nx >= r200 {
            let q = (nx - r200) / 200;
            if q > pxlo {
                pxlo = q;
            }
        }
        let mut pxhi: i64 = (nx + r200) / 200;
        if pxhi > 1287 {
            pxhi = 1287;
        }
        let mut pylo: i64 = 117;
        if ny >= r200 {
            let q = (ny - r200) / 200;
            if q > pylo {
                pylo = q;
            }
        }
        let mut pyhi: i64 = (ny + r200) / 200;
        if pyhi > 1287 {
            pyhi = 1287;
        }
        if pxhi < pxlo - 1 {
            pxhi = pxlo - 1;
        }
        if pyhi < pylo - 1 {
            pyhi = pylo - 1;
        }
        assert forall|qx: int, qy: int|
            in_grid_extent(qx, qy) && in_stamp(*seg, i as int, qx, qy) implies pxlo <= qx <= pxhi
            && pylo <= qy <= pyhi by {
            lemma_stamp_bounds(*seg, i as int, qx, qy);
            lemma_div_bound_upper(nx as int + r200 as int, qx);
            lemma_div_bound_upper(ny as int + r200 as int, qy);
            if nx >= r200 {
                lemma_div_bound_lower(nx as int - r200 as int, qx);
            }
            if ny >= r200 {
                lemma_div_bound_lower(ny as int - r200 as int, qy);
            }
        }
        let ghost prev_writes = writes@;
        let mut px: i64 = pxlo;
        while px <= pxhi
            invariant
                pxlo <= px <= pxhi + 1,
                forall|k: int|
                    0 <= k < writes@.len() ==> considered(
                        *seg,
                        #[trigger] writes@[k].x as int,
                        writes@[k].y as int,
                    ) && writable_pixel(mask@, writes@[k].x as int, writes@[k].y as int),
                forall|qx: int, qy: int|
                    considered_upto(*seg, i as int, qx, qy) ==> any && minx <= qx <= maxx && miny
                        <= qy <= maxy,
                forall|qx: int, qy: int|
                    considered_upto(*seg, i as int, qx, qy) && writable_pixel(mask@, qx, qy)
                        ==> recorded(writes@, qx, qy),
                forall|qx: int, qy: int|
                    in_grid_extent(qx, qy) && in_stamp(*seg, i as int, qx, qy) && qx < px ==> any
                        && minx <= qx <= maxx && miny <= qy <= maxy,
                forall|qx: int, qy: int|
                    in_grid_extent(qx, qy) && in_stamp(*seg, i as int, qx, qy) && qx < px
                        && writable_pixel(mask@, qx, qy) ==> recorded(writes@, qx, qy),
                any ==> (exists|qx: int, qy: int| considered(*seg, qx, qy) && qx == minx),
                any ==> (exists|qx: int, qy: int| considered(*seg, qx, qy) && qx == maxx),
                any ==> (exists|qx: int, qy: int| considered(*seg, qx, qy) && qy == miny),
                any ==> (exists|qx: int, qy: int| considered(*seg, qx, qy) && qy == maxy),
                any ==> 117 <= minx <= maxx <= 1287 && 117 <= miny <= maxy <= 1287,
            decreases pxhi + 1 - px,
        {
            let mut py: i64 = pylo;
            while py <= pyhi
                invariant
                    pylo <= py <= pyhi + 1,
                    pxlo <= px <= pxhi,
                    forall|k: int|
                        0 <= k < writes@.len() ==> considered(
                            *seg,
                            #[trigger] writes@[k].x as int,
                            writes@[k].y as int,
                        ) && writable_pixel(mask@, writes@[k].x as int, writes@[k].y as int),
                    forall|qx: int, qy: int|
                        considered_upto(*seg, i as int, qx, qy) ==> any && minx <= qx <= maxx
                            && miny <= qy <= maxy,
                    forall|qx: int, qy: int|
                        considered_upto(*seg, i as int, qx, qy) && writable_pixel(mask@, qx, qy)
                            ==> recorded(writes@, qx, qy),
                    forall|qx: int, qy: int|
                        in_grid_extent(qx, qy) && in_stamp(*seg, i as int, qx, qy) && (qx < px || (
                        qx == px && qy < py)) ==> any && minx <= qx <= maxx && miny <= qy <= maxy,
                    forall|qx: int, qy: int|
                        in_grid_extent(qx, qy) && in_stamp(*seg, i as int, qx, qy) && (qx < px || (
                        qx == px && qy < py)) && writable_pixel(mask@, qx, qy) ==> recorded(
                            writes@,
                            qx,
                            qy,
                        ),
                    any ==> (exists|qx: int, qy: int| considered(*seg, qx, qy) && qx == minx),
                    any ==> (exists|qx: int, qy: int| considered(*seg, qx, qy) && qx == maxx),
                    any ==> (exists|qx: int, qy: int| considered(*seg, qx, qy) && qy == miny),
                    any ==> (exists|qx: int, qy: int| considered(*seg, qx, qy) && qy == maxy),
                    any ==> 117 <= minx <= maxx <= 1287 && 117 <= miny <= maxy <= 1287,
                decreases pyhi + 1 - py,
            {
                if stamp_test(nx, ny, w, px, py) {
                    proof {
                        assert(in_grid_extent(px as int, py as int));
                        assert(in_stamp(*seg, i as int, px as int, py as int));
                        assert(considered(*seg, px as int, py as int));
                    }
                    if !any {
                        any = true;
                        minx = px;
                        maxx = px;
                        miny = py;
                        maxy = py;
                    } else {
                        if px < minx {
                            minx = px;
                        }
                        if px > maxx {
                            maxx = px;
                        }
                        if py < miny {
                            miny = py;
                        }
                        if py > maxy {
                            maxy = py;
                        }
                    }
                    if mask.writable(px as i32, py as i32) {
                        let ghost before = writes@;
                        writes.push(PixelWrite { x: px as u32, y: py as u32 });
                        proof {
                            assert forall|qx: int, qy: int|
                                recorded(before, qx, qy) implies recorded(writes@, qx, qy) by {
                                lemma_recorded_push(
                                    before,
                                    PixelWrite { x: px as u32, y: py as u32 },
                                    qx,
                                    qy,
                                );
                            }
                            assert(writes@[writes@.len() - 1].x as int == px as int);
                            assert(recorded(writes@, px as int, py as int));
                        }
                    }
                }
                py = py + 1;
            }
            px = px + 1;
        }
        proof {
            let n = i as int + 1;
            assert forall|qx: int, qy: int|
                considered_upto(*seg, n, qx, qy) implies any && minx <= qx <= maxx && miny <= qy
                <= maxy by {
                let j = choose|j: int| 0 <= j < n && in_stamp(*seg, j, qx, qy);
                if j < i as int {
                    assert(considered_upto(*seg, i as int, qx, qy));
                }
            }
            assert forall|qx: int, qy: int|
                considered_upto(*seg, n, qx, qy) && writable_pixel(mask@, qx, qy) implies recorded(
                writes@,
                qx,
                qy,
            ) by {
                let j = choose|j: int| 0 <= j < n && in_stamp(*seg, j, qx, qy);
                if j < i as int {
                    assert(considered_upto(*seg, i as int, qx, qy));
                }
            }
        }
        i = i + 1;
    }
    proof {
        assert forall|px: int, py: int| considered(*seg, px, py) implies considered_upto(
            *seg,
            11,
            px,
            py,
        ) by {
            let j = choose|j: int| 0 <= j <= 10 && in_stamp(*seg, j, px, py);
            assert(0 <= j < 11 && in_stamp(*seg, j, px, py));
        }
    }
    if any {
        let rect = Rect {
            top: miny as u32,
            left: minx as u32,
            width: (maxx - minx + 1) as u32,
            height: (maxy - miny + 1) as u32,
        };
        (writes, rect)
    } else {
        (writes, Rect { top: 0, left: 0, width: 0, height: 0 })
    }
}

} // verus!
