//! Frame-difference bounding boxes.
//!
//! Given two equally sized RGBA8 frame buffers and a sensitivity threshold,
//! [`calculate_diff`] classifies each pixel as changed or unchanged by the
//! combined magnitude of its red, green and blue deltas (alpha is ignored),
//! and returns the tightest axis-aligned rectangle that contains every
//! changed pixel, together with a flag saying whether any pixel changed.

use vstd::prelude::*;

verus! {

/// The result of one frame comparison: inclusive pixel-coordinate bounds of
/// the changed region, and whether any pixel changed at all. When `changed`
/// is false the four bounds are all zero and carry no meaning.
#[derive(Clone, Copy, Debug, PartialEq, Eq, Structural)]
pub struct BoundingBox {
    pub min_x: u32,
    pub max_x: u32,
    pub min_y: u32,
    pub max_y: u32,
    pub changed: bool,
}

/// Absolute difference of two samples.
pub open spec fn abs_diff(a: u8, b: u8) -> int {
    if a >= b {
        a - b
    } else {
        b - a
    }
}

/// Combined red + green + blue delta of pixel `p` between the two buffers.
/// The alpha sample at offset `4*p + 3` is deliberately not read.
pub open spec fn pixel_delta(cur: Seq<u8>, prev: Seq<u8>, p: int) -> int {
    abs_diff(cur[4 * p], prev[4 * p]) + abs_diff(cur[4 * p + 1], prev[4 * p + 1]) + abs_diff(
        cur[4 * p + 2],
        prev[4 * p + 2],
    )
}

/// A pixel counts as changed when its combined RGB delta strictly exceeds
/// the threshold.
pub open spec fn pixel_changed(cur: Seq<u8>, prev: Seq<u8>, threshold: u8, p: int) -> bool {
    pixel_delta(cur, prev, p) > threshold
}

/// Some pixel with index below `n` is changed.
pub open spec fn any_changed(cur: Seq<u8>, prev: Seq<u8>, threshold: u8, n: int) -> bool {
    exists|p: int| 0 <= p < n && pixel_changed(cur, prev, threshold, p)
}

/// Every changed pixel among the first `n` lies inside the rectangle given
/// by the four inclusive bounds.
pub open spec fn bounds_contain(
    cur: Seq<u8>,
    prev: Seq<u8>,
    threshold: u8,
    width: u32,
    n: int,
    min_x: u32,
    max_x: u32,
    min_y: u32,
    max_y: u32,
) -> bool {
    forall|p: int|
        0 <= p < n && #[trigger] pixel_changed(cur, prev, threshold, p) ==> min_x <= p % (
        width as int) && p % (width as int) <= max_x && min_y <= p / (width as int) && p / (
        width as int) <= max_y
}

/// Each of the four bounds is attained by some changed pixel among the
/// first `n`: the rectangle is tight, not merely an enclosure.
pub open spec fn bounds_tight(
    cur: Seq<u8>,
    prev: Seq<u8>,
    threshold: u8,
    width: u32,
    n: int,
    min_x: u32,
    max_x: u32,
    min_y: u32,
    max_y: u32,
) -> bool {
    &&& exists|p: int|
        0 <= p < n && #[trigger] pixel_changed(cur, prev, threshold, p) && p % (width as int)
            == min_x
    &&& exists|p: int|
        0 <= p < n && #[trigger] pixel_changed(cur, prev, threshold, p) && p % (width as int)
            == max_x
    &&& exists|p: int|
        0 <= p < n && #[trigger] pixel_changed(cur, prev, threshold, p) && p / (width as int)
            == min_y
    &&& exists|p: int|
        0 <= p < n && #[trigger] pixel_changed(cur, prev, threshold, p) && p / (width as int)
            == max_y
}

/// Full characterization of the comparison result: the flag says exactly
/// whether some pixel changed; when it did, the rectangle both contains
/// every changed pixel and touches one on each of its four sides; when
/// nothing changed, all four bounds are zero.
pub open spec fn is_diff_result(
    cur: Seq<u8>,
    prev: Seq<u8>,
    width: u32,
    height: u32,
    threshold: u8,
    r: BoundingBox,
) -> bool {
    let n = (width as int) * (height as int);
    &&& (r.changed <==> any_changed(cur, prev, threshold, n))
    &&& (r.changed ==> bounds_contain(
        cur,
        prev,
        threshold,
        width,
        n,
        r.min_x,
        r.max_x,
        r.min_y,
        r.max_y,
    ) && bounds_tight(cur, prev, threshold, width, n, r.min_x, r.max_x, r.min_y, r.max_y))
    &&& (!r.changed ==> r.min_x == 0 && r.max_x == 0 && r.min_y == 0 && r.max_y == 0)
}

/// Identity: comparing any frame with itself reports no change, whatever
/// the threshold, and the bounds come back zeroed.
pub proof fn lemma_identity(frame: Seq<u8>, width: u32, height: u32, threshold: u8, r: BoundingBox)
    requires
        is_diff_result(frame, frame, width, height, threshold, r),
    ensures
        !r.changed,
        r.min_x == 0 && r.max_x == 0 && r.min_y == 0 && r.max_y == 0,
{
    assert forall|p: int| !pixel_changed(frame, frame, threshold, p) by {
        assert(pixel_delta(frame, frame, p) == 0);
    }
}

/// The classification of a single pixel is monotone in the threshold: a
/// pixel that counts as changed under the higher threshold also counts as
/// changed under the lower one.
pub proof fn lemma_pixel_monotone(cur: Seq<u8>, prev: Seq<u8>, t_lo: u8, t_hi: u8, p: int)
    requires
        t_lo <= t_hi,
        pixel_changed(cur, prev, t_hi, p),
    ensures
        pixel_changed(cur, prev, t_lo, p),
{
}

/// The classifier adds the three channel deltas before comparing: a pixel
/// whose deltas are exactly (threshold, 1, 0) is changed, even though no
/// single channel alone exceeds the threshold.
pub proof fn lemma_sum_rule(cur: Seq<u8>, prev: Seq<u8>, threshold: u8, p: int)
    requires
        abs_diff(cur[4 * p], prev[4 * p]) == threshold,
        abs_diff(cur[4 * p + 1], prev[4 * p + 1]) == 1,
        abs_diff(cur[4 * p + 2], prev[4 * p + 2]) == 0,
    ensures
        pixel_changed(cur, prev, threshold, p),
{
}

/// Area of the rectangle, counting pixels (both bounds are inclusive).
pub open spec fn box_area(r: BoundingBox) -> int {
    (r.max_x - r.min_x + 1) * (r.max_y - r.min_y + 1)
}

/// When anything changed, the reported rectangle is well formed: on each
/// axis the lower bound does not exceed the upper one.
pub proof fn lemma_box_wellformed(
    cur: Seq<u8>,
    prev: Seq<u8>,
    width: u32,
    height: u32,
    threshold: u8,
    r: BoundingBox,
)
    requires
        is_diff_result(cur, prev, width, height, threshold, r),
        r.changed,
    ensures
        r.min_x <= r.max_x,
        r.min_y <= r.max_y,
{
    let w = width as int;
    let n = w * (height as int);
    let pa = choose|p: int|
        0 <= p < n && #[trigger] pixel_changed(cur, prev, threshold, p) && p % w == r.min_x;
    let pb = choose|p: int|
        0 <= p < n && #[trigger] pixel_changed(cur, prev, threshold, p) && p / w == r.min_y;
    assert(r.min_x <= pa % w && pa % w <= r.max_x);
    assert(r.min_y <= pb / w && pb / w <= r.max_y);
}

/// Alpha-blindness: two frames that agree on every red, green and blue
/// sample — differing, if at all, only in alpha samples — compare as
/// unchanged, whatever the threshold.
pub proof fn lemma_alpha_blind(
    cur: Seq<u8>,
    prev: Seq<u8>,
    width: u32,
    height: u32,
    threshold: u8,
    r: BoundingBox,
)
    requires
        cur.len() == (width as int) * (height as int) * 4,
        prev.len() == cur.len(),
        forall|j: int| 0 <= j < cur.len() && j % 4 != 3 ==> cur[j] == prev[j],
        is_diff_result(cur, prev, width, height, threshold, r),
    ensures
        !r.changed,
        r.min_x == 0 && r.max_x == 0 && r.min_y == 0 && r.max_y == 0,
{
    let n = (width as int) * (height as int);
    assert forall|p: int| 0 <= p < n implies !pixel_changed(cur, prev, threshold, p) by {
        vstd::arithmetic::div_mod::lemma_fundamental_div_mod_converse_mod(4 * p, 4, p, 0);
        vstd::arithmetic::div_mod::lemma_fundamental_div_mod_converse_mod(4 * p + 1, 4, p, 1);
        vstd::arithmetic::div_mod::lemma_fundamental_div_mod_converse_mod(4 * p + 2, 4, p, 2);
        assert(cur[4 * p] == prev[4 * p]);
        assert(cur[4 * p + 1] == prev[4 * p + 1]);
        assert(cur[4 * p + 2] == prev[4 * p + 2]);
        assert(pixel_delta(cur, prev, p) == 0);
    }
    assert(!any_changed(cur, prev, threshold, n));
}

/// Raising the threshold is monotone: no pixel that was unchanged becomes
/// changed, so a change reported under the higher threshold is also
/// reported under the lower one, the rectangle for the higher threshold is
/// nested inside the rectangle for the lower one, and its area is no
/// larger.
pub proof fn lemma_threshold_monotone(
    cur: Seq<u8>,
    prev: Seq<u8>,
    width: u32,
    height: u32,
    t_lo: u8,
    t_hi: u8,
    r_lo: BoundingBox,
    r_hi: BoundingBox,
)
    requires
        t_lo <= t_hi,
        is_diff_result(cur, prev, width, height, t_lo, r_lo),
        is_diff_result(cur, prev, width, height, t_hi, r_hi),
    ensures
        r_hi.changed ==> r_lo.changed,
        r_hi.changed ==> r_lo.min_x <= r_hi.min_x && r_hi.max_x <= r_lo.max_x && r_lo.min_y
            <= r_hi.min_y && r_hi.max_y <= r_lo.max_y,
        r_hi.changed ==> box_area(r_hi) <= box_area(r_lo),
{
    if r_hi.changed {
        let w = width as int;
        let n = w * (height as int);
        let p0 = choose|p: int| 0 <= p < n && pixel_changed(cur, prev, t_hi, p);
        lemma_pixel_monotone(cur, prev, t_lo, t_hi, p0);
        assert(any_changed(cur, prev, t_lo, n));
        let pa = choose|p: int|
            0 <= p < n && #[trigger] pixel_changed(cur, prev, t_hi, p) && p % w == r_hi.min_x;
        let pb = choose|p: int|
            0 <= p < n && #[trigger] pixel_changed(cur, prev, t_hi, p) && p % w == r_hi.max_x;
        let pc = choose|p: int|
            0 <= p < n && #[trigger] pixel_changed(cur, prev, t_hi, p) && p / w == r_hi.min_y;
        let pd = choose|p: int|
            0 <= p < n && #[trigger] pixel_changed(cur, prev, t_hi, p) && p / w == r_hi.max_y;
        lemma_pixel_monotone(cur, prev, t_lo, t_hi, pa);
        lemma_pixel_monotone(cur, prev, t_lo, t_hi, pb);
        lemma_pixel_monotone(cur, prev, t_lo, t_hi, pc);
        lemma_pixel_monotone(cur, prev, t_lo, t_hi, pd);
        lemma_box_wellformed(cur, prev, width, height, t_lo, r_lo);
        lemma_box_wellformed(cur, prev, width, height, t_hi, r_hi);
        assert((r_hi.max_x - r_hi.min_x + 1) * (r_hi.max_y - r_hi.min_y + 1) <= (r_lo.max_x
            - r_lo.min_x + 1) * (r_lo.max_y - r_lo.min_y + 1)) by (nonlinear_arith)
            requires
                r_lo.min_x <= r_hi.min_x,
                r_hi.min_x <= r_hi.max_x,
                r_hi.max_x <= r_lo.max_x,
                r_lo.min_y <= r_hi.min_y,
                r_hi.min_y <= r_hi.max_y,
                r_hi.max_y <= r_lo.max_y,
        ;
    }
}

/// Single-pixel exactness: when the changed pixels are exactly one pixel
/// at `(x0, y0)`, the rectangle degenerates to that pixel.
pub proof fn lemma_single_pixel(
    cur: Seq<u8>,
    prev: Seq<u8>,
    width: u32,
    height: u32,
    threshold: u8,
    x0: u32,
    y0: u32,
    r: BoundingBox,
)
    requires
        width > 0,
        height > 0,
        x0 < width,
        y0 < height,
        forall|p: int|
            0 <= p < (width as int) * (height as int) ==> (#[trigger] pixel_changed(
                cur,
                prev,
                threshold,
                p,
            ) <==> p == (y0 as int) * (width as int) + (x0 as int)),
        is_diff_result(cur, prev, width, height, threshold, r),
    ensures
        r.changed,
        r.min_x == x0,
        r.max_x == x0,
        r.min_y == y0,
        r.max_y == y0,
{
    let w = width as int;
    let n = w * (height as int);
    let p0 = (y0 as int) * w + (x0 as int);
    assert(0 <= p0 && p0 < n) by (nonlinear_arith)
        requires
            0 < w,
            x0 < w,
            0 <= y0,
            y0 < height,
            n == w * (height as int),
            p0 == (y0 as int) * w + (x0 as int),
    ;
    vstd::arithmetic::div_mod::lemma_fundamental_div_mod_converse_mod(p0, w, y0 as int, x0 as int);
    vstd::arithmetic::div_mod::lemma_fundamental_div_mod_converse_div(p0, w, y0 as int, x0 as int);
    assert(pixel_changed(cur, prev, threshold, p0));
    assert(r.changed);
    let pa = choose|p: int|
        0 <= p < n && #[trigger] pixel_changed(cur, prev, threshold, p) && p % w == r.min_x;
    let pb = choose|p: int|
        0 <= p < n && #[trigger] pixel_changed(cur, prev, threshold, p) && p % w == r.max_x;
    let pc = choose|p: int|
        0 <= p < n && #[trigger] pixel_changed(cur, prev, threshold, p) && p / w == r.min_y;
    let pd = choose|p: int|
        0 <= p < n && #[trigger] pixel_changed(cur, prev, threshold, p) && p / w == r.max_y;
    assert(pa == p0 && pb == p0 && pc == p0 && pd == p0);
}

/// Corner containment: when the changed pixels are exactly the four image
/// corners, the rectangle is the whole frame.
pub proof fn lemma_corner_containment(
    cur: Seq<u8>,
    prev: Seq<u8>,
    width: u32,
    height: u32,
    threshold: u8,
    r: BoundingBox,
)
    requires
        width > 0,
        height > 0,
        forall|p: int|
            0 <= p < (width as int) * (height as int) ==> (#[trigger] pixel_changed(
                cur,
                prev,
                threshold,
                p,
            ) <==> (p == 0 || p == (width as int) - 1 || p == ((height as int) - 1) * (width as int)
                || p == (width as int) * (height as int) - 1)),
        is_diff_result(cur, prev, width, height, threshold, r),
    ensures
        r.changed,
        r.min_x == 0,
        r.max_x == width - 1,
        r.min_y == 0,
        r.max_y == height - 1,
{
    let w = width as int;
    let h = height as int;
    let n = w * h;
    let c1 = w - 1;
    let c2 = (h - 1) * w;
    let c3 = w * h - 1;
    assert(0 < n && c1 < n && 0 <= c2 && c2 < n && c2 == (h - 1) * w + 0 && c3 == (h - 1) * w + (w
        - 1)) by (nonlinear_arith)
        requires
            0 < w,
            0 < h,
            n == w * h,
            c1 == w - 1,
            c2 == (h - 1) * w,
            c3 == w * h - 1,
    ;
    vstd::arithmetic::div_mod::lemma_fundamental_div_mod_converse_mod(0, w, 0, 0);
    vstd::arithmetic::div_mod::lemma_fundamental_div_mod_converse_div(0, w, 0, 0);
    vstd::arithmetic::div_mod::lemma_fundamental_div_mod_converse_mod(c1, w, 0, w - 1);
    vstd::arithmetic::div_mod::lemma_fundamental_div_mod_converse_div(c1, w, 0, w - 1);
    vstd::arithmetic::div_mod::lemma_fundamental_div_mod_converse_mod(c2, w, h - 1, 0);
    vstd::arithmetic::div_mod::lemma_fundamental_div_mod_converse_div(c2, w, h - 1, 0);
    vstd::arithmetic::div_mod::lemma_fundamental_div_mod_converse_mod(c3, w, h - 1, w - 1);
    vstd::arithmetic::div_mod::lemma_fundamental_div_mod_converse_div(c3, w, h - 1, w - 1);
    assert(pixel_changed(cur, prev, threshold, 0));
    assert(pixel_changed(cur, prev, threshold, c1));
    assert(pixel_changed(cur, prev, threshold, c2));
    assert(r.changed);
    assert(r.min_x <= 0int % w && r.min_y <= 0int / w);
    assert(c1 % w <= r.max_x && c2 / w <= r.max_y);
    let pb = choose|p: int|
        0 <= p < n && #[trigger] pixel_changed(cur, prev, threshold, p) && p % w == r.max_x;
    let pd = choose|p: int|
        0 <= p < n && #[trigger] pixel_changed(cur, prev, threshold, p) && p / w == r.max_y;
    assert(pb == 0 || pb == c1 || pb == c2 || pb == c3);
    assert(pd == 0 || pd == c1 || pd == c2 || pd == c3);
    assert(r.max_x == w - 1);
    assert(r.max_y == h - 1);
}

/// Absolute difference of two byte samples, as executable code.
fn sample_delta(a: u8, b: u8) -> (d: u8)
    ensures
        d == abs_diff(a, b),
{
    if a >= b {
        a - b
    } else {
        b - a
    }
}

/// Compare two RGBA8 frame buffers of `width * height` pixels and return
/// the tightest axis-aligned rectangle containing every pixel whose
/// combined red + green + blue delta strictly exceeds `threshold`.
///
/// The alpha channel never contributes to the comparison. When no pixel
/// exceeds the threshold, the result has `changed == false` and all four
/// bounds zero.
pub fn calculate_diff(
    current_frame: &[u8],
    prev_frame: &[u8],
    width: u32,
    height: u32,
    threshold: u8,
) -> (r: BoundingBox)
    requires
        width > 0,
        height > 0,
        current_frame@.len() == (width as int) * (height as int) * 4,
        prev_frame@.len() == current_frame@.len(),
    ensures
        is_diff_result(current_frame@, prev_frame@, width, height, threshold, r),
{
    let w: usize = width as usize;
    let len: usize = current_frame.len();
    let n: usize = len / 4;
    proof {
        assert(n == (width as int) * (height as int)) by {
            vstd::arithmetic::div_mod::lemma_div_multiples_vanish(
                (width as int) * (height as int),
                4,
            );
        }
        assert(4 * n <= usize::MAX);
    }
    let mut min_x: u32 = width;
    let mut max_x: u32 = 0;
    let mut min_y: u32 = height;
    let mut max_y: u32 = 0;
    let mut changed: bool = false;
    let mut p: usize = 0;
    while p < n
        invariant
            width > 0,
            height > 0,
            w == width,
            n == (width as int) * (height as int),
            current_frame@.len() == 4 * n,
            prev_frame@.len() == 4 * n,
            p <= n,
            4 * n <= usize::MAX,
            changed <==> any_changed(current_frame@, prev_frame@, threshold, p as int),
            !changed ==> min_x == width && max_x == 0 && min_y == height && max_y == 0,
            changed ==> min_x < width && max_x < width && min_y < height && max_y < height,
            changed ==> bounds_contain(
                current_frame@,
                prev_frame@,
                threshold,
                width,
                p as int,
                min_x,
                max_x,
                min_y,
                max_y,
            ),
            changed ==> bounds_tight(
                current_frame@,
                prev_frame@,
                threshold,
                width,
                p as int,
                min_x,
                max_x,
                min_y,
                max_y,
            ),
        decreases n - p,
    {
        let i: usize = 4 * p;
        let d_r: u8 = sample_delta(current_frame[i], prev_frame[i]);
        let d_g: u8 = sample_delta(current_frame[i + 1], prev_frame[i + 1]);
        let d_b: u8 = sample_delta(current_frame[i + 2], prev_frame[i + 2]);
        if (d_r as u16) + (d_g as u16) + (d_b as u16) > (threshold as u16) {
            assert(pixel_changed(current_frame@, prev_frame@, threshold, p as int));
            proof {
                vstd::arithmetic::div_mod::lemma_multiply_divide_lt(
                    p as int,
                    width as int,
                    height as int,
                );
            }
            let x: u32 = (p % w) as u32;
            let y: u32 = (p / w) as u32;
            if x < min_x {
                min_x = x;
            }
            if x > max_x {
                max_x = x;
            }
            if y < min_y {
                min_y = y;
            }
            if y > max_y {
                max_y = y;
            }
            changed = true;
        } else {
            assert(!pixel_changed(current_frame@, prev_frame@, threshold, p as int));
        }
        p = p + 1;
    }
    if !changed {
        BoundingBox { min_x: 0, max_x: 0, min_y: 0, max_y: 0, changed: false }
    } else {
        BoundingBox { min_x, max_x, min_y, max_y, changed }
    }
}

} // verus!
