//! Ellipses inscribed in a box, traced with Van Aken's incremental midpoint
//! algorithm: one quarter of the curve is computed and mirrored to the other
//! three.
//!
//! The quarter is traced as a sequence of offsets `(x, y)`: `x` is the inset
//! from the left and right edges of the box and `y` the offset from its top
//! (and, mirrored, from its bottom). It starts at `(0, b)`, the middle row,
//! and moves towards `(a, 0)`, where `a` and `b` are half the width and half
//! the height of the box. A first phase steps `y` down one row at a time
//! while the curve is steep; a second steps `x` one column at a time.

use vstd::prelude::*;
use crate::rgb_utils::{get_rgba, lemma_pack_unpack};
use crate::sprite::Sprite;
use crate::draw::draw_horizontal_line;

verus! {

/// The state of the trace: `(x, y, f_n, f_nw, d, f_w)`, the offsets, the
/// differences of the decision variable for the moves north and north-west
/// (and west in the second phase), and the decision variable itself.
pub type EllState = (int, int, int, int, int, int);

/// The state the trace starts from.
pub open spec fn ell_init(a: int, b: int) -> EllState {
    (0, b, 12 * (a * a), 12 * (a * a) - 8 * ((b * b) * a) + 8 * (b * b), (b * b) - 4 * ((b * b) * a) + 4 * (a * a), 0)
}

/// Whether the first phase takes another step from state `s`: the curve is
/// still steep, and the offsets are still inside the quarter.
pub open spec fn ell_cond1(a: int, b: int, s: EllState) -> bool {
    let (x, y, f_n, f_nw, d, f_w) = s;
    &&& (f_nw < (a * a) + (b * b) || d < 0 || (f_nw - f_n > (b * b) && y > 0))
    &&& y >= 0
    &&& x <= a
}

/// One step of the first phase: one row up, and one column in when the
/// decision variable says so.
pub open spec fn ell_step1(a: int, b: int, s: EllState) -> EllState {
    let (x, y, f_n, f_nw, d, f_w) = s;
    if d < 0 || f_nw - f_n > (b * b) {
        (x, y - 1, f_n + 8 * (a * a), f_nw + 8 * (a * a), d + f_n, f_w)
    } else {
        (x + 1, y - 1, f_n + 8 * (a * a), f_nw + 8 * (a * a) + 8 * (b * b), d + f_nw, f_w)
    }
}

/// The state after `k` steps of the first phase.
pub open spec fn ell_iter1(a: int, b: int, k: nat) -> EllState
    decreases k,
{
    if k == 0 {
        ell_init(a, b)
    } else {
        ell_step1(a, b, ell_iter1(a, b, (k - 1) as nat))
    }
}

/// The number of steps of the first phase, counted from step `k` on.
pub open spec fn ell_count1(a: int, b: int, k: nat) -> nat
    decreases (if k <= b + 1 { b + 1 - k } else { 0 }),
{
    if k <= b && ell_cond1(a, b, ell_iter1(a, b, k)) {
        ell_count1(a, b, k + 1)
    } else {
        k
    }
}

/// The number of steps of the first phase.
pub open spec fn ell_n1(a: int, b: int) -> nat {
    ell_count1(a, b, 0)
}

/// Integer division by 4, rounding towards zero.
pub open spec fn div4(v: int) -> int {
    if v >= 0 { v / 4 } else { -((-v) / 4) }
}

/// The state the second phase starts from.
pub open spec fn ell_start2(a: int, b: int) -> EllState {
    let (x, y, f_n, f_nw, d, f_w) = ell_iter1(a, b, ell_n1(a, b));
    let fw = f_nw - f_n + 4 * (b * b);
    let d2 = d + div4(fw + fw - f_n - f_n + 4 * (a * a) + 4 * (b * b) + 8 * (a * a));
    (x, y, f_n, f_nw + (4 * (b * b) - 4 * (a * a)), d2, fw)
}

/// Whether the second phase takes another step from state `s`.
pub open spec fn ell_cond2(a: int, b: int, s: EllState) -> bool {
    s.0 <= a && s.1 >= 0
}

/// One step of the second phase: one column in, and one row up when the
/// decision variable says so.
pub open spec fn ell_step2(a: int, b: int, s: EllState) -> EllState {
    let (x, y, f_n, f_nw, d, f_w) = s;
    if d < 0 {
        (x + 1, y - 1, f_n, f_nw + 8 * (a * a) + 8 * (b * b), d + f_nw, f_w + 8 * (b * b))
    } else {
        (x + 1, y, f_n, f_nw + 8 * (b * b), d + f_w, f_w + 8 * (b * b))
    }
}

/// The state after `k` steps of the second phase.
pub open spec fn ell_iter2(a: int, b: int, k: nat) -> EllState
    decreases k,
{
    if k == 0 {
        ell_start2(a, b)
    } else {
        ell_step2(a, b, ell_iter2(a, b, (k - 1) as nat))
    }
}

/// The number of steps of the second phase, counted from step `k` on.
pub open spec fn ell_count2(a: int, b: int, k: nat) -> nat
    decreases (if k <= a + 1 { a + 1 - k } else { 0 }),
{
    if k <= a && ell_cond2(a, b, ell_iter2(a, b, k)) {
        ell_count2(a, b, k + 1)
    } else {
        k
    }
}

/// The number of steps of the second phase.
pub open spec fn ell_n2(a: int, b: int) -> nat {
    ell_count2(a, b, 0)
}

/// The row the second phase was on before its step `k`.
pub open spec fn ell_prev_y2(a: int, b: int, k: nat) -> int {
    if k == 0 { ell_start2(a, b).1 + 1 } else { ell_iter2(a, b, (k - 1) as nat).1 }
}

/// `(i, j)` is one of the four mirror images of the offsets `(x, y)` in the box.
pub open spec fn quad_hit(left: int, top: int, right: int, bottom: int, x: int, y: int, i: int, j: int) -> bool {
    (i == left + x || i == right - x) && (j == top + y || j == bottom - y)
}

/// `(i, j)` lies on one of the two rows of the offset `y`, between the two
/// columns of the offset `x`.
pub open spec fn row_hit(left: int, top: int, right: int, bottom: int, x: int, y: int, i: int, j: int) -> bool {
    left + x <= i <= right - x && (j == top + y || j == bottom - y)
}

/// The half width and half height of a box.
pub open spec fn half(lo: int, hi: int) -> int {
    (hi - lo) / 2
}

/// Whether `border_ellipse` paints `(i, j)` for the box `left..=right`, `top..=bottom`.
pub open spec fn on_ellipse_border(left: int, top: int, right: int, bottom: int, i: int, j: int) -> bool {
    let a = half(left, right);
    let b = half(top, bottom);
    ||| exists|k: nat| k < ell_n1(a, b) && #[trigger] quad_hit(left, top, right, bottom, ell_iter1(a, b, k).0, ell_iter1(a, b, k).1, i, j)
    ||| exists|k: nat| k < ell_n2(a, b) && #[trigger] quad_hit(left, top, right, bottom, ell_iter2(a, b, k).0, ell_iter2(a, b, k).1, i, j)
}

/// Whether `fill_ellipse` paints `(i, j)` for the box `left..=right`, `top..=bottom`.
pub open spec fn in_filled_ellipse(left: int, top: int, right: int, bottom: int, i: int, j: int) -> bool {
    let a = half(left, right);
    let b = half(top, bottom);
    ||| exists|k: nat| k < ell_n1(a, b) && #[trigger] row_hit(left, top, right, bottom, ell_iter1(a, b, k).0, ell_iter1(a, b, k).1, i, j)
    ||| exists|k: nat| k < ell_n2(a, b) && ell_iter2(a, b, k).1 != ell_prev_y2(a, b, k)
        && #[trigger] row_hit(left, top, right, bottom, ell_iter2(a, b, k).0, ell_iter2(a, b, k).1, i, j)
}


/// Absolute value.
pub open spec fn iabs(v: int) -> int {
    if v < 0 { -v } else { v }
}

/// The quantities the algorithm sets up before tracing (`12 a^2`,
/// `8 a^2 + 8 b^2`, `8 b^2 a` and `12 a^2 - 8 b^2 a + 8 b^2`) fit in an
/// `i32`, for the half width `a` and half height `b` of the box.
pub open spec fn ellipse_fits(a: int, b: int) -> bool {
    &&& 12 * (a * a) <= i32::MAX
    &&& 8 * (a * a) + 8 * (b * b) <= i32::MAX
    &&& 8 * ((b * b) * a) <= i32::MAX
    &&& 12 * (a * a) - 8 * ((b * b) * a) + 8 * (b * b) <= i32::MAX
}

/// The ellipse inscribed in the box with corners `(x0, y0)` and `(x1, y1)`,
/// in either order, fits (see `ellipse_fits`).
pub open spec fn corners_fit(x0: int, y0: int, x1: int, y1: int) -> bool {
    let a = if x0 <= x1 { half(x0, x1) } else { half(x1, x0) };
    let b = if y0 <= y1 { half(y0, y1) } else { half(y1, y0) };
    ellipse_fits(a, b)
}

/// Half sides that fit are at most 16384.
pub proof fn lemma_fits_small(a: int, b: int)
    requires
        0 <= a,
        0 <= b,
        ellipse_fits(a, b),
    ensures
        a <= 16384,
        b <= 16384,
{
    assert(a <= 16384) by (nonlinear_arith)
        requires
            0 <= a,
            12 * (a * a) <= 0x7FFF_FFFF,
    ;
    assert(b <= 16384) by (nonlinear_arith)
        requires
            0 <= b,
            0 <= a * a,
            8 * (a * a) + 8 * (b * b) <= 0x7FFF_FFFF,
    ;
}

/// Whether the ellipse with half width `a` and half height `b` fits (see
/// `ellipse_fits`).
pub fn ellipse_fits_check(a: i64, b: i64) -> (ok: bool)
    requires
        0 <= a <= 0x1_0000_0000,
        0 <= b <= 0x1_0000_0000,
    ensures
        ok == ellipse_fits(a as int, b as int),
{
    if a > 16384 || b > 16384 {
        proof {
            if ellipse_fits(a as int, b as int) {
                lemma_fits_small(a as int, b as int);
            }
        }
        return false;
    }
    proof {
        lemma_squares(a as int, b as int);
    }
    let a2 = a * a;
    let b2 = b * b;
    assert(b2 * a <= 0x400_0000_0000) by (nonlinear_arith)
        requires
            0 <= a <= 16384,
            0 <= b2 <= 0x1000_0000,
    ;
    let max: i64 = 0x7FFF_FFFF;
    let b2a = b2 * a;
    12 * a2 <= max && 8 * a2 + 8 * b2 <= max && 8 * b2a <= max && 12 * a2 - 8 * b2a + 8 * b2 <= max
}

proof fn lemma_squares(a: int, b: int)
    requires
        0 <= a <= 16384,
        0 <= b <= 16384,
    ensures
        0 <= a * a <= 0x1000_0000,
        0 <= b * b <= 0x1000_0000,
        0 <= (b * b) * a <= 0x400_0000_0000,
{
    assert(0 <= a * a <= 0x1000_0000) by (nonlinear_arith)
        requires
            0 <= a <= 16384,
    ;
    assert(0 <= b * b <= 0x1000_0000) by (nonlinear_arith)
        requires
            0 <= b <= 16384,
    ;
    assert(0 <= (b * b) * a <= 0x400_0000_0000) by (nonlinear_arith)
        requires
            0 <= a <= 16384,
            0 <= b * b <= 0x1000_0000,
    ;
}

/// Where the first phase stands after `k` steps.
proof fn lemma_iter1_pos(a: int, b: int, k: nat)
    ensures
        ell_iter1(a, b, k).1 == b - k,
        0 <= ell_iter1(a, b, k).0 <= k,
    decreases k,
{
    if k > 0 {
        lemma_iter1_pos(a, b, (k - 1) as nat);
    }
}

/// Bounds on the states of the first phase, for half sides of at most 16384.
proof fn lemma_iter1_facts(a: int, b: int, k: nat)
    requires
        0 <= a <= 16384,
        0 <= b <= 16384,
        k <= 16385,
    ensures
        ell_iter1(a, b, k).1 == b - k,
        0 <= ell_iter1(a, b, k).0 <= k,
        iabs(ell_iter1(a, b, k).2) <= 0x4000_0000_0000 + 0x2_0000_0000 * k,
        iabs(ell_iter1(a, b, k).3) <= 0x4000_0000_0000 + 0x2_0000_0000 * k,
        iabs(ell_iter1(a, b, k).4) <= 0x2000_0000_0000 + 0x1_0000_0000_0000 * k,
    decreases k,
{
    lemma_squares(a, b);
    lemma_iter1_pos(a, b, k);
    if k > 0 {
        lemma_iter1_facts(a, b, (k - 1) as nat);
    }
}

proof fn lemma_count1(a: int, b: int, k: nat)
    ensures
        k <= ell_count1(a, b, k),
        ell_count1(a, b, k) <= if k <= b + 1 { b + 1 } else { k as int },
        forall|j: nat| k <= j < ell_count1(a, b, k) ==> j <= b && #[trigger] ell_cond1(a, b, ell_iter1(a, b, j)),
        ell_count1(a, b, k) > b || !ell_cond1(a, b, ell_iter1(a, b, ell_count1(a, b, k))),
    decreases (if k <= b + 1 { b + 1 - k } else { 0 }),
{
    if k <= b && ell_cond1(a, b, ell_iter1(a, b, k)) {
        lemma_count1(a, b, k + 1);
        assert forall|j: nat| k <= j < ell_count1(a, b, k) implies j <= b && #[trigger] ell_cond1(a, b, ell_iter1(a, b, j)) by {
            if j > k {
            }
        }
    }
}

proof fn lemma_count2(a: int, b: int, k: nat)
    ensures
        k <= ell_count2(a, b, k),
        ell_count2(a, b, k) <= if k <= a + 1 { a + 1 } else { k as int },
    decreases (if k <= a + 1 { a + 1 - k } else { 0 }),
{
    if k <= a && ell_cond2(a, b, ell_iter2(a, b, k)) {
        lemma_count2(a, b, k + 1);
    }
}

/// Where the second phase stands after `k` steps.
proof fn lemma_iter2_pos(a: int, b: int, k: nat)
    requires
        0 <= b,
    ensures
        ell_iter2(a, b, k).0 == ell_start2(a, b).0 + k,
        ell_start2(a, b).1 - k <= ell_iter2(a, b, k).1 <= ell_start2(a, b).1,
        0 <= ell_start2(a, b).0,
        ell_start2(a, b).1 <= b,
    decreases k,
{
    if k > 0 {
        lemma_iter2_pos(a, b, (k - 1) as nat);
    } else {
        lemma_count1(a, b, 0);
        lemma_iter1_pos(a, b, ell_n1(a, b));
    }
}

/// Bounds on the states of the second phase.
proof fn lemma_iter2_facts(a: int, b: int, k: nat)
    requires
        0 <= a <= 16384,
        0 <= b <= 16384,
        k <= 16385,
    ensures
        ell_iter2(a, b, k).0 == ell_start2(a, b).0 + k,
        ell_start2(a, b).1 - k <= ell_iter2(a, b, k).1 <= ell_start2(a, b).1,
        0 <= ell_start2(a, b).0,
        ell_start2(a, b).1 <= b,
        iabs(ell_iter2(a, b, k).3) <= 0x2_0000_0000_0000 + 0x2_0000_0000 * k,
        iabs(ell_iter2(a, b, k).5) <= 0x4_0000_0000_0000 + 0x2_0000_0000 * k,
        iabs(ell_iter2(a, b, k).4) <= 0x1_0000_0000_0000_0000 + 0x8_0000_0000_0000 * k,
    decreases k,
{
    lemma_squares(a, b);
    lemma_iter2_pos(a, b, k);
    if k > 0 {
        lemma_iter2_facts(a, b, (k - 1) as nat);
    } else {
        lemma_count1(a, b, 0);
        let n1 = ell_n1(a, b);
        lemma_iter1_facts(a, b, n1);
        let (x, y, f_n, f_nw, d, f_w) = ell_iter1(a, b, n1);
        let fw = f_nw - f_n + 4 * (b * b);
        let v = fw + fw - f_n - f_n + 4 * (a * a) + 4 * (b * b) + 8 * (a * a);
        assert(iabs(div4(v)) <= iabs(v));
    }
}


/// The four mirror images of step `k` of the first phase are on the outline.
proof fn lemma_border_step1(left: int, top: int, right: int, bottom: int, k: nat)
    requires
        k < ell_n1(half(left, right), half(top, bottom)),
    ensures
        ({
            let (x, y) = (ell_iter1(half(left, right), half(top, bottom), k).0, ell_iter1(half(left, right), half(top, bottom), k).1);
            &&& on_ellipse_border(left, top, right, bottom, left + x, top + y)
            &&& on_ellipse_border(left, top, right, bottom, right - x, top + y)
            &&& on_ellipse_border(left, top, right, bottom, left + x, bottom - y)
            &&& on_ellipse_border(left, top, right, bottom, right - x, bottom - y)
        }),
{
    let a = half(left, right);
    let b = half(top, bottom);
    let (x, y) = (ell_iter1(a, b, k).0, ell_iter1(a, b, k).1);
    assert(quad_hit(left, top, right, bottom, x, y, left + x, top + y));
    assert(quad_hit(left, top, right, bottom, x, y, right - x, top + y));
    assert(quad_hit(left, top, right, bottom, x, y, left + x, bottom - y));
    assert(quad_hit(left, top, right, bottom, x, y, right - x, bottom - y));
}

/// The four mirror images of step `k` of the second phase are on the outline.
proof fn lemma_border_step2(left: int, top: int, right: int, bottom: int, k: nat)
    requires
        k < ell_n2(half(left, right), half(top, bottom)),
    ensures
        ({
            let (x, y) = (ell_iter2(half(left, right), half(top, bottom), k).0, ell_iter2(half(left, right), half(top, bottom), k).1);
            &&& on_ellipse_border(left, top, right, bottom, left + x, top + y)
            &&& on_ellipse_border(left, top, right, bottom, right - x, top + y)
            &&& on_ellipse_border(left, top, right, bottom, left + x, bottom - y)
            &&& on_ellipse_border(left, top, right, bottom, right - x, bottom - y)
        }),
{
    let a = half(left, right);
    let b = half(top, bottom);
    let (x, y) = (ell_iter2(a, b, k).0, ell_iter2(a, b, k).1);
    assert(quad_hit(left, top, right, bottom, x, y, left + x, top + y));
    assert(quad_hit(left, top, right, bottom, x, y, right - x, top + y));
    assert(quad_hit(left, top, right, bottom, x, y, left + x, bottom - y));
    assert(quad_hit(left, top, right, bottom, x, y, right - x, bottom - y));
}

/// The ends of the two rows of step `k` of the first phase are in the
/// filled ellipse, when the step lies in the quarter.
proof fn lemma_fill_step1(left: int, top: int, right: int, bottom: int, k: nat)
    requires
        k < ell_n1(half(left, right), half(top, bottom)),
        0 <= ell_iter1(half(left, right), half(top, bottom), k).0 <= half(left, right),
        left <= right,
    ensures
        ({
            let (x, y) = (ell_iter1(half(left, right), half(top, bottom), k).0, ell_iter1(half(left, right), half(top, bottom), k).1);
            &&& in_filled_ellipse(left, top, right, bottom, left + x, top + y)
            &&& in_filled_ellipse(left, top, right, bottom, right - x, top + y)
            &&& in_filled_ellipse(left, top, right, bottom, left + x, bottom - y)
            &&& in_filled_ellipse(left, top, right, bottom, right - x, bottom - y)
        }),
{
    let a = half(left, right);
    let b = half(top, bottom);
    let (x, y) = (ell_iter1(a, b, k).0, ell_iter1(a, b, k).1);
    assert(row_hit(left, top, right, bottom, x, y, left + x, top + y));
    assert(row_hit(left, top, right, bottom, x, y, right - x, top + y));
    assert(row_hit(left, top, right, bottom, x, y, left + x, bottom - y));
    assert(row_hit(left, top, right, bottom, x, y, right - x, bottom - y));
}

/// The ends of the two rows of step `k` of the second phase, when that step
/// paints, are in the filled ellipse.
proof fn lemma_fill_step2(left: int, top: int, right: int, bottom: int, k: nat)
    requires
        k < ell_n2(half(left, right), half(top, bottom)),
        ell_iter2(half(left, right), half(top, bottom), k).1 != ell_prev_y2(half(left, right), half(top, bottom), k),
        0 <= ell_iter2(half(left, right), half(top, bottom), k).0 <= half(left, right),
        left <= right,
    ensures
        ({
            let (x, y) = (ell_iter2(half(left, right), half(top, bottom), k).0, ell_iter2(half(left, right), half(top, bottom), k).1);
            &&& in_filled_ellipse(left, top, right, bottom, left + x, top + y)
            &&& in_filled_ellipse(left, top, right, bottom, right - x, top + y)
            &&& in_filled_ellipse(left, top, right, bottom, left + x, bottom - y)
            &&& in_filled_ellipse(left, top, right, bottom, right - x, bottom - y)
        }),
{
    let a = half(left, right);
    let b = half(top, bottom);
    let (x, y) = (ell_iter2(a, b, k).0, ell_iter2(a, b, k).1);
    assert(row_hit(left, top, right, bottom, x, y, left + x, top + y));
    assert(row_hit(left, top, right, bottom, x, y, right - x, top + y));
    assert(row_hit(left, top, right, bottom, x, y, left + x, bottom - y));
    assert(row_hit(left, top, right, bottom, x, y, right - x, bottom - y));
}

/// Paints the four mirror images of the offsets `(x, y)` in the box.
fn paint_quad(sprite: &mut Sprite, left: i32, top: i32, right: i32, bottom: i32, x: i32, y: i32, col: u32)
    requires
        old(sprite).wf(),
        left <= right,
        top <= bottom,
        old(sprite).in_bounds(left + x, top + y),
        old(sprite).in_bounds(right - x, top + y),
        old(sprite).in_bounds(left + x, bottom - y),
        old(sprite).in_bounds(right - x, bottom - y),
        0 <= x <= half(left as int, right as int),
        0 <= y <= half(top as int, bottom as int),
    ensures
        final(sprite).wf(),
        final(sprite).w() == old(sprite).w(),
        final(sprite).h() == old(sprite).h(),
        forall|i: int, j: int| #[trigger] final(sprite).in_bounds(i, j) ==> final(sprite).px(i, j) ==
            if quad_hit(left as int, top as int, right as int, bottom as int, x as int, y as int, i, j) {
                col
            } else {
                old(sprite).px(i, j)
            },
{
    let (red, green, blue, alpha) = get_rgba(col);
    proof {
        lemma_pack_unpack(col);
    }
    let ghost s0 = *sprite;
    sprite.put_pixel((left + x) as u32, (top + y) as u32, red, green, blue, alpha);
    let ghost s1 = *sprite;
    sprite.put_pixel((right - x) as u32, (top + y) as u32, red, green, blue, alpha);
    let ghost s2 = *sprite;
    sprite.put_pixel((left + x) as u32, (bottom - y) as u32, red, green, blue, alpha);
    let ghost s3 = *sprite;
    sprite.put_pixel((right - x) as u32, (bottom - y) as u32, red, green, blue, alpha);
    assert forall|i: int, j: int| #[trigger] sprite.in_bounds(i, j) implies sprite.px(i, j) ==
        if quad_hit(left as int, top as int, right as int, bottom as int, x as int, y as int, i, j) {
            col
        } else {
            s0.px(i, j)
        } by {
        assert(s3.in_bounds(i, j) && s2.in_bounds(i, j) && s1.in_bounds(i, j));
    }
}

/// Draws the outline of the ellipse inscribed in the box `left..=right`,
/// `top..=bottom` in colour `col` (Van Aken's algorithm), for boxes whose
/// set-up quantities fit in an `i32` (see `ellipse_fits`).
#[verifier::rlimit(40)]
pub fn border_ellipse(sprite: &mut Sprite, left: i32, top: i32, right: i32, bottom: i32, col: u32)
    requires
        old(sprite).wf(),
        left <= right,
        top <= bottom,
        ellipse_fits(half(left as int, right as int), half(top as int, bottom as int)),
        forall|i: int, j: int| #[trigger] on_ellipse_border(left as int, top as int, right as int, bottom as int, i, j)
            ==> old(sprite).in_bounds(i, j),
    ensures
        final(sprite).wf(),
        final(sprite).w() == old(sprite).w(),
        final(sprite).h() == old(sprite).h(),
        forall|i: int, j: int| #[trigger] final(sprite).in_bounds(i, j) ==> final(sprite).px(i, j) ==
            if on_ellipse_border(left as int, top as int, right as int, bottom as int, i, j) {
                col
            } else {
                old(sprite).px(i, j)
            },
{
    let ghost s0 = *sprite;
    let ghost ga = half(left as int, right as int);
    let ghost gb = half(top as int, bottom as int);
    proof {
        lemma_fits_small(ga, gb);
    }
    let a: i128 = ((right - left) / 2) as i128;
    let b: i128 = ((bottom - top) / 2) as i128;
    proof {
        lemma_fits_small(ga, gb);
        lemma_squares(a as int, b as int);
        lemma_count1(ga, gb, 0);
    }
    let mut x: i128 = 0;
    let mut y: i128 = b;

    let a2 = a * a;
    let b2 = b * b;
    let a2b2 = a2 + b2;
    let a2sqr = a2 + a2;
    let b2sqr = b2 + b2;
    let a4sqr = a2sqr + a2sqr;
    let b4sqr = b2sqr + b2sqr;
    let a8sqr = a4sqr + a4sqr;
    let b8sqr = b4sqr + b4sqr;
    let a4sqr_b4sqr = a4sqr + b4sqr;

    assert(b8sqr * a <= 0x2000_0000_0000 && b4sqr * a <= 0x1000_0000_0000 && b8sqr * a == 8 * ((b * b) * a)
        && b4sqr * a == 4 * ((b * b) * a)) by (nonlinear_arith)
        requires
            b8sqr == 8 * b2,
            b4sqr == 4 * b2,
            b2 == b * b,
            0 <= b2 <= 0x1000_0000,
            0 <= a <= 16384,
    ;
    let mut f_n = a8sqr + a4sqr;
    let f_nn = a8sqr;
    let f_nnw = a8sqr;
    let mut f_nw = a8sqr + a4sqr - b8sqr * a + b8sqr;
    let f_nwn = a8sqr;
    let f_nwnw = a8sqr + b8sqr;
    let f_nww = b8sqr;
    let f_wnw = b8sqr;
    let f_ww = b8sqr;
    let mut d1 = b2 - b4sqr * a + a4sqr;
    let ghost mut k: nat = 0;

    while (f_nw < a2b2 || d1 < 0 || ((f_nw - f_n) > b2 && y > 0)) && y >= 0 && x <= a
        invariant
            s0.wf(),
            sprite.wf(),
            sprite.w() == s0.w(),
            sprite.h() == s0.h(),
            forall|i: int, j: int| #[trigger] on_ellipse_border(left as int, top as int, right as int, bottom as int, i, j)
                ==> s0.in_bounds(i, j),
            left <= right,
            top <= bottom,
            a == ga,
            b == gb,
            ga == half(left as int, right as int),
            gb == half(top as int, bottom as int),
            0 <= a <= 16384,
            0 <= b <= 16384,
            a2 == a * a,
            b2 == b * b,
            a2b2 == (a * a) + (b * b),
            f_nn == 8 * (a * a),
            f_nnw == 8 * (a * a),
            f_nwn == 8 * (a * a),
            f_nwnw == 8 * (a * a) + 8 * (b * b),
            0 <= a * a <= 0x1000_0000,
            0 <= b * b <= 0x1000_0000,
            k <= b + 1,
            ell_count1(ga, gb, 0) == ell_count1(ga, gb, k),
            x == ell_iter1(ga, gb, k).0,
            y == ell_iter1(ga, gb, k).1,
            f_n == ell_iter1(ga, gb, k).2,
            f_nw == ell_iter1(ga, gb, k).3,
            d1 == ell_iter1(ga, gb, k).4,
            0 <= x <= k,
            y == b - k,
            iabs(f_n as int) <= 0x1_0000_0000_0000,
            iabs(f_nw as int) <= 0x1_0000_0000_0000,
            iabs(d1 as int) <= 0x8000_0000_0000_0000,
            forall|i: int, j: int| #[trigger] sprite.in_bounds(i, j) ==> sprite.px(i, j) ==
                if exists|kk: nat| kk < k && #[trigger] quad_hit(left as int, top as int, right as int, bottom as int,
                    ell_iter1(ga, gb, kk).0, ell_iter1(ga, gb, kk).1, i, j) {
                    col
                } else {
                    s0.px(i, j)
                },
        decreases b + 1 - k,
    {
        proof {
            lemma_iter1_facts(ga, gb, k);
            lemma_iter1_facts(ga, gb, k + 1);
        }
        proof {
            lemma_count1(ga, gb, k + 1);
            lemma_border_step1(left as int, top as int, right as int, bottom as int, k);
        }
        let ghost prev = *sprite;
        paint_quad(sprite, left, top, right, bottom, x as i32, y as i32, col);
        proof {
            assert forall|i: int, j: int| #[trigger] sprite.in_bounds(i, j) implies sprite.px(i, j) ==
                if exists|kk: nat| kk < k + 1 && #[trigger] quad_hit(left as int, top as int, right as int, bottom as int,
                    ell_iter1(ga, gb, kk).0, ell_iter1(ga, gb, kk).1, i, j) {
                    col
                } else {
                    s0.px(i, j)
                } by {
                assert(prev.in_bounds(i, j));
                if quad_hit(left as int, top as int, right as int, bottom as int, x as int, y as int, i, j) {
                    assert(quad_hit(left as int, top as int, right as int, bottom as int,
                        ell_iter1(ga, gb, k).0, ell_iter1(ga, gb, k).1, i, j));
                } else {
                    if exists|kk: nat| kk < k + 1 && #[trigger] quad_hit(left as int, top as int, right as int, bottom as int,
                        ell_iter1(ga, gb, kk).0, ell_iter1(ga, gb, kk).1, i, j) {
                        let kk = choose|kk: nat| kk < k + 1 && #[trigger] quad_hit(left as int, top as int, right as int, bottom as int,
                            ell_iter1(ga, gb, kk).0, ell_iter1(ga, gb, kk).1, i, j);
                        assert(kk != k);
                    }
                }
            }
        }
        y -= 1;
        if (d1 < 0) || ((f_nw - f_n) > b2) {
            d1 += f_n;
            f_n += f_nn;
            f_nw += f_nwn;
        } else {
            x += 1;
            d1 += f_nw;
            f_n += f_nnw;
            f_nw += f_nwnw;
        }
        proof {
            k = k + 1;
        }
    }
    proof {
        lemma_iter1_facts(ga, gb, k);
        assert(ell_count1(ga, gb, k) == k);
        lemma_count2(ga, gb, 0);
    }

    let mut f_w = f_nw - f_n + b4sqr;
    let mut d2 = d1 + div4_exec(f_w + f_w - f_n - f_n + a4sqr_b4sqr + a8sqr);
    f_nw = f_nw + (b4sqr - a4sqr);
    let ghost mut k2: nat = 0;
    let ghost n1: nat = k;

    while x <= a && y >= 0
        invariant
            s0.wf(),
            sprite.wf(),
            sprite.w() == s0.w(),
            sprite.h() == s0.h(),
            forall|i: int, j: int| #[trigger] on_ellipse_border(left as int, top as int, right as int, bottom as int, i, j)
                ==> s0.in_bounds(i, j),
            left <= right,
            top <= bottom,
            a == ga,
            b == gb,
            ga == half(left as int, right as int),
            gb == half(top as int, bottom as int),
            0 <= a <= 16384,
            0 <= b <= 16384,
            n1 == ell_n1(ga, gb),
            f_nwnw == 8 * (a * a) + 8 * (b * b),
            f_nww == 8 * (b * b),
            f_wnw == 8 * (b * b),
            f_ww == 8 * (b * b),
            0 <= a * a <= 0x1000_0000,
            0 <= b * b <= 0x1000_0000,
            k2 <= a + 1,
            ell_count2(ga, gb, 0) == ell_count2(ga, gb, k2),
            x == ell_iter2(ga, gb, k2).0,
            y == ell_iter2(ga, gb, k2).1,
            f_nw == ell_iter2(ga, gb, k2).3,
            d2 == ell_iter2(ga, gb, k2).4,
            f_w == ell_iter2(ga, gb, k2).5,
            0 <= x,
            y <= b,
            iabs(f_nw as int) <= 0x8_0000_0000_0000,
            iabs(f_w as int) <= 0x8_0000_0000_0000,
            iabs(d2 as int) <= 0x4_0000_0000_0000_0000,
            forall|i: int, j: int| #[trigger] sprite.in_bounds(i, j) ==> sprite.px(i, j) ==
                if (exists|kk: nat| kk < n1 && #[trigger] quad_hit(left as int, top as int, right as int, bottom as int,
                    ell_iter1(ga, gb, kk).0, ell_iter1(ga, gb, kk).1, i, j))
                    || (exists|kk: nat| kk < k2 && #[trigger] quad_hit(left as int, top as int, right as int, bottom as int,
                    ell_iter2(ga, gb, kk).0, ell_iter2(ga, gb, kk).1, i, j)) {
                    col
                } else {
                    s0.px(i, j)
                },
        decreases a + 1 - k2,
    {
        proof {
            lemma_iter2_facts(ga, gb, k2);
            lemma_iter2_facts(ga, gb, k2 + 1);
        }
        proof {
            lemma_count2(ga, gb, k2 + 1);
            lemma_border_step2(left as int, top as int, right as int, bottom as int, k2);
        }
        let ghost prev = *sprite;
        paint_quad(sprite, left, top, right, bottom, x as i32, y as i32, col);
        proof {
            assert forall|i: int, j: int| #[trigger] sprite.in_bounds(i, j) implies sprite.px(i, j) ==
                if (exists|kk: nat| kk < n1 && #[trigger] quad_hit(left as int, top as int, right as int, bottom as int,
                    ell_iter1(ga, gb, kk).0, ell_iter1(ga, gb, kk).1, i, j))
                    || (exists|kk: nat| kk < k2 + 1 && #[trigger] quad_hit(left as int, top as int, right as int, bottom as int,
                    ell_iter2(ga, gb, kk).0, ell_iter2(ga, gb, kk).1, i, j)) {
                    col
                } else {
                    s0.px(i, j)
                } by {
                assert(prev.in_bounds(i, j));
                if quad_hit(left as int, top as int, right as int, bottom as int, x as int, y as int, i, j) {
                    assert(quad_hit(left as int, top as int, right as int, bottom as int,
                        ell_iter2(ga, gb, k2).0, ell_iter2(ga, gb, k2).1, i, j));
                } else {
                    if exists|kk: nat| kk < k2 + 1 && #[trigger] quad_hit(left as int, top as int, right as int, bottom as int,
                        ell_iter2(ga, gb, kk).0, ell_iter2(ga, gb, kk).1, i, j) {
                        let kk = choose|kk: nat| kk < k2 + 1 && #[trigger] quad_hit(left as int, top as int, right as int, bottom as int,
                            ell_iter2(ga, gb, kk).0, ell_iter2(ga, gb, kk).1, i, j);
                        assert(kk != k2);
                    }
                }
            }
        }
        x += 1;
        if d2 < 0 {
            y -= 1;
            d2 += f_nw;
            f_w += f_wnw;
            f_nw += f_nwnw;
        } else {
            d2 += f_w;
            f_w += f_ww;
            f_nw += f_nww;
        }
        proof {
            k2 = k2 + 1;
        }
    }
    proof {
        assert(ell_count2(ga, gb, k2) == k2);
    }
}

/// Paints the two mirrored rows of the offset `y`, between the two columns
/// of the offset `x`.
fn paint_rows(sprite: &mut Sprite, left: i32, top: i32, right: i32, bottom: i32, x: i32, y: i32, col: u32)
    requires
        old(sprite).wf(),
        left <= right,
        top <= bottom,
        old(sprite).in_bounds(left + x, top + y),
        old(sprite).in_bounds(right - x, top + y),
        old(sprite).in_bounds(left + x, bottom - y),
        old(sprite).in_bounds(right - x, bottom - y),
        0 <= x <= half(left as int, right as int),
        0 <= y <= half(top as int, bottom as int),
    ensures
        final(sprite).wf(),
        final(sprite).w() == old(sprite).w(),
        final(sprite).h() == old(sprite).h(),
        forall|i: int, j: int| #[trigger] final(sprite).in_bounds(i, j) ==> final(sprite).px(i, j) ==
            if row_hit(left as int, top as int, right as int, bottom as int, x as int, y as int, i, j) {
                col
            } else {
                old(sprite).px(i, j)
            },
{
    let ghost s0 = *sprite;
    draw_horizontal_line(sprite, left + x, right - x, top + y, col);
    let ghost s1 = *sprite;
    draw_horizontal_line(sprite, left + x, right - x, bottom - y, col);
    assert forall|i: int, j: int| #[trigger] sprite.in_bounds(i, j) implies sprite.px(i, j) ==
        if row_hit(left as int, top as int, right as int, bottom as int, x as int, y as int, i, j) {
            col
        } else {
            s0.px(i, j)
        } by {
        assert(s1.in_bounds(i, j));
    }
}

/// Fills the ellipse inscribed in the box `left..=right`, `top..=bottom`
/// with colour `col`, one pair of mirrored rows per row of the quarter
/// (Van Aken's algorithm), for boxes whose set-up quantities fit in an
/// `i32` (see `ellipse_fits`).
#[verifier::rlimit(40)]
pub fn fill_ellipse(sprite: &mut Sprite, left: i32, top: i32, right: i32, bottom: i32, col: u32)
    requires
        old(sprite).wf(),
        left <= right,
        top <= bottom,
        ellipse_fits(half(left as int, right as int), half(top as int, bottom as int)),
        forall|i: int, j: int| #[trigger] in_filled_ellipse(left as int, top as int, right as int, bottom as int, i, j)
            ==> old(sprite).in_bounds(i, j),
    ensures
        final(sprite).wf(),
        final(sprite).w() == old(sprite).w(),
        final(sprite).h() == old(sprite).h(),
        forall|i: int, j: int| #[trigger] final(sprite).in_bounds(i, j) ==> final(sprite).px(i, j) ==
            if in_filled_ellipse(left as int, top as int, right as int, bottom as int, i, j) {
                col
            } else {
                old(sprite).px(i, j)
            },
{
    let ghost s0 = *sprite;
    let ghost ga = half(left as int, right as int);
    let ghost gb = half(top as int, bottom as int);
    proof {
        lemma_fits_small(ga, gb);
    }
    let a: i128 = ((right - left) / 2) as i128;
    let b: i128 = ((bottom - top) / 2) as i128;
    proof {
        lemma_fits_small(ga, gb);
        lemma_squares(a as int, b as int);
        lemma_count1(ga, gb, 0);
    }
    let mut x: i128 = 0;
    let mut y: i128 = b;

    let a2 = a * a;
    let b2 = b * b;
    let a2b2 = a2 + b2;
    let a2sqr = a2 + a2;
    let b2sqr = b2 + b2;
    let a4sqr = a2sqr + a2sqr;
    let b4sqr = b2sqr + b2sqr;
    let a8sqr = a4sqr + a4sqr;
    let b8sqr = b4sqr + b4sqr;
    let a4sqr_b4sqr = a4sqr + b4sqr;

    assert(b8sqr * a <= 0x2000_0000_0000 && b4sqr * a <= 0x1000_0000_0000 && b8sqr * a == 8 * ((b * b) * a)
        && b4sqr * a == 4 * ((b * b) * a)) by (nonlinear_arith)
        requires
            b8sqr == 8 * b2,
            b4sqr == 4 * b2,
            b2 == b * b,
            0 <= b2 <= 0x1000_0000,
            0 <= a <= 16384,
    ;
    let mut f_n = a8sqr + a4sqr;
    let f_nn = a8sqr;
    let f_nnw = a8sqr;
    let mut f_nw = a8sqr + a4sqr - b8sqr * a + b8sqr;
    let f_nwn = a8sqr;
    let f_nwnw = a8sqr + b8sqr;
    let f_nww = b8sqr;
    let f_wnw = b8sqr;
    let f_ww = b8sqr;
    let mut d1 = b2 - b4sqr * a + a4sqr;
    let ghost mut k: nat = 0;

    while (f_nw < a2b2 || d1 < 0 || ((f_nw - f_n) > b2 && y > 0)) && y >= 0 && x <= a
        invariant
            s0.wf(),
            sprite.wf(),
            sprite.w() == s0.w(),
            sprite.h() == s0.h(),
            forall|i: int, j: int| #[trigger] in_filled_ellipse(left as int, top as int, right as int, bottom as int, i, j)
                ==> s0.in_bounds(i, j),
            left <= right,
            top <= bottom,
            a == ga,
            b == gb,
            ga == half(left as int, right as int),
            gb == half(top as int, bottom as int),
            0 <= a <= 16384,
            0 <= b <= 16384,
            a2 == a * a,
            b2 == b * b,
            a2b2 == (a * a) + (b * b),
            f_nn == 8 * (a * a),
            f_nnw == 8 * (a * a),
            f_nwn == 8 * (a * a),
            f_nwnw == 8 * (a * a) + 8 * (b * b),
            0 <= a * a <= 0x1000_0000,
            0 <= b * b <= 0x1000_0000,
            k <= b + 1,
            ell_count1(ga, gb, 0) == ell_count1(ga, gb, k),
            x == ell_iter1(ga, gb, k).0,
            y == ell_iter1(ga, gb, k).1,
            f_n == ell_iter1(ga, gb, k).2,
            f_nw == ell_iter1(ga, gb, k).3,
            d1 == ell_iter1(ga, gb, k).4,
            0 <= x <= k,
            y == b - k,
            iabs(f_n as int) <= 0x1_0000_0000_0000,
            iabs(f_nw as int) <= 0x1_0000_0000_0000,
            iabs(d1 as int) <= 0x8000_0000_0000_0000,
            forall|i: int, j: int| #[trigger] sprite.in_bounds(i, j) ==> sprite.px(i, j) ==
                if exists|kk: nat| kk < k && #[trigger] row_hit(left as int, top as int, right as int, bottom as int,
                    ell_iter1(ga, gb, kk).0, ell_iter1(ga, gb, kk).1, i, j) {
                    col
                } else {
                    s0.px(i, j)
                },
        decreases b + 1 - k,
    {
        proof {
            lemma_iter1_facts(ga, gb, k);
            lemma_iter1_facts(ga, gb, k + 1);
        }
        proof {
            lemma_count1(ga, gb, k + 1);
            lemma_fill_step1(left as int, top as int, right as int, bottom as int, k);
        }
        let ghost prev = *sprite;
        paint_rows(sprite, left, top, right, bottom, x as i32, y as i32, col);
        proof {
            assert forall|i: int, j: int| #[trigger] sprite.in_bounds(i, j) implies sprite.px(i, j) ==
                if exists|kk: nat| kk < k + 1 && #[trigger] row_hit(left as int, top as int, right as int, bottom as int,
                    ell_iter1(ga, gb, kk).0, ell_iter1(ga, gb, kk).1, i, j) {
                    col
                } else {
                    s0.px(i, j)
                } by {
                assert(prev.in_bounds(i, j));
                if row_hit(left as int, top as int, right as int, bottom as int, x as int, y as int, i, j) {
                    assert(row_hit(left as int, top as int, right as int, bottom as int,
                        ell_iter1(ga, gb, k).0, ell_iter1(ga, gb, k).1, i, j));
                } else {
                    if exists|kk: nat| kk < k + 1 && #[trigger] row_hit(left as int, top as int, right as int, bottom as int,
                        ell_iter1(ga, gb, kk).0, ell_iter1(ga, gb, kk).1, i, j) {
                        let kk = choose|kk: nat| kk < k + 1 && #[trigger] row_hit(left as int, top as int, right as int, bottom as int,
                            ell_iter1(ga, gb, kk).0, ell_iter1(ga, gb, kk).1, i, j);
                        assert(kk != k);
                    }
                }
            }
        }
        y -= 1;
        if (d1 < 0) || ((f_nw - f_n) > b2) {
            d1 += f_n;
            f_n += f_nn;
            f_nw += f_nwn;
        } else {
            x += 1;
            d1 += f_nw;
            f_n += f_nnw;
            f_nw += f_nwnw;
        }
        proof {
            k = k + 1;
        }
    }
    proof {
        lemma_iter1_facts(ga, gb, k);
        assert(ell_count1(ga, gb, k) == k);
        lemma_count2(ga, gb, 0);
    }

    let mut f_w = f_nw - f_n + b4sqr;
    let mut d2 = d1 + div4_exec(f_w + f_w - f_n - f_n + a4sqr_b4sqr + a8sqr);
    f_nw = f_nw + (b4sqr - a4sqr);
    let ghost mut k2: nat = 0;
    let ghost n1: nat = k;
    let mut old_y = y + 1;

    while x <= a && y >= 0
        invariant
            s0.wf(),
            sprite.wf(),
            sprite.w() == s0.w(),
            sprite.h() == s0.h(),
            forall|i: int, j: int| #[trigger] in_filled_ellipse(left as int, top as int, right as int, bottom as int, i, j)
                ==> s0.in_bounds(i, j),
            left <= right,
            top <= bottom,
            a == ga,
            b == gb,
            ga == half(left as int, right as int),
            gb == half(top as int, bottom as int),
            0 <= a <= 16384,
            0 <= b <= 16384,
            n1 == ell_n1(ga, gb),
            f_nwnw == 8 * (a * a) + 8 * (b * b),
            f_nww == 8 * (b * b),
            f_wnw == 8 * (b * b),
            f_ww == 8 * (b * b),
            0 <= a * a <= 0x1000_0000,
            0 <= b * b <= 0x1000_0000,
            k2 <= a + 1,
            ell_count2(ga, gb, 0) == ell_count2(ga, gb, k2),
            old_y == ell_prev_y2(ga, gb, k2),
            x == ell_iter2(ga, gb, k2).0,
            y == ell_iter2(ga, gb, k2).1,
            f_nw == ell_iter2(ga, gb, k2).3,
            d2 == ell_iter2(ga, gb, k2).4,
            f_w == ell_iter2(ga, gb, k2).5,
            0 <= x,
            y <= b,
            iabs(f_nw as int) <= 0x8_0000_0000_0000,
            iabs(f_w as int) <= 0x8_0000_0000_0000,
            iabs(d2 as int) <= 0x4_0000_0000_0000_0000,
            forall|i: int, j: int| #[trigger] sprite.in_bounds(i, j) ==> sprite.px(i, j) ==
                if (exists|kk: nat| kk < n1 && #[trigger] row_hit(left as int, top as int, right as int, bottom as int,
                    ell_iter1(ga, gb, kk).0, ell_iter1(ga, gb, kk).1, i, j))
                    || (exists|kk: nat| kk < k2 && ell_iter2(ga, gb, kk).1 != ell_prev_y2(ga, gb, kk) && #[trigger] row_hit(left as int, top as int, right as int, bottom as int,
                    ell_iter2(ga, gb, kk).0, ell_iter2(ga, gb, kk).1, i, j)) {
                    col
                } else {
                    s0.px(i, j)
                },
        decreases a + 1 - k2,
    {
        proof {
            lemma_iter2_facts(ga, gb, k2);
            lemma_iter2_facts(ga, gb, k2 + 1);
        }
        proof {
            lemma_count2(ga, gb, k2 + 1);
            if y != old_y {
                lemma_fill_step2(left as int, top as int, right as int, bottom as int, k2);
            }
        }
        let ghost prev = *sprite;
        if y != old_y {
            paint_rows(sprite, left, top, right, bottom, x as i32, y as i32, col);
        }
        proof {
            assert forall|i: int, j: int| #[trigger] sprite.in_bounds(i, j) implies sprite.px(i, j) ==
                if (exists|kk: nat| kk < n1 && #[trigger] row_hit(left as int, top as int, right as int, bottom as int,
                    ell_iter1(ga, gb, kk).0, ell_iter1(ga, gb, kk).1, i, j))
                    || (exists|kk: nat| kk < k2 + 1 && ell_iter2(ga, gb, kk).1 != ell_prev_y2(ga, gb, kk) && #[trigger] row_hit(left as int, top as int, right as int, bottom as int,
                    ell_iter2(ga, gb, kk).0, ell_iter2(ga, gb, kk).1, i, j)) {
                    col
                } else {
                    s0.px(i, j)
                } by {
                assert(prev.in_bounds(i, j));
                if y != old_y && row_hit(left as int, top as int, right as int, bottom as int, x as int, y as int, i, j) {
                    assert(row_hit(left as int, top as int, right as int, bottom as int,
                        ell_iter2(ga, gb, k2).0, ell_iter2(ga, gb, k2).1, i, j));
                } else {
                    if exists|kk: nat| kk < k2 + 1 && ell_iter2(ga, gb, kk).1 != ell_prev_y2(ga, gb, kk) && #[trigger] row_hit(left as int, top as int, right as int, bottom as int,
                        ell_iter2(ga, gb, kk).0, ell_iter2(ga, gb, kk).1, i, j) {
                        let kk = choose|kk: nat| kk < k2 + 1 && ell_iter2(ga, gb, kk).1 != ell_prev_y2(ga, gb, kk) && #[trigger] row_hit(left as int, top as int, right as int, bottom as int,
                            ell_iter2(ga, gb, kk).0, ell_iter2(ga, gb, kk).1, i, j);
                        assert(kk != k2);
                    }
                }
            }
        }
        old_y = y;
        x += 1;
        if d2 < 0 {
            y -= 1;
            d2 += f_nw;
            f_w += f_wnw;
            f_nw += f_nwnw;
        } else {
            d2 += f_w;
            f_w += f_ww;
            f_nw += f_nww;
        }
        proof {
            k2 = k2 + 1;
        }
    }
    proof {
        assert(ell_count2(ga, gb, k2) == k2);
    }
}

/// Integer division by 4, rounding towards zero.
fn div4_exec(v: i128) -> (q: i128)
    requires
        iabs(v as int) <= 0x1000_0000_0000_0000_0000,
    ensures
        q == div4(v as int),
{
    if v >= 0 {
        v / 4
    } else {
        -((-v) / 4)
    }
}

proof fn lemma_count2_steps(a: int, b: int, k: nat)
    ensures
        forall|j: nat| k <= j < ell_count2(a, b, k) ==> ell_cond2(a, b, #[trigger] ell_iter2(a, b, j)),
    decreases (if k <= a + 1 { a + 1 - k } else { 0 }),
{
    if k <= a && ell_cond2(a, b, ell_iter2(a, b, k)) {
        lemma_count2_steps(a, b, k + 1);
        assert(ell_count2(a, b, k) == ell_count2(a, b, k + 1));
        assert forall|j: nat| k <= j < ell_count2(a, b, k) implies ell_cond2(a, b, #[trigger] ell_iter2(a, b, j)) by {
            if j == k {
            } else {
                assert(k + 1 <= j < ell_count2(a, b, k + 1));
            }
        }
    } else {
        assert(ell_count2(a, b, k) == k);
    }
}

/// The offsets of every step of the trace lie in the quarter `0..=a`, `0..=b`.
proof fn lemma_steps_in_quarter(a: int, b: int)
    requires
        0 <= a,
        0 <= b,
    ensures
        forall|k: nat| k < ell_n1(a, b) ==> 0 <= #[trigger] ell_iter1(a, b, k).0 <= a && 0 <= ell_iter1(a, b, k).1 <= b,
        forall|k: nat| k < ell_n2(a, b) ==> 0 <= #[trigger] ell_iter2(a, b, k).0 <= a && 0 <= ell_iter2(a, b, k).1 <= b,
{
    lemma_count1(a, b, 0);
    lemma_count2(a, b, 0);
    lemma_count2_steps(a, b, 0);
    assert forall|k: nat| k < ell_n1(a, b) implies 0 <= #[trigger] ell_iter1(a, b, k).0 <= a && 0 <= ell_iter1(a, b, k).1 <= b by {
        lemma_iter1_pos(a, b, k);
        assert(ell_cond1(a, b, ell_iter1(a, b, k)));
    }
    assert forall|k: nat| k < ell_n2(a, b) implies 0 <= #[trigger] ell_iter2(a, b, k).0 <= a && 0 <= ell_iter2(a, b, k).1 <= b by {
        lemma_iter2_pos(a, b, k);
        assert(ell_cond2(a, b, ell_iter2(a, b, k)));
    }
}

/// Every pixel of the outline, and of the filled ellipse, lies in the box.
pub proof fn lemma_ellipse_in_box(left: int, top: int, right: int, bottom: int, i: int, j: int)
    requires
        left <= right,
        top <= bottom,
        on_ellipse_border(left, top, right, bottom, i, j) || in_filled_ellipse(left, top, right, bottom, i, j),
    ensures
        left <= i <= right,
        top <= j <= bottom,
{
    let a = half(left, right);
    let b = half(top, bottom);
    lemma_steps_in_quarter(a, b);
    if exists|k: nat| k < ell_n1(a, b) && #[trigger] quad_hit(left, top, right, bottom, ell_iter1(a, b, k).0, ell_iter1(a, b, k).1, i, j) {
        let k = choose|k: nat| k < ell_n1(a, b) && #[trigger] quad_hit(left, top, right, bottom, ell_iter1(a, b, k).0, ell_iter1(a, b, k).1, i, j);
        assert(0 <= ell_iter1(a, b, k).0 <= a);
    } else if exists|k: nat| k < ell_n2(a, b) && #[trigger] quad_hit(left, top, right, bottom, ell_iter2(a, b, k).0, ell_iter2(a, b, k).1, i, j) {
        let k = choose|k: nat| k < ell_n2(a, b) && #[trigger] quad_hit(left, top, right, bottom, ell_iter2(a, b, k).0, ell_iter2(a, b, k).1, i, j);
        assert(0 <= ell_iter2(a, b, k).0 <= a);
    } else if exists|k: nat| k < ell_n1(a, b) && #[trigger] row_hit(left, top, right, bottom, ell_iter1(a, b, k).0, ell_iter1(a, b, k).1, i, j) {
        let k = choose|k: nat| k < ell_n1(a, b) && #[trigger] row_hit(left, top, right, bottom, ell_iter1(a, b, k).0, ell_iter1(a, b, k).1, i, j);
        assert(0 <= ell_iter1(a, b, k).0 <= a);
    } else {
        let k = choose|k: nat| k < ell_n2(a, b) && ell_iter2(a, b, k).1 != ell_prev_y2(a, b, k)
            && #[trigger] row_hit(left, top, right, bottom, ell_iter2(a, b, k).0, ell_iter2(a, b, k).1, i, j);
        assert(0 <= ell_iter2(a, b, k).0 <= a);
    }
}

proof fn lemma_mirror_one_way(left: int, top: int, right: int, bottom: int, i: int, j: int)
    ensures
        on_ellipse_border(left, top, right, bottom, i, j) ==> on_ellipse_border(left, top, right, bottom, left + right - i, j)
            && on_ellipse_border(left, top, right, bottom, i, top + bottom - j),
        in_filled_ellipse(left, top, right, bottom, i, j) ==> in_filled_ellipse(left, top, right, bottom, left + right - i, j)
            && in_filled_ellipse(left, top, right, bottom, i, top + bottom - j),
{
    let a = half(left, right);
    let b = half(top, bottom);
    let mi = left + right - i;
    let mj = top + bottom - j;
    if exists|k: nat| k < ell_n1(a, b) && #[trigger] quad_hit(left, top, right, bottom, ell_iter1(a, b, k).0, ell_iter1(a, b, k).1, i, j) {
        let k = choose|k: nat| k < ell_n1(a, b) && #[trigger] quad_hit(left, top, right, bottom, ell_iter1(a, b, k).0, ell_iter1(a, b, k).1, i, j);
        assert(quad_hit(left, top, right, bottom, ell_iter1(a, b, k).0, ell_iter1(a, b, k).1, mi, j));
        assert(quad_hit(left, top, right, bottom, ell_iter1(a, b, k).0, ell_iter1(a, b, k).1, i, mj));
    }
    if exists|k: nat| k < ell_n2(a, b) && #[trigger] quad_hit(left, top, right, bottom, ell_iter2(a, b, k).0, ell_iter2(a, b, k).1, i, j) {
        let k = choose|k: nat| k < ell_n2(a, b) && #[trigger] quad_hit(left, top, right, bottom, ell_iter2(a, b, k).0, ell_iter2(a, b, k).1, i, j);
        assert(quad_hit(left, top, right, bottom, ell_iter2(a, b, k).0, ell_iter2(a, b, k).1, mi, j));
        assert(quad_hit(left, top, right, bottom, ell_iter2(a, b, k).0, ell_iter2(a, b, k).1, i, mj));
    }
    if exists|k: nat| k < ell_n1(a, b) && #[trigger] row_hit(left, top, right, bottom, ell_iter1(a, b, k).0, ell_iter1(a, b, k).1, i, j) {
        let k = choose|k: nat| k < ell_n1(a, b) && #[trigger] row_hit(left, top, right, bottom, ell_iter1(a, b, k).0, ell_iter1(a, b, k).1, i, j);
        assert(row_hit(left, top, right, bottom, ell_iter1(a, b, k).0, ell_iter1(a, b, k).1, mi, j));
        assert(row_hit(left, top, right, bottom, ell_iter1(a, b, k).0, ell_iter1(a, b, k).1, i, mj));
    }
    if exists|k: nat| k < ell_n2(a, b) && ell_iter2(a, b, k).1 != ell_prev_y2(a, b, k)
        && #[trigger] row_hit(left, top, right, bottom, ell_iter2(a, b, k).0, ell_iter2(a, b, k).1, i, j) {
        let k = choose|k: nat| k < ell_n2(a, b) && ell_iter2(a, b, k).1 != ell_prev_y2(a, b, k)
            && #[trigger] row_hit(left, top, right, bottom, ell_iter2(a, b, k).0, ell_iter2(a, b, k).1, i, j);
        assert(row_hit(left, top, right, bottom, ell_iter2(a, b, k).0, ell_iter2(a, b, k).1, mi, j));
        assert(row_hit(left, top, right, bottom, ell_iter2(a, b, k).0, ell_iter2(a, b, k).1, i, mj));
    }
}

/// The outline and the filled ellipse are symmetric about the vertical and
/// the horizontal middle lines of their box.
pub proof fn lemma_ellipse_symmetric(left: int, top: int, right: int, bottom: int, i: int, j: int)
    ensures
        on_ellipse_border(left, top, right, bottom, i, j) == on_ellipse_border(left, top, right, bottom, left + right - i, j),
        on_ellipse_border(left, top, right, bottom, i, j) == on_ellipse_border(left, top, right, bottom, i, top + bottom - j),
        in_filled_ellipse(left, top, right, bottom, i, j) == in_filled_ellipse(left, top, right, bottom, left + right - i, j),
        in_filled_ellipse(left, top, right, bottom, i, j) == in_filled_ellipse(left, top, right, bottom, i, top + bottom - j),
{
    lemma_mirror_one_way(left, top, right, bottom, i, j);
    lemma_mirror_one_way(left, top, right, bottom, left + right - i, j);
    lemma_mirror_one_way(left, top, right, bottom, i, top + bottom - j);
}


/// An ellipse whose box lies in a sprite paints only pixels of the sprite.
pub proof fn lemma_ellipse_in_sprite(s: Sprite, left: int, top: int, right: int, bottom: int)
    requires
        left <= right,
        top <= bottom,
        s.in_bounds(left, top),
        s.in_bounds(right, bottom),
    ensures
        forall|i: int, j: int| #[trigger] on_ellipse_border(left, top, right, bottom, i, j) ==> s.in_bounds(i, j),
        forall|i: int, j: int| #[trigger] in_filled_ellipse(left, top, right, bottom, i, j) ==> s.in_bounds(i, j),
{
    assert forall|i: int, j: int| #[trigger] on_ellipse_border(left, top, right, bottom, i, j) implies s.in_bounds(i, j) by {
        lemma_ellipse_in_box(left, top, right, bottom, i, j);
    }
    assert forall|i: int, j: int| #[trigger] in_filled_ellipse(left, top, right, bottom, i, j) implies s.in_bounds(i, j) by {
        lemma_ellipse_in_box(left, top, right, bottom, i, j);
    }
}


/// Whether step `k` of phase `phase` (1 or 2) of the fill paints, and with
/// which offsets.
spec fn fill_step(a: int, b: int, phase: int, k: nat) -> (bool, int, int) {
    if phase == 1 {
        (k < ell_n1(a, b), ell_iter1(a, b, k).0, ell_iter1(a, b, k).1)
    } else {
        (k < ell_n2(a, b) && ell_iter2(a, b, k).1 != ell_prev_y2(a, b, k), ell_iter2(a, b, k).0, ell_iter2(a, b, k).1)
    }
}

/// A pixel of the filled ellipse comes from a step of the fill that paints.
proof fn lemma_filled_step(left: int, top: int, right: int, bottom: int, i: int, j: int) -> (r: (int, nat))
    requires
        in_filled_ellipse(left, top, right, bottom, i, j),
    ensures
        fill_step(half(left, right), half(top, bottom), r.0, r.1).0,
        row_hit(left, top, right, bottom, fill_step(half(left, right), half(top, bottom), r.0, r.1).1,
            fill_step(half(left, right), half(top, bottom), r.0, r.1).2, i, j),
{
    let a = half(left, right);
    let b = half(top, bottom);
    if exists|k: nat| k < ell_n1(a, b) && #[trigger] row_hit(left, top, right, bottom, ell_iter1(a, b, k).0, ell_iter1(a, b, k).1, i, j) {
        let k = choose|k: nat| k < ell_n1(a, b) && #[trigger] row_hit(left, top, right, bottom, ell_iter1(a, b, k).0, ell_iter1(a, b, k).1, i, j);
        (1, k)
    } else {
        let k = choose|k: nat| k < ell_n2(a, b) && ell_iter2(a, b, k).1 != ell_prev_y2(a, b, k)
            && #[trigger] row_hit(left, top, right, bottom, ell_iter2(a, b, k).0, ell_iter2(a, b, k).1, i, j);
        (2, k)
    }
}

/// Every pixel that a painting step of the fill covers is in the filled ellipse.
proof fn lemma_step_filled(left: int, top: int, right: int, bottom: int, phase: int, k: nat, i: int, j: int)
    requires
        fill_step(half(left, right), half(top, bottom), phase, k).0,
        row_hit(left, top, right, bottom, fill_step(half(left, right), half(top, bottom), phase, k).1,
            fill_step(half(left, right), half(top, bottom), phase, k).2, i, j),
    ensures
        in_filled_ellipse(left, top, right, bottom, i, j),
{
}

/// The filled ellipse meets each row in a single run of pixels: with two
/// pixels of a row it holds every pixel between them. (The span that each
/// step paints is centred in the box, so spans on one row nest.)
pub proof fn lemma_filled_row_is_one_span(left: int, top: int, right: int, bottom: int, i: int, i2: int, m: int, j: int)
    requires
        in_filled_ellipse(left, top, right, bottom, i, j),
        in_filled_ellipse(left, top, right, bottom, i2, j),
        i <= m <= i2,
    ensures
        in_filled_ellipse(left, top, right, bottom, m, j),
{
    let a = half(left, right);
    let b = half(top, bottom);
    let (p1, k1) = lemma_filled_step(left, top, right, bottom, i, j);
    let (p2, k2) = lemma_filled_step(left, top, right, bottom, i2, j);
    if fill_step(a, b, p1, k1).1 <= fill_step(a, b, p2, k2).1 {
        lemma_step_filled(left, top, right, bottom, p1, k1, m, j);
    } else {
        lemma_step_filled(left, top, right, bottom, p2, k2, m, j);
    }
}

/// The middle row of the box (offset `b` from the top) is filled from edge
/// to edge, and the outline passes through its two ends.
pub proof fn lemma_middle_row(left: int, top: int, right: int, bottom: int)
    requires
        left <= right,
        top <= bottom,
    ensures
        on_ellipse_border(left, top, right, bottom, left, top + half(top, bottom)),
        on_ellipse_border(left, top, right, bottom, right, top + half(top, bottom)),
        forall|i: int| left <= i <= right ==> #[trigger] in_filled_ellipse(left, top, right, bottom, i, top + half(top, bottom)),
{
    let a = half(left, right);
    let b = half(top, bottom);
    lemma_count1(a, b, 0);
    let j = top + b;
    if ell_n1(a, b) > 0 {
        assert(quad_hit(left, top, right, bottom, ell_iter1(a, b, 0).0, ell_iter1(a, b, 0).1, left, j));
        assert(quad_hit(left, top, right, bottom, ell_iter1(a, b, 0).0, ell_iter1(a, b, 0).1, right, j));
        assert forall|i: int| left <= i <= right implies #[trigger] in_filled_ellipse(left, top, right, bottom, i, j) by {
            assert(row_hit(left, top, right, bottom, ell_iter1(a, b, 0).0, ell_iter1(a, b, 0).1, i, j));
        }
    } else {
        assert(ell_n1(a, b) == 0);
        lemma_count2(a, b, 1);
        assert(ell_cond2(a, b, ell_iter2(a, b, 0)));
        assert(ell_n2(a, b) == ell_count2(a, b, 1));
        assert(quad_hit(left, top, right, bottom, ell_iter2(a, b, 0).0, ell_iter2(a, b, 0).1, left, j));
        assert(quad_hit(left, top, right, bottom, ell_iter2(a, b, 0).0, ell_iter2(a, b, 0).1, right, j));
        assert forall|i: int| left <= i <= right implies #[trigger] in_filled_ellipse(left, top, right, bottom, i, j) by {
            assert(row_hit(left, top, right, bottom, ell_iter2(a, b, 0).0, ell_iter2(a, b, 0).1, i, j));
        }
    }
}

} // verus!
