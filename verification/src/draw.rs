//! Drawing primitives on a sprite: lines, rectangles and horizontal spans.

use vstd::prelude::*;
use crate::rgb_utils::{get_rgba, lemma_pack_unpack};
use crate::sprite::Sprite;

verus! {

/// The absolute value of an integer.
pub open spec fn abs(v: int) -> int {
    if v < 0 { -v } else { v }
}

/// Whether a line from `(x0, y0)` to `(x1, y1)` is steep: it advances more
/// rows than columns, so it is traced one row at a time.
pub open spec fn line_steep(x0: int, y0: int, x1: int, y1: int) -> bool {
    abs(y1 - y0) > abs(x1 - x0)
}

/// The endpoints of a line along its major axis, as `(a0, b0, a1, b1)`: the
/// major coordinate `a` is the column for a flat line and the row for a steep
/// one, and the endpoints are ordered so that `a0 <= a1`.
pub open spec fn line_ends(x0: int, y0: int, x1: int, y1: int) -> (int, int, int, int) {
    let (p, q, r, s) = if line_steep(x0, y0, x1, y1) { (y0, x0, y1, x1) } else { (x0, y0, x1, y1) };
    if p > r { (r, s, p, q) } else { (p, q, r, s) }
}

/// Whether the pixel `(x, y)` belongs to the line that `draw_line` traces from
/// `(x0, y0)` to `(x1, y1)` (Bresenham's algorithm).
///
/// Along the major axis the line has one pixel for each `a` from `a0` to `a1`.
/// The pixel at `a = a0 + k` lies `n` steps from `b0` towards `b1`, where `n`
/// is the one integer with `0 <= da/2 - k*db + n*da < da`
/// (`da = a1 - a0`, `db = |b1 - b0|`): that is, `n = ceil((k*db - da/2) / da)`.
pub open spec fn on_line(x0: int, y0: int, x1: int, y1: int, x: int, y: int) -> bool {
    let (a0, b0, a1, b1) = line_ends(x0, y0, x1, y1);
    let (a, b) = if line_steep(x0, y0, x1, y1) { (y, x) } else { (x, y) };
    let da = a1 - a0;
    let db = abs(b1 - b0);
    let n = if b0 < b1 { b - b0 } else { b0 - b };
    &&& a0 <= a <= a1
    &&& if da == 0 {
        b == b0
    } else {
        0 <= da / 2 - (a - a0) * db + n * da < da
    }
}

proof fn lemma_unique_step(e: int, n1: int, n2: int, da: int)
    requires
        0 < da,
        0 <= e + n1 * da < da,
        0 <= e + n2 * da < da,
    ensures
        n1 == n2,
{
    if n1 < n2 {
        assert(n1 * da + da <= n2 * da) by (nonlinear_arith)
            requires
                n1 < n2,
                0 < da,
        ;
    } else if n2 < n1 {
        assert(n2 * da + da <= n1 * da) by (nonlinear_arith)
            requires
                n2 < n1,
                0 < da,
        ;
    }
}

/// Draws the line from `(x0, y0)` to `(x1, y1)` in colour `c` with
/// Bresenham's algorithm, when both endpoints lie in the sprite; otherwise the
/// sprite is left as it is.
pub fn draw_line(sprite: &mut Sprite, x0: i32, y0: i32, x1: i32, y1: i32, c: u32)
    requires
        old(sprite).wf(),
    ensures
        final(sprite).wf(),
        final(sprite).w() == old(sprite).w(),
        final(sprite).h() == old(sprite).h(),
        forall|i: int, j: int| #[trigger] final(sprite).in_bounds(i, j) ==> final(sprite).px(i, j) ==
            if old(sprite).in_bounds(x0 as int, y0 as int) && old(sprite).in_bounds(x1 as int, y1 as int)
                && on_line(x0 as int, y0 as int, x1 as int, y1 as int, i, j) {
                c
            } else {
                old(sprite).px(i, j)
            },
{
    let width = sprite.get_width();
    let height = sprite.get_height();
    proof {
        sprite.lemma_wf_dims();
    }
    if (x0 >= 0 && x0 < width) && (y0 >= 0 && y0 < height) && (x1 >= 0 && x1 < width) && (y1 >= 0
        && y1 < height) {
        let (r, g, b, a) = get_rgba(c);
        proof {
            lemma_pack_unpack(c);
        }
        let ghost s0 = *sprite;
        let ghost steep_s = line_steep(x0 as int, y0 as int, x1 as int, y1 as int);
        let ghost ends = line_ends(x0 as int, y0 as int, x1 as int, y1 as int);

        let mut dum: i32;
        let mut _x0: i32 = x0;
        let mut _y0: i32 = y0;
        let mut _x1: i32 = x1;
        let mut _y1: i32 = y1;

        let ady: i32 = if y1 >= y0 { y1 - y0 } else { y0 - y1 };
        let adx: i32 = if x1 >= x0 { x1 - x0 } else { x0 - x1 };
        let steep = ady > adx;
        if steep {
            dum = _x0;
            _x0 = _y0;
            _y0 = dum;
            dum = _x1;
            _x1 = _y1;
            _y1 = dum;
        }
        if _x0 > _x1 {
            dum = _x0;
            _x0 = _x1;
            _x1 = dum;
            dum = _y0;
            _y0 = _y1;
            _y1 = dum;
        }
        assert(ends == (_x0 as int, _y0 as int, _x1 as int, _y1 as int));
        assert(steep == steep_s);

        let deltax = _x1 - _x0;
        let deltay = if _y1 >= _y0 { _y1 - _y0 } else { _y0 - _y1 };
        assert(deltay <= deltax);
        let mut error: i32 = deltax / 2;
        let ghost h: int = deltax / 2;

        let mut y: i32 = _y0;
        let ystep: i32 = if _y0 < _y1 { 1 } else { -1 };
        let ghost mut n: int = 0;

        let mut x: i32 = _x0;
        while x <= _x1
            invariant
                s0.wf(),
                sprite.wf(),
                sprite.w() == s0.w(),
                sprite.h() == s0.h(),
                s0.w() == width,
                s0.h() == height,
                s0.in_bounds(x0 as int, y0 as int),
                s0.in_bounds(x1 as int, y1 as int),
                c == crate::rgb_utils::spec_rgba(r, g, b, a),
                steep == line_steep(x0 as int, y0 as int, x1 as int, y1 as int),
                ends == line_ends(x0 as int, y0 as int, x1 as int, y1 as int),
                ends == (_x0 as int, _y0 as int, _x1 as int, _y1 as int),
                steep ==> (0 <= _x0 <= _x1 < height && 0 <= _y0 < width && 0 <= _y1 < width),
                !steep ==> (0 <= _x0 <= _x1 < width && 0 <= _y0 < height && 0 <= _y1 < height),
                deltax == _x1 - _x0,
                deltay == abs(_y1 - _y0),
                deltay <= deltax,
                h == deltax / 2,
                ystep == if _y0 < _y1 { 1int } else { -1int },
                _x0 <= x <= _x1 + 1,
                0 <= n <= deltay + 1,
                x <= _x1 ==> n <= deltay,
                y == if _y0 < _y1 { _y0 + n } else { _y0 - n },
                deltax > 0 ==> 0 <= error < deltax,
                deltax == 0 ==> error == 0 && n == 0,
                error == h - (x - _x0) * deltay + n * deltax,
                forall|i: int, j: int| #[trigger] sprite.in_bounds(i, j) ==> sprite.px(i, j) ==
                    if on_line(x0 as int, y0 as int, x1 as int, y1 as int, i, j)
                        && (if steep { j } else { i }) < x {
                        c
                    } else {
                        s0.px(i, j)
                    },
            decreases _x1 + 1 - x,
        {
            let ghost prev = *sprite;
            if steep {
                sprite.put_pixel(y as u32, x as u32, r, g, b, a);
            } else {
                sprite.put_pixel(x as u32, y as u32, r, g, b, a);
            }
            proof {
                assert forall|i: int, j: int| #[trigger] sprite.in_bounds(i, j) implies sprite.px(i, j) ==
                    if on_line(x0 as int, y0 as int, x1 as int, y1 as int, i, j)
                        && (if steep { j } else { i }) < x + 1 {
                        c
                    } else {
                        s0.px(i, j)
                    } by {
                    assert(prev.in_bounds(i, j));
                    let aa: int = if steep { j } else { i };
                    let bb: int = if steep { i } else { j };
                    if aa == x {
                        let nn: int = if _y0 < _y1 { bb - _y0 } else { _y0 - bb };
                        if deltax == 0 {
                        } else if bb == y {
                            assert(nn == n);
                        } else {
                            assert(nn != n);
                            if 0 <= h - (aa - _x0) * deltay + nn * deltax < deltax {
                                lemma_unique_step(h - (aa - _x0) * deltay, nn, n, deltax as int);
                            }
                        }
                    }
                }
            }
            let ghost e0: int = error as int;
            let ghost n0: int = n;
            error = error - deltay;
            if error < 0 {
                y = y + ystep;
                error = error + deltax;
                proof {
                    n = n + 1;
                }
            }
            proof {
                assert(error == h - (x + 1 - _x0) * deltay + n * deltax) by (nonlinear_arith)
                    requires
                        e0 == h - (x - _x0) * deltay + n0 * deltax,
                        (n == n0 && error == e0 - deltay) || (n == n0 + 1 && error == e0 - deltay + deltax),
                ;
                if x + 1 <= _x1 {
                    assert(n <= deltay) by (nonlinear_arith)
                        requires
                            error == h - (x + 1 - _x0) * deltay + n * deltax,
                            error < deltax,
                            x + 1 <= _x1,
                            deltax == _x1 - _x0,
                            0 <= h,
                            0 < deltax,
                            0 <= deltay,
                    ;
                }
            }
            x = x + 1;
        }
        proof {
            assert forall|i: int, j: int| #[trigger] sprite.in_bounds(i, j) implies sprite.px(i, j) ==
                if s0.in_bounds(x0 as int, y0 as int) && s0.in_bounds(x1 as int, y1 as int)
                    && on_line(x0 as int, y0 as int, x1 as int, y1 as int, i, j) {
                    c
                } else {
                    s0.px(i, j)
                } by {
            }
        }
    }
}


/// Whether `(i, j)` lies in the box with corners `(x0, y0)` and `(x1, y1)`, edges included.
pub open spec fn in_box(x0: int, y0: int, x1: int, y1: int, i: int, j: int) -> bool {
    &&& (if x0 <= x1 { x0 <= i <= x1 } else { x1 <= i <= x0 })
    &&& (if y0 <= y1 { y0 <= j <= y1 } else { y1 <= j <= y0 })
}

/// Whether `(i, j)` lies on the edge of the box with corners `(x0, y0)` and `(x1, y1)`.
pub open spec fn on_box_edge(x0: int, y0: int, x1: int, y1: int, i: int, j: int) -> bool {
    &&& in_box(x0, y0, x1, y1, i, j)
    &&& (i == x0 || i == x1 || j == y0 || j == y1)
}

/// Whether the box with corners `(x0, y0)` and `(x1, y1)` lies in the sprite.
pub open spec fn box_in_sprite(s: &Sprite, x0: int, y0: int, x1: int, y1: int) -> bool {
    s.in_bounds(x0, y0) && s.in_bounds(x1, y1)
}

/// Paints the pixels `(x, y)` for `x` from `x_left` to `x_right`, both
/// included, in colour `col`.
pub fn draw_horizontal_line(sprite: &mut Sprite, x_left: i32, x_right: i32, y: i32, col: u32)
    requires
        old(sprite).wf(),
        x_left <= x_right ==> old(sprite).in_bounds(x_left as int, y as int)
            && old(sprite).in_bounds(x_right as int, y as int),
    ensures
        final(sprite).wf(),
        final(sprite).w() == old(sprite).w(),
        final(sprite).h() == old(sprite).h(),
        forall|i: int, j: int| #[trigger] final(sprite).in_bounds(i, j) ==> final(sprite).px(i, j) ==
            if x_left <= i <= x_right && j == y { col } else { old(sprite).px(i, j) },
{
    let (red, green, blue, alpha) = get_rgba(col);
    proof {
        lemma_pack_unpack(col);
        sprite.lemma_wf_dims();
    }
    let ghost s0 = *sprite;
    if x_left > x_right {
        return ;
    }
    let mut x = x_left;
    while x <= x_right
        invariant
            s0.wf(),
            sprite.wf(),
            sprite.w() == s0.w(),
            sprite.h() == s0.h(),
            s0.in_bounds(x_left as int, y as int),
            s0.in_bounds(x_right as int, y as int),
            s0.w() <= crate::sprite::MAX_PIXELS,
            x_left <= x <= x_right + 1,
            col == crate::rgb_utils::spec_rgba(red, green, blue, alpha),
            forall|i: int, j: int| #[trigger] sprite.in_bounds(i, j) ==> sprite.px(i, j) ==
                if x_left <= i < x && j == y { col } else { s0.px(i, j) },
        decreases x_right + 1 - x,
    {
        let ghost prev = *sprite;
        sprite.put_pixel(x as u32, y as u32, red, green, blue, alpha);
        assert forall|i: int, j: int| #[trigger] sprite.in_bounds(i, j) implies sprite.px(i, j) ==
            if x_left <= i < x + 1 && j == y { col } else { s0.px(i, j) } by {
            assert(prev.in_bounds(i, j));
        }
        x = x + 1;
    }
}

/// Paints the column segment `(x, y)` for `y` from `y_top` to `y_bottom`, both
/// included, in colour `col`.
fn draw_vertical_line(sprite: &mut Sprite, x: i32, y_top: i32, y_bottom: i32, col: u32)
    requires
        old(sprite).wf(),
        y_top <= y_bottom ==> old(sprite).in_bounds(x as int, y_top as int)
            && old(sprite).in_bounds(x as int, y_bottom as int),
    ensures
        final(sprite).wf(),
        final(sprite).w() == old(sprite).w(),
        final(sprite).h() == old(sprite).h(),
        forall|i: int, j: int| #[trigger] final(sprite).in_bounds(i, j) ==> final(sprite).px(i, j) ==
            if y_top <= j <= y_bottom && i == x { col } else { old(sprite).px(i, j) },
{
    let (red, green, blue, alpha) = get_rgba(col);
    proof {
        lemma_pack_unpack(col);
        sprite.lemma_wf_dims();
    }
    let ghost s0 = *sprite;
    if y_top > y_bottom {
        return ;
    }
    let mut y = y_top;
    while y <= y_bottom
        invariant
            s0.wf(),
            sprite.wf(),
            sprite.w() == s0.w(),
            sprite.h() == s0.h(),
            s0.in_bounds(x as int, y_top as int),
            s0.in_bounds(x as int, y_bottom as int),
            s0.h() <= crate::sprite::MAX_PIXELS,
            y_top <= y <= y_bottom + 1,
            col == crate::rgb_utils::spec_rgba(red, green, blue, alpha),
            forall|i: int, j: int| #[trigger] sprite.in_bounds(i, j) ==> sprite.px(i, j) ==
                if y_top <= j < y && i == x { col } else { s0.px(i, j) },
        decreases y_bottom + 1 - y,
    {
        let ghost prev = *sprite;
        sprite.put_pixel(x as u32, y as u32, red, green, blue, alpha);
        assert forall|i: int, j: int| #[trigger] sprite.in_bounds(i, j) implies sprite.px(i, j) ==
            if y_top <= j < y + 1 && i == x { col } else { s0.px(i, j) } by {
            assert(prev.in_bounds(i, j));
        }
        y = y + 1;
    }
}

/// Draws the outline of the box with corners `(x0, y0)` and `(x1, y1)` in
/// colour `c`. A box reduced to one pixel is not drawn.
pub fn draw_rectangle(sprite: &mut Sprite, x0: i32, y0: i32, x1: i32, y1: i32, c: u32)
    requires
        old(sprite).wf(),
        (x0 != x1 || y0 != y1) ==> box_in_sprite(&*old(sprite), x0 as int, y0 as int, x1 as int, y1 as int),
    ensures
        final(sprite).wf(),
        final(sprite).w() == old(sprite).w(),
        final(sprite).h() == old(sprite).h(),
        forall|i: int, j: int| #[trigger] final(sprite).in_bounds(i, j) ==> final(sprite).px(i, j) ==
            if (x0 != x1 || y0 != y1) && on_box_edge(x0 as int, y0 as int, x1 as int, y1 as int, i, j) {
                c
            } else {
                old(sprite).px(i, j)
            },
{
    let (start_x, end_x) = if x1 > x0 { (x0, x1) } else { (x1, x0) };
    let (start_y, end_y) = if y1 > y0 { (y0, y1) } else { (y1, y0) };
    let ghost s0 = *sprite;
    if (end_x != start_x) || (end_y != start_y) {
        draw_horizontal_line(sprite, start_x, end_x, start_y, c);
        let ghost s1 = *sprite;
        draw_horizontal_line(sprite, start_x, end_x, end_y, c);
        let ghost s2 = *sprite;
        proof {
            s0.lemma_wf_dims();
        }
        let ya = start_y + 1;
        let yb = end_y - 1;
        draw_vertical_line(sprite, start_x, ya, yb, c);
        let ghost s3 = *sprite;
        draw_vertical_line(sprite, end_x, ya, yb, c);
        assert forall|i: int, j: int| #[trigger] sprite.in_bounds(i, j) implies sprite.px(i, j) ==
            if (x0 != x1 || y0 != y1) && on_box_edge(x0 as int, y0 as int, x1 as int, y1 as int, i, j) {
                c
            } else {
                s0.px(i, j)
            } by {
            assert(s3.in_bounds(i, j) && s2.in_bounds(i, j) && s1.in_bounds(i, j) && s0.in_bounds(i, j));
        }
    }
}

/// Fills the box with corners `(x0, y0)` and `(x1, y1)` with colour `c`. A
/// box reduced to one pixel is not drawn.
pub fn fill_rectangle(sprite: &mut Sprite, x0: i32, y0: i32, x1: i32, y1: i32, c: u32)
    requires
        old(sprite).wf(),
        (x0 != x1 || y0 != y1) ==> box_in_sprite(&*old(sprite), x0 as int, y0 as int, x1 as int, y1 as int),
    ensures
        final(sprite).wf(),
        final(sprite).w() == old(sprite).w(),
        final(sprite).h() == old(sprite).h(),
        forall|i: int, j: int| #[trigger] final(sprite).in_bounds(i, j) ==> final(sprite).px(i, j) ==
            if (x0 != x1 || y0 != y1) && in_box(x0 as int, y0 as int, x1 as int, y1 as int, i, j) {
                c
            } else {
                old(sprite).px(i, j)
            },
{
    let (start_x, end_x) = if x1 > x0 { (x0, x1) } else { (x1, x0) };
    let (start_y, end_y) = if y1 > y0 { (y0, y1) } else { (y1, y0) };
    let ghost s0 = *sprite;
    if (end_x != start_x) || (end_y != start_y) {
        proof {
            s0.lemma_wf_dims();
        }
        let mut y = start_y;
        while y <= end_y
            invariant
                s0.wf(),
                sprite.wf(),
                sprite.w() == s0.w(),
                sprite.h() == s0.h(),
                s0.in_bounds(start_x as int, start_y as int),
                s0.in_bounds(end_x as int, end_y as int),
                start_x <= end_x,
                s0.h() <= crate::sprite::MAX_PIXELS,
                start_y <= y <= end_y + 1,
                x0 != x1 || y0 != y1,
                forall|i: int, j: int| in_box(x0 as int, y0 as int, x1 as int, y1 as int, i, j) <==>
                    (start_x <= i <= end_x && start_y <= j <= end_y),
                forall|i: int, j: int| #[trigger] sprite.in_bounds(i, j) ==> sprite.px(i, j) ==
                    if start_x <= i <= end_x && start_y <= j < y { c } else { s0.px(i, j) },
            decreases end_y + 1 - y,
        {
            let ghost prev = *sprite;
            draw_horizontal_line(sprite, start_x, end_x, y, c);
            assert forall|i: int, j: int| #[trigger] sprite.in_bounds(i, j) implies sprite.px(i, j) ==
                if start_x <= i <= end_x && start_y <= j < y + 1 { c } else { s0.px(i, j) } by {
                assert(prev.in_bounds(i, j));
            }
            y = y + 1;
        }
    }
}

proof fn lemma_line_end_drawn(x0: int, y0: int, x1: int, y1: int, x: int, y: int)
    requires
        (x == x0 && y == y0) || (x == x1 && y == y1),
    ensures
        on_line(x0, y0, x1, y1, x, y),
{
    let (a0, b0, a1, b1) = line_ends(x0, y0, x1, y1);
    let (a, b) = if line_steep(x0, y0, x1, y1) { (y, x) } else { (x, y) };
    let da = a1 - a0;
    let db = abs(b1 - b0);
    let n = if b0 < b1 { b - b0 } else { b0 - b };
    assert((a == a0 && b == b0) || (a == a1 && b == b1));
    if da == 0 {
        assert(x0 == x1 && y0 == y1);
    } else if a == a0 && b == b0 {
        assert(n == 0);
        assert((a - a0) * db == 0 && n * da == 0) by (nonlinear_arith)
            requires
                a - a0 == 0,
                n == 0,
        ;
    } else {
        assert(n == db);
        assert((a - a0) * db == n * da) by (nonlinear_arith)
            requires
                a - a0 == da,
                n == db,
        ;
    }
}

/// A line goes through both of its endpoints.
pub proof fn lemma_line_ends_drawn(x0: int, y0: int, x1: int, y1: int)
    ensures
        on_line(x0, y0, x1, y1, x0, y0),
        on_line(x0, y0, x1, y1, x1, y1),
{
    lemma_line_end_drawn(x0, y0, x1, y1, x0, y0);
    lemma_line_end_drawn(x0, y0, x1, y1, x1, y1);
}

/// A line drawn from either end covers the same pixels.
pub proof fn lemma_line_reversed(x0: int, y0: int, x1: int, y1: int, x: int, y: int)
    ensures
        on_line(x0, y0, x1, y1, x, y) == on_line(x1, y1, x0, y0, x, y),
{
}


/// The major coordinate of a pixel for the line from `(x0, y0)` to
/// `(x1, y1)`: its row for a steep line, its column otherwise.
pub open spec fn line_major(x0: int, y0: int, x1: int, y1: int, x: int, y: int) -> int {
    if line_steep(x0, y0, x1, y1) { y } else { x }
}

/// The offset `n` of the line from its start along the minor axis after `k`
/// steps along the major axis (`da` major steps for `db` minor ones).
spec fn line_n(da: int, db: int, k: nat) -> int
    decreases k,
{
    if k == 0 {
        0
    } else {
        let n = line_n(da, db, (k - 1) as nat);
        if da / 2 - k * db + n * da >= 0 { n } else { n + 1 }
    }
}

proof fn lemma_line_n(da: int, db: int, k: nat)
    requires
        0 < da,
        0 <= db <= da,
    ensures
        0 <= da / 2 - k * db + line_n(da, db, k) * da < da,
    decreases k,
{
    if k > 0 {
        lemma_line_n(da, db, (k - 1) as nat);
        let n = line_n(da, db, (k - 1) as nat);
        assert(k * db == (k - 1) * db + db && (n + 1) * da == n * da + da) by (nonlinear_arith);
        let v = da / 2 - k * db + n * da;
        assert(-db <= v < da);
        if v >= 0 {
            assert(line_n(da, db, k) == n);
        } else {
            assert(line_n(da, db, k) == n + 1);
        }
    } else {
        assert(line_n(da, db, k) == 0);
        assert(0 <= da / 2 < da);
    }
}

/// The offset along the minor axis lies between the two ends.
proof fn lemma_line_n_bounds(da: int, db: int, k: int, n: int)
    requires
        0 < da,
        0 <= db <= da,
        0 <= k <= da,
        0 <= da / 2 - k * db + n * da < da,
    ensures
        0 <= n <= db,
{
    assert(0 <= k * db <= da * db) by (nonlinear_arith)
        requires
            0 <= k <= da,
            0 <= db,
    ;
    if n < 0 {
        assert(n * da <= -da) by (nonlinear_arith)
            requires
                n < 0,
                0 < da,
        ;
    }
    if n > db {
        assert(n * da >= db * da + da) by (nonlinear_arith)
            requires
                n > db,
                0 < da,
        ;
    }
}

/// A line spans as many steps along its major axis as the larger of its
/// two sides, so it has that many pixels plus one.
pub proof fn lemma_line_length(x0: int, y0: int, x1: int, y1: int)
    ensures
        line_ends(x0, y0, x1, y1).2 - line_ends(x0, y0, x1, y1).0 == if abs(x1 - x0) >= abs(y1 - y0) {
            abs(x1 - x0)
        } else {
            abs(y1 - y0)
        },
        abs(line_ends(x0, y0, x1, y1).3 - line_ends(x0, y0, x1, y1).1) <= line_ends(x0, y0, x1, y1).2
            - line_ends(x0, y0, x1, y1).0,
{
}

/// For every value of the major coordinate between the two ends, the line
/// has a pixel.
pub proof fn lemma_line_pixel_at(x0: int, y0: int, x1: int, y1: int, a: int)
    requires
        line_ends(x0, y0, x1, y1).0 <= a <= line_ends(x0, y0, x1, y1).2,
    ensures
        exists|x: int, y: int| #[trigger] on_line(x0, y0, x1, y1, x, y) && line_major(x0, y0, x1, y1, x, y) == a,
{
    let (a0, b0, a1, b1) = line_ends(x0, y0, x1, y1);
    let da = a1 - a0;
    let db = abs(b1 - b0);
    lemma_line_length(x0, y0, x1, y1);
    let n = if da == 0 { 0 } else {
        lemma_line_n(da, db, (a - a0) as nat);
        line_n(da, db, (a - a0) as nat)
    };
    let b = if b0 < b1 { b0 + n } else { b0 - n };
    if line_steep(x0, y0, x1, y1) {
        assert(on_line(x0, y0, x1, y1, b, a));
    } else {
        assert(on_line(x0, y0, x1, y1, a, b));
    }
}

/// The line has only one pixel for each value of the major coordinate.
pub proof fn lemma_line_one_pixel_per_step(x0: int, y0: int, x1: int, y1: int, x: int, y: int, x2: int, y2: int)
    requires
        on_line(x0, y0, x1, y1, x, y),
        on_line(x0, y0, x1, y1, x2, y2),
        line_major(x0, y0, x1, y1, x, y) == line_major(x0, y0, x1, y1, x2, y2),
    ensures
        x == x2,
        y == y2,
{
    let (a0, b0, a1, b1) = line_ends(x0, y0, x1, y1);
    let da = a1 - a0;
    let db = abs(b1 - b0);
    let a = line_major(x0, y0, x1, y1, x, y);
    let (bb, bb2) = if line_steep(x0, y0, x1, y1) { (x, x2) } else { (y, y2) };
    let n1 = if b0 < b1 { bb - b0 } else { b0 - bb };
    let n2 = if b0 < b1 { bb2 - b0 } else { b0 - bb2 };
    if da != 0 {
        lemma_unique_step(da / 2 - (a - a0) * db, n1, n2, da);
    }
}

/// Pixels of the line on two successive values of the major coordinate
/// touch, edge or corner: the line has no gaps.
pub proof fn lemma_line_adjacent(x0: int, y0: int, x1: int, y1: int, x: int, y: int, x2: int, y2: int)
    requires
        on_line(x0, y0, x1, y1, x, y),
        on_line(x0, y0, x1, y1, x2, y2),
        line_major(x0, y0, x1, y1, x2, y2) == line_major(x0, y0, x1, y1, x, y) + 1,
    ensures
        abs(x2 - x) <= 1,
        abs(y2 - y) <= 1,
{
    let (a0, b0, a1, b1) = line_ends(x0, y0, x1, y1);
    let da = a1 - a0;
    let db = abs(b1 - b0);
    lemma_line_length(x0, y0, x1, y1);
    let a = line_major(x0, y0, x1, y1, x, y);
    let k = a - a0;
    let (bb, bb2) = if line_steep(x0, y0, x1, y1) { (x, x2) } else { (y, y2) };
    let n1 = if b0 < b1 { bb - b0 } else { b0 - bb };
    let n2 = if b0 < b1 { bb2 - b0 } else { b0 - bb2 };
    let e = da / 2 - k * db;
    assert((k + 1) * db == k * db + db && (n1 + 1) * da == n1 * da + da) by (nonlinear_arith);
    if e - db + n1 * da >= 0 {
        lemma_unique_step(e - db, n1, n2, da);
    } else {
        lemma_unique_step(e - db, n1 + 1, n2, da);
    }
}

/// Every pixel of the line lies in the box that its two ends span.
pub proof fn lemma_line_in_box(x0: int, y0: int, x1: int, y1: int, x: int, y: int)
    requires
        on_line(x0, y0, x1, y1, x, y),
    ensures
        (if x0 <= x1 { x0 } else { x1 }) <= x <= (if x0 <= x1 { x1 } else { x0 }),
        (if y0 <= y1 { y0 } else { y1 }) <= y <= (if y0 <= y1 { y1 } else { y0 }),
{
    let (a0, b0, a1, b1) = line_ends(x0, y0, x1, y1);
    let da = a1 - a0;
    let db = abs(b1 - b0);
    lemma_line_length(x0, y0, x1, y1);
    let a = line_major(x0, y0, x1, y1, x, y);
    let bb = if line_steep(x0, y0, x1, y1) { x } else { y };
    let n = if b0 < b1 { bb - b0 } else { b0 - bb };
    if da != 0 {
        lemma_line_n_bounds(da, db, a - a0, n);
    }
}

} // verus!
