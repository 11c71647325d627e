//! Flood fill: recolouring the 4-connected region of one colour that holds a
//! given pixel, with a scanline seed stack.

use vstd::prelude::*;
use crate::sprite::Sprite;
use crate::draw::draw_horizontal_line;

verus! {

/// A pixel position.
#[derive(PartialEq, Eq, Structural, Copy, Clone)]
pub struct RPoint {
    pub x: i32,
    pub y: i32,
}

/// The position of a point as a pair of integers.
pub open spec fn pos(p: RPoint) -> (int, int) {
    (p.x as int, p.y as int)
}

/// Two positions are 4-neighbours: they differ by one in exactly one coordinate.
pub open spec fn adjacent(a: (int, int), b: (int, int)) -> bool {
    ||| (a.0 == b.0 && (a.1 == b.1 + 1 || a.1 + 1 == b.1))
    ||| (a.1 == b.1 && (a.0 == b.0 + 1 || a.0 + 1 == b.0))
}

/// A non-empty sequence of 4-neighbouring pixels of the sprite, all of colour `t`.
pub open spec fn is_path(s: Sprite, t: u32, p: Seq<(int, int)>) -> bool {
    &&& p.len() > 0
    &&& forall|i: int| 0 <= i < p.len() ==> s.in_bounds(#[trigger] p[i].0, p[i].1) && s.px(p[i].0, p[i].1) == t
    &&& forall|i: int| 0 <= i < p.len() - 1 ==> adjacent(#[trigger] p[i], p[i + 1])
}

/// Whether `q` can be reached from `start` through 4-neighbouring pixels of colour `t`.
pub open spec fn in_region(s: Sprite, t: u32, start: (int, int), q: (int, int)) -> bool {
    exists|p: Seq<(int, int)>| #[trigger] is_path(s, t, p) && p[0] == start && p.last() == q
}

/// The seed `seed` covers `q`: they lie in one row, and every pixel between
/// them, both included, has colour `t`.
pub open spec fn covers(cur: Sprite, t: u32, seed: RPoint, q: (int, int)) -> bool {
    &&& seed.y == q.1
    &&& cur.in_bounds(q.0, q.1)
    &&& cur.in_bounds(seed.x as int, seed.y as int)
    &&& forall|x: int| (if seed.x <= q.0 { seed.x <= x <= q.0 } else { q.0 <= x <= seed.x })
        ==> #[trigger] cur.px(x, q.1) == t
}

/// Some seed of the stack covers `q`.
pub open spec fn covered(cur: Sprite, t: u32, stk: Seq<RPoint>, q: (int, int)) -> bool {
    exists|k: int| 0 <= k < stk.len() && #[trigger] covers(cur, t, stk[k], q)
}

proof fn lemma_covered_prefix(cur: Sprite, t: u32, stk: Seq<RPoint>, stk2: Seq<RPoint>, q: (int, int))
    requires
        covered(cur, t, stk, q),
        stk.len() <= stk2.len(),
        forall|k: int| 0 <= k < stk.len() ==> stk2[k] == stk[k],
    ensures
        covered(cur, t, stk2, q),
{
    let k = choose|k: int| 0 <= k < stk.len() && #[trigger] covers(cur, t, stk[k], q);
    assert(stk2[k] == stk[k]);
}

proof fn lemma_covers_step(cur: Sprite, t: u32, seed: RPoint, q: (int, int), r: (int, int))
    requires
        covers(cur, t, seed, q),
        r.1 == q.1,
        r.0 == q.0 + 1 || r.0 == q.0 - 1,
        cur.in_bounds(r.0, r.1),
        cur.px(r.0, r.1) == t,
    ensures
        covers(cur, t, seed, r),
{
    assert forall|x: int| (if seed.x <= r.0 { seed.x <= x <= r.0 } else { r.0 <= x <= seed.x })
        implies #[trigger] cur.px(x, r.1) == t by {
        if x != r.0 {
            assert(if seed.x <= q.0 { seed.x <= x <= q.0 } else { q.0 <= x <= seed.x });
        }
    }
}

/// The colour of pixel `(x, y)` and `true`, or `(0, false)` when `(x, y)` is
/// outside the sprite.
#[allow(non_snake_case)]
pub fn floodFillGetColor(sprite: &Sprite, x: i32, y: i32) -> (res: (u32, bool))
    requires
        sprite.wf(),
    ensures
        res.1 == sprite.in_bounds(x as int, y as int),
        res.0 == if res.1 { sprite.px(x as int, y as int) } else { 0 },
{
    let width = sprite.get_width();
    let height = sprite.get_height();
    if x >= 0 && x < width && y >= 0 && y < height {
        (sprite.get_pixel(x, y), true)
    } else {
        (0, false)
    }
}

/// Checks the neighbour `(x, ny)` of a scanned pixel: when it has colour `t`
/// it is pushed as a seed, unless `flag` says that the pixel before it in
/// that row was already of colour `t`. Returns whether it has colour `t`.
fn scan_neighbor(sprite: &Sprite, stk: &mut Vec<RPoint>, x: i32, ny: i32, t: u32, flag: bool) -> (nf: bool)
    requires
        sprite.wf(),
    ensures
        nf == (sprite.in_bounds(x as int, ny as int) && sprite.px(x as int, ny as int) == t),
        final(stk)@ == if nf && !flag { old(stk)@.push(RPoint { x, y: ny }) } else { old(stk)@ },
{
    let (pix_color, f) = floodFillGetColor(sprite, x, ny);
    if f {
        if pix_color == t {
            if !flag {
                stk.push(RPoint { x, y: ny });
            }
            true
        } else {
            false
        }
    } else {
        false
    }
}

/// What scanning a row from `sx` towards one side (`dir` is 1 for east, -1
/// for west) up to `x_far` leaves: the pixels strictly between are of colour
/// `t`, the next one is not, and the seeds pushed cover the neighbours of
/// colour `t` above and below.
pub open spec fn scan_done(cur: Sprite, t: u32, stk0: Seq<RPoint>, stk: Seq<RPoint>, sx: int, y: int, x_far: int, dir: int) -> bool {
    &&& cur.in_bounds(x_far, y)
    &&& (if dir == 1 { sx <= x_far } else { x_far <= sx })
    &&& forall|x: int| (if dir == 1 { sx < x <= x_far } else { x_far <= x < sx }) ==> #[trigger] cur.px(x, y) == t
    &&& (cur.in_bounds(x_far + dir, y) ==> cur.px(x_far + dir, y) != t)
    &&& stk0.len() <= stk.len()
    &&& forall|k: int| 0 <= k < stk0.len() ==> stk[k] == stk0[k]
    &&& forall|k: int| stk0.len() <= k < stk.len() ==> {
            &&& (#[trigger] stk[k]).y == y - 1 || stk[k].y == y + 1
            &&& (if dir == 1 { sx < stk[k].x <= x_far } else { x_far <= stk[k].x < sx })
            &&& cur.in_bounds(stk[k].x as int, stk[k].y as int)
            &&& cur.px(stk[k].x as int, stk[k].y as int) == t
        }
    &&& forall|x: int, ny: int| (if dir == 1 { sx < x <= x_far } else { x_far <= x < sx })
        && (ny == y - 1 || ny == y + 1) && cur.in_bounds(x, ny) && #[trigger] cur.px(x, ny) == t
        ==> covered(cur, t, stk, (x, ny))
}

/// Scans row `y` from the seed column `sx` towards one side (`dir` 1 for
/// east, -1 for west) while the pixels have colour `t`, pushing a seed for
/// each run of pixels of colour `t` met just above or below. Returns the last
/// column of colour `t` reached (or `sx`).
fn scan_row(sprite: &Sprite, stk: &mut Vec<RPoint>, sx: i32, y: i32, t: u32, f_n0: bool, f_s0: bool, dir: i32) -> (x_far: i32)
    requires
        sprite.wf(),
        sprite.in_bounds(sx as int, y as int),
        dir == 1 || dir == -1,
        f_n0 ==> sprite.in_bounds(sx as int, y - 1) && sprite.px(sx as int, y - 1) == t
            && covered(*sprite, t, old(stk)@, (sx as int, y - 1)),
        f_s0 ==> sprite.in_bounds(sx as int, y + 1) && sprite.px(sx as int, y + 1) == t
            && covered(*sprite, t, old(stk)@, (sx as int, y + 1)),
    ensures
        scan_done(*sprite, t, old(stk)@, final(stk)@, sx as int, y as int, x_far as int, dir as int),
{
    let width = sprite.get_width();
    let ghost stk0 = stk@;
    let mut x_far: i32 = sx;
    let mut f_nord = f_n0;
    let mut f_sud = f_s0;
    proof {
        sprite.lemma_wf_dims();
    }
    let in_range = if dir == 1 { x_far < width - 1 } else { x_far > 0 };
    if !in_range {
        proof {
            assert(scan_done(*sprite, t, stk0, stk@, sx as int, y as int, x_far as int, dir as int));
        }
        return x_far;
    }
    let mut x: i32 = x_far + dir;
    let mut go = true;
    while go
        invariant
            sprite.wf(),
            sprite.w() == width,
            width <= crate::sprite::MAX_PIXELS,
            sprite.h() <= crate::sprite::MAX_PIXELS,
            dir == 1 || dir == -1,
            sprite.in_bounds(sx as int, y as int),
            sprite.in_bounds(x_far as int, y as int),
            x == x_far + dir,
            go ==> sprite.in_bounds(x as int, y as int),
            !go ==> (sprite.in_bounds(x as int, y as int) ==> sprite.px(x as int, y as int) != t),
            if dir == 1 { sx <= x_far } else { x_far <= sx },
            forall|xx: int| (if dir == 1 { sx < xx <= x_far } else { x_far <= xx < sx }) ==> #[trigger] sprite.px(xx, y as int) == t,
            f_nord ==> sprite.in_bounds(x_far as int, y - 1) && sprite.px(x_far as int, y - 1) == t
                && covered(*sprite, t, stk@, (x_far as int, y - 1)),
            f_sud ==> sprite.in_bounds(x_far as int, y + 1) && sprite.px(x_far as int, y + 1) == t
                && covered(*sprite, t, stk@, (x_far as int, y + 1)),
            stk0.len() <= stk@.len(),
            forall|k: int| 0 <= k < stk0.len() ==> stk@[k] == stk0[k],
            forall|k: int| stk0.len() <= k < stk@.len() ==> {
                &&& (#[trigger] stk@[k]).y == y - 1 || stk@[k].y == y + 1
                &&& (if dir == 1 { sx < stk@[k].x <= x_far } else { x_far <= stk@[k].x < sx })
                &&& sprite.in_bounds(stk@[k].x as int, stk@[k].y as int)
                &&& sprite.px(stk@[k].x as int, stk@[k].y as int) == t
            },
            forall|xx: int, ny: int| (if dir == 1 { sx < xx <= x_far } else { x_far <= xx < sx })
                && (ny == y - 1 || ny == y + 1) && sprite.in_bounds(xx, ny) && #[trigger] sprite.px(xx, ny) == t
                ==> covered(*sprite, t, stk@, (xx, ny)),
        decreases (if go { 1int } else { 0int }) + (if dir == 1 { width - x } else { x + 1 }),
    {
        let (pix_color, f) = floodFillGetColor(sprite, x, y);
        if !f || pix_color != t {
            go = false;
        } else {
            let ghost stk_a = stk@;
            let ghost fn_old = f_nord;
            let ghost fs_old = f_sud;
            //-- the pixel above
            f_nord = scan_neighbor(sprite, stk, x, y - 1, t, f_nord);
            let ghost stk_b = stk@;
            //-- the pixel below
            f_sud = scan_neighbor(sprite, stk, x, y + 1, t, f_sud);
            proof {
                let q_n = (x as int, y - 1);
                let q_s = (x as int, y + 1);
                // coverage of the pixel above
                if f_nord {
                    if fn_old {
                        let k = choose|k: int| 0 <= k < stk_a.len() && #[trigger] covers(*sprite, t, stk_a[k], (x_far as int, y - 1));
                        lemma_covers_step(*sprite, t, stk_a[k], (x_far as int, y - 1), q_n);
                        assert(covers(*sprite, t, stk_a[k], q_n));
                        assert(covered(*sprite, t, stk_a, q_n));
                    } else {
                        let k = stk_a.len() as int;
                        assert(stk_b[k] == RPoint { x, y: (y - 1) as i32 });
                        assert(covers(*sprite, t, stk_b[k], q_n));
                        assert(covered(*sprite, t, stk_b, q_n));
                    }
                }
                if f_nord && fn_old {
                    lemma_covered_prefix(*sprite, t, stk_a, stk@, q_n);
                } else if f_nord {
                    lemma_covered_prefix(*sprite, t, stk_b, stk@, q_n);
                }
                if f_sud {
                    if fs_old {
                        lemma_covered_prefix(*sprite, t, stk_a, stk_b, (x_far as int, y + 1));
                        let k = choose|k: int| 0 <= k < stk_b.len() && #[trigger] covers(*sprite, t, stk_b[k], (x_far as int, y + 1));
                        lemma_covers_step(*sprite, t, stk_b[k], (x_far as int, y + 1), q_s);
                        assert(covers(*sprite, t, stk_b[k], q_s));
                        assert(covered(*sprite, t, stk_b, q_s));
                        lemma_covered_prefix(*sprite, t, stk_b, stk@, q_s);
                    } else {
                        let k = stk_b.len() as int;
                        assert(stk@[k] == RPoint { x, y: (y + 1) as i32 });
                        assert(covers(*sprite, t, stk@[k], q_s));
                    }
                }
                // the older coverage facts carry over to the longer stack
                assert forall|xx: int, ny: int| (if dir == 1 { sx < xx <= x } else { x <= xx < sx })
                    && (ny == y - 1 || ny == y + 1) && sprite.in_bounds(xx, ny) && #[trigger] sprite.px(xx, ny) == t
                    implies covered(*sprite, t, stk@, (xx, ny)) by {
                    if xx != x {
                        lemma_covered_prefix(*sprite, t, stk_a, stk@, (xx, ny));
                    }
                }
                if fn_old && !f_nord {
                } else if fn_old {
                }
            }
            x_far = x;
            if dir == 1 {
                if x >= width - 1 {
                    go = false;
                    x = x + 1;
                } else {
                    x = x + 1;
                }
            } else {
                if x <= 0 {
                    go = false;
                    x = x - 1;
                } else {
                    x = x - 1;
                }
            }
        }
    }
    x_far
}


/// How many seeds of the stack point at pixels that no longer have colour `t`.
pub open spec fn count_done(cur: Sprite, t: u32, stk: Seq<RPoint>) -> nat
    decreases stk.len(),
{
    if stk.len() == 0 {
        0
    } else {
        count_done(cur, t, stk.drop_last()) + if cur.in_bounds(stk.last().x as int, stk.last().y as int)
            && cur.px(stk.last().x as int, stk.last().y as int) == t {
            0nat
        } else {
            1nat
        }
    }
}

proof fn lemma_count_done_extend(cur: Sprite, t: u32, a: Seq<RPoint>, b: Seq<RPoint>)
    requires
        a.len() <= b.len(),
        forall|k: int| 0 <= k < a.len() ==> b[k] == a[k],
        forall|k: int| a.len() <= k < b.len() ==> cur.in_bounds((#[trigger] b[k]).x as int, b[k].y as int)
            && cur.px(b[k].x as int, b[k].y as int) == t,
    ensures
        count_done(cur, t, b) == count_done(cur, t, a),
    decreases b.len(),
{
    if b.len() > a.len() {
        let b1 = b.drop_last();
        assert forall|k: int| a.len() <= k < b1.len() implies cur.in_bounds((#[trigger] b1[k]).x as int, b1[k].y as int)
            && cur.px(b1[k].x as int, b1[k].y as int) == t by {
            assert(b1[k] == b[k]);
        }
        lemma_count_done_extend(cur, t, a, b1);
        assert(b[b.len() - 1] == b.last());
    } else {
        assert(a =~= b);
    }
}

proof fn lemma_count_done_same(c1: Sprite, c2: Sprite, t: u32, stk: Seq<RPoint>)
    requires
        c1.same_image(&c2),
    ensures
        count_done(c1, t, stk) == count_done(c2, t, stk),
    decreases stk.len(),
{
    if stk.len() > 0 {
        lemma_count_done_same(c1, c2, t, stk.drop_last());
        let p = stk.last();
        if c1.in_bounds(p.x as int, p.y as int) {
            assert(c1.px(p.x as int, p.y as int) == c2.px(p.x as int, p.y as int));
        }
    }
}

proof fn lemma_region_start(s: Sprite, t: u32, st: (int, int))
    requires
        s.in_bounds(st.0, st.1),
        s.px(st.0, st.1) == t,
    ensures
        in_region(s, t, st, st),
{
    let p = seq![st];
    assert(is_path(s, t, p));
}

proof fn lemma_region_extend(s: Sprite, t: u32, st: (int, int), q: (int, int), r: (int, int))
    requires
        in_region(s, t, st, q),
        adjacent(q, r),
        s.in_bounds(r.0, r.1),
        s.px(r.0, r.1) == t,
    ensures
        in_region(s, t, st, r),
{
    let p = choose|p: Seq<(int, int)>| #[trigger] is_path(s, t, p) && p[0] == st && p.last() == q;
    let p2 = p.push(r);
    assert forall|i: int| 0 <= i < p2.len() implies s.in_bounds(#[trigger] p2[i].0, p2[i].1) && s.px(p2[i].0, p2[i].1) == t by {
        if i < p.len() {
            assert(p2[i] == p[i]);
        }
    }
    assert forall|i: int| 0 <= i < p2.len() - 1 implies adjacent(#[trigger] p2[i], p2[i + 1]) by {
        if i < p.len() - 1 {
            assert(p2[i] == p[i] && p2[i + 1] == p[i + 1]);
        } else {
            assert(p2[i] == q);
        }
    }
    assert(is_path(s, t, p2));
}

proof fn lemma_region_colour(s: Sprite, t: u32, st: (int, int), q: (int, int))
    requires
        in_region(s, t, st, q),
    ensures
        s.in_bounds(q.0, q.1),
        s.px(q.0, q.1) == t,
{
    let p = choose|p: Seq<(int, int)>| #[trigger] is_path(s, t, p) && p[0] == st && p.last() == q;
    assert(p[p.len() - 1] == q);
}

/// The state the flood fill keeps between two seeds: `s0` is the sprite
/// before the fill, `cur` the sprite now, `t` the colour replaced, `f` the
/// new colour and `st` the pixel the fill started from.
#[verifier::opaque]
pub open spec fn fill_inv(s0: Sprite, cur: Sprite, stk: Seq<RPoint>, t: u32, f: u32, st: (int, int)) -> bool {
    &&& cur.wf()
    &&& cur.w() == s0.w()
    &&& cur.h() == s0.h()
    &&& t != f
    &&& in_region(s0, t, st, st)
    // only pixels of the region have been recoloured, and only to `f`
    &&& forall|i: int, j: int| cur.in_bounds(i, j) ==> #[trigger] cur.px(i, j) == s0.px(i, j)
        || (in_region(s0, t, st, (i, j)) && cur.px(i, j) == f)
    // every seed lies in the region
    &&& forall|k: int| 0 <= k < stk.len() ==> in_region(s0, t, st, pos(#[trigger] stk[k]))
    // a recoloured pixel has no neighbour of colour `t` left or right of it,
    // and each neighbour of colour `t` above or below it is covered by a seed
    &&& forall|i: int, j: int| cur.in_bounds(i, j) && in_region(s0, t, st, (i, j)) && #[trigger] cur.px(i, j) == f ==> {
            &&& (cur.in_bounds(i + 1, j) ==> cur.px(i + 1, j) != t)
            &&& (cur.in_bounds(i - 1, j) ==> cur.px(i - 1, j) != t)
            &&& (cur.in_bounds(i, j - 1) && cur.px(i, j - 1) == t ==> covered(cur, t, stk, (i, j - 1)))
            &&& (cur.in_bounds(i, j + 1) && cur.px(i, j + 1) == t ==> covered(cur, t, stk, (i, j + 1)))
        }
    // the starting pixel is recoloured or covered by a seed
    &&& (cur.px(st.0, st.1) == f || covered(cur, t, stk, st))
}

/// Under the fill invariant, a pixel of colour `t` now still has its colour
/// from before the fill.
proof fn lemma_t_unchanged(s0: Sprite, cur: Sprite, stk: Seq<RPoint>, t: u32, f: u32, st: (int, int))
    requires
        fill_inv(s0, cur, stk, t, f, st),
    ensures
        forall|i: int, j: int| cur.in_bounds(i, j) && #[trigger] cur.px(i, j) == t ==> s0.px(i, j) == t,
{
    reveal(fill_inv);
    assert forall|i: int, j: int| cur.in_bounds(i, j) && #[trigger] cur.px(i, j) == t implies s0.px(i, j) == t by {
        assert(cur.px(i, j) == s0.px(i, j) || (in_region(s0, t, st, (i, j)) && cur.px(i, j) == f));
    }
}

/// The pixels of colour `t` met when scanning a row from a pixel of the
/// region belong to the region.
proof fn lemma_run_in_region(s0: Sprite, cur: Sprite, t: u32, st: (int, int), sx: int, y: int, x: int)
    requires
        cur.w() == s0.w(),
        cur.h() == s0.h(),
        forall|i: int, j: int| cur.in_bounds(i, j) && #[trigger] cur.px(i, j) == t ==> s0.px(i, j) == t,
        in_region(s0, t, st, (sx, y)),
        cur.in_bounds(x, y),
        forall|xx: int| (if sx <= x { sx < xx <= x } else { x <= xx < sx }) ==> #[trigger] cur.px(xx, y) == t,
    ensures
        in_region(s0, t, st, (x, y)),
    decreases if sx <= x { x - sx } else { sx - x },
{
    lemma_region_colour(s0, t, st, (sx, y));
    if x == sx {
    } else if sx < x {
        lemma_run_in_region(s0, cur, t, st, sx, y, x - 1);
        assert(cur.px(x, y) == t);
        lemma_region_extend(s0, t, st, (x - 1, y), (x, y));
    } else {
        lemma_run_in_region(s0, cur, t, st, sx, y, x + 1);
        assert(cur.px(x, y) == t);
        lemma_region_extend(s0, t, st, (x + 1, y), (x, y));
    }
}

/// A seed that covers `q` in `cur` still covers it once the run `xs..=xe` of
/// row `y` is recoloured, when the run is a maximal run of colour `t` (but
/// for its seed pixel `sx`) and `q` keeps colour `t`.
proof fn lemma_covers_after_paint(cur: Sprite, cur2: Sprite, t: u32, f: u32, seed: RPoint, q: (int, int), y: int, xs: int, sx: int, xe: int)
    requires
        t != f,
        covers(cur, t, seed, q),
        cur.w() == cur2.w(),
        cur.h() == cur2.h(),
        xs <= sx <= xe,
        cur.in_bounds(xe + 1, y) ==> cur.px(xe + 1, y) != t,
        cur.in_bounds(xs - 1, y) ==> cur.px(xs - 1, y) != t,
        forall|i: int, j: int| cur.in_bounds(i, j) ==> #[trigger] cur2.px(i, j) == if xs <= i <= xe && j == y { f } else { cur.px(i, j) },
        cur2.px(q.0, q.1) == t,
    ensures
        covers(cur2, t, seed, q),
{
    let a: int = if seed.x <= q.0 { seed.x as int } else { q.0 };
    let b: int = if seed.x <= q.0 { q.0 } else { seed.x as int };
    assert(cur.px(q.0, q.1) == t);
    if q.1 == y {
        // the segment from the seed to q does not meet the run
        if a <= xe && xs <= b {
            if a < xs {
                assert(cur.in_bounds(xs - 1, y));
                assert(cur.px(xs - 1, y) == t);
            } else if xe < b {
                assert(cur.in_bounds(xe + 1, y));
                assert(cur.px(xe + 1, y) == t);
            } else {
                assert(cur2.px(q.0, q.1) == f);
            }
        }
    }
    assert forall|x: int| (if seed.x <= q.0 { seed.x <= x <= q.0 } else { q.0 <= x <= seed.x })
        implies #[trigger] cur2.px(x, q.1) == t by {
        assert(cur.px(x, q.1) == t);
        assert(cur.in_bounds(x, q.1));
    }
}

proof fn lemma_covered_after_paint(cur: Sprite, cur2: Sprite, t: u32, f: u32, stk_full: Seq<RPoint>, stk5: Seq<RPoint>, q: (int, int), y: int, xs: int, sx: int, xe: int)
    requires
        t != f,
        covered(cur, t, stk_full, q),
        stk_full.len() > 0,
        stk_full.last().x == sx,
        stk_full.last().y == y,
        stk_full.len() - 1 <= stk5.len(),
        forall|k: int| 0 <= k < stk_full.len() - 1 ==> stk5[k] == stk_full[k],
        cur.w() == cur2.w(),
        cur.h() == cur2.h(),
        xs <= sx <= xe,
        cur.in_bounds(xe + 1, y) ==> cur.px(xe + 1, y) != t,
        cur.in_bounds(xs - 1, y) ==> cur.px(xs - 1, y) != t,
        forall|i: int, j: int| cur.in_bounds(i, j) ==> #[trigger] cur2.px(i, j) == if xs <= i <= xe && j == y { f } else { cur.px(i, j) },
        cur2.px(q.0, q.1) == t,
    ensures
        covered(cur2, t, stk5, q),
{
    let k = choose|k: int| 0 <= k < stk_full.len() && #[trigger] covers(cur, t, stk_full[k], q);
    if k == stk_full.len() - 1 {
        // the popped seed lies in the run, so it cannot cover a pixel left of colour t
        assert(stk_full[k] == stk_full.last());
        assert(cur.px(sx, y) == t);
        lemma_covers_after_paint(cur, cur2, t, f, stk_full[k], q, y, xs, sx, xe);
        assert(cur2.px(sx, y) == f);
        assert(cur2.px(sx, y) == t);
    } else {
        lemma_covers_after_paint(cur, cur2, t, f, stk_full[k], q, y, xs, sx, xe);
        assert(stk5[k] == stk_full[k]);
        assert(covers(cur2, t, stk5[k], q));
    }
}


/// What one round of the fill leaves behind: the last seed `(sx, y)` of
/// `stk_full` was popped, the run `xs..=xe` of row `y` around it was scanned
/// (seeds for the rows above and below being pushed to give `stk5`), and
/// `cur2` is `cur` with that run recoloured.
pub open spec fn step_facts(cur: Sprite, cur2: Sprite, stk_full: Seq<RPoint>, stk5: Seq<RPoint>, t: u32, f: u32, sx: int, y: int, xs: int, xe: int) -> bool {
    &&& stk_full.len() > 0
    &&& stk_full.last().x == sx
    &&& stk_full.last().y == y
    &&& stk_full.len() - 1 <= stk5.len()
    &&& forall|k: int| 0 <= k < stk_full.len() - 1 ==> stk5[k] == stk_full[k]
    &&& forall|k: int| stk_full.len() - 1 <= k < stk5.len() ==> {
            &&& ((#[trigger] stk5[k]).y == y - 1 || stk5[k].y == y + 1)
            &&& xs <= stk5[k].x <= xe
            &&& cur.in_bounds(stk5[k].x as int, stk5[k].y as int)
            &&& cur.px(stk5[k].x as int, stk5[k].y as int) == t
        }
    &&& xs <= sx <= xe
    &&& cur.in_bounds(xs, y)
    &&& cur.in_bounds(xe, y)
    &&& forall|x: int| xs <= x <= xe && x != sx ==> #[trigger] cur.px(x, y) == t
    &&& (cur.in_bounds(xe + 1, y) ==> cur.px(xe + 1, y) != t)
    &&& (cur.in_bounds(xs - 1, y) ==> cur.px(xs - 1, y) != t)
    &&& forall|x: int, ny: int| xs <= x <= xe && (ny == y - 1 || ny == y + 1) && cur.in_bounds(x, ny)
        && #[trigger] cur.px(x, ny) == t ==> covered(cur, t, stk5, (x, ny))
    &&& cur2.wf()
    &&& cur2.w() == cur.w()
    &&& cur2.h() == cur.h()
    &&& forall|i: int, j: int| cur.in_bounds(i, j) ==> #[trigger] cur2.px(i, j) == if xs <= i <= xe && j == y { f } else { cur.px(i, j) }
}

proof fn lemma_step_run_region(s0: Sprite, cur: Sprite, cur2: Sprite, stk_full: Seq<RPoint>, stk5: Seq<RPoint>, t: u32, f: u32, st: (int, int), sx: int, y: int, xs: int, xe: int)
    requires
        fill_inv(s0, cur, stk_full, t, f, st),
        step_facts(cur, cur2, stk_full, stk5, t, f, sx, y, xs, xe),
    ensures
        forall|x: int| xs <= x <= xe ==> #[trigger] in_region(s0, t, st, (x, y)),
{
    reveal(fill_inv);
    assert(in_region(s0, t, st, pos(stk_full[stk_full.len() - 1])));
    lemma_t_unchanged(s0, cur, stk_full, t, f, st);
    assert forall|x: int| xs <= x <= xe implies #[trigger] in_region(s0, t, st, (x, y)) by {
        assert forall|xx: int| (if sx <= x { sx < xx <= x } else { x <= xx < sx }) implies #[trigger] cur.px(xx, y) == t by {
            assert(xs <= xx <= xe && xx != sx);
        }
        lemma_run_in_region(s0, cur, t, st, sx, y, x);
    }
}

proof fn lemma_step_colours(s0: Sprite, cur: Sprite, cur2: Sprite, stk_full: Seq<RPoint>, stk5: Seq<RPoint>, t: u32, f: u32, st: (int, int), sx: int, y: int, xs: int, xe: int)
    requires
        fill_inv(s0, cur, stk_full, t, f, st),
        step_facts(cur, cur2, stk_full, stk5, t, f, sx, y, xs, xe),
    ensures
        forall|i: int, j: int| cur2.in_bounds(i, j) ==> #[trigger] cur2.px(i, j) == s0.px(i, j)
            || (in_region(s0, t, st, (i, j)) && cur2.px(i, j) == f),
        forall|k: int| 0 <= k < stk5.len() ==> in_region(s0, t, st, pos(#[trigger] stk5[k])),
{
    reveal(fill_inv);
    lemma_step_run_region(s0, cur, cur2, stk_full, stk5, t, f, st, sx, y, xs, xe);
    lemma_t_unchanged(s0, cur, stk_full, t, f, st);
    assert forall|i: int, j: int| cur2.in_bounds(i, j) implies #[trigger] cur2.px(i, j) == s0.px(i, j)
        || (in_region(s0, t, st, (i, j)) && cur2.px(i, j) == f) by {
        assert(cur.in_bounds(i, j));
        if xs <= i <= xe && j == y {
            assert(in_region(s0, t, st, (i, y)));
        } else {
            assert(cur.px(i, j) == s0.px(i, j) || (in_region(s0, t, st, (i, j)) && cur.px(i, j) == f));
        }
    }
    assert forall|k: int| 0 <= k < stk5.len() implies in_region(s0, t, st, pos(#[trigger] stk5[k])) by {
        if k < stk_full.len() - 1 {
            assert(stk5[k] == stk_full[k]);
        } else {
            let p = stk5[k];
            assert(in_region(s0, t, st, (p.x as int, y)));
            assert(cur.px(p.x as int, p.y as int) == t);
            lemma_region_extend(s0, t, st, (p.x as int, y), pos(p));
        }
    }
}

proof fn lemma_step_painted(s0: Sprite, cur: Sprite, cur2: Sprite, stk_full: Seq<RPoint>, stk5: Seq<RPoint>, t: u32, f: u32, st: (int, int), sx: int, y: int, xs: int, xe: int, i: int, j: int)
    requires
        fill_inv(s0, cur, stk_full, t, f, st),
        step_facts(cur, cur2, stk_full, stk5, t, f, sx, y, xs, xe),
        cur2.in_bounds(i, j),
        in_region(s0, t, st, (i, j)),
        cur2.px(i, j) == f,
    ensures
        cur2.in_bounds(i + 1, j) ==> cur2.px(i + 1, j) != t,
        cur2.in_bounds(i - 1, j) ==> cur2.px(i - 1, j) != t,
        cur2.in_bounds(i, j - 1) && cur2.px(i, j - 1) == t ==> covered(cur2, t, stk5, (i, j - 1)),
        cur2.in_bounds(i, j + 1) && cur2.px(i, j + 1) == t ==> covered(cur2, t, stk5, (i, j + 1)),
{
    reveal(fill_inv);
    let in_run = xs <= i <= xe && j == y;
    assert(cur.in_bounds(i, j));
    if !in_run {
        assert(cur.px(i, j) == f);
    }
    // left and right
    if cur2.in_bounds(i + 1, j) {
        assert(cur.in_bounds(i + 1, j));
        if !(xs <= i + 1 <= xe && j == y) {
            assert(cur2.px(i + 1, j) == cur.px(i + 1, j));
        }
    }
    if cur2.in_bounds(i - 1, j) {
        assert(cur.in_bounds(i - 1, j));
        if !(xs <= i - 1 <= xe && j == y) {
            assert(cur2.px(i - 1, j) == cur.px(i - 1, j));
        }
    }
    // above and below
    let ghost nbs = seq![(i, j - 1), (i, j + 1)];
    assert forall|m: int| 0 <= m < 2 && cur2.in_bounds(#[trigger] nbs[m].0, nbs[m].1) && cur2.px(nbs[m].0, nbs[m].1) == t
        implies covered(cur2, t, stk5, nbs[m]) by {
        let q = nbs[m];
        if cur2.in_bounds(q.0, q.1) && cur2.px(q.0, q.1) == t {
            assert(cur.in_bounds(q.0, q.1));
            assert(!(xs <= q.0 <= xe && q.1 == y));
            assert(cur2.px(q.0, q.1) == cur.px(q.0, q.1));
            if in_run {
                assert(cur.px(q.0, q.1) == t);
                assert(covered(cur, t, stk5, q));
                let k = choose|k: int| 0 <= k < stk5.len() && #[trigger] covers(cur, t, stk5[k], q);
                lemma_covers_after_paint(cur, cur2, t, f, stk5[k], q, y, xs, sx, xe);
                assert(covers(cur2, t, stk5[k], q));
            } else {
                assert(covered(cur, t, stk_full, q));
                lemma_covered_after_paint(cur, cur2, t, f, stk_full, stk5, q, y, xs, sx, xe);
            }
        }
    }
    assert(nbs[0] == (i, j - 1));
    assert(nbs[1] == (i, j + 1));
}

/// One round of the fill keeps the fill invariant.
proof fn lemma_step_inv(s0: Sprite, cur: Sprite, cur2: Sprite, stk_full: Seq<RPoint>, stk5: Seq<RPoint>, t: u32, f: u32, st: (int, int), sx: int, y: int, xs: int, xe: int)
    requires
        fill_inv(s0, cur, stk_full, t, f, st),
        step_facts(cur, cur2, stk_full, stk5, t, f, sx, y, xs, xe),
    ensures
        fill_inv(s0, cur2, stk5, t, f, st),
{
    reveal(fill_inv);
    lemma_step_colours(s0, cur, cur2, stk_full, stk5, t, f, st, sx, y, xs, xe);
    assert forall|i: int, j: int| cur2.in_bounds(i, j) && in_region(s0, t, st, (i, j)) && #[trigger] cur2.px(i, j) == f implies {
        &&& (cur2.in_bounds(i + 1, j) ==> cur2.px(i + 1, j) != t)
        &&& (cur2.in_bounds(i - 1, j) ==> cur2.px(i - 1, j) != t)
        &&& (cur2.in_bounds(i, j - 1) && cur2.px(i, j - 1) == t ==> covered(cur2, t, stk5, (i, j - 1)))
        &&& (cur2.in_bounds(i, j + 1) && cur2.px(i, j + 1) == t ==> covered(cur2, t, stk5, (i, j + 1)))
    } by {
        lemma_step_painted(s0, cur, cur2, stk_full, stk5, t, f, st, sx, y, xs, xe, i, j);
    }
    // the starting pixel
    lemma_region_colour(s0, t, st, st);
    assert(cur.in_bounds(st.0, st.1));
    if cur2.px(st.0, st.1) != f {
        assert(!(xs <= st.0 <= xe && st.1 == y));
        assert(cur2.px(st.0, st.1) == cur.px(st.0, st.1));
        assert(cur.px(st.0, st.1) == s0.px(st.0, st.1) || (in_region(s0, t, st, st) && cur.px(st.0, st.1) == f));
        lemma_covered_after_paint(cur, cur2, t, f, stk_full, stk5, st, y, xs, sx, xe);
    }
}


/// One round of the fill lowers the number of pixels of colour `t`, or keeps
/// it and lowers the number of seeds that point at recoloured pixels.
proof fn lemma_step_decreases(s0: Sprite, cur: Sprite, cur2: Sprite, stk_full: Seq<RPoint>, stk5: Seq<RPoint>, t: u32, f: u32, st: (int, int), sx: int, y: int, xs: int, xe: int)
    requires
        fill_inv(s0, cur, stk_full, t, f, st),
        step_facts(cur, cur2, stk_full, stk5, t, f, sx, y, xs, xe),
    ensures
        cur2.count_color(t) < cur.count_color(t) || (cur2.count_color(t) == cur.count_color(t)
            && count_done(cur2, t, stk5) < count_done(cur, t, stk_full)),
{
    reveal(fill_inv);
    let last = stk_full[stk_full.len() - 1];
    assert(last == stk_full.last());
    assert(in_region(s0, t, st, pos(last)));
    lemma_region_colour(s0, t, st, pos(last));
    assert(cur.in_bounds(sx, y));
    if cur.px(sx, y) == t {
        assert forall|i: int, j: int| #[trigger] cur.in_bounds(i, j) implies cur2.px(i, j) == cur.px(i, j)
            || (cur.px(i, j) == t && cur2.px(i, j) != t) by {
            if xs <= i <= xe && j == y && i != sx {
                assert(cur.px(i, y) == t);
            }
        }
        Sprite::lemma_count_color_decrease(&cur, &cur2, t, sx, y);
    } else {
        // the popped seed was already recoloured: the run is that one pixel
        assert(cur.px(sx, y) == s0.px(sx, y) || (in_region(s0, t, st, (sx, y)) && cur.px(sx, y) == f));
        assert(cur.px(sx, y) == f);
        if xe > sx {
            assert(cur.px(sx + 1, y) == t);
        }
        if xs < sx {
            assert(cur.px(sx - 1, y) == t);
        }
        assert(xs == sx && xe == sx);
        assert forall|i: int, j: int| cur2.in_bounds(i, j) implies #[trigger] cur2.px(i, j) == cur.px(i, j) by {
            assert(cur.in_bounds(i, j));
        }
        assert(cur2.same_image(&cur));
        Sprite::lemma_count_color_same(&cur, &cur2, t);
        lemma_count_done_same(cur2, cur, t, stk5);
        let stk1 = stk_full.drop_last();
        assert forall|k: int| stk1.len() <= k < stk5.len() implies cur.in_bounds((#[trigger] stk5[k]).x as int, stk5[k].y as int)
            && cur.px(stk5[k].x as int, stk5[k].y as int) == t by {
        }
        lemma_count_done_extend(cur, t, stk1, stk5);
    }
}

proof fn lemma_path_prefix_region(s: Sprite, t: u32, st: (int, int), p: Seq<(int, int)>, i: int)
    requires
        is_path(s, t, p),
        p[0] == st,
        0 <= i < p.len(),
    ensures
        in_region(s, t, st, p[i]),
{
    let p2 = p.subrange(0, i + 1);
    assert forall|k: int| 0 <= k < p2.len() implies s.in_bounds(#[trigger] p2[k].0, p2[k].1) && s.px(p2[k].0, p2[k].1) == t by {
        assert(p2[k] == p[k]);
    }
    assert forall|k: int| 0 <= k < p2.len() - 1 implies adjacent(#[trigger] p2[k], p2[k + 1]) by {
        assert(p2[k] == p[k] && p2[k + 1] == p[k + 1]);
    }
    assert(is_path(s, t, p2));
    assert(p2.last() == p[i]);
}

/// When no seed is left, every pixel along a path of the region from the
/// starting pixel has been recoloured.
proof fn lemma_fill_complete_path(s0: Sprite, cur: Sprite, stk: Seq<RPoint>, t: u32, f: u32, st: (int, int), p: Seq<(int, int)>, i: int)
    requires
        fill_inv(s0, cur, stk, t, f, st),
        stk.len() == 0,
        is_path(s0, t, p),
        p[0] == st,
        0 <= i < p.len(),
    ensures
        cur.px(p[i].0, p[i].1) == f,
    decreases i,
{
    reveal(fill_inv);
    if i == 0 {
        assert(!covered(cur, t, stk, st));
    } else {
        lemma_fill_complete_path(s0, cur, stk, t, f, st, p, i - 1);
        let a = p[i - 1];
        let b = p[i];
        assert(adjacent(a, b));
        lemma_path_prefix_region(s0, t, st, p, i - 1);
        lemma_path_prefix_region(s0, t, st, p, i);
        assert(s0.in_bounds(a.0, a.1) && s0.in_bounds(b.0, b.1));
        assert(cur.px(b.0, b.1) == s0.px(b.0, b.1) || (in_region(s0, t, st, b) && cur.px(b.0, b.1) == f));
        if cur.px(b.0, b.1) != f {
            assert(cur.px(b.0, b.1) == t);
            assert(!covered(cur, t, stk, b));
        }
    }
}

/// When no seed is left, every pixel of the region has been recoloured.
proof fn lemma_fill_complete(s0: Sprite, cur: Sprite, stk: Seq<RPoint>, t: u32, f: u32, st: (int, int), q: (int, int))
    requires
        fill_inv(s0, cur, stk, t, f, st),
        stk.len() == 0,
        in_region(s0, t, st, q),
    ensures
        cur.px(q.0, q.1) == f,
{
    let p = choose|p: Seq<(int, int)>| #[trigger] is_path(s0, t, p) && p[0] == st && p.last() == q;
    lemma_fill_complete_path(s0, cur, stk, t, f, st, p, p.len() - 1);
    assert(p[p.len() - 1] == q);
}

proof fn lemma_assemble(cur: Sprite, cur2: Sprite, stk_full: Seq<RPoint>, stk1: Seq<RPoint>, stk2: Seq<RPoint>, stk3: Seq<RPoint>, stk4: Seq<RPoint>, stk5: Seq<RPoint>, t: u32, f: u32, sx: i32, y: i32, xs: i32, xe: i32, f_n: bool, f_s: bool)
    requires
        stk_full.len() > 0,
        stk1 == stk_full.drop_last(),
        stk_full.last().x == sx,
        stk_full.last().y == y,
        cur.in_bounds(sx as int, y as int),
        cur.h() <= crate::sprite::MAX_PIXELS,
        f_n == (cur.in_bounds(sx as int, y - 1) && cur.px(sx as int, y - 1) == t),
        stk2 == if f_n { stk1.push(RPoint { x: sx, y: (y - 1) as i32 }) } else { stk1 },
        f_s == (cur.in_bounds(sx as int, y + 1) && cur.px(sx as int, y + 1) == t),
        stk3 == if f_s { stk2.push(RPoint { x: sx, y: (y + 1) as i32 }) } else { stk2 },
        scan_done(cur, t, stk3, stk4, sx as int, y as int, xe as int, 1),
        scan_done(cur, t, stk4, stk5, sx as int, y as int, xs as int, -1),
        cur2.wf(),
        cur2.w() == cur.w(),
        cur2.h() == cur.h(),
        forall|i: int, j: int| #[trigger] cur2.in_bounds(i, j) ==> cur2.px(i, j) ==
            if xs <= i <= xe && j == y { f } else { cur.px(i, j) },
    ensures
        step_facts(cur, cur2, stk_full, stk5, t, f, sx as int, y as int, xs as int, xe as int),
{
    let sx = sx as int;
    let xs = xs as int;
    let xe = xe as int;
    assert forall|k: int| 0 <= k < stk_full.len() - 1 implies stk5[k] == stk_full[k] by {
        assert(stk4[k] == stk3[k]);
        assert(stk1[k] == stk_full[k]);
        assert(stk3[k] == stk2[k]);
        assert(stk2[k] == stk1[k]);
    }
    assert forall|k: int| stk_full.len() - 1 <= k < stk5.len() implies {
        &&& ((#[trigger] stk5[k]).y == y - 1 || stk5[k].y == y + 1)
        &&& xs <= stk5[k].x <= xe
        &&& cur.in_bounds(stk5[k].x as int, stk5[k].y as int)
        &&& cur.px(stk5[k].x as int, stk5[k].y as int) == t
    } by {
        if k < stk4.len() {
            assert(stk5[k] == stk4[k]);
            if k < stk3.len() {
                assert(stk4[k] == stk3[k]);
                if k < stk2.len() {
                    assert(stk3[k] == stk2[k]);
                }
            }
        }
    }
    assert forall|x: int, ny: int| xs <= x <= xe && (ny == y - 1 || ny == y + 1) && cur.in_bounds(x, ny)
        && #[trigger] cur.px(x, ny) == t implies covered(cur, t, stk5, (x, ny)) by {
        if x > sx {
            lemma_covered_prefix(cur, t, stk4, stk5, (x, ny));
        } else if x == sx {
            if ny == y - 1 {
                assert(stk2[stk1.len() as int] == RPoint { x: sx as i32, y: (y - 1) as i32 });
                assert(covers(cur, t, stk2[stk1.len() as int], (x, ny)));
                lemma_covered_prefix(cur, t, stk2, stk5, (x, ny));
            } else {
                assert(stk3[stk2.len() as int] == RPoint { x: sx as i32, y: (y + 1) as i32 });
                assert(covers(cur, t, stk3[stk2.len() as int], (x, ny)));
                lemma_covered_prefix(cur, t, stk3, stk5, (x, ny));
            }
        }
    }
    assert forall|x: int| xs <= x <= xe && x != sx implies #[trigger] cur.px(x, y as int) == t by {
    }
    assert forall|i: int, j: int| cur.in_bounds(i, j) implies #[trigger] cur2.px(i, j) == if xs <= i <= xe && j == y { f } else { cur.px(i, j) } by {
        assert(cur2.in_bounds(i, j));
    }
}

/// Recolours with `fill_color` the region of pixels that have the colour of
/// `(fill_x, fill_y)` and can be reached from it through 4-neighbouring
/// pixels of that colour. Nothing changes when `(fill_x, fill_y)` lies

/// `b` is `a` with the region of the colour of pixel `(x, y)` around it, in
/// 4-connected steps, recoloured `col`; nothing changes when `(x, y)` lies
/// outside the sprite or already has colour `col`.
pub open spec fn flooded(a: Sprite, b: Sprite, x: int, y: int, col: u32) -> bool {
    &&& b.w() == a.w()
    &&& b.h() == a.h()
    &&& forall|i: int, j: int| #[trigger] b.in_bounds(i, j) ==> b.px(i, j) ==
        if a.in_bounds(x, y) && a.px(x, y) != col && in_region(a, a.px(x, y), (x, y), (i, j)) {
            col
        } else {
            a.px(i, j)
        }
}

/// Filling twice from the same pixel with the same colour fills no more
/// than filling once.
pub proof fn lemma_flood_fill_twice(a: Sprite, b: Sprite, c: Sprite, x: int, y: int, col: u32)
    requires
        flooded(a, b, x, y, col),
        flooded(b, c, x, y, col),
    ensures
        c.same_image(&b),
{
    if a.in_bounds(x, y) && a.px(x, y) != col {
        let p = seq![(x, y)];
        assert(is_path(a, a.px(x, y), p));
        assert(in_region(a, a.px(x, y), (x, y), (x, y)));
        assert(b.in_bounds(x, y));
        assert(b.px(x, y) == col);
    } else if a.in_bounds(x, y) {
        assert(b.in_bounds(x, y));
        assert(b.px(x, y) == a.px(x, y));
    }
    assert forall|i: int, j: int| c.in_bounds(i, j) implies #[trigger] c.px(i, j) == b.px(i, j) by {
        assert(b.in_bounds(i, j));
    }
}

/// outside the sprite or already has colour `fill_color`.
pub fn flood_fill(sprite: &mut Sprite, fill_x: i32, fill_y: i32, fill_color: u32)
    requires
        old(sprite).wf(),
    ensures
        final(sprite).wf(),
        flooded(*old(sprite), *final(sprite), fill_x as int, fill_y as int, fill_color),
{
    let (target_color, res) = floodFillGetColor(sprite, fill_x, fill_y);
    if res == false || (target_color == fill_color) {
        return ;
    }
    let ghost s0 = *sprite;
    let ghost st = (fill_x as int, fill_y as int);
    let t = target_color;
    proof {
        sprite.lemma_wf_dims();
    }
    //-- the seed stack
    let mut stk: Vec<RPoint> = Vec::new();
    let pt = RPoint { x: fill_x, y: fill_y };
    stk.push(pt);
    proof {
        reveal(fill_inv);
        lemma_region_start(s0, t, st);
        assert(stk@[0] == pt);
        assert(covers(*sprite, t, stk@[0], st));
        assert forall|i: int, j: int| sprite.in_bounds(i, j) && in_region(s0, t, st, (i, j)) && #[trigger] sprite.px(i, j) == fill_color implies false by {
            lemma_region_colour(s0, t, st, (i, j));
        }
    }
    while stk.len() != 0
        invariant
            fill_inv(s0, *sprite, stk@, t, fill_color, st),
            s0.wf(),
            s0.h() <= crate::sprite::MAX_PIXELS,
            s0.w() <= crate::sprite::MAX_PIXELS,
            s0.in_bounds(st.0, st.1),
            s0.px(st.0, st.1) == t,
        decreases sprite.count_color(t), count_done(*sprite, t, stk@),
    {
        let ghost stk_full = stk@;
        let ghost cur = *sprite;
        let (start_x, start_y) = match stk.pop() {
            Some(pt) => { (pt.x, pt.y) },
            None => { (0, 0) },
        };
        let ghost stk1 = stk@;
        proof {
            reveal(fill_inv);
            assert(stk_full[stk_full.len() - 1] == stk_full.last());
            assert(in_region(s0, t, st, pos(stk_full[stk_full.len() - 1])));
            lemma_region_colour(s0, t, st, (start_x as int, start_y as int));
        }
        //-- north of the seed
        let f_start_nord = scan_neighbor(sprite, &mut stk, start_x, start_y - 1, t, false);
        let ghost stk2 = stk@;
        //-- south of the seed
        let f_start_sud = scan_neighbor(sprite, &mut stk, start_x, start_y + 1, t, false);
        let ghost stk3 = stk@;
        let y = start_y;
        proof {
            if f_start_nord {
                assert(covers(*sprite, t, stk2[stk1.len() as int], (start_x as int, y - 1)));
                assert(covered(*sprite, t, stk2, (start_x as int, y - 1)));
                lemma_covered_prefix(*sprite, t, stk2, stk3, (start_x as int, y - 1));
            }
            if f_start_sud {
                assert(covers(*sprite, t, stk3[stk2.len() as int], (start_x as int, y + 1)));
            }
        }
        //-- east along the row
        let x_end_line = scan_row(sprite, &mut stk, start_x, y, t, f_start_nord, f_start_sud, 1);
        let ghost stk4 = stk@;
        proof {
            if f_start_nord {
                lemma_covered_prefix(*sprite, t, stk3, stk4, (start_x as int, y - 1));
            }
            if f_start_sud {
                lemma_covered_prefix(*sprite, t, stk3, stk4, (start_x as int, y + 1));
            }
        }
        //-- west along the row
        let x_start_line = scan_row(sprite, &mut stk, start_x, y, t, f_start_nord, f_start_sud, -1);
        let ghost stk5 = stk@;
        //-- recolour the run
        draw_horizontal_line(sprite, x_start_line, x_end_line, y, fill_color);
        proof {
            assert(cur.in_bounds(start_x as int, start_y as int));
            lemma_assemble(cur, *sprite, stk_full, stk1, stk2, stk3, stk4, stk5, t, fill_color, start_x, y, x_start_line, x_end_line, f_start_nord, f_start_sud);
            lemma_step_inv(s0, cur, *sprite, stk_full, stk5, t, fill_color, st, start_x as int, y as int, x_start_line as int, x_end_line as int);
            lemma_step_decreases(s0, cur, *sprite, stk_full, stk5, t, fill_color, st, start_x as int, y as int, x_start_line as int, x_end_line as int);
        }
    }
    proof {
        assert forall|i: int, j: int| #[trigger] sprite.in_bounds(i, j) implies sprite.px(i, j) ==
            if in_region(s0, t, st, (i, j)) { fill_color } else { s0.px(i, j) } by {
            reveal(fill_inv);
            if in_region(s0, t, st, (i, j)) {
                lemma_fill_complete(s0, *sprite, stk@, t, fill_color, st, (i, j));
            } else {
                assert(sprite.px(i, j) == s0.px(i, j) || (in_region(s0, t, st, (i, j)) && sprite.px(i, j) == fill_color));
            }
        }
    }
}

} // verus!
