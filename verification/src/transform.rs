//! Mirroring and quarter turns of a sprite.

use vstd::prelude::*;
use crate::sprite::{Sprite, valid_dims};

verus! {

/// `dest` is `src` mirrored left to right, over the size of `dest`.
pub open spec fn is_flipped_h(src: Sprite, dest: Sprite) -> bool {
    forall|i: int, j: int| #[trigger] dest.in_bounds(i, j) ==> dest.px(i, j) == src.px(dest.w() - 1 - i, j)
}

/// `dest` is `src` mirrored top to bottom, over the size of `dest`.
pub open spec fn is_flipped_v(src: Sprite, dest: Sprite) -> bool {
    forall|i: int, j: int| #[trigger] dest.in_bounds(i, j) ==> dest.px(i, j) == src.px(i, dest.h() - 1 - j)
}

/// `dest` is `src` turned a quarter turn anticlockwise: column `x` of `src`,
/// read top to bottom, becomes row `w - 1 - x` of `dest`, read left to right.
pub open spec fn is_turned_left(src: Sprite, dest: Sprite) -> bool {
    &&& dest.w() == src.h()
    &&& dest.h() == src.w()
    &&& forall|i: int, j: int| #[trigger] dest.in_bounds(i, j) ==> dest.px(i, j) == src.px(src.w() - 1 - j, i)
}

/// `dest` is `src` turned a quarter turn clockwise: column `x` of `src`,
/// read bottom to top, becomes row `x` of `dest`, read left to right.
pub open spec fn is_turned_right(src: Sprite, dest: Sprite) -> bool {
    &&& dest.w() == src.h()
    &&& dest.h() == src.w()
    &&& forall|i: int, j: int| #[trigger] dest.in_bounds(i, j) ==> dest.px(i, j) == src.px(j, src.h() - 1 - i)
}

/// `dest` holds, mirrored left to right, the buffer of `src` read in rows as
/// long as those of `dest`: its pixel `(i, j)` is pixel `j * w + (w - 1 - i)`
/// of the buffer of `src`, `w` being the width of `dest`.
pub open spec fn is_flipped_h_rows(src: Sprite, dest: Sprite) -> bool {
    forall|i: int, j: int| #[trigger] dest.in_bounds(i, j) ==> dest.px(i, j) == src.at(j * dest.w() + (dest.w() - 1 - i))
}

/// `dest` holds, mirrored top to bottom, the buffer of `src` read in rows as
/// long as those of `dest`: its pixel `(i, j)` is pixel `(h - 1 - j) * w + i`
/// of the buffer of `src`, `w` and `h` being the width and height of `dest`.
pub open spec fn is_flipped_v_rows(src: Sprite, dest: Sprite) -> bool {
    forall|i: int, j: int| #[trigger] dest.in_bounds(i, j) ==> dest.px(i, j) == src.at((dest.h() - 1 - j) * dest.w() + i)
}

/// Read with rows of its own width, the buffer of `src` gives its mirror
/// image.
pub proof fn lemma_flipped_rows_same_width(src: Sprite, dest: Sprite)
    requires
        src.w() == dest.w(),
    ensures
        is_flipped_h_rows(src, dest) ==> is_flipped_h(src, dest),
        is_flipped_v_rows(src, dest) ==> is_flipped_v(src, dest),
{
    assert forall|i: int, j: int| #[trigger] dest.in_bounds(i, j) && is_flipped_h_rows(src, dest) implies dest.px(i, j)
        == src.px(dest.w() - 1 - i, j) by {
        src.lemma_px_at(dest.w() - 1 - i, j);
    }
    assert forall|i: int, j: int| #[trigger] dest.in_bounds(i, j) && is_flipped_v_rows(src, dest) implies dest.px(i, j)
        == src.px(i, dest.h() - 1 - j) by {
        src.lemma_px_at(i, dest.h() - 1 - j);
    }
}

proof fn lemma_row_index(w: int, h: int, sw: int, sh: int, x: int, y: int)
    requires
        0 <= x < w,
        0 <= y < h,
        w <= sw,
        h <= sh,
    ensures
        0 <= y * w <= y * w + x < sw * sh,
{
    assert(0 <= y * w <= y * w + x < sw * sh) by (nonlinear_arith)
        requires
            0 <= x < w,
            0 <= y < h,
            w <= sw,
            h <= sh,
    ;
}

/// Writes into `dest` its mirror image, left to right, taken from the buffer
/// of `src` read in rows as long as those of `dest` (see `is_flipped_h_rows`).
pub fn flip_horizontal(src: &Sprite, dest: &mut Sprite)
    requires
        src.wf(),
        old(dest).wf(),
        src.w() >= old(dest).w(),
        src.h() >= old(dest).h(),
    ensures
        final(dest).wf(),
        final(dest).w() == old(dest).w(),
        final(dest).h() == old(dest).h(),
        is_flipped_h_rows(*src, *final(dest)),
{
    let width = dest.get_width();
    let height = dest.get_height();
    proof {
        dest.lemma_wf_dims();
        src.lemma_wf_dims();
    }
    let w = width - 1;
    let mut y: i32 = 0;
    while y < height
        invariant
            src.wf(),
            dest.wf(),
            dest.w() == width,
            dest.h() == height,
            src.w() >= width,
            src.h() >= height,
            valid_dims(src.w(), src.h()),
            w == width - 1,
            0 < width,
            0 <= y <= height,
            forall|i: int, j: int| #[trigger] dest.in_bounds(i, j) && j < y ==> dest.px(i, j) == src.at(j * width + (w - i)),
        decreases height - y,
    {
        let mut x: i32 = 0;
        while x < width
            invariant
                src.wf(),
                dest.wf(),
                dest.w() == width,
                dest.h() == height,
                src.w() >= width,
                src.h() >= height,
                valid_dims(src.w(), src.h()),
                w == width - 1,
                0 < width,
                0 <= y < height,
                0 <= x <= width,
                forall|i: int, j: int| #[trigger] dest.in_bounds(i, j) && j < y ==> dest.px(i, j) == src.at(j * width + (w - i)),
                forall|i: int| 0 <= i < x ==> #[trigger] dest.px(w - i, y as int) == src.at(y * width + i),
            decreases width - x,
        {
            proof {
                lemma_row_index(width as int, height as int, src.w(), src.h(), x as int, y as int);
            }
            let c = src.get_at((y as usize) * (width as usize) + (x as usize));
            let ghost prev = *dest;
            dest.set_color(w - x, y, c);
            assert forall|i: int| 0 <= i < x + 1 implies #[trigger] dest.px(w - i, y as int) == src.at(y * width + i) by {
                assert(dest.in_bounds(w - i, y as int));
                if i < x {
                    assert(prev.px(w - i, y as int) == src.at(y * width + i));
                }
            }
            assert forall|i: int, j: int| #[trigger] dest.in_bounds(i, j) && j < y implies dest.px(i, j) == src.at(j * width + (w - i)) by {
                assert(prev.in_bounds(i, j));
            }
            x = x + 1;
        }
        assert forall|i: int, j: int| #[trigger] dest.in_bounds(i, j) && j < y + 1 implies dest.px(i, j) == src.at(j * width + (w - i)) by {
            if j == y {
                assert(dest.px(w - (w - i), y as int) == src.at(y * width + (w - i)));
            }
        }
        y = y + 1;
    }
}

/// Writes into `dest` its mirror image, top to bottom, taken from the buffer
/// of `src` read in rows as long as those of `dest` (see `is_flipped_v_rows`).
pub fn flip_vertical(src: &Sprite, dest: &mut Sprite)
    requires
        src.wf(),
        old(dest).wf(),
        src.w() >= old(dest).w(),
        src.h() >= old(dest).h(),
    ensures
        final(dest).wf(),
        final(dest).w() == old(dest).w(),
        final(dest).h() == old(dest).h(),
        is_flipped_v_rows(*src, *final(dest)),
{
    let width = dest.get_width();
    let height = dest.get_height();
    proof {
        dest.lemma_wf_dims();
        src.lemma_wf_dims();
    }
    let h = height - 1;
    let mut y: i32 = 0;
    while y < height
        invariant
            src.wf(),
            dest.wf(),
            dest.w() == width,
            dest.h() == height,
            src.w() >= width,
            src.h() >= height,
            valid_dims(src.w(), src.h()),
            h == height - 1,
            0 < width,
            0 <= y <= height,
            forall|i: int, j: int| #[trigger] dest.in_bounds(i, j) && j > h - y ==> dest.px(i, j) == src.at((h - j) * width + i),
        decreases height - y,
    {
        let mut x: i32 = 0;
        while x < width
            invariant
                src.wf(),
                dest.wf(),
                dest.w() == width,
                dest.h() == height,
                src.w() >= width,
                src.h() >= height,
                valid_dims(src.w(), src.h()),
                h == height - 1,
                0 < width,
                0 <= y < height,
                0 <= x <= width,
                forall|i: int, j: int| #[trigger] dest.in_bounds(i, j) && (j > h - y || (j == h - y && i < x))
                    ==> dest.px(i, j) == src.at((h - j) * width + i),
            decreases width - x,
        {
            proof {
                lemma_row_index(width as int, height as int, src.w(), src.h(), x as int, y as int);
            }
            let c = src.get_at((y as usize) * (width as usize) + (x as usize));
            let ghost prev = *dest;
            dest.set_color(x, h - y, c);
            assert forall|i: int, j: int| #[trigger] dest.in_bounds(i, j) && (j > h - y || (j == h - y && i < x + 1))
                implies dest.px(i, j) == src.at((h - j) * width + i) by {
                assert(prev.in_bounds(i, j));
            }
            x = x + 1;
        }
        y = y + 1;
    }
}

/// A new sprite: `src` turned a quarter turn anticlockwise.
pub fn turn_left(src: &Sprite) -> (dest: Sprite)
    requires
        src.wf(),
    ensures
        dest.wf(),
        is_turned_left(*src, dest),
{
    let w = src.get_width();
    let h = src.get_height();
    proof {
        src.lemma_wf_dims();
        assert(h * w == w * h) by (nonlinear_arith);
    }
    let mut dest = Sprite::new(h, w);
    let offset_h = w - 1;
    let mut x: i32 = 0;
    while x < w
        invariant
            src.wf(),
            dest.wf(),
            src.w() == w,
            src.h() == h,
            dest.w() == h,
            dest.h() == w,
            offset_h == w - 1,
            0 < h,
            0 <= x <= w,
            forall|i: int, j: int| #[trigger] dest.in_bounds(i, j) && j > offset_h - x ==> dest.px(i, j) == src.px(offset_h - j, i),
        decreases w - x,
    {
        let mut y: i32 = 0;
        while y < h
            invariant
                src.wf(),
                dest.wf(),
                src.w() == w,
                src.h() == h,
                dest.w() == h,
                dest.h() == w,
                offset_h == w - 1,
                0 < h,
                0 <= x < w,
                0 <= y <= h,
                forall|i: int, j: int| #[trigger] dest.in_bounds(i, j) && (j > offset_h - x || (j == offset_h - x && i < y))
                    ==> dest.px(i, j) == src.px(offset_h - j, i),
            decreases h - y,
        {
            let c = src.get_pixel(x, y);
            let ghost prev = dest;
            dest.set_color(y, offset_h - x, c);
            assert forall|i: int, j: int| #[trigger] dest.in_bounds(i, j) && (j > offset_h - x || (j == offset_h - x && i < y + 1))
                implies dest.px(i, j) == src.px(offset_h - j, i) by {
                assert(prev.in_bounds(i, j));
            }
            y = y + 1;
        }
        x = x + 1;
    }
    dest
}

/// A new sprite: `src` turned a quarter turn clockwise.
pub fn turn_right(src: &Sprite) -> (dest: Sprite)
    requires
        src.wf(),
    ensures
        dest.wf(),
        is_turned_right(*src, dest),
{
    let w = src.get_width();
    let h = src.get_height();
    proof {
        src.lemma_wf_dims();
        assert(h * w == w * h) by (nonlinear_arith);
    }
    let mut dest = Sprite::new(h, w);
    let offset_w = h - 1;
    let mut x: i32 = 0;
    while x < w
        invariant
            src.wf(),
            dest.wf(),
            src.w() == w,
            src.h() == h,
            dest.w() == h,
            dest.h() == w,
            offset_w == h - 1,
            0 < h,
            0 <= x <= w,
            forall|i: int, j: int| #[trigger] dest.in_bounds(i, j) && j < x ==> dest.px(i, j) == src.px(j, offset_w - i),
        decreases w - x,
    {
        let mut y: i32 = 0;
        while y < h
            invariant
                src.wf(),
                dest.wf(),
                src.w() == w,
                src.h() == h,
                dest.w() == h,
                dest.h() == w,
                offset_w == h - 1,
                0 < h,
                0 <= x < w,
                0 <= y <= h,
                forall|i: int, j: int| #[trigger] dest.in_bounds(i, j) && (j < x || (j == x && i > offset_w - y))
                    ==> dest.px(i, j) == src.px(j, offset_w - i),
            decreases h - y,
        {
            let c = src.get_pixel(x, y);
            let ghost prev = dest;
            dest.set_color(offset_w - y, x, c);
            assert forall|i: int, j: int| #[trigger] dest.in_bounds(i, j) && (j < x || (j == x && i > offset_w - (y + 1)))
                implies dest.px(i, j) == src.px(j, offset_w - i) by {
                assert(prev.in_bounds(i, j));
            }
            y = y + 1;
        }
        x = x + 1;
    }
    dest
}

/// A quarter turn clockwise undoes a quarter turn anticlockwise.
pub proof fn lemma_turn_left_then_right(a: Sprite, b: Sprite, c: Sprite)
    requires
        is_turned_left(a, b),
        is_turned_right(b, c),
    ensures
        c.same_image(&a),
{
    assert forall|x: int, y: int| c.in_bounds(x, y) implies #[trigger] c.px(x, y) == a.px(x, y) by {
        assert(b.in_bounds(y, b.h() - 1 - x));
    }
}

/// A quarter turn anticlockwise undoes a quarter turn clockwise.
pub proof fn lemma_turn_right_then_left(a: Sprite, b: Sprite, c: Sprite)
    requires
        is_turned_right(a, b),
        is_turned_left(b, c),
    ensures
        c.same_image(&a),
{
    assert forall|x: int, y: int| c.in_bounds(x, y) implies #[trigger] c.px(x, y) == a.px(x, y) by {
        assert(b.in_bounds(b.w() - 1 - y, x));
    }
}

/// Mirroring twice, left to right, gives back the image.
pub proof fn lemma_flip_h_twice(a: Sprite, b: Sprite, c: Sprite)
    requires
        b.w() == a.w(),
        b.h() == a.h(),
        c.w() == a.w(),
        c.h() == a.h(),
        is_flipped_h(a, b),
        is_flipped_h(b, c),
    ensures
        c.same_image(&a),
{
    assert forall|x: int, y: int| c.in_bounds(x, y) implies #[trigger] c.px(x, y) == a.px(x, y) by {
        assert(b.in_bounds(c.w() - 1 - x, y));
    }
}

/// Mirroring twice, top to bottom, gives back the image.
pub proof fn lemma_flip_v_twice(a: Sprite, b: Sprite, c: Sprite)
    requires
        b.w() == a.w(),
        b.h() == a.h(),
        c.w() == a.w(),
        c.h() == a.h(),
        is_flipped_v(a, b),
        is_flipped_v(b, c),
    ensures
        c.same_image(&a),
{
    assert forall|x: int, y: int| c.in_bounds(x, y) implies #[trigger] c.px(x, y) == a.px(x, y) by {
        assert(b.in_bounds(x, c.h() - 1 - y));
    }
}

} // verus!
