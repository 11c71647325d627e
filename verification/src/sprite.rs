//! A sprite: a rectangular buffer of RGBA pixels, each packed into a `u32` as
//! `rgb_utils` packs colours.

use vstd::prelude::*;
use crate::rgb_utils::{get_rgba, rgba, spec_rgba, spec_red, spec_green, spec_blue, spec_alpha, lemma_pack_unpack};

verus! {

/// The largest number of pixels a sprite may hold (four bytes each must fit in an `i32`).
pub const MAX_PIXELS: i32 = 0x1FFF_FFFF;

/// A rectangular buffer of packed RGBA pixels, stored row by row.
pub struct Sprite {
    width: i32,
    height: i32,
    pixels: Vec<u32>,
}

/// Whether `(width, height)` are dimensions that a sprite can have.
pub open spec fn valid_dims(width: int, height: int) -> bool {
    0 < width && 0 < height && width * height <= MAX_PIXELS
}

proof fn lemma_index(w: int, h: int, x: int, y: int)
    requires
        0 <= x < w,
        0 <= y < h,
    ensures
        0 <= y * w + x < w * h,
        0 <= y * w <= (h - 1) * w,
{
    assert(0 <= y * w + x < w * h) by (nonlinear_arith)
        requires
            0 <= x < w,
            0 <= y < h,
    ;
    assert(0 <= y * w <= (h - 1) * w) by (nonlinear_arith)
        requires
            0 <= x < w,
            0 <= y < h,
    ;
}

proof fn lemma_index_inj(w: int, x1: int, y1: int, x2: int, y2: int)
    requires
        0 <= x1 < w,
        0 <= x2 < w,
        0 <= y1,
        0 <= y2,
        y1 * w + x1 == y2 * w + x2,
    ensures
        x1 == x2 && y1 == y2,
{
    if y1 < y2 {
        assert(y1 * w + w <= y2 * w) by (nonlinear_arith)
            requires
                y1 < y2,
                0 < w,
        ;
    } else if y2 < y1 {
        assert(y2 * w + w <= y1 * w) by (nonlinear_arith)
            requires
                y2 < y1,
                0 < w,
        ;
    }
}

impl Sprite {
    /// Number of columns.
    pub closed spec fn w(&self) -> int {
        self.width as int
    }

    /// Number of rows.
    pub closed spec fn h(&self) -> int {
        self.height as int
    }

    /// The pixel at column `x`, row `y`.
    pub closed spec fn px(&self, x: int, y: int) -> u32 {
        self.pixels@[y * self.width + x]
    }

    /// Pixel `k` of the buffer, which holds the rows one after the other.
    pub closed spec fn at(&self, k: int) -> u32 {
        self.pixels@[k]
    }

    /// The pixel at `(x, y)` is pixel `y * w + x` of the buffer.
    pub proof fn lemma_px_at(&self, x: int, y: int)
        ensures
            self.px(x, y) == self.at(y * self.w() + x),
    {
    }

    /// The buffer holds exactly one pixel per cell of a valid rectangle.
    pub closed spec fn wf(&self) -> bool {
        &&& valid_dims(self.width as int, self.height as int)
        &&& self.pixels@.len() == self.width * self.height
    }

    /// Whether `(x, y)` is a pixel of the sprite.
    pub open spec fn in_bounds(&self, x: int, y: int) -> bool {
        0 <= x < self.w() && 0 <= y < self.h()
    }

    /// Two sprites have the same size and the same pixels.
    pub open spec fn same_image(&self, other: &Sprite) -> bool {
        &&& self.w() == other.w()
        &&& self.h() == other.h()
        &&& forall|x: int, y: int| self.in_bounds(x, y) ==> #[trigger] self.px(x, y) == other.px(x, y)
    }

    /// A well-formed sprite has valid dimensions.
    pub proof fn lemma_wf_dims(&self)
        requires
            self.wf(),
        ensures
            valid_dims(self.w(), self.h()),
            self.w() <= MAX_PIXELS,
            self.h() <= MAX_PIXELS,
    {
        assert(self.w() <= self.w() * self.h()) by (nonlinear_arith)
            requires
                0 < self.h(),
                0 < self.w(),
        ;
        assert(self.h() <= self.w() * self.h()) by (nonlinear_arith)
            requires
                0 < self.h(),
                0 < self.w(),
        ;
    }

    /// A new sprite of the given size, every pixel 0 (transparent black).
    pub fn new(width: i32, height: i32) -> (s: Sprite)
        requires
            valid_dims(width as int, height as int),
        ensures
            s.wf(),
            s.w() == width,
            s.h() == height,
            forall|x: int, y: int| s.in_bounds(x, y) ==> #[trigger] s.px(x, y) == 0,
    {
        let n: usize = (width as usize) * (height as usize);
        let mut pixels: Vec<u32> = Vec::new();
        let mut i: usize = 0;
        while i < n
            invariant
                i <= n,
                n == width * height,
                pixels@.len() == i,
                forall|k: int| 0 <= k < i ==> pixels@[k] == 0,
            decreases n - i,
        {
            pixels.push(0);
            i = i + 1;
        }
        let s = Sprite { width, height, pixels };
        assert forall|x: int, y: int| s.in_bounds(x, y) implies #[trigger] s.px(x, y) == 0 by {
            lemma_index(width as int, height as int, x, y);
        }
        s
    }

    /// Number of columns.
    pub fn get_width(&self) -> (w: i32)
        ensures
            w == self.w(),
    {
        self.width
    }

    /// Number of rows.
    pub fn get_height(&self) -> (h: i32)
        ensures
            h == self.h(),
    {
        self.height
    }

    fn index(&self, x: i32, y: i32) -> (i: usize)
        requires
            self.wf(),
            self.in_bounds(x as int, y as int),
        ensures
            i == y * self.w() + x,
            i < self.pixels@.len(),
    {
        proof {
            lemma_index(self.width as int, self.height as int, x as int, y as int);
        }
        (y as usize) * (self.width as usize) + (x as usize)
    }

    /// The packed colour of pixel `(x, y)`.
    pub fn get_pixel(&self, x: i32, y: i32) -> (c: u32)
        requires
            self.wf(),
            self.in_bounds(x as int, y as int),
        ensures
            c == self.px(x as int, y as int),
    {
        let i = self.index(x, y);
        self.pixels[i]
    }

    /// Pixel `k` of the buffer, which holds the rows one after the other.
    pub fn get_at(&self, k: usize) -> (c: u32)
        requires
            self.wf(),
            k < self.w() * self.h(),
        ensures
            c == self.at(k as int),
    {
        self.pixels[k]
    }

    /// Sets pixel `(x, y)` to the colour packed from the four channels.
    pub fn put_pixel(&mut self, x: u32, y: u32, red: u8, green: u8, blue: u8, alpha: u8)
        requires
            old(self).wf(),
            x < old(self).w(),
            y < old(self).h(),
        ensures
            final(self).wf(),
            final(self).w() == old(self).w(),
            final(self).h() == old(self).h(),
            forall|i: int, j: int| #[trigger] final(self).in_bounds(i, j) ==> final(self).px(i, j) == if i == x && j == y {
                spec_rgba(red, green, blue, alpha)
            } else {
                old(self).px(i, j)
            },
    {
        proof {
            lemma_wf_dims_raw(self.width as int, self.height as int);
        }
        let c = rgba(red, green, blue, alpha);
        let idx = self.index(x as i32, y as i32);
        self.pixels.set(idx, c);
        proof {
            assert forall|i: int, j: int| #[trigger] self.in_bounds(i, j) implies self.px(i, j) == if i == x && j == y {
                spec_rgba(red, green, blue, alpha)
            } else {
                old(self).px(i, j)
            } by {
                lemma_index(self.width as int, self.height as int, i, j);
                if !(i == x && j == y) {
                    if i + j * self.width == x + y * self.width {
                        lemma_index_inj(self.width as int, i, j, x as int, y as int);
                    }
                }
            }
        }
    }

    /// Sets pixel `(x, y)` to the packed colour `c`.
    pub fn set_color(&mut self, x: i32, y: i32, c: u32)
        requires
            old(self).wf(),
            old(self).in_bounds(x as int, y as int),
        ensures
            final(self).wf(),
            final(self).w() == old(self).w(),
            final(self).h() == old(self).h(),
            forall|i: int, j: int| #[trigger] final(self).in_bounds(i, j) ==> final(self).px(i, j) == if i == x && j == y {
                c
            } else {
                old(self).px(i, j)
            },
    {
        let (r, g, b, a) = get_rgba(c);
        proof {
            lemma_pack_unpack(c);
        }
        self.put_pixel(x as u32, y as u32, r, g, b, a);
    }

    /// Sets every pixel to the packed colour `c`.
    pub fn fill(&mut self, c: u32)
        requires
            old(self).wf(),
        ensures
            final(self).wf(),
            final(self).w() == old(self).w(),
            final(self).h() == old(self).h(),
            forall|i: int, j: int| #[trigger] final(self).in_bounds(i, j) ==> final(self).px(i, j) == c,
    {
        let n = self.pixels.len();
        let mut k: usize = 0;
        while k < n
            invariant
                k <= n,
                n == self.pixels@.len(),
                self.width == old(self).width,
                self.height == old(self).height,
                self.wf(),
                forall|m: int| 0 <= m < k ==> self.pixels@[m] == c,
            decreases n - k,
        {
            self.pixels.set(k, c);
            k = k + 1;
        }
        proof {
            assert forall|i: int, j: int| #[trigger] self.in_bounds(i, j) implies self.px(i, j) == c by {
                lemma_index(self.width as int, self.height as int, i, j);
            }
        }
    }

    /// A separate sprite with the same size and pixels.
    pub fn copy(&self) -> (s: Sprite)
        requires
            self.wf(),
        ensures
            s.wf(),
            s.same_image(self),
    {
        let n = self.pixels.len();
        let mut pixels: Vec<u32> = Vec::new();
        let mut k: usize = 0;
        while k < n
            invariant
                k <= n,
                n == self.pixels@.len(),
                pixels@ == self.pixels@.subrange(0, k as int),
            decreases n - k,
        {
            pixels.push(self.pixels[k]);
            k = k + 1;
        }
        assert(pixels@ == self.pixels@);
        Sprite { width: self.width, height: self.height, pixels }
    }

    /// Copies the `width` x `height` block whose top left pixel is
    /// `(src_x, src_y)` in this sprite to `(dest_x, dest_y)` in `dest`. When
    /// either block does not lie wholly inside its sprite, nothing is copied.
    pub fn copy_area(&self, src_x: i32, src_y: i32, width: i32, height: i32, dest: &mut Sprite, dest_x: i32, dest_y: i32)
        requires
            self.wf(),
            old(dest).wf(),
        ensures
            final(dest).wf(),
            copied_area(*self, *old(dest), *final(dest), src_x as int, src_y as int, width as int, height as int,
                dest_x as int, dest_y as int),
    {
        proof {
            self.lemma_wf_dims();
            dest.lemma_wf_dims();
        }
        if !(src_x >= 0 && width >= 0 && height >= 0 && src_x as i64 + width as i64 <= self.width as i64
            && src_y >= 0 && src_y as i64 + height as i64 <= self.height as i64 && dest_x >= 0
            && dest_x as i64 + width as i64 <= dest.width as i64 && dest_y >= 0
            && dest_y as i64 + height as i64 <= dest.height as i64) {
            return ;
        }
        let ghost d0 = *dest;
        let mut j: i32 = 0;
        while j < height
            invariant
                0 <= j <= height,
                0 <= width,
                self.wf(),
                dest.wf(),
                dest.w() == d0.w(),
                dest.h() == d0.h(),
                0 <= src_x,
                0 <= src_y,
                0 <= dest_x,
                0 <= dest_y,
                src_x + width <= self.w(),
                src_y + height <= self.h(),
                dest_x + width <= d0.w(),
                dest_y + height <= d0.h(),
                forall|i: int, jj: int| #[trigger] dest.in_bounds(i, jj) ==> dest.px(i, jj) ==
                    if dest_x <= i < dest_x + width && dest_y <= jj < dest_y + j {
                        self.px(i - dest_x + src_x, jj - dest_y + src_y)
                    } else {
                        d0.px(i, jj)
                    },
            decreases height - j,
        {
            let mut i: i32 = 0;
            while i < width
                invariant
                    0 <= j < height,
                    0 <= i <= width,
                    self.wf(),
                    dest.wf(),
                    dest.w() == d0.w(),
                    dest.h() == d0.h(),
                    0 <= src_x,
                    0 <= src_y,
                    0 <= dest_x,
                    0 <= dest_y,
                    src_x + width <= self.w(),
                    src_y + height <= self.h(),
                    dest_x + width <= d0.w(),
                    dest_y + height <= d0.h(),
                    forall|ii: int, jj: int| #[trigger] dest.in_bounds(ii, jj) ==> dest.px(ii, jj) ==
                        if dest_x <= ii < dest_x + width && dest_y <= jj < dest_y + j {
                            self.px(ii - dest_x + src_x, jj - dest_y + src_y)
                        } else if dest_x <= ii < dest_x + i && jj == dest_y + j {
                            self.px(ii - dest_x + src_x, jj - dest_y + src_y)
                        } else {
                            d0.px(ii, jj)
                        },
                decreases width - i,
            {
                let c = self.get_pixel(src_x + i, src_y + j);
                let ghost prev = *dest;
                dest.set_color(dest_x + i, dest_y + j, c);
                assert forall|ii: int, jj: int| #[trigger] dest.in_bounds(ii, jj) implies dest.px(ii, jj) ==
                    if dest_x <= ii < dest_x + width && dest_y <= jj < dest_y + j {
                        self.px(ii - dest_x + src_x, jj - dest_y + src_y)
                    } else if dest_x <= ii < dest_x + i + 1 && jj == dest_y + j {
                        self.px(ii - dest_x + src_x, jj - dest_y + src_y)
                    } else {
                        d0.px(ii, jj)
                    } by {
                    assert(prev.in_bounds(ii, jj));
                }
                i = i + 1;
            }
            j = j + 1;
        }
    }
}

/// `dest` is `before` with the `width` x `height` block of `src` whose top
/// left pixel is `(src_x, src_y)` copied to `(dest_x, dest_y)`, when both
/// blocks lie wholly inside their sprites; otherwise `dest` is `before`.
pub open spec fn copied_area(src: Sprite, before: Sprite, dest: Sprite, src_x: int, src_y: int, width: int, height: int,
    dest_x: int, dest_y: int) -> bool {
    &&& dest.w() == before.w()
    &&& dest.h() == before.h()
    &&& forall|i: int, j: int| #[trigger] dest.in_bounds(i, j) ==> dest.px(i, j) ==
        if copy_area_fits(src.w(), src.h(), src_x, src_y, width, height, before.w(), before.h(), dest_x, dest_y)
            && dest_x <= i < dest_x + width && dest_y <= j < dest_y + height {
            src.px(i - dest_x + src_x, j - dest_y + src_y)
        } else {
            before.px(i, j)
        }
}

/// Whether a block copy of `width` x `height` from `(src_x, src_y)` in a
/// `src_w` x `src_h` sprite to `(dest_x, dest_y)` in a `dest_w` x `dest_h`
/// sprite lies wholly inside both sprites.
pub open spec fn copy_area_fits(src_w: int, src_h: int, src_x: int, src_y: int, width: int, height: int,
    dest_w: int, dest_h: int, dest_x: int, dest_y: int) -> bool {
    &&& 0 <= width && 0 <= height
    &&& 0 <= src_x && src_x + width <= src_w
    &&& 0 <= src_y && src_y + height <= src_h
    &&& 0 <= dest_x && dest_x + width <= dest_w
    &&& 0 <= dest_y && dest_y + height <= dest_h
}

proof fn lemma_wf_dims_raw(w: int, h: int)
    requires
        0 < w,
        0 < h,
    ensures
        w <= w * h,
        h <= w * h,
{
    assert(w <= w * h && h <= w * h) by (nonlinear_arith)
        requires
            0 < w,
            0 < h,
    ;
}


/// How many entries of `s` equal `c`.
pub open spec fn count_eq(s: Seq<u32>, c: u32) -> nat
    decreases s.len(),
{
    if s.len() == 0 {
        0
    } else {
        count_eq(s.drop_last(), c) + if s.last() == c { 1nat } else { 0nat }
    }
}

proof fn lemma_count_eq_le(a: Seq<u32>, b: Seq<u32>, c: u32)
    requires
        a.len() == b.len(),
        forall|k: int| 0 <= k < a.len() ==> #[trigger] b[k] == a[k] || (a[k] == c && b[k] != c),
    ensures
        count_eq(b, c) <= count_eq(a, c),
        (exists|k: int| 0 <= k < a.len() && #[trigger] a[k] == c && b[k] != c) ==> count_eq(b, c) < count_eq(a, c),
    decreases a.len(),
{
    if a.len() > 0 {
        let a1 = a.drop_last();
        let b1 = b.drop_last();
        assert forall|k: int| 0 <= k < a1.len() implies #[trigger] b1[k] == a1[k] || (a1[k] == c && b1[k] != c) by {
            assert(b1[k] == b[k] && a1[k] == a[k]);
        }
        lemma_count_eq_le(a1, b1, c);
        if exists|k: int| 0 <= k < a.len() && #[trigger] a[k] == c && b[k] != c {
            let k = choose|k: int| 0 <= k < a.len() && #[trigger] a[k] == c && b[k] != c;
            if k < a.len() - 1 {
                assert(a1[k] == a[k] && b1[k] == b[k]);
            }
        }
    }
}

proof fn lemma_index_split(w: int, h: int, k: int)
    requires
        0 < w,
        0 < h,
        0 <= k < w * h,
    ensures
        0 <= k % w < w,
        0 <= k / w < h,
        k == (k / w) * w + k % w,
{
    assert(0 <= k % w < w && 0 <= k / w < h && k == (k / w) * w + k % w) by (nonlinear_arith)
        requires
            0 < w,
            0 < h,
            0 <= k < w * h,
    ;
}

impl Sprite {
    /// How many pixels have colour `c`.
    pub closed spec fn count_color(&self, c: u32) -> nat {
        count_eq(self.pixels@, c)
    }

    /// Recolouring pixels of colour `c` to other colours, and at least one of
    /// them, lowers the number of pixels of colour `c`.
    pub proof fn lemma_count_color_decrease(s1: &Sprite, s2: &Sprite, c: u32, x: int, y: int)
        requires
            s1.wf(),
            s2.wf(),
            s1.w() == s2.w(),
            s1.h() == s2.h(),
            forall|i: int, j: int| #[trigger] s1.in_bounds(i, j) ==> s2.px(i, j) == s1.px(i, j)
                || (s1.px(i, j) == c && s2.px(i, j) != c),
            s1.in_bounds(x, y),
            s1.px(x, y) == c,
            s2.px(x, y) != c,
        ensures
            s2.count_color(c) < s1.count_color(c),
    {
        let w = s1.width as int;
        let h = s1.height as int;
        assert forall|k: int| 0 <= k < s1.pixels@.len() implies #[trigger] s2.pixels@[k] == s1.pixels@[k]
            || (s1.pixels@[k] == c && s2.pixels@[k] != c) by {
            lemma_index_split(w, h, k);
            assert(s1.in_bounds(k % w, k / w));
        }
        lemma_index(w, h, x, y);
        assert(s1.pixels@[y * w + x] == c && s2.pixels@[y * w + x] != c);
        lemma_count_eq_le(s1.pixels@, s2.pixels@, c);
    }

    /// Sprites with the same image have the same number of pixels of each colour.
    pub proof fn lemma_count_color_same(s1: &Sprite, s2: &Sprite, c: u32)
        requires
            s1.wf(),
            s2.wf(),
            s1.same_image(s2),
        ensures
            s2.count_color(c) == s1.count_color(c),
    {
        let w = s1.width as int;
        let h = s1.height as int;
        assert forall|k: int| 0 <= k < s1.pixels@.len() implies #[trigger] s2.pixels@[k] == s1.pixels@[k] by {
            lemma_index_split(w, h, k);
            assert(s1.in_bounds(k % w, k / w));
            assert(s1.px(k % w, k / w) == s2.px(k % w, k / w));
        }
        assert(s1.pixels@ == s2.pixels@);
    }
}

} // verus!
