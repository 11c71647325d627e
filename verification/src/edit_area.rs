//! The state of the sprite editing area and the editing operations on it:
//! undo, mirroring, quarter turns, the clipboard block and the drawing tools.

use vstd::prelude::*;
use crate::rgb_utils::{get_rgba, lemma_pack_unpack};
use crate::select_rect::SelectRect;
use crate::sprite::{Sprite, valid_dims, copied_area, copy_area_fits};
use crate::draw;
use crate::draw::{on_line, in_box, on_box_edge, box_in_sprite};
use crate::ellipse::{on_ellipse_border, in_filled_ellipse, ellipse_fits, corners_fit, half, lemma_ellipse_in_sprite};
use crate::fill::in_region;
use crate::transform::{flip_horizontal, flip_vertical, turn_left, turn_right, is_flipped_h, is_flipped_v, is_flipped_h_rows,
    is_flipped_v_rows, is_turned_left, is_turned_right, lemma_flipped_rows_same_width};

verus! {

/// The tool the editing area works with.
#[allow(non_camel_case_types)]
#[derive(PartialEq, Eq, Structural, Copy, Clone)]
pub enum EditMode {
    SELECT,
    PENCIL,
    RECTANGLE,
    ELLIPSE,
    FILL,
}

/// The last operation, as undo must reverse it.
#[allow(non_camel_case_types)]
#[derive(PartialEq, Eq, Structural, Copy, Clone)]
pub enum UndoMode {
    NONE,
    PENCIL,
    RECTANGLE,
    ELLIPSE,
    FILL,
    FLIP_HORIZONTALY,
    FLIP_VERTICALY,
    SWING_RIGHT,
    SWING_LEFT,
}

/// The state of the editing area: the sprite being edited, its backup for
/// undo, the block last copied, the colours, the tool, the selection, and
/// the geometry of the grid the sprite is shown on.
pub struct EditAreaDatas {
    pub nb_pixs_columns: i32,
    pub nb_pixs_rows: i32,
    pub cell_size: i32,
    pub origin_x: i32,
    pub origin_y: i32,
    pub start_origin_x: i32,
    pub start_origin_y: i32,
    pub start_x: i32,
    pub start_y: i32,
    pub sprite: Sprite,
    pub sprite_bak: Sprite,
    pub sprite_copy: Sprite,
    pub file_name: String,
    pub foreground_color: u32,
    pub background_color: u32,
    pub last_pixel_x: i32,
    pub last_pixel_y: i32,
    pub mode: EditMode,
    pub copy_rect: SelectRect,
    pub select_rect: SelectRect,
    pub undo_mode: UndoMode,
}

/// The top left `w` x `h` block of `dest` is the same block of `src`, and
/// the rest of `dest` is as in `before`.
pub open spec fn block_from(src: Sprite, before: Sprite, dest: Sprite, w: int, h: int) -> bool {
    &&& dest.w() == before.w()
    &&& dest.h() == before.h()
    &&& forall|i: int, j: int| #[trigger] dest.in_bounds(i, j) ==> dest.px(i, j) ==
            if i < w && j < h { src.px(i, j) } else { before.px(i, j) }
}

/// Integer division rounding towards zero, as Rust's `/` on integers.
pub open spec fn trunc_div(a: int, c: int) -> int {
    let q = crate::ellipse::iabs(a) / crate::ellipse::iabs(c);
    if (a >= 0) == (c > 0) || a == 0 { q } else { -q }
}

proof fn lemma_div_shrinks(x: int, d: int)
    requires
        x >= 0,
        d >= 1,
    ensures
        x / d <= x,
        d >= 2 && x > 0 ==> x / d < x,
{
    assert(x / d <= x && (d >= 2 && x > 0 ==> x / d < x)) by (nonlinear_arith)
        requires
            x >= 0,
            d >= 1,
    ;
}

pub(crate) fn div_trunc(a: i32, c: i32) -> (r: i32)
    requires
        c != 0,
        !(a == i32::MIN && c == -1),
    ensures
        r == trunc_div(a as int, c as int),
{
    let aa = a as i64;
    let cc = c as i64;
    let q: i64 = if cc > 0 { aa / cc } else { -(aa / (-cc)) };
    proof {
        lemma_div_shrinks(crate::ellipse::iabs(a as int), crate::ellipse::iabs(c as int));
    }
    q as i32
}

impl EditAreaDatas {
    /// The buffers are well formed, the grid matches the sprite, and the
    /// backup and the copy buffer are at least as large as the sprite.
    pub open spec fn wf(&self) -> bool {
        &&& self.sprite.wf()
        &&& self.sprite_bak.wf()
        &&& self.sprite_copy.wf()
        &&& self.nb_pixs_columns == self.sprite.w()
        &&& self.nb_pixs_rows == self.sprite.h()
        &&& self.sprite_bak.w() >= self.sprite.w()
        &&& self.sprite_bak.h() >= self.sprite.h()
        &&& self.sprite_copy.w() >= self.sprite.w()
        &&& self.sprite_copy.h() >= self.sprite.h()
    }

    /// A 32 x 32 editing area with transparent buffers, cells of 10 pixels,
    /// foreground `0x00FF00FF`, background 0, in selection mode.
    pub fn new() -> (s: Self)
        ensures
            s.wf(),
            s.nb_pixs_columns == 32,
            s.nb_pixs_rows == 32,
            s.cell_size == 10,
            s.origin_x == 0 && s.origin_y == 0,
            s.foreground_color == 0x00FF00FF,
            s.background_color == 0,
            s.last_pixel_x == -1 && s.last_pixel_y == -1,
            s.mode == EditMode::SELECT,
            s.undo_mode == UndoMode::NONE,
            s.select_rect == SelectRect::new_spec(0, 0, 0, 0),
            s.copy_rect == SelectRect::new_spec(0, 0, 0, 0),
            s.start_origin_x == 0 && s.start_origin_y == 0,
            s.start_x == 0 && s.start_y == 0,
            s.file_name@ == Seq::<char>::empty(),
            s.sprite.w() == 32 && s.sprite.h() == 32,
            s.sprite_bak.w() == 32 && s.sprite_bak.h() == 32,
            s.sprite_copy.w() == 32 && s.sprite_copy.h() == 32,
            forall|i: int, j: int| s.sprite.in_bounds(i, j) ==> #[trigger] s.sprite.px(i, j) == 0,
            forall|i: int, j: int| s.sprite_bak.in_bounds(i, j) ==> #[trigger] s.sprite_bak.px(i, j) == 0,
            forall|i: int, j: int| s.sprite_copy.in_bounds(i, j) ==> #[trigger] s.sprite_copy.px(i, j) == 0,
    {
        Self {
            nb_pixs_columns: 32,
            nb_pixs_rows: 32,
            cell_size: 10,
            origin_x: 0,
            origin_y: 0,
            start_origin_x: 0,
            start_origin_y: 0,
            start_x: 0,
            start_y: 0,
            sprite: Sprite::new(32, 32),
            sprite_bak: Sprite::new(32, 32),
            sprite_copy: Sprite::new(32, 32),
            file_name: String::new(),
            foreground_color: 0x00FF00FF,
            background_color: 0x00,
            last_pixel_x: -1,
            last_pixel_y: -1,
            mode: EditMode::SELECT,
            copy_rect: SelectRect::new(0, 0, 0, 0),
            select_rect: SelectRect::new(0, 0, 0, 0),
            undo_mode: UndoMode::NONE,
        }
    }

    /// The sprite being edited.
    pub fn get_sprite(&self) -> (s: &Sprite)
        ensures
            *s == self.sprite,
    {
        &self.sprite
    }

    /// The cell size at which the grid fits a widget of `win_width` x
    /// `win_height` pixels, before the zoom factor is applied: the largest
    /// that fits both across and down.
    pub fn base_cell_size(&self, win_width: i32, win_height: i32) -> (c: i32)
        requires
            self.wf(),
            win_width - 4 >= i32::MIN,
            win_height - 4 >= i32::MIN,
        ensures
            c == ({
                let o1 = trunc_div(win_width - 4, self.nb_pixs_columns as int);
                let o2 = trunc_div(win_height - 4, self.nb_pixs_rows as int);
                if o1 < o2 { o1 } else { o2 }
            }),
    {
        proof {
            self.sprite.lemma_wf_dims();
        }
        let o1 = div_trunc(win_width - 4, self.nb_pixs_columns);
        let o2 = div_trunc(win_height - 4, self.nb_pixs_rows);
        if o1 < o2 { o1 } else { o2 }
    }

    /// Whether `(x, y)` is a cell of the sprite grid, as `in_edit_area` says.
    pub open spec fn in_edit_area_spec(&self, x: int, y: int) -> bool {
        0 <= x < self.nb_pixs_columns && 0 <= y < self.nb_pixs_rows
    }

    /// Whether `(x, y)` is a cell of the sprite grid.
    pub fn in_edit_area(&self, x: i32, y: i32) -> (inside: bool)
        ensures
            inside == self.in_edit_area_spec(x as int, y as int),
    {
        (x >= 0) && (x < self.nb_pixs_columns) && (y >= 0) && (y < self.nb_pixs_rows)
    }

    /// The grid cell under the pointer, given the pointer position relative
    /// to the grid origin, truncated to integers.
    pub fn mouse_to_pixel(&self, mx: i32, my: i32) -> (p: (i32, i32))
        requires
            self.cell_size != 0,
            !(mx - 4 == i32::MIN && self.cell_size == -1),
            !(my - 4 == i32::MIN && self.cell_size == -1),
            mx - 4 >= i32::MIN,
            my - 4 >= i32::MIN,
        ensures
            p.0 == trunc_div(mx - 4, self.cell_size as int),
            p.1 == trunc_div(my - 4, self.cell_size as int),
    {
        let x: i32 = div_trunc(mx - 4, self.cell_size);
        let y: i32 = div_trunc(my - 4, self.cell_size);
        (x, y)
    }

    /// The position, relative to the grid origin, of the top left corner of
    /// the cell `(x, y)`.
    pub fn pixel_to_mouse(&self, x: i32, y: i32) -> (m: (i64, i64))
        requires
            i32::MIN <= x * self.cell_size <= i32::MAX,
            i32::MIN <= y * self.cell_size <= i32::MAX,
        ensures
            m.0 == x * self.cell_size + 4,
            m.1 == y * self.cell_size + 4,
    {
        let mx = (x * self.cell_size) as i64 + 4;
        let my = (y * self.cell_size) as i64 + 4;
        (mx, my)
    }

    /// Copies the sprite into the top left of the backup.
    pub fn backup_sprite(&mut self)
        requires
            old(self).wf(),
        ensures
            final(self).wf(),
            final(self).sprite == old(self).sprite,
            final(self).sprite_copy == old(self).sprite_copy,
            final(self).sprite_bak.wf(),
            block_from(old(self).sprite, old(self).sprite_bak, final(self).sprite_bak, old(self).sprite.w(), old(self).sprite.h()),
            same_tool_state(&*old(self), &*final(self)),
    {
        let w = self.sprite.get_width();
        let h = self.sprite.get_height();
        self.sprite.copy_area(0, 0, w, h, &mut self.sprite_bak, 0, 0);
    }

    /// Copies the top left of the backup back into the sprite.
    pub fn restore_sprite(&mut self)
        requires
            old(self).wf(),
        ensures
            final(self).wf(),
            final(self).sprite_bak == old(self).sprite_bak,
            final(self).sprite_copy == old(self).sprite_copy,
            block_from(old(self).sprite_bak, old(self).sprite, final(self).sprite, old(self).sprite.w(), old(self).sprite.h()),
            same_tool_state(&*old(self), &*final(self)),
    {
        let w = self.sprite.get_width();
        let h = self.sprite.get_height();
        self.sprite_bak.copy_area(0, 0, w, h, &mut self.sprite, 0, 0);
    }
}

/// Every field but the three pixel buffers, the grid size and the undo mode
/// is the same in `a` and `b`.
pub open spec fn same_settings(a: &EditAreaDatas, b: &EditAreaDatas) -> bool {
    &&& a.cell_size == b.cell_size
    &&& a.origin_x == b.origin_x
    &&& a.origin_y == b.origin_y
    &&& a.start_origin_x == b.start_origin_x
    &&& a.start_origin_y == b.start_origin_y
    &&& a.start_x == b.start_x
    &&& a.start_y == b.start_y
    &&& a.file_name == b.file_name
    &&& a.foreground_color == b.foreground_color
    &&& a.background_color == b.background_color
    &&& a.last_pixel_x == b.last_pixel_x
    &&& a.last_pixel_y == b.last_pixel_y
    &&& a.mode == b.mode
    &&& a.copy_rect == b.copy_rect
    &&& a.select_rect == b.select_rect
}

/// Every field but the three pixel buffers and the grid size is the same in `a` and `b`.
pub open spec fn same_tool_state(a: &EditAreaDatas, b: &EditAreaDatas) -> bool {
    &&& same_settings(a, b)
    &&& a.undo_mode == b.undo_mode
}

/// The edges of a rectangle are small enough for its width and height to be computed.
pub open spec fn rect_small(r: SelectRect) -> bool {
    &&& -0x3FFF_FFFF <= r.left <= 0x3FFF_FFFF
    &&& -0x3FFF_FFFF <= r.right <= 0x3FFF_FFFF
    &&& -0x3FFF_FFFF <= r.top <= 0x3FFF_FFFF
    &&& -0x3FFF_FFFF <= r.bottom <= 0x3FFF_FFFF
}

/// `r` with its four edges set to those of `src`.
pub open spec fn with_edges_of(r: SelectRect, src: SelectRect) -> SelectRect {
    SelectRect { left: src.left, top: src.top, right: src.right, bottom: src.bottom, ..r }
}

/// The larger of two integers.
pub open spec fn max_int(a: int, b: int) -> int {
    if a >= b { a } else { b }
}

impl EditAreaDatas {
    /// Writes into the sprite the mirror image, left to right, of the backup.
    pub fn do_flip_horizontaly(&mut self)
        requires
            old(self).wf(),
        ensures
            final(self).wf(),
            final(self).sprite.w() == old(self).sprite.w(),
            final(self).sprite.h() == old(self).sprite.h(),
            is_flipped_h_rows(old(self).sprite_bak, final(self).sprite),
            old(self).sprite_bak.w() == old(self).sprite.w() ==> is_flipped_h(old(self).sprite_bak, final(self).sprite),
            final(self).sprite_bak == old(self).sprite_bak,
            final(self).sprite_copy == old(self).sprite_copy,
            same_tool_state(&*old(self), &*final(self)),
    {
        flip_horizontal(&self.sprite_bak, &mut self.sprite);
        proof {
            if self.sprite_bak.w() == self.sprite.w() {
                lemma_flipped_rows_same_width(self.sprite_bak, self.sprite);
            }
        }
    }

    /// Writes into the sprite the mirror image, top to bottom, of the backup.
    pub fn do_flip_verticaly(&mut self)
        requires
            old(self).wf(),
        ensures
            final(self).wf(),
            final(self).sprite.w() == old(self).sprite.w(),
            final(self).sprite.h() == old(self).sprite.h(),
            is_flipped_v_rows(old(self).sprite_bak, final(self).sprite),
            old(self).sprite_bak.w() == old(self).sprite.w() ==> is_flipped_v(old(self).sprite_bak, final(self).sprite),
            final(self).sprite_bak == old(self).sprite_bak,
            final(self).sprite_copy == old(self).sprite_copy,
            same_tool_state(&*old(self), &*final(self)),
    {
        flip_vertical(&self.sprite_bak, &mut self.sprite);
        proof {
            if self.sprite_bak.w() == self.sprite.w() {
                lemma_flipped_rows_same_width(self.sprite_bak, self.sprite);
            }
        }
    }

    /// Mirrors the sprite left to right, keeping the sprite before the
    /// change in the backup.
    pub fn flip_horizontaly(&mut self)
        requires
            old(self).wf(),
        ensures
            final(self).wf(),
            final(self).sprite.w() == old(self).sprite.w(),
            final(self).sprite.h() == old(self).sprite.h(),
            is_flipped_h_rows(final(self).sprite_bak, final(self).sprite),
            old(self).sprite_bak.w() == old(self).sprite.w() ==> is_flipped_h(old(self).sprite, final(self).sprite),
            block_from(old(self).sprite, old(self).sprite_bak, final(self).sprite_bak, old(self).sprite.w(), old(self).sprite.h()),
            final(self).sprite_copy == old(self).sprite_copy,
            same_tool_state(&*old(self), &*final(self)),
    {
        self.backup_sprite();
        let ghost mid = self.sprite_bak;
        self.do_flip_horizontaly();
        proof {
            if old(self).sprite_bak.w() == old(self).sprite.w() {
                assert forall|i: int, j: int| #[trigger] self.sprite.in_bounds(i, j) implies self.sprite.px(i, j)
                    == old(self).sprite.px(self.sprite.w() - 1 - i, j) by {
                    assert(mid.in_bounds(self.sprite.w() - 1 - i, j));
                }
            }
        }
    }

    /// Mirrors the sprite top to bottom, keeping the sprite before the
    /// change in the backup.
    pub fn flip_verticaly(&mut self)
        requires
            old(self).wf(),
        ensures
            final(self).wf(),
            final(self).sprite.w() == old(self).sprite.w(),
            final(self).sprite.h() == old(self).sprite.h(),
            is_flipped_v_rows(final(self).sprite_bak, final(self).sprite),
            old(self).sprite_bak.w() == old(self).sprite.w() ==> is_flipped_v(old(self).sprite, final(self).sprite),
            block_from(old(self).sprite, old(self).sprite_bak, final(self).sprite_bak, old(self).sprite.w(), old(self).sprite.h()),
            final(self).sprite_copy == old(self).sprite_copy,
            same_tool_state(&*old(self), &*final(self)),
    {
        self.backup_sprite();
        let ghost mid = self.sprite_bak;
        self.do_flip_verticaly();
        proof {
            if old(self).sprite_bak.w() == old(self).sprite.w() {
                assert forall|i: int, j: int| #[trigger] self.sprite.in_bounds(i, j) implies self.sprite.px(i, j)
                    == old(self).sprite.px(i, self.sprite.h() - 1 - j) by {
                    assert(mid.in_bounds(i, self.sprite.h() - 1 - j));
                }
            }
        }
    }

    /// Turns the sprite a quarter turn anticlockwise. The sprite before the
    /// turn goes to the backup; for a sprite that is not square, the backup
    /// and the copy buffer are first replaced by transparent squares as
    /// large as the longer side.
    pub fn swing_left(&mut self)
        requires
            old(self).wf(),
            old(self).sprite.w() != old(self).sprite.h() ==> valid_dims(
                max_int(old(self).sprite.w(), old(self).sprite.h()),
                max_int(old(self).sprite.w(), old(self).sprite.h()),
            ),
        ensures
            final(self).wf(),
            is_turned_left(old(self).sprite, final(self).sprite),
            old(self).sprite.w() != old(self).sprite.h() ==> {
                &&& final(self).sprite_bak.w() == max_int(old(self).sprite.w(), old(self).sprite.h())
                &&& final(self).sprite_bak.h() == max_int(old(self).sprite.w(), old(self).sprite.h())
                &&& final(self).sprite_copy.w() == max_int(old(self).sprite.w(), old(self).sprite.h())
                &&& final(self).sprite_copy.h() == max_int(old(self).sprite.w(), old(self).sprite.h())
            },
            old(self).sprite.w() == old(self).sprite.h() ==> {
                &&& final(self).sprite_bak.w() == old(self).sprite_bak.w()
                &&& final(self).sprite_bak.h() == old(self).sprite_bak.h()
                &&& final(self).sprite_copy == old(self).sprite_copy
            },
            forall|i: int, j: int| #[trigger] final(self).sprite_bak.in_bounds(i, j) && i < old(self).sprite.w()
                && j < old(self).sprite.h() ==> final(self).sprite_bak.px(i, j) == old(self).sprite.px(i, j),
            final(self).undo_mode == UndoMode::SWING_LEFT,
            same_settings(&*old(self), &*final(self)),
    {
        let w = self.sprite.get_width();
        let h = self.sprite.get_height();
        if w != h {
            let d_max = if h > w { h } else { w };
            self.sprite_bak = Sprite::new(d_max, d_max);
            self.sprite_copy = Sprite::new(d_max, d_max);
        }
        self.sprite.copy_area(0, 0, w, h, &mut self.sprite_bak, 0, 0);
        let sprite_des = turn_left(&self.sprite);
        self.undo_mode = UndoMode::SWING_LEFT;
        self.sprite = sprite_des;
        self.nb_pixs_columns = self.sprite.get_width();
        self.nb_pixs_rows = self.sprite.get_height();
    }

    /// Turns the sprite a quarter turn clockwise. The sprite before the turn
    /// goes to the backup; for a sprite that is not square, the backup and
    /// the copy buffer are first replaced by transparent squares as large as
    /// the longer side.
    pub fn swing_right(&mut self)
        requires
            old(self).wf(),
            old(self).sprite.w() != old(self).sprite.h() ==> valid_dims(
                max_int(old(self).sprite.w(), old(self).sprite.h()),
                max_int(old(self).sprite.w(), old(self).sprite.h()),
            ),
        ensures
            final(self).wf(),
            is_turned_right(old(self).sprite, final(self).sprite),
            old(self).sprite.w() != old(self).sprite.h() ==> {
                &&& final(self).sprite_bak.w() == max_int(old(self).sprite.w(), old(self).sprite.h())
                &&& final(self).sprite_bak.h() == max_int(old(self).sprite.w(), old(self).sprite.h())
                &&& final(self).sprite_copy.w() == max_int(old(self).sprite.w(), old(self).sprite.h())
                &&& final(self).sprite_copy.h() == max_int(old(self).sprite.w(), old(self).sprite.h())
            },
            old(self).sprite.w() == old(self).sprite.h() ==> {
                &&& final(self).sprite_bak.w() == old(self).sprite_bak.w()
                &&& final(self).sprite_bak.h() == old(self).sprite_bak.h()
                &&& final(self).sprite_copy == old(self).sprite_copy
            },
            forall|i: int, j: int| #[trigger] final(self).sprite_bak.in_bounds(i, j) && i < old(self).sprite.w()
                && j < old(self).sprite.h() ==> final(self).sprite_bak.px(i, j) == old(self).sprite.px(i, j),
            final(self).undo_mode == UndoMode::SWING_RIGHT,
            same_settings(&*old(self), &*final(self)),
    {
        let w = self.sprite.get_width();
        let h = self.sprite.get_height();
        if w != h {
            let d_max = if h > w { h } else { w };
            self.sprite_bak = Sprite::new(d_max, d_max);
            self.sprite_copy = Sprite::new(d_max, d_max);
        }
        self.sprite.copy_area(0, 0, w, h, &mut self.sprite_bak, 0, 0);
        let sprite_des = turn_right(&self.sprite);
        self.undo_mode = UndoMode::SWING_RIGHT;
        self.sprite = sprite_des;
        self.nb_pixs_columns = self.sprite.get_width();
        self.nb_pixs_rows = self.sprite.get_height();
    }
}

/// Whether undo exchanges the sprite and its backup for this undo mode.
pub open spec fn undo_swaps(m: UndoMode) -> bool {
    m == UndoMode::PENCIL || m == UndoMode::RECTANGLE || m == UndoMode::ELLIPSE || m == UndoMode::FILL
}

/// Whether undo can run in state `s`: a quarter turn of a sprite that is not
/// square needs a square buffer as large as its longer side.
pub open spec fn undo_ok(s: &EditAreaDatas) -> bool {
    (s.undo_mode == UndoMode::SWING_LEFT || s.undo_mode == UndoMode::SWING_RIGHT) && s.sprite.w() != s.sprite.h()
        ==> valid_dims(max_int(s.sprite.w(), s.sprite.h()), max_int(s.sprite.w(), s.sprite.h()))
}

/// What undo does to the sprite and its backup, for each undo mode.
pub open spec fn undo_effect(a: &EditAreaDatas, b: &EditAreaDatas) -> bool {
    if undo_swaps(a.undo_mode) {
        &&& b.sprite.w() == a.sprite.w()
        &&& b.sprite.h() == a.sprite.h()
        &&& forall|i: int, j: int| #[trigger] b.sprite.in_bounds(i, j) ==> b.sprite.px(i, j) == a.sprite_bak.px(i, j)
        &&& block_from(a.sprite, a.sprite_bak, b.sprite_bak, a.sprite.w(), a.sprite.h())
        &&& same_tool_state(a, b)
    } else if a.undo_mode == UndoMode::FLIP_HORIZONTALY {
        &&& b.sprite.w() == a.sprite.w()
        &&& b.sprite.h() == a.sprite.h()
        &&& is_flipped_h_rows(b.sprite_bak, b.sprite)
        &&& block_from(a.sprite, a.sprite_bak, b.sprite_bak, a.sprite.w(), a.sprite.h())
        &&& a.sprite_bak.w() == a.sprite.w() ==> is_flipped_h(a.sprite, b.sprite)
        &&& same_tool_state(a, b)
    } else if a.undo_mode == UndoMode::FLIP_VERTICALY {
        &&& b.sprite.w() == a.sprite.w()
        &&& b.sprite.h() == a.sprite.h()
        &&& is_flipped_v_rows(b.sprite_bak, b.sprite)
        &&& block_from(a.sprite, a.sprite_bak, b.sprite_bak, a.sprite.w(), a.sprite.h())
        &&& a.sprite_bak.w() == a.sprite.w() ==> is_flipped_v(a.sprite, b.sprite)
        &&& same_tool_state(a, b)
    } else if a.undo_mode == UndoMode::SWING_LEFT {
        &&& is_turned_right(a.sprite, b.sprite)
        &&& b.undo_mode == UndoMode::SWING_RIGHT
        &&& same_settings(a, b)
    } else if a.undo_mode == UndoMode::SWING_RIGHT {
        &&& is_turned_left(a.sprite, b.sprite)
        &&& b.undo_mode == UndoMode::SWING_LEFT
        &&& same_settings(a, b)
    } else {
        &&& b.sprite == a.sprite
        &&& b.sprite_bak == a.sprite_bak
        &&& same_tool_state(a, b)
    }
}

impl EditAreaDatas {
    /// Undoes the last operation: a pencil, rectangle, ellipse or fill edit
    /// exchanges the sprite and its backup; a quarter turn is turned back;
    /// a mirroring is mirrored again.
    pub fn edit_undo(&mut self)
        requires
            old(self).wf(),
            undo_ok(&*old(self)),
        ensures
            final(self).wf(),
            undo_effect(&*old(self), &*final(self)),
    {
        match self.undo_mode {
            UndoMode::PENCIL | UndoMode::RECTANGLE | UndoMode::ELLIPSE | UndoMode::FILL => {
                proof {
                    self.sprite.lemma_wf_dims();
                }
                let mut sprite_redo = Sprite::new(self.nb_pixs_columns, self.nb_pixs_rows);
                self.sprite.copy_area(0, 0, self.nb_pixs_columns, self.nb_pixs_rows, &mut sprite_redo, 0, 0);
                let ghost redo = sprite_redo;
                self.sprite_bak.copy_area(0, 0, self.nb_pixs_columns, self.nb_pixs_rows, &mut self.sprite, 0, 0);
                sprite_redo.copy_area(0, 0, self.nb_pixs_columns, self.nb_pixs_rows, &mut self.sprite_bak, 0, 0);
                proof {
                    assert forall|i: int, j: int| #[trigger] self.sprite_bak.in_bounds(i, j) implies self.sprite_bak.px(i, j) ==
                        if i < old(self).sprite.w() && j < old(self).sprite.h() { old(self).sprite.px(i, j) } else { old(self).sprite_bak.px(i, j) } by {
                        if i < old(self).sprite.w() && j < old(self).sprite.h() {
                            assert(redo.in_bounds(i, j));
                        }
                    }
                }
            },
            UndoMode::FLIP_HORIZONTALY => {
                self.flip_horizontaly();
            },
            UndoMode::FLIP_VERTICALY => {
                self.flip_verticaly();
            },
            UndoMode::SWING_LEFT => {
                self.swing_right();
            },
            UndoMode::SWING_RIGHT => {
                self.swing_left();
            },
            UndoMode::NONE => {},
        }
    }

    /// Makes `spr1` the sprite being edited, with transparent backup and copy
    /// buffers of its size, and forgets the block last copied.
    pub fn set_sprite(&mut self, spr1: Sprite)
        requires
            spr1.wf(),
        ensures
            final(self).wf(),
            final(self).sprite == spr1,
            final(self).sprite_bak.w() == spr1.w(),
            final(self).sprite_bak.h() == spr1.h(),
            final(self).sprite_copy.w() == spr1.w(),
            final(self).sprite_copy.h() == spr1.h(),
            final(self).copy_rect == (SelectRect { left: 0, top: 0, right: 0, bottom: 0, ..old(self).copy_rect }),
            final(self).select_rect == old(self).select_rect,
            final(self).mode == old(self).mode,
            final(self).undo_mode == old(self).undo_mode,
            final(self).foreground_color == old(self).foreground_color,
            final(self).background_color == old(self).background_color,
    {
        let w = spr1.get_width();
        let h = spr1.get_height();
        proof {
            spr1.lemma_wf_dims();
        }
        self.sprite = spr1;
        self.nb_pixs_columns = w;
        self.nb_pixs_rows = h;
        self.sprite_bak = Sprite::new(w, h);
        self.sprite_copy = Sprite::new(w, h);
        self.copy_rect.empty();
    }

    /// Sets the foreground and background colours.
    pub fn set_colors(&mut self, foreground_color: u32, background_color: u32)
        ensures
            *final(self) == (EditAreaDatas { foreground_color, background_color, ..*old(self) }),
    {
        self.foreground_color = foreground_color;
        self.background_color = background_color;
    }

    /// Starts the selection tool afresh.
    pub fn init_select_mode(&mut self)
        ensures
            *final(self) == (EditAreaDatas { select_rect: old(self).select_rect.inited(), ..*old(self) }),
    {
        self.select_rect.init();
    }

    /// Starts the rectangle tool afresh.
    pub fn init_rectangle_mode(&mut self)
        ensures
            *final(self) == (EditAreaDatas { select_rect: old(self).select_rect.inited(), ..*old(self) }),
    {
        self.select_rect.init();
    }

    /// Starts the ellipse tool afresh.
    pub fn init_ellipse_mode(&mut self)
        ensures
            *final(self) == (EditAreaDatas { select_rect: old(self).select_rect.inited(), ..*old(self) }),
    {
        self.select_rect.init();
    }

    /// Starts the fill tool afresh.
    pub fn init_fill_mode(&mut self)
        ensures
            *final(self) == (EditAreaDatas { select_rect: old(self).select_rect.inited(), ..*old(self) }),
    {
        self.select_rect.init();
    }

    /// Switches to the selection tool.
    pub fn set_select_mode(&mut self)
        ensures
            *final(self) == (EditAreaDatas { mode: EditMode::SELECT, select_rect: old(self).select_rect.inited(), ..*old(self) }),
    {
        self.mode = EditMode::SELECT;
        self.init_select_mode();
    }

    /// Switches to the pencil tool.
    pub fn set_pencil_mode(&mut self)
        ensures
            *final(self) == (EditAreaDatas { mode: EditMode::PENCIL, select_rect: old(self).select_rect.inited(), ..*old(self) }),
    {
        self.mode = EditMode::PENCIL;
        self.init_select_mode();
    }

    /// Switches to the rectangle tool.
    pub fn set_rectangle_mode(&mut self)
        ensures
            *final(self) == (EditAreaDatas { mode: EditMode::RECTANGLE, select_rect: old(self).select_rect.inited(), ..*old(self) }),
    {
        self.mode = EditMode::RECTANGLE;
        self.init_select_mode();
        self.init_rectangle_mode();
    }

    /// Switches to the ellipse tool.
    pub fn set_ellipse_mode(&mut self)
        ensures
            *final(self) == (EditAreaDatas { mode: EditMode::ELLIPSE, select_rect: old(self).select_rect.inited(), ..*old(self) }),
    {
        self.mode = EditMode::ELLIPSE;
        self.init_select_mode();
        self.init_ellipse_mode();
    }

    /// Switches to the fill tool.
    pub fn set_fill_mode(&mut self)
        ensures
            *final(self) == (EditAreaDatas { mode: EditMode::FILL, select_rect: old(self).select_rect.inited(), ..*old(self) }),
    {
        self.mode = EditMode::FILL;
        self.init_select_mode();
        self.init_fill_mode();
    }
}

/// `fill_rect` can paint the selection: a selection that is not empty and
/// has ordered edges lies in the sprite.
pub open spec fn fill_rect_ok(s: &EditAreaDatas) -> bool {
    let r = s.select_rect;
    !(r.right == r.left || r.bottom == r.top) && r.left <= r.right && r.top <= r.bottom
        ==> s.sprite.in_bounds(r.left as int, r.top as int) && s.sprite.in_bounds(r.right as int, r.bottom as int)
}

/// The selection with its edges set to zero.
pub open spec fn emptied(r: SelectRect) -> SelectRect {
    SelectRect { left: 0, top: 0, right: 0, bottom: 0, ..r }
}

/// `b` is `a` with the selection, edges included, copied into the copy
/// buffer at its top left (when it lies inside both sprites), and the edges
/// of the selection kept as those of the copied block.
pub open spec fn selection_copied(a: &EditAreaDatas, b: &EditAreaDatas) -> bool {
    let r = a.select_rect;
    &&& copied_area(a.sprite, a.sprite_copy, b.sprite_copy, r.left as int, r.top as int, r.right - r.left + 1,
        r.bottom - r.top + 1, 0, 0)
    &&& b.copy_rect == with_edges_of(a.copy_rect, r)
}

/// `b` is `a` with the copied block made the selection, in the mode that
/// moves a pasted block, the sprite backed up, and the top left block of the
/// copy buffer pasted at the copied block's place (when it fits).
pub open spec fn copied_block_pasted(a: &EditAreaDatas, b: &EditAreaDatas) -> bool {
    let r = a.copy_rect;
    &&& b.select_rect == (SelectRect { mode: 2, ..with_edges_of(a.select_rect, r) })
    &&& block_from(a.sprite, a.sprite_bak, b.sprite_bak, a.sprite.w(), a.sprite.h())
    &&& copied_area(a.sprite_copy, a.sprite, b.sprite, 0, 0, r.right - r.left + 1, r.bottom - r.top + 1,
        r.left as int, r.top as int)
    &&& b.sprite_copy == a.sprite_copy
    &&& same_tool_state(a, &EditAreaDatas { select_rect: a.select_rect, ..*b })
}

/// Pasting the copied block straight after copying the selection leaves the
/// image as it was.
pub proof fn lemma_paste_after_copy(a: EditAreaDatas, b: EditAreaDatas, c: EditAreaDatas)
    requires
        selection_copied(&a, &b),
        b.sprite == a.sprite,
        copied_block_pasted(&b, &c),
    ensures
        c.sprite.same_image(&a.sprite),
{
    let r = a.select_rect;
    assert forall|i: int, j: int| c.sprite.in_bounds(i, j) implies #[trigger] c.sprite.px(i, j) == a.sprite.px(i, j) by {
        if copy_area_fits(b.sprite_copy.w(), b.sprite_copy.h(), 0, 0, r.right - r.left + 1, r.bottom - r.top + 1,
            b.sprite.w(), b.sprite.h(), r.left as int, r.top as int) && r.left <= i < r.right + 1 && r.top <= j
            < r.bottom + 1 {
            assert(b.sprite_copy.in_bounds(i - r.left, j - r.top));
        }
    }
}

impl EditAreaDatas {
    /// Paints the selection, edges included, with the background colour,
    /// unless the selection is empty.
    pub fn fill_rect(&mut self)
        requires
            old(self).wf(),
            fill_rect_ok(&*old(self)),
        ensures
            final(self).wf(),
            final(self).sprite.w() == old(self).sprite.w(),
            final(self).sprite.h() == old(self).sprite.h(),
            forall|i: int, j: int| #[trigger] final(self).sprite.in_bounds(i, j) ==> final(self).sprite.px(i, j) ==
                if !(old(self).select_rect.right == old(self).select_rect.left || old(self).select_rect.bottom == old(self).select_rect.top)
                    && old(self).select_rect.left <= i <= old(self).select_rect.right
                    && old(self).select_rect.top <= j <= old(self).select_rect.bottom {
                    old(self).background_color
                } else {
                    old(self).sprite.px(i, j)
                },
            final(self).sprite_bak == old(self).sprite_bak,
            final(self).sprite_copy == old(self).sprite_copy,
            same_tool_state(&*old(self), &*final(self)),
    {
        if self.select_rect.is_empty() == false && self.select_rect.left <= self.select_rect.right {
            let top = self.select_rect.top;
            let bottom = self.select_rect.bottom;
            let left = self.select_rect.left;
            let right = self.select_rect.right;
            let bg = self.background_color;
            proof {
                self.sprite.lemma_wf_dims();
            }
            let ghost s0 = self.sprite;
            let mut y = top;
            while y <= bottom
                invariant
                    s0.wf(),
                    self.wf(),
                    self.sprite.w() == s0.w(),
                    self.sprite.h() == s0.h(),
                    self.sprite_bak == old(self).sprite_bak,
                    self.sprite_copy == old(self).sprite_copy,
                    same_tool_state(&*old(self), &*self),
                    s0 == old(self).sprite,
                    left == self.select_rect.left,
                    right == self.select_rect.right,
                    top == self.select_rect.top,
                    bottom == self.select_rect.bottom,
                    bg == self.background_color,
                    left <= right,
                    top <= bottom ==> s0.in_bounds(left as int, top as int) && s0.in_bounds(right as int, bottom as int),
                    s0.h() <= crate::sprite::MAX_PIXELS,
                    top <= y,
                    y <= bottom + 1 || y == top,
                    forall|i: int, j: int| #[trigger] self.sprite.in_bounds(i, j) ==> self.sprite.px(i, j) ==
                        if left <= i <= right && top <= j < y { bg } else { s0.px(i, j) },
                decreases bottom - y + 1,
            {
                let ghost prev = self.sprite;
                draw::draw_horizontal_line(&mut self.sprite, left, right, y, bg);
                assert forall|i: int, j: int| #[trigger] self.sprite.in_bounds(i, j) implies self.sprite.px(i, j) ==
                    if left <= i <= right && top <= j < y + 1 { bg } else { s0.px(i, j) } by {
                    assert(prev.in_bounds(i, j));
                }
                y = y + 1;
            }
        }
    }

    /// Copies the selection, unless it is empty, into the copy buffer (at its
    /// top left), remembers its edges as those of the copied block, and
    /// empties the selection.
    pub fn copy_select(&mut self)
        requires
            old(self).wf(),
            !old(self).select_rect.is_empty_spec() ==> rect_small(old(self).select_rect),
        ensures
            final(self).wf(),
            final(self).sprite == old(self).sprite,
            final(self).sprite_bak == old(self).sprite_bak,
            old(self).select_rect.is_empty_spec() ==> *final(self) == *old(self),
            !old(self).select_rect.is_empty_spec() ==> {
                &&& selection_copied(&*old(self), &*final(self))
                &&& final(self).select_rect == emptied(old(self).select_rect)
                &&& same_settings(&*old(self), &EditAreaDatas { copy_rect: old(self).copy_rect, select_rect: old(self).select_rect, ..*final(self) })
                &&& final(self).undo_mode == old(self).undo_mode
            },
    {
        if self.select_rect.is_empty() == false {
            let w = self.select_rect.width();
            let h = self.select_rect.height();
            self.sprite.copy_area(self.select_rect.left, self.select_rect.top, w, h, &mut self.sprite_copy, 0, 0);
            self.copy_rect.left = self.select_rect.left;
            self.copy_rect.right = self.select_rect.right;
            self.copy_rect.top = self.select_rect.top;
            self.copy_rect.bottom = self.select_rect.bottom;
            self.select_rect.empty();
        }
    }

    /// Makes the copied block the selection, in the mode that moves a
    /// pasted block, backs the sprite up, and pastes the copy buffer at the
    /// selection.
    pub fn paste_select(&mut self)
        requires
            old(self).wf(),
            rect_small(old(self).copy_rect),
        ensures
            final(self).wf(),
            copied_block_pasted(&*old(self), &*final(self)),
    {
        self.select_rect.left = self.copy_rect.left;
        self.select_rect.right = self.copy_rect.right;
        self.select_rect.top = self.copy_rect.top;
        self.select_rect.bottom = self.copy_rect.bottom;
        self.select_rect.mode = 2;
        self.backup_sprite();
        let w = self.select_rect.width();
        let h = self.select_rect.height();
        self.sprite_copy.copy_area(0, 0, w, h, &mut self.sprite, self.select_rect.left, self.select_rect.top);
    }

    /// Copies the selection, unless it is empty, into the copy buffer, paints
    /// it with the background colour, remembers its edges as those of the
    /// copied block, and empties it.
    pub fn cut_select(&mut self)
        requires
            old(self).wf(),
            !old(self).select_rect.is_empty_spec() ==> rect_small(old(self).select_rect),
            fill_rect_ok(&*old(self)),
        ensures
            final(self).wf(),
            final(self).sprite_bak == old(self).sprite_bak,
            old(self).select_rect.is_empty_spec() ==> *final(self) == *old(self),
            !old(self).select_rect.is_empty_spec() ==> {
                &&& selection_copied(&*old(self), &*final(self))
                &&& final(self).sprite.w() == old(self).sprite.w()
                &&& final(self).sprite.h() == old(self).sprite.h()
                &&& forall|i: int, j: int| #[trigger] final(self).sprite.in_bounds(i, j) ==> final(self).sprite.px(i, j) ==
                    if old(self).select_rect.left <= i <= old(self).select_rect.right
                        && old(self).select_rect.top <= j <= old(self).select_rect.bottom {
                        old(self).background_color
                    } else {
                        old(self).sprite.px(i, j)
                    }
                &&& final(self).select_rect == emptied(old(self).select_rect)
                &&& same_tool_state(&*old(self), &EditAreaDatas { copy_rect: old(self).copy_rect, select_rect: old(self).select_rect, ..*final(self) })
            },
    {
        if self.select_rect.is_empty() == false {
            let w = self.select_rect.width();
            let h = self.select_rect.height();
            self.sprite.copy_area(self.select_rect.left, self.select_rect.top, w, h, &mut self.sprite_copy, 0, 0);
            self.fill_rect();
            self.copy_rect.left = self.select_rect.left;
            self.copy_rect.right = self.select_rect.right;
            self.copy_rect.top = self.select_rect.top;
            self.copy_rect.bottom = self.select_rect.bottom;
            self.select_rect.empty();
        }
    }
}

/// `edit_copy` can make the clipboard image: in selection mode, a
/// selection that is not empty has a size that a sprite can have.
pub open spec fn edit_copy_ok(s: &EditAreaDatas) -> bool {
    &&& (s.mode == EditMode::SELECT && !s.select_rect.is_empty_spec()) ==> rect_small(s.select_rect)
    &&& (s.mode == EditMode::SELECT && !s.select_rect.is_empty_spec()) ==> valid_dims(
        s.select_rect.right - s.select_rect.left + 1,
        s.select_rect.bottom - s.select_rect.top + 1,
    )
}

impl EditAreaDatas {
    /// In selection mode, with a selection that is not empty: copies the
    /// selection as `copy_select` does and returns a new sprite of the
    /// selection's size holding the copied block (for the clipboard).
    /// Otherwise changes nothing and returns `None`.
    pub fn edit_copy(&mut self) -> (clip: Option<Sprite>)
        requires
            old(self).wf(),
            edit_copy_ok(&*old(self)),
        ensures
            final(self).wf(),
            final(self).sprite == old(self).sprite,
            final(self).sprite_bak == old(self).sprite_bak,
            !(old(self).mode == EditMode::SELECT && !old(self).select_rect.is_empty_spec()) ==> clip is None && *final(self) == *old(self),
            (old(self).mode == EditMode::SELECT && !old(self).select_rect.is_empty_spec()) ==> {
                let r = old(self).select_rect;
                let w = r.right - r.left + 1;
                let h = r.bottom - r.top + 1;
                &&& clip is Some
                &&& clip->0.wf()
                &&& clip->0.w() == w
                &&& clip->0.h() == h
                &&& forall|i: int, j: int| #[trigger] clip->0.in_bounds(i, j) ==> clip->0.px(i, j) ==
                    if 0 <= r.left && r.left + w <= old(self).sprite.w() && 0 <= r.top && r.top + h <= old(self).sprite.h() {
                        old(self).sprite.px(i + r.left, j + r.top)
                    } else {
                        0
                    }
                &&& selection_copied(&*old(self), &*final(self))
                &&& final(self).select_rect == emptied(r)
                &&& same_settings(&*old(self), &EditAreaDatas { copy_rect: old(self).copy_rect, select_rect: old(self).select_rect, ..*final(self) })
                &&& final(self).undo_mode == old(self).undo_mode
            },
    {
        if self.mode == EditMode::SELECT {
            if self.select_rect.is_empty() == false {
                let w = self.select_rect.width();
                let h = self.select_rect.height();
                let mut clip_image = Sprite::new(w, h);
                self.sprite.copy_area(self.select_rect.left, self.select_rect.top, w, h, &mut clip_image, 0, 0);
                self.sprite.copy_area(self.select_rect.left, self.select_rect.top, w, h, &mut self.sprite_copy, 0, 0);
                self.copy_rect.left = self.select_rect.left;
                self.copy_rect.right = self.select_rect.right;
                self.copy_rect.top = self.select_rect.top;
                self.copy_rect.bottom = self.select_rect.bottom;
                self.select_rect.empty();
                return Some(clip_image);
            }
        }
        None
    }

    /// In selection mode, cuts the selection as `cut_select` does and
    /// returns `true`; otherwise changes nothing and returns `false`.
    pub fn edit_cut(&mut self) -> (done: bool)
        requires
            old(self).wf(),
            old(self).mode == EditMode::SELECT && !old(self).select_rect.is_empty_spec() ==> rect_small(old(self).select_rect),
            old(self).mode == EditMode::SELECT ==> fill_rect_ok(&*old(self)),
        ensures
            final(self).wf(),
            done == (old(self).mode == EditMode::SELECT),
            !done ==> *final(self) == *old(self),
            done && old(self).select_rect.is_empty_spec() ==> *final(self) == *old(self),
            done && !old(self).select_rect.is_empty_spec() ==> {
                &&& selection_copied(&*old(self), &*final(self))
                &&& final(self).sprite.w() == old(self).sprite.w()
                &&& final(self).sprite.h() == old(self).sprite.h()
                &&& forall|i: int, j: int| #[trigger] final(self).sprite.in_bounds(i, j) ==> final(self).sprite.px(i, j) ==
                    if old(self).select_rect.left <= i <= old(self).select_rect.right
                        && old(self).select_rect.top <= j <= old(self).select_rect.bottom {
                        old(self).background_color
                    } else {
                        old(self).sprite.px(i, j)
                    }
                &&& final(self).select_rect == emptied(old(self).select_rect)
                &&& final(self).sprite_bak == old(self).sprite_bak
            },
    {
        if self.mode == EditMode::SELECT {
            self.cut_select();
            true
        } else {
            false
        }
    }

    /// Pastes an image (the clipboard's) at the top left of the sprite, cut
    /// to the sprite's size: the sprite is backed up, the pasted block
    /// becomes the copied block and the selection, and the selection goes to
    /// the mode that moves a pasted block.
    pub fn edit_paste(&mut self, img: &Sprite)
        requires
            old(self).wf(),
            img.wf(),
        ensures
            final(self).wf(),
            ({
                let w = if img.w() <= old(self).sprite.w() { img.w() } else { old(self).sprite.w() };
                let h = if img.h() <= old(self).sprite.h() { img.h() } else { old(self).sprite.h() };
                &&& final(self).sprite.w() == old(self).sprite.w()
                &&& final(self).sprite.h() == old(self).sprite.h()
                &&& forall|i: int, j: int| #[trigger] final(self).sprite.in_bounds(i, j) ==> final(self).sprite.px(i, j) ==
                    if i < w && j < h { img.px(i, j) } else { old(self).sprite.px(i, j) }
                &&& block_from(old(self).sprite, old(self).sprite_bak, final(self).sprite_bak, old(self).sprite.w(), old(self).sprite.h())
                &&& final(self).copy_rect == (SelectRect { left: 0, top: 0, right: (w - 1) as i32, bottom: (h - 1) as i32, ..old(self).copy_rect })
                &&& final(self).select_rect == (SelectRect { left: 0, top: 0, right: (w - 1) as i32, bottom: (h - 1) as i32, mode: 2, ..old(self).select_rect })
                &&& final(self).sprite_copy.w() == old(self).sprite.w()
                &&& final(self).sprite_copy.h() == old(self).sprite.h()
                &&& forall|i: int, j: int| #[trigger] final(self).sprite_copy.in_bounds(i, j) ==> final(self).sprite_copy.px(i, j) ==
                    if i < w && j < h { img.px(i, j) } else { old(self).sprite.px(i, j) }
                &&& same_tool_state(&*old(self), &EditAreaDatas { copy_rect: old(self).copy_rect, select_rect: old(self).select_rect, ..*final(self) })
            }),
    {
        let wi = img.get_width();
        let hi = img.get_height();
        let w = if wi <= self.nb_pixs_columns { wi } else { self.nb_pixs_columns };
        let h = if hi <= self.nb_pixs_rows { hi } else { self.nb_pixs_rows };
        proof {
            img.lemma_wf_dims();
            self.sprite.lemma_wf_dims();
        }
        self.copy_rect.left = 0;
        self.copy_rect.top = 0;
        self.copy_rect.right = w - 1;
        self.copy_rect.bottom = h - 1;
        self.sprite_copy = self.sprite.copy();
        let cw = self.copy_rect.width();
        let ch = self.copy_rect.height();
        img.copy_area(self.copy_rect.left, self.copy_rect.top, cw, ch, &mut self.sprite_copy, 0, 0);
        let ghost pasted = self.sprite_copy;
        self.select_rect.left = self.copy_rect.left;
        self.select_rect.right = self.copy_rect.right;
        self.select_rect.top = self.copy_rect.top;
        self.select_rect.bottom = self.copy_rect.bottom;
        self.select_rect.mode = 2;
        self.backup_sprite();
        self.sprite_copy.copy_area(0, 0, w, h, &mut self.sprite, self.select_rect.left, self.select_rect.top);
        proof {
            assert forall|i: int, j: int| #[trigger] self.sprite.in_bounds(i, j) implies self.sprite.px(i, j) ==
                if i < w && j < h { img.px(i, j) } else { old(self).sprite.px(i, j) } by {
                if i < w && j < h {
                    assert(pasted.in_bounds(i, j));
                }
            }
            assert forall|i: int, j: int| #[trigger] self.sprite_copy.in_bounds(i, j) implies self.sprite_copy.px(i, j) ==
                if i < w && j < h { img.px(i, j) } else { old(self).sprite.px(i, j) } by {
                assert(pasted.in_bounds(i, j));
            }
        }
    }
}

/// The sprite of `b` is that of `a` with exactly the pixels for which `hit`
/// holds set to `c`; every other field is unchanged.
pub open spec fn painted(a: &EditAreaDatas, b: &EditAreaDatas, hit: spec_fn(int, int) -> bool, c: u32) -> bool {
    &&& b.sprite.w() == a.sprite.w()
    &&& b.sprite.h() == a.sprite.h()
    &&& forall|i: int, j: int| #[trigger] b.sprite.in_bounds(i, j) ==> b.sprite.px(i, j) == if hit(i, j) { c } else { a.sprite.px(i, j) }
    &&& b.sprite_bak == a.sprite_bak
    &&& b.sprite_copy == a.sprite_copy
    &&& same_tool_state(a, b)
}

impl EditAreaDatas {
    /// Draws on the sprite the line from `(x0, y0)` to `(x1, y1)` in colour
    /// `c`, when both endpoints lie in the sprite.
    pub fn draw_line(&mut self, x0: i32, y0: i32, x1: i32, y1: i32, c: u32)
        requires
            old(self).wf(),
        ensures
            final(self).wf(),
            painted(&*old(self), &*final(self), |i: int, j: int|
                old(self).sprite.in_bounds(x0 as int, y0 as int) && old(self).sprite.in_bounds(x1 as int, y1 as int)
                && on_line(x0 as int, y0 as int, x1 as int, y1 as int, i, j), c),
    {
        draw::draw_line(&mut self.sprite, x0, y0, x1, y1, c);
    }

    /// Paints on the sprite the pixels `(x, y)` for `x` from `x_left` to
    /// `x_right`, both included, in colour `col`.
    pub fn draw_horizontal_line(&mut self, x_left: i32, x_right: i32, y: i32, col: u32)
        requires
            old(self).wf(),
            x_left <= x_right ==> old(self).sprite.in_bounds(x_left as int, y as int)
                && old(self).sprite.in_bounds(x_right as int, y as int),
        ensures
            final(self).wf(),
            painted(&*old(self), &*final(self), |i: int, j: int| x_left <= i <= x_right && j == y, col),
    {
        draw::draw_horizontal_line(&mut self.sprite, x_left, x_right, y, col);
    }

    /// Draws on the sprite the outline of the box with corners `(x0, y0)`
    /// and `(x1, y1)` in colour `c`, unless the box is a single pixel.
    pub fn draw_rectangle(&mut self, x0: i32, y0: i32, x1: i32, y1: i32, c: u32)
        requires
            old(self).wf(),
            (x0 != x1 || y0 != y1) ==> box_in_sprite(&old(self).sprite, x0 as int, y0 as int, x1 as int, y1 as int),
        ensures
            final(self).wf(),
            painted(&*old(self), &*final(self), |i: int, j: int|
                (x0 != x1 || y0 != y1) && on_box_edge(x0 as int, y0 as int, x1 as int, y1 as int, i, j), c),
    {
        draw::draw_rectangle(&mut self.sprite, x0, y0, x1, y1, c);
    }

    /// Fills on the sprite the box with corners `(x0, y0)` and `(x1, y1)`
    /// with colour `c`, unless the box is a single pixel.
    pub fn fill_rectangle(&mut self, x0: i32, y0: i32, x1: i32, y1: i32, c: u32)
        requires
            old(self).wf(),
            (x0 != x1 || y0 != y1) ==> box_in_sprite(&old(self).sprite, x0 as int, y0 as int, x1 as int, y1 as int),
        ensures
            final(self).wf(),
            painted(&*old(self), &*final(self), |i: int, j: int|
                (x0 != x1 || y0 != y1) && in_box(x0 as int, y0 as int, x1 as int, y1 as int, i, j), c),
    {
        draw::fill_rectangle(&mut self.sprite, x0, y0, x1, y1, c);
    }

    /// Draws on the sprite the outline of the ellipse inscribed in the box
    /// `left..=right`, `top..=bottom` in colour `col`.
    pub fn border_ellipse(&mut self, left: i32, top: i32, right: i32, bottom: i32, col: u32)
        requires
            old(self).wf(),
            left <= right,
            top <= bottom,
            ellipse_fits(half(left as int, right as int), half(top as int, bottom as int)),
            forall|i: int, j: int| #[trigger] on_ellipse_border(left as int, top as int, right as int, bottom as int, i, j)
                ==> old(self).sprite.in_bounds(i, j),
        ensures
            final(self).wf(),
            painted(&*old(self), &*final(self), |i: int, j: int|
                on_ellipse_border(left as int, top as int, right as int, bottom as int, i, j), col),
    {
        crate::ellipse::border_ellipse(&mut self.sprite, left, top, right, bottom, col);
    }

    /// Fills on the sprite the ellipse inscribed in the box `left..=right`,
    /// `top..=bottom` with colour `col`.
    pub fn fill_ellipse(&mut self, left: i32, top: i32, right: i32, bottom: i32, col: u32)
        requires
            old(self).wf(),
            left <= right,
            top <= bottom,
            ellipse_fits(half(left as int, right as int), half(top as int, bottom as int)),
            forall|i: int, j: int| #[trigger] in_filled_ellipse(left as int, top as int, right as int, bottom as int, i, j)
                ==> old(self).sprite.in_bounds(i, j),
        ensures
            final(self).wf(),
            painted(&*old(self), &*final(self), |i: int, j: int|
                in_filled_ellipse(left as int, top as int, right as int, bottom as int, i, j), col),
    {
        crate::ellipse::fill_ellipse(&mut self.sprite, left, top, right, bottom, col);
    }

    /// Draws (or, with `f_fill`, fills) on the sprite the ellipse inscribed
    /// in the box with corners `(start_x, start_y)` and `(end_x, end_y)`,
    /// unless the box is a single pixel.
    pub fn draw_ellipse(&mut self, start_x: i32, start_y: i32, end_x: i32, end_y: i32, col: u32, f_fill: bool)
        requires
            old(self).wf(),
            (start_x != end_x || start_y != end_y) ==> box_in_sprite(&old(self).sprite, start_x as int, start_y as int, end_x as int, end_y as int),
            (start_x != end_x || start_y != end_y) ==> corners_fit(start_x as int, start_y as int, end_x as int, end_y as int),
        ensures
            final(self).wf(),
            ({
                let (l, r) = if end_x < start_x { (end_x as int, start_x as int) } else { (start_x as int, end_x as int) };
                let (t, b) = if end_y < start_y { (end_y as int, start_y as int) } else { (start_y as int, end_y as int) };
                painted(&*old(self), &*final(self), |i: int, j: int| (l != r || t != b) && if f_fill {
                    in_filled_ellipse(l, t, r, b, i, j)
                } else {
                    on_ellipse_border(l, t, r, b, i, j)
                }, col)
            }),
    {
        let (s_x, e_x) = if end_x < start_x { (end_x, start_x) } else { (start_x, end_x) };
        let (s_y, e_y) = if end_y < start_y { (end_y, start_y) } else { (start_y, end_y) };
        if (e_x != s_x) || (e_y != s_y) {
            proof {
                lemma_ellipse_in_sprite(self.sprite, s_x as int, s_y as int, e_x as int, e_y as int);
            }
            if f_fill {
                self.fill_ellipse(s_x, s_y, e_x, e_y, col);
            } else {
                self.border_ellipse(s_x, s_y, e_x, e_y, col);
            }
        }
    }

    /// The colour of pixel `(x, y)` of the sprite and `true`, or `(0, false)`
    /// when `(x, y)` is outside the sprite.
    #[allow(non_snake_case)]
    pub fn floodFillGetColor(&self, x: i32, y: i32) -> (res: (u32, bool))
        requires
            self.wf(),
        ensures
            res.1 == self.sprite.in_bounds(x as int, y as int),
            res.0 == if res.1 { self.sprite.px(x as int, y as int) } else { 0 },
    {
        crate::fill::floodFillGetColor(&self.sprite, x, y)
    }

    /// The colour of pixel `(x, y)` of the sprite and `true`, or `(0, false)`
    /// when `(x, y)` is outside the sprite.
    pub fn get_pixel_color(&self, x: i32, y: i32) -> (res: (u32, bool))
        requires
            self.wf(),
        ensures
            res.1 == self.sprite.in_bounds(x as int, y as int),
            res.0 == if res.1 { self.sprite.px(x as int, y as int) } else { 0 },
    {
        crate::fill::floodFillGetColor(&self.sprite, x, y)
    }

    /// Flood-fills the sprite from `(fill_x, fill_y)` with `fill_color`: the
    /// 4-connected region of the colour of that pixel is recoloured.
    pub fn flood_fill(&mut self, fill_x: i32, fill_y: i32, fill_color: u32)
        requires
            old(self).wf(),
        ensures
            final(self).wf(),
            painted(&*old(self), &*final(self), |i: int, j: int|
                old(self).sprite.in_bounds(fill_x as int, fill_y as int)
                && old(self).sprite.px(fill_x as int, fill_y as int) != fill_color
                && in_region(old(self).sprite, old(self).sprite.px(fill_x as int, fill_y as int), (fill_x as int, fill_y as int), (i, j)),
                fill_color),
            crate::fill::flooded(old(self).sprite, final(self).sprite, fill_x as int, fill_y as int, fill_color),
    {
        crate::fill::flood_fill(&mut self.sprite, fill_x, fill_y, fill_color);
    }
}

} // verus!
