//! The selection tool's answers to pointer events.
//!
//! A press in drawing mode starts a selection at the cell under the pointer
//! and dragging moves its second corner. A placed selection can be resized by
//! a corner or moved as a whole; a pasted block (mode 2) is moved with the
//! pointer and drawn over the backup of the sprite at its new place. Moves go
//! by whole cells and are pushed back inside the grid.

use vstd::prelude::*;
use crate::edit_area::{EditAreaDatas, trunc_div, emptied, same_tool_state};
use crate::select_rect::SelectRect;
use crate::sprite::copy_area_fits;
use crate::tools::{EditEvent, no_event, nothing, cell_of, pointer_ok, geometry_ok, in_select_spec};
use crate::shape_tools::{sat_i32, at_cell, pressed_rect, released_rect};

verus! {

/// The selection after a press on the cell `(px, py)`: as for the shape
/// tools (see `pressed_rect`), except that a press inside a pasted block
/// starts moving it and a press outside drops it and starts a new selection.
pub open spec fn select_pressed(s: &EditAreaDatas, tmx: i32, tmy: i32, px: i32, py: i32) -> SelectRect {
    let r = s.select_rect;
    if r.mode == 2 {
        if in_select_spec(s, tmx as int, tmy as int) {
            SelectRect {
                mouse_start_x: tmx,
                mouse_start_y: tmy,
                sav_left: r.left,
                sav_top: r.top,
                sav_right: r.right,
                sav_bottom: r.bottom,
                ..r
            }
        } else {
            SelectRect { mode: 0i32, sel_corner: -1i32, ..at_cell(r, px, py) }
        }
    } else {
        pressed_rect(s, tmx, tmy, px, py)
    }
}

/// The pointer's displacement from `start` to `t`, in whole cells, as
/// `mouse_to_pixel` turns it.
pub open spec fn move_cells(s: &EditAreaDatas, t: i32, start: i32) -> int {
    trunc_div(sat_i32(t - start) - 4, s.cell_size as int)
}

/// The span `lo..=hi` pushed back inside `0..n`: shifted right when it
/// starts before 0, else shifted left when it ends at or after `n`.
pub open spec fn clamp_span(lo: int, hi: int, n: int) -> (int, int) {
    if lo < 0 {
        (0, hi - lo)
    } else if hi >= n {
        (lo + (n - hi - 1), n - 1)
    } else {
        (lo, hi)
    }
}

/// The span `lo..=hi` and its shift back inside the grid stay within `i32`.
pub open spec fn span_move_ok(lo: int, hi: int) -> bool {
    &&& i32::MIN <= lo <= i32::MAX
    &&& i32::MIN <= hi <= i32::MAX
    &&& lo < 0 ==> i32::MIN < lo && hi - lo <= i32::MAX
}

/// The move of the selection with the pointer at `(tmx, tmy)` stays within `i32`.
pub open spec fn select_move_ok(s: &EditAreaDatas, tmx: i32, tmy: i32) -> bool {
    let r = s.select_rect;
    let dx = move_cells(s, tmx, r.mouse_start_x);
    let dy = move_cells(s, tmy, r.mouse_start_y);
    &&& sat_i32(tmx - r.mouse_start_x) - 4 >= i32::MIN
    &&& sat_i32(tmy - r.mouse_start_y) - 4 >= i32::MIN
    &&& span_move_ok(r.sav_left + dx, r.sav_right + dx)
    &&& span_move_ok(r.sav_top + dy, r.sav_bottom + dy)
}

/// The selection moved by the pointer, now at `(tmx, tmy)`, from where the
/// move started: the saved edges shift by whole cells and are pushed back
/// inside the grid.
pub open spec fn select_moved(s: &EditAreaDatas, tmx: i32, tmy: i32) -> SelectRect {
    let r = s.select_rect;
    let dx = move_cells(s, tmx, r.mouse_start_x);
    let dy = move_cells(s, tmy, r.mouse_start_y);
    let (l, rt) = clamp_span(r.sav_left + dx, r.sav_right + dx, s.nb_pixs_columns as int);
    let (t, b) = clamp_span(r.sav_top + dy, r.sav_bottom + dy, s.nb_pixs_rows as int);
    SelectRect { left: l as i32, right: rt as i32, top: t as i32, bottom: b as i32, ..r }
}

/// The selection once the pointer is dragged to the cell `(px, py)`.
pub open spec fn select_dragged(s: &EditAreaDatas, tmx: i32, tmy: i32, px: i32, py: i32) -> SelectRect {
    let r = s.select_rect;
    if r.mode == 0 {
        r.with_corner(2, px, py)
    } else if r.mode == 1 {
        if r.sel_corner != -1 {
            r.with_corner(r.sel_corner, px, py)
        } else {
            select_moved(s, tmx, tmy)
        }
    } else if r.mode == 2 {
        select_moved(s, tmx, tmy)
    } else {
        r
    }
}

/// A drag of the selection tool to `(tmx, tmy)` computes within `i32`.
pub open spec fn select_motion_ok(s: &EditAreaDatas, control: bool, tmx: i32, tmy: i32) -> bool {
    let r = s.select_rect;
    let px = cell_of(s, tmx as int);
    let py = cell_of(s, tmy as int);
    let moves = r.mode == 2 || (r.mode == 1 && r.sel_corner == -1);
    (!control && s.in_edit_area_spec(px, py) && moves) ==> {
        &&& select_move_ok(s, tmx, tmy)
        &&& r.mode == 2 ==> {
            let m = select_moved(s, tmx, tmy);
            &&& i32::MIN <= m.right - m.left && m.right - m.left + 1 <= i32::MAX
            &&& i32::MIN <= m.bottom - m.top && m.bottom - m.top + 1 <= i32::MAX
        }
    }
}

fn sat_i32_of(v: i64) -> (r: i32)
    ensures
        r == sat_i32(v as int),
{
    if v < i32::MIN as i64 {
        i32::MIN
    } else if v > i32::MAX as i64 {
        i32::MAX
    } else {
        v as i32
    }
}

/// What a press of the selection tool does.
pub open spec fn select_pressed_spec(o: EditAreaDatas, f: EditAreaDatas, ev: EditEvent, tmx: i32, tmy: i32) -> bool {
    &&& ({
        let px = cell_of(&o, tmx as int);
        let py = cell_of(&o, tmy as int);
        let hit = in_select_spec(&o, tmx as int, tmy as int);
        if !o.in_edit_area_spec(px, py) {
            f == o && ev == no_event()
        } else {
            &&& f == (EditAreaDatas {
                select_rect: select_pressed(&o, tmx, tmy, px as i32, py as i32),
                copy_rect: if o.select_rect.mode == 2 && !hit { emptied(o.copy_rect) } else { o.copy_rect },
                ..o
            })
            &&& ev == (EditEvent { queue_draw: !(o.select_rect.mode == 1 && hit), ..no_event() })
        }
    })
}

/// What a release of the selection tool does.
pub open spec fn select_released(o: EditAreaDatas, f: EditAreaDatas, ev: EditEvent, tmx: i32, tmy: i32) -> bool {
    &&& f == (EditAreaDatas {
        last_pixel_x: cell_of(&o, tmx as int) as i32,
        last_pixel_y: cell_of(&o, tmy as int) as i32,
        select_rect: released_rect(o.select_rect),
        ..o
    })
    &&& ev == (EditEvent { queue_draw: o.select_rect.mode == 0, ..no_event() })
}

/// What a motion of the selection tool does: see `motion_notify_event_select_mode`.
pub open spec fn select_moved_spec(o: EditAreaDatas, f: EditAreaDatas, ev: EditEvent, control: bool, tmx: i32, tmy: i32) -> bool {
    &&& f.wf()
    &&& ({
        let px = cell_of(&o, tmx as int);
        let py = cell_of(&o, tmy as int);
        let r = select_dragged(&o, tmx, tmy, px as i32, py as i32);
        if control || !o.in_edit_area_spec(px, py) {
            f == o && ev == no_event()
        } else {
            &&& ev == (EditEvent { queue_draw: true, edit_changed: 1, ..no_event() })
            &&& if o.select_rect.mode == 2 {
                let w = r.right - r.left + 1;
                let h = r.bottom - r.top + 1;
                &&& f.select_rect == r
                &&& f.sprite_bak == o.sprite_bak
                &&& f.sprite_copy == o.sprite_copy
                &&& same_tool_state(&o, &EditAreaDatas { select_rect: o.select_rect, ..f })
                &&& f.sprite.w() == o.sprite.w() && f.sprite.h() == o.sprite.h()
                &&& forall|i: int, j: int| #[trigger] f.sprite.in_bounds(i, j) ==> f.sprite.px(i, j) ==
                    if copy_area_fits(o.sprite_copy.w(), o.sprite_copy.h(), 0, 0, w, h, o.sprite.w(), o.sprite.h(),
                        r.left as int, r.top as int) && r.left <= i < r.left + w && r.top <= j < r.top + h {
                        o.sprite_copy.px(i - r.left, j - r.top)
                    } else {
                        o.sprite_bak.px(i, j)
                    }
            } else {
                f == (EditAreaDatas { select_rect: r, ..o })
            }
        }
    })
}

impl EditAreaDatas {
    /// The pointer's displacement from `start` to `t`, in whole cells.
    fn cells_moved(&self, t: i32, start: i32) -> (d: i32)
        requires
            self.cell_size > 0,
            sat_i32(t - start) - 4 >= i32::MIN,
        ensures
            d == move_cells(self, t, start),
    {
        let m = sat_i32_of(t as i64 - start as i64);
        let (d, _) = self.mouse_to_pixel(m, 0x1000);
        d
    }

    /// The selection moved by the pointer, now at `(tmx, tmy)`: see `select_moved`.
    pub fn moved_select_rect(&self, tmx: i32, tmy: i32) -> (m: SelectRect)
        requires
            self.wf(),
            self.cell_size > 0,
            select_move_ok(self, tmx, tmy),
        ensures
            m == select_moved(self, tmx, tmy),
    {
        proof {
            self.sprite.lemma_wf_dims();
        }
        let r = self.select_rect;
        let dx = self.cells_moved(tmx, r.mouse_start_x);
        let dy = self.cells_moved(tmy, r.mouse_start_y);
        let mut left = r.sav_left + dx;
        let mut right = r.sav_right + dx;
        let mut top = r.sav_top + dy;
        let mut bottom = r.sav_bottom + dy;
        if left < 0 {
            right = right + (-left);
            left = 0;
        } else if right >= self.nb_pixs_columns {
            let o = self.nb_pixs_columns - right - 1;
            left = left + o;
            right = right + o;
        }
        if top < 0 {
            bottom = bottom + (-top);
            top = 0;
        } else if bottom >= self.nb_pixs_rows {
            let o = self.nb_pixs_rows - bottom - 1;
            top = top + o;
            bottom = bottom + o;
        }
        let mut m = r;
        m.set_corner(0, left, top);
        m.set_corner(2, right, bottom);
        m
    }

    /// Selection tool, button pressed at `(tmx, tmy)`: see `select_pressed`.
    /// Dropping a pasted block empties the block last copied.
    pub fn button_press_event_select_mode(&mut self, tmx: i32, tmy: i32) -> (ev: EditEvent)
        requires
            old(self).wf(),
            pointer_ok(&*old(self), tmx, tmy),
            (old(self).select_rect.mode == 1 || old(self).select_rect.mode == 2) ==> geometry_ok(&*old(self)),
        ensures
            select_pressed_spec(*old(self), *final(self), ev, tmx, tmy),
    {
        let mut ev = nothing();
        let (px, py) = self.mouse_to_pixel(tmx, tmy);
        if self.in_edit_area(px, py) {
            if self.select_rect.mode == 0 {
                self.select_rect.set_corner(0, px, py);
                self.select_rect.set_corner(2, px, py);
                ev.queue_draw = true;
            } else if self.select_rect.mode == 1 {
                if self.in_select_rect(tmx, tmy) {
                    let id_handle = self.hit_handle(tmx, tmy);
                    if id_handle != -1 {
                        self.select_rect.sel_corner = id_handle;
                    } else {
                        self.select_rect.mouse_start_x = tmx;
                        self.select_rect.mouse_start_y = tmy;
                        self.select_rect.backup_position();
                    }
                } else {
                    self.select_rect.mode = 0;
                    self.select_rect.set_corner(0, px, py);
                    self.select_rect.set_corner(2, px, py);
                    self.select_rect.sel_corner = -1;
                    ev.queue_draw = true;
                }
            } else if self.select_rect.mode == 2 {
                if self.in_select_rect(tmx, tmy) {
                    self.select_rect.mouse_start_x = tmx;
                    self.select_rect.mouse_start_y = tmy;
                    self.select_rect.backup_position();
                } else {
                    self.select_rect.mode = 0;
                    self.select_rect.set_corner(0, px, py);
                    self.select_rect.set_corner(2, px, py);
                    self.select_rect.sel_corner = -1;
                    self.copy_rect.empty();
                }
                ev.queue_draw = true;
            } else {
                ev.queue_draw = true;
            }
        }
        ev
    }

    /// Selection tool, button released at `(tmx, tmy)`: the cell under the
    /// pointer becomes the last cell, and the selection is placed as
    /// `released_rect` says.
    pub fn button_release_event_select_mode(&mut self, tmx: i32, tmy: i32) -> (ev: EditEvent)
        requires
            pointer_ok(&*old(self), tmx, tmy),
        ensures
            select_released(*old(self), *final(self), ev, tmx, tmy),
    {
        let (px, py) = self.mouse_to_pixel(tmx, tmy);
        self.last_pixel_x = px;
        self.last_pixel_y = py;
        let drawn = self.release_shape();
        EditEvent { queue_draw: drawn, ..nothing() }
    }

    /// Selection tool, pointer moved to `(tmx, tmy)`; nothing happens while
    /// Control is held. The selection follows the drag (see
    /// `select_dragged`); a pasted block being moved is drawn at its new
    /// place over the backup of the sprite.
    pub fn motion_notify_event_select_mode(&mut self, control: bool, tmx: i32, tmy: i32) -> (ev: EditEvent)
        requires
            old(self).wf(),
            pointer_ok(&*old(self), tmx, tmy),
            select_motion_ok(&*old(self), control, tmx, tmy),
        ensures
            select_moved_spec(*old(self), *final(self), ev, control, tmx, tmy),
    {
        if control {
            return nothing();
        }
        let (px, py) = self.mouse_to_pixel(tmx, tmy);
        if !self.in_edit_area(px, py) {
            return nothing();
        }
        if self.select_rect.mode == 0 {
            self.select_rect.set_corner(2, px, py);
        } else if self.select_rect.mode == 1 {
            if self.select_rect.sel_corner != -1 {
                let n = self.select_rect.sel_corner;
                self.select_rect.set_corner(n, px, py);
            } else {
                self.select_rect = self.moved_select_rect(tmx, tmy);
            }
        } else if self.select_rect.mode == 2 {
            self.select_rect = self.moved_select_rect(tmx, tmy);
            self.restore_sprite();
            let ghost restored = self.sprite;
            proof {
                assert forall|i: int, j: int| #[trigger] restored.in_bounds(i, j) implies restored.px(i, j) == old(self).sprite_bak.px(i, j) by {
                    assert(old(self).sprite.in_bounds(i, j));
                }
            }
            let w = self.select_rect.width();
            let h = self.select_rect.height();
            let (l, t) = (self.select_rect.left, self.select_rect.top);
            self.sprite_copy.copy_area(0, 0, w, h, &mut self.sprite, l, t);
            proof {
                assert forall|i: int, j: int| #[trigger] self.sprite.in_bounds(i, j) implies self.sprite.px(i, j) ==
                    if copy_area_fits(old(self).sprite_copy.w(), old(self).sprite_copy.h(), 0, 0, w as int, h as int,
                        old(self).sprite.w(), old(self).sprite.h(), l as int, t as int) && l <= i < l + w && t <= j < t + h {
                        old(self).sprite_copy.px(i - l, j - t)
                    } else {
                        old(self).sprite_bak.px(i, j)
                    } by {
                    assert(restored.in_bounds(i, j));
                }
                assert(same_tool_state(&*old(self), &EditAreaDatas { select_rect: old(self).select_rect, ..*self }));
            }
        }
        EditEvent { queue_draw: true, edit_changed: 1, ..nothing() }
    }

    /// Whether a drag of the selection tool to `(tmx, tmy)` computes within
    /// `i32`: see `select_motion_ok`.
    pub fn select_motion_fits(&self, control: bool, tmx: i32, tmy: i32) -> (ok: bool)
        requires
            self.wf(),
            pointer_ok(self, tmx, tmy),
        ensures
            ok == select_motion_ok(self, control, tmx, tmy),
    {
        let r = self.select_rect;
        let (px, py) = self.mouse_to_pixel(tmx, tmy);
        let moves = r.mode == 2 || (r.mode == 1 && r.sel_corner == -1);
        if control || !self.in_edit_area(px, py) || !moves {
            return true;
        }
        let mx = sat_i32_of(tmx as i64 - r.mouse_start_x as i64);
        let my = sat_i32_of(tmy as i64 - r.mouse_start_y as i64);
        if (mx as i64) - 4 < i32::MIN as i64 || (my as i64) - 4 < i32::MIN as i64 {
            return false;
        }
        let dx = self.cells_moved(tmx, r.mouse_start_x) as i64;
        let dy = self.cells_moved(tmy, r.mouse_start_y) as i64;
        if !(span_fits(r.sav_left as i64 + dx, r.sav_right as i64 + dx) && span_fits(r.sav_top as i64 + dy, r.sav_bottom as i64 + dy)) {
            return false;
        }
        if r.mode == 2 {
            let m = self.moved_select_rect(tmx, tmy);
            let dw = m.right as i64 - m.left as i64;
            let dh = m.bottom as i64 - m.top as i64;
            return i32::MIN as i64 <= dw && dw + 1 <= i32::MAX as i64 && i32::MIN as i64 <= dh && dh + 1 <= i32::MAX as i64;
        }
        true
    }
}

fn span_fits(lo: i64, hi: i64) -> (ok: bool)
    requires
        -0x1_0000_0000 <= lo <= 0x1_0000_0000,
        -0x1_0000_0000 <= hi <= 0x1_0000_0000,
    ensures
        ok == span_move_ok(lo as int, hi as int),
{
    i32::MIN as i64 <= lo && lo <= i32::MAX as i64 && i32::MIN as i64 <= hi && hi <= i32::MAX as i64
        && (lo >= 0 || ((i32::MIN as i64) < lo && hi - lo <= i32::MAX as i64))
}


/// Moving the selection (or a pasted block) keeps it in the grid: when its
/// saved edges are ordered and it is smaller than the grid, the moved
/// selection keeps its size, lies wholly inside the grid, and is the saved
/// one shifted by the pointer's displacement in whole cells, pushed back by
/// exactly its overhang on a side where it would leave the grid.
pub proof fn lemma_select_move_stays_in_grid(s: EditAreaDatas, tmx: i32, tmy: i32)
    requires
        select_move_ok(&s, tmx, tmy),
        s.select_rect.sav_left <= s.select_rect.sav_right,
        s.select_rect.sav_top <= s.select_rect.sav_bottom,
        s.select_rect.sav_right - s.select_rect.sav_left < s.nb_pixs_columns,
        s.select_rect.sav_bottom - s.select_rect.sav_top < s.nb_pixs_rows,
    ensures
        ({
            let r = s.select_rect;
            let m = select_moved(&s, tmx, tmy);
            let dx = move_cells(&s, tmx, r.mouse_start_x);
            let dy = move_cells(&s, tmy, r.mouse_start_y);
            &&& m == (SelectRect { left: m.left, top: m.top, right: m.right, bottom: m.bottom, ..r })
            &&& 0 <= m.left <= m.right < s.nb_pixs_columns
            &&& 0 <= m.top <= m.bottom < s.nb_pixs_rows
            &&& m.right - m.left == r.sav_right - r.sav_left
            &&& m.bottom - m.top == r.sav_bottom - r.sav_top
            &&& 0 <= r.sav_left + dx && r.sav_right + dx < s.nb_pixs_columns ==> m.left == r.sav_left + dx
            &&& r.sav_left + dx < 0 ==> m.left == 0
            &&& r.sav_left + dx >= 0 && r.sav_right + dx >= s.nb_pixs_columns ==> m.right == s.nb_pixs_columns - 1
            &&& 0 <= r.sav_top + dy && r.sav_bottom + dy < s.nb_pixs_rows ==> m.top == r.sav_top + dy
            &&& r.sav_top + dy < 0 ==> m.top == 0
            &&& r.sav_top + dy >= 0 && r.sav_bottom + dy >= s.nb_pixs_rows ==> m.bottom == s.nb_pixs_rows - 1
        }),
{
}


/// Dragging a pasted block draws it at its new place over the backup: every
/// pixel inside the moved block is the copy buffer's pixel at the same
/// place in the block, and every other pixel is the backup's.
pub proof fn lemma_pasted_block_drawn_at_new_place(o: EditAreaDatas, f: EditAreaDatas, ev: EditEvent, control: bool,
    tmx: i32, tmy: i32)
    requires
        o.wf(),
        o.select_rect.mode == 2,
        select_moved_spec(o, f, ev, control, tmx, tmy),
        ev.edit_changed != 0,
        0 <= f.select_rect.left <= f.select_rect.right < o.nb_pixs_columns,
        0 <= f.select_rect.top <= f.select_rect.bottom < o.nb_pixs_rows,
    ensures
        ({
            let r = f.select_rect;
            &&& f.sprite_bak == o.sprite_bak
            &&& f.sprite.w() == o.sprite.w() && f.sprite.h() == o.sprite.h()
            &&& forall|i: int, j: int| #[trigger] f.sprite.in_bounds(i, j) ==> f.sprite.px(i, j) ==
                if r.left <= i <= r.right && r.top <= j <= r.bottom {
                    o.sprite_copy.px(i - r.left, j - r.top)
                } else {
                    o.sprite_bak.px(i, j)
                }
        }),
{
}

} // verus!
