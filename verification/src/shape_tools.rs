//! The rectangle and ellipse tools' answers to pointer events.
//!
//! A press in drawing mode starts a new shape at the cell under the pointer;
//! dragging moves its second corner and redraws the shape over the backup of
//! the sprite. Once placed, the shape's bounding rectangle can be resized by a
//! corner or moved as a whole, and the shape is redrawn after each motion.

use vstd::prelude::*;
use crate::edit_area::{EditAreaDatas, UndoMode, trunc_div, block_from, same_tool_state};
use crate::select_rect::SelectRect;
use crate::draw::{in_box, on_box_edge, box_in_sprite};
use crate::ellipse::{on_ellipse_border, in_filled_ellipse, corners_fit, ellipse_fits_check, lemma_ellipse_in_sprite};
use crate::tools::{EditEvent, no_event, nothing, cell_of, pointer_ok, geometry_ok, first_handle, in_select_spec};

verus! {

/// `v` clamped to the range of `i32`, as a conversion from a float leaves it.
pub open spec fn sat_i32(v: int) -> i32 {
    if v < i32::MIN {
        i32::MIN
    } else if v > i32::MAX {
        i32::MAX
    } else {
        v as i32
    }
}

fn div_trunc64(a: i64, c: i64) -> (q: i64)
    requires
        c > 0,
    ensures
        q == trunc_div(a as int, c as int),
{
    a / c
}

fn sat_from_i64(v: i64) -> (r: i32)
    ensures
        r == sat_i32(v as int),
{
    if v < i32::MIN as i64 {
        i32::MIN
    } else if v > i32::MAX as i64 {
        i32::MAX
    } else {
        v as i32
    }
}

proof fn lemma_edge_product(v: int, c: int)
    requires
        i32::MIN <= v <= i32::MAX,
        0 < c <= i32::MAX,
    ensures
        -0x4000_0000_0000_0000 <= v * c <= 0x4000_0000_0000_0000,
{
    assert(-0x4000_0000_0000_0000 <= v * c <= 0x4000_0000_0000_0000) by (nonlinear_arith)
        requires
            i32::MIN <= v <= i32::MAX,
            0 < c <= i32::MAX,
    ;
}

/// The rectangle with both corners at the cell `(px, py)`.
pub open spec fn at_cell(r: SelectRect, px: i32, py: i32) -> SelectRect {
    SelectRect { left: px, top: py, right: px, bottom: py, ..r }
}

/// The selection after a press on the cell `(px, py)` of the grid: in drawing
/// mode the shape starts there; on a placed shape a press on a corner's cell
/// grabs that corner, a press elsewhere inside starts a move, and a press
/// outside starts a new shape.
pub open spec fn pressed_rect(s: &EditAreaDatas, tmx: i32, tmy: i32, px: i32, py: i32) -> SelectRect {
    let r = s.select_rect;
    if r.mode == 0 {
        at_cell(r, px, py)
    } else if r.mode == 1 {
        if in_select_spec(s, tmx as int, tmy as int) {
            let id = first_handle(s, tmx as int, tmy as int);
            if id != -1 {
                SelectRect { sel_corner: id, ..r }
            } else {
                SelectRect {
                    mouse_start_x: tmx,
                    mouse_start_y: tmy,
                    sav_left: r.left,
                    sav_top: r.top,
                    sav_right: r.right,
                    sav_bottom: r.bottom,
                    ..r
                }
            }
        } else {
            SelectRect { mode: 0i32, sel_corner: -1i32, ..at_cell(r, px, py) }
        }
    } else {
        r
    }
}

/// The placed shape moved by the pointer from where the move started: the
/// saved edges shift by the pointer's displacement less 4, in cells and
/// fractions of a cell, and each edge keeps its whole part. Across (and
/// likewise down) the shape stays where it is when the shifted edges would
/// leave the grid.
pub open spec fn float_moved(s: &EditAreaDatas, tmx: i32, tmy: i32) -> SelectRect {
    let r = s.select_rect;
    let c = s.cell_size as int;
    let kx = tmx - r.mouse_start_x - 4;
    let ky = tmy - r.mouse_start_y - 4;
    if kx == 0 && ky == 0 {
        r
    } else {
        let out_x = r.sav_left * c + kx < 0 || r.sav_right * c + kx >= s.nb_pixs_columns * c;
        let out_y = r.sav_top * c + ky < 0 || r.sav_bottom * c + ky >= s.nb_pixs_rows * c;
        SelectRect {
            left: if out_x { r.left } else { sat_i32(trunc_div(r.sav_left * c + kx, c)) },
            right: if out_x { r.right } else { sat_i32(trunc_div(r.sav_right * c + kx, c)) },
            top: if out_y { r.top } else { sat_i32(trunc_div(r.sav_top * c + ky, c)) },
            bottom: if out_y { r.bottom } else { sat_i32(trunc_div(r.sav_bottom * c + ky, c)) },
            ..r
        }
    }
}

/// The shape's rectangle after the pointer is dragged onto the cell
/// `(px, py)`: the second corner follows it while drawing; once placed, the
/// grabbed corner follows it, or the whole rectangle moves.
pub open spec fn dragged_rect(s: &EditAreaDatas, tmx: i32, tmy: i32, px: i32, py: i32) -> SelectRect {
    let r = s.select_rect;
    if r.mode == 0 {
        r.with_corner(2, px, py)
    } else if r.mode == 1 {
        if r.sel_corner != -1 {
            r.with_corner(r.sel_corner, px, py)
        } else {
            float_moved(s, tmx, tmy)
        }
    } else {
        r
    }
}

/// The colour a drag draws with: the foreground colour with button 1 held,
/// the background colour with button 3, and 0 (nothing drawn) otherwise.
pub open spec fn drag_color(s: &EditAreaDatas, button1: bool, button3: bool) -> u32 {
    if button1 { s.foreground_color } else if button3 { s.background_color } else { 0 }
}

/// A drag to `(tmx, tmy)` draws only inside the sprite.
pub open spec fn shape_motion_ok(s: &EditAreaDatas, button1: bool, button3: bool, tmx: i32, tmy: i32) -> bool {
    let px = cell_of(s, tmx as int);
    let py = cell_of(s, tmy as int);
    let r = dragged_rect(s, tmx, tmy, px as i32, py as i32);
    (drag_color(s, button1, button3) != 0 && s.in_edit_area_spec(px, py) && !r.is_empty_spec())
        ==> box_in_sprite(&s.sprite, r.left as int, r.top as int, r.right as int, r.bottom as int)
}

/// A drag of the ellipse tool to `(tmx, tmy)` draws an ellipse that fits
/// (see `corners_fit`).
pub open spec fn ellipse_motion_ok(s: &EditAreaDatas, button1: bool, button3: bool, tmx: i32, tmy: i32) -> bool {
    let px = cell_of(s, tmx as int);
    let py = cell_of(s, tmy as int);
    let r = dragged_rect(s, tmx, tmy, px as i32, py as i32);
    (drag_color(s, button1, button3) != 0 && s.in_edit_area_spec(px, py) && !r.is_empty_spec())
        ==> corners_fit(r.left as int, r.top as int, r.right as int, r.bottom as int)
}

/// The selection after the button is released: a rectangle being drawn is
/// placed, edges ordered, if it has both a width and a height, and is emptied
/// otherwise; no corner stays grabbed.
pub open spec fn released_rect(r: SelectRect) -> SelectRect {
    let r2 = if r.mode == 0 {
        if r.left != r.right && r.top != r.bottom {
            SelectRect { mode: 1i32, ..r.normalized() }
        } else {
            r.inited()
        }
    } else {
        r
    };
    SelectRect { sel_corner: -1i32, ..r2 }
}

/// The state after the shape's rectangle is set to `r` and the sprite is
/// redrawn from its backup with the pixels for which `hit` holds set to `c`.
pub open spec fn redrawn(a: &EditAreaDatas, b: &EditAreaDatas, r: SelectRect, hit: spec_fn(int, int) -> bool, c: u32) -> bool {
    &&& b.select_rect == r
    &&& b.sprite.w() == a.sprite.w()
    &&& b.sprite.h() == a.sprite.h()
    &&& forall|i: int, j: int| #[trigger] b.sprite.in_bounds(i, j) ==> b.sprite.px(i, j) == if hit(i, j) { c } else { a.sprite_bak.px(i, j) }
    &&& b.sprite_bak == a.sprite_bak
    &&& b.sprite_copy == a.sprite_copy
    &&& same_tool_state(a, &EditAreaDatas { select_rect: a.select_rect, ..*b })
}

/// What a press of the rectangle tool does.
pub open spec fn rectangle_pressed(o: EditAreaDatas, f: EditAreaDatas, ev: EditEvent, tmx: i32, tmy: i32) -> bool {
    &&& ({
        let px = cell_of(&o, tmx as int);
        let py = cell_of(&o, tmy as int);
        let r = pressed_rect(&o, tmx, tmy, px as i32, py as i32);
        if !o.in_edit_area_spec(px, py) {
            f == o && ev == no_event()
        } else {
            &&& f.wf()
            &&& if o.select_rect.mode == 0 {
                &&& block_from(o.sprite, o.sprite_bak, f.sprite_bak, o.sprite.w(), o.sprite.h())
                &&& f == (EditAreaDatas { sprite_bak: f.sprite_bak, undo_mode: UndoMode::RECTANGLE, select_rect: r, ..o })
            } else {
                f == (EditAreaDatas { select_rect: r, ..o })
            }
            &&& ev == (EditEvent {
                queue_draw: true,
                edit_changed: if o.select_rect.mode == 0 || (o.select_rect.mode == 1
                    && !in_select_spec(&o, tmx as int, tmy as int)) { 2 } else { 1 },
                left_clicked: true,
                ..no_event()
            })
        }
    })
}

/// What a release of the rectangle tool does.
pub open spec fn rectangle_released(o: EditAreaDatas, f: EditAreaDatas, ev: EditEvent) -> bool {
    &&& f == (EditAreaDatas { select_rect: released_rect(o.select_rect), ..o })
    &&& ev == (if o.select_rect.mode == 0 { EditEvent { queue_draw: true, edit_changed: 1, ..no_event() } } else { no_event() })
}

/// What a motion of the rectangle tool does: see `motion_notify_event_rectangle_mode`.
pub open spec fn rectangle_moved(o: EditAreaDatas, f: EditAreaDatas, ev: EditEvent, button1: bool, button3: bool, control: bool, tmx: i32, tmy: i32) -> bool {
    &&& f.wf()
    &&& ({
        let px = cell_of(&o, tmx as int);
        let py = cell_of(&o, tmy as int);
        let c = drag_color(&o, button1, button3);
        let r = dragged_rect(&o, tmx, tmy, px as i32, py as i32);
        if c == 0 || !o.in_edit_area_spec(px, py) {
            f == o && ev == no_event()
        } else if r.is_empty_spec() {
            f == (EditAreaDatas { select_rect: r, ..o }) && ev == no_event()
        } else {
            &&& redrawn(&o, &f, r, |i: int, j: int| if control {
                in_box(r.left as int, r.top as int, r.right as int, r.bottom as int, i, j)
            } else {
                on_box_edge(r.left as int, r.top as int, r.right as int, r.bottom as int, i, j)
            }, c)
            &&& ev == (EditEvent { queue_draw: true, edit_changed: 1, ..no_event() })
        }
    })
}

/// What a press of the ellipse tool does.
pub open spec fn ellipse_pressed(o: EditAreaDatas, f: EditAreaDatas, ev: EditEvent, tmx: i32, tmy: i32) -> bool {
    &&& ({
        let px = cell_of(&o, tmx as int);
        let py = cell_of(&o, tmy as int);
        let r = pressed_rect(&o, tmx, tmy, px as i32, py as i32);
        if !o.in_edit_area_spec(px, py) {
            f == o && ev == no_event()
        } else {
            &&& f.wf()
            &&& if o.select_rect.mode == 0 {
                &&& block_from(o.sprite, o.sprite_bak, f.sprite_bak, o.sprite.w(), o.sprite.h())
                &&& f == (EditAreaDatas { sprite_bak: f.sprite_bak, undo_mode: UndoMode::ELLIPSE, select_rect: r, ..o })
            } else {
                f == (EditAreaDatas { select_rect: r, ..o })
            }
            &&& ev == (EditEvent {
                queue_draw: true,
                edit_changed: if o.select_rect.mode == 0 || (o.select_rect.mode == 1
                    && !in_select_spec(&o, tmx as int, tmy as int)) { 2 } else { 1 },
                ..no_event()
            })
        }
    })
}

/// What a release of the ellipse tool does.
pub open spec fn ellipse_released(o: EditAreaDatas, f: EditAreaDatas, ev: EditEvent) -> bool {
    &&& f == (EditAreaDatas { select_rect: released_rect(o.select_rect), ..o })
    &&& ev == (if o.select_rect.mode == 0 { EditEvent { queue_draw: true, edit_changed: 1, ..no_event() } } else { no_event() })
}

/// What a motion of the ellipse tool does: see `motion_notify_event_ellipse_mode`.
pub open spec fn ellipse_moved(o: EditAreaDatas, f: EditAreaDatas, ev: EditEvent, button1: bool, button3: bool, control: bool, tmx: i32, tmy: i32) -> bool {
    &&& f.wf()
    &&& ({
        let px = cell_of(&o, tmx as int);
        let py = cell_of(&o, tmy as int);
        let c = drag_color(&o, button1, button3);
        let r = dragged_rect(&o, tmx, tmy, px as i32, py as i32);
        let (x0, x1) = if r.right > r.left { (r.left as int, r.right as int) } else { (r.right as int, r.left as int) };
        let (y0, y1) = if r.bottom > r.top { (r.top as int, r.bottom as int) } else { (r.bottom as int, r.top as int) };
        if c == 0 || !o.in_edit_area_spec(px, py) {
            f == o && ev == no_event()
        } else if r.is_empty_spec() {
            f == (EditAreaDatas { select_rect: r, ..o }) && ev == no_event()
        } else {
            &&& redrawn(&o, &f, r, |i: int, j: int| if control {
                in_filled_ellipse(x0, y0, x1, y1, i, j)
            } else {
                on_ellipse_border(x0, y0, x1, y1, i, j)
            }, c)
            &&& ev == (EditEvent { queue_draw: true, edit_changed: 1, ..no_event() })
        }
    })
}

impl EditAreaDatas {
    /// A press of the rectangle or ellipse tool at `(tmx, tmy)`, which
    /// starts a shape with the given undo mode.
    fn press_shape(&mut self, tmx: i32, tmy: i32, undo: UndoMode) -> (ev: EditEvent)
        requires
            old(self).wf(),
            pointer_ok(&*old(self), tmx, tmy),
            old(self).select_rect.mode == 1 ==> geometry_ok(&*old(self)),
        ensures
            ({
                let o = *old(self);
                let f = *final(self);
                let px = cell_of(&o, tmx as int);
                let py = cell_of(&o, tmy as int);
                let r = pressed_rect(&o, tmx, tmy, px as i32, py as i32);
                if !o.in_edit_area_spec(px, py) {
                    f == o && ev == no_event()
                } else {
                    &&& f.wf()
                    &&& if o.select_rect.mode == 0 {
                        &&& block_from(o.sprite, o.sprite_bak, f.sprite_bak, o.sprite.w(), o.sprite.h())
                        &&& f == (EditAreaDatas { sprite_bak: f.sprite_bak, undo_mode: undo, select_rect: r, ..o })
                    } else {
                        f == (EditAreaDatas { select_rect: r, ..o })
                    }
                    &&& ev == (EditEvent {
                        queue_draw: true,
                        edit_changed: if o.select_rect.mode == 0 || (o.select_rect.mode == 1
                            && !in_select_spec(&o, tmx as int, tmy as int)) { 2 } else { 1 },
                        ..no_event()
                    })
                }
            }),
    {
        let mut ev = nothing();
        let (px, py) = self.mouse_to_pixel(tmx, tmy);
        if self.in_edit_area(px, py) {
            if self.select_rect.mode == 0 {
                self.backup_sprite();
                self.undo_mode = undo;
                self.select_rect.set_corner(0, px, py);
                self.select_rect.set_corner(2, px, py);
                ev.edit_changed = 1;
            } else if self.select_rect.mode == 1 {
                if self.in_select_rect(tmx, tmy) {
                    let id_handle = self.hit_handle(tmx, tmy);
                    if id_handle != -1 {
                        self.select_rect.sel_corner = id_handle;
                    } else {
                        self.select_rect.mouse_start_x = tmx;
                        self.select_rect.mouse_start_y = tmy;
                        self.select_rect.backup_position();
                    }
                } else {
                    self.select_rect.mode = 0;
                    self.select_rect.set_corner(0, px, py);
                    self.select_rect.set_corner(2, px, py);
                    self.select_rect.sel_corner = -1;
                    ev.edit_changed = 1;
                }
            }
            ev.queue_draw = true;
            ev.edit_changed = ev.edit_changed + 1;
        }
        ev
    }

    /// The placed shape's rectangle moved by the pointer, now at
    /// `(tmx, tmy)`, from where the move started.
    fn move_shape_rect(&self, tmx: i32, tmy: i32) -> (r: SelectRect)
        requires
            self.cell_size > 0,
        ensures
            r == float_moved(self, tmx, tmy),
    {
        let r = self.select_rect;
        let c = self.cell_size as i64;
        let kx = tmx as i64 - r.mouse_start_x as i64 - 4;
        let ky = tmy as i64 - r.mouse_start_y as i64 - 4;
        if kx == 0 && ky == 0 {
            return r;
        }
        proof {
            lemma_edge_product(r.sav_left as int, c as int);
            lemma_edge_product(r.sav_right as int, c as int);
            lemma_edge_product(r.sav_top as int, c as int);
            lemma_edge_product(r.sav_bottom as int, c as int);
            lemma_edge_product(self.nb_pixs_columns as int, c as int);
            lemma_edge_product(self.nb_pixs_rows as int, c as int);
        }
        let nl = r.sav_left as i64 * c + kx;
        let nr = r.sav_right as i64 * c + kx;
        let nt = r.sav_top as i64 * c + ky;
        let nb = r.sav_bottom as i64 * c + ky;
        let mut out = r;
        if !(nl < 0 || nr >= self.nb_pixs_columns as i64 * c) {
            out.left = sat_from_i64(div_trunc64(nl, c));
            out.right = sat_from_i64(div_trunc64(nr, c));
        }
        if !(nt < 0 || nb >= self.nb_pixs_rows as i64 * c) {
            out.top = sat_from_i64(div_trunc64(nt, c));
            out.bottom = sat_from_i64(div_trunc64(nb, c));
        }
        out
    }

    /// The shape's rectangle once the pointer is dragged to `(tmx, tmy)`,
    /// on the cell `(px, py)`.
    pub fn dragged_select_rect(&self, tmx: i32, tmy: i32) -> (r: SelectRect)
        requires
            pointer_ok(self, tmx, tmy),
        ensures
            r == dragged_rect(self, tmx, tmy, cell_of(self, tmx as int) as i32, cell_of(self, tmy as int) as i32),
    {
        let (px, py) = self.mouse_to_pixel(tmx, tmy);
        let mut r = self.select_rect;
        if r.mode == 0 {
            r.set_corner(2, px, py);
        } else if r.mode == 1 {
            if r.sel_corner != -1 {
                let n = r.sel_corner;
                r.set_corner(n, px, py);
            } else {
                r = self.move_shape_rect(tmx, tmy);
            }
        }
        r
    }

    /// Whether a drag of the rectangle or ellipse tool to `(tmx, tmy)` with
    /// these buttons held draws only inside the sprite.
    pub fn shape_motion_fits(&self, button1: bool, button3: bool, tmx: i32, tmy: i32) -> (ok: bool)
        requires
            self.wf(),
            pointer_ok(self, tmx, tmy),
        ensures
            ok == shape_motion_ok(self, button1, button3, tmx, tmy),
    {
        let color: u32 = if button1 { self.foreground_color } else if button3 { self.background_color } else { 0 };
        let (px, py) = self.mouse_to_pixel(tmx, tmy);
        if color == 0 || !self.in_edit_area(px, py) {
            return true;
        }
        let r = self.dragged_select_rect(tmx, tmy);
        if r.is_empty() {
            return true;
        }
        let w = self.sprite.get_width() as i32;
        let h = self.sprite.get_height() as i32;
        0 <= r.left && r.left < w && 0 <= r.top && r.top < h && 0 <= r.right && r.right < w && 0 <= r.bottom && r.bottom < h
    }

    /// Whether a drag of the ellipse tool to `(tmx, tmy)` draws an ellipse
    /// that fits: see `ellipse_motion_ok`.
    pub fn ellipse_motion_fits(&self, button1: bool, button3: bool, tmx: i32, tmy: i32) -> (ok: bool)
        requires
            self.wf(),
            pointer_ok(self, tmx, tmy),
        ensures
            ok == ellipse_motion_ok(self, button1, button3, tmx, tmy),
    {
        let color: u32 = if button1 { self.foreground_color } else if button3 { self.background_color } else { 0 };
        let (px, py) = self.mouse_to_pixel(tmx, tmy);
        if color == 0 || !self.in_edit_area(px, py) {
            return true;
        }
        let r = self.dragged_select_rect(tmx, tmy);
        if r.is_empty() {
            return true;
        }
        let dx: i64 = if r.left <= r.right { r.right as i64 - r.left as i64 } else { r.left as i64 - r.right as i64 };
        let dy: i64 = if r.top <= r.bottom { r.bottom as i64 - r.top as i64 } else { r.top as i64 - r.bottom as i64 };
        ellipse_fits_check(dx / 2, dy / 2)
    }

    /// Ends a drag of the rectangle, ellipse or selection tool: see `released_rect`.
    pub(crate) fn release_shape(&mut self) -> (drawn: bool)
        ensures
            *final(self) == (EditAreaDatas { select_rect: released_rect(old(self).select_rect), ..*old(self) }),
            drawn == (old(self).select_rect.mode == 0),
    {
        let drawn = self.select_rect.mode == 0;
        if drawn {
            let (x1, y1) = self.select_rect.get_corner(0);
            let (x2, y2) = self.select_rect.get_corner(2);
            if x1 != x2 && y1 != y2 {
                self.select_rect.normalize();
                self.select_rect.mode = 1;
            } else {
                self.select_rect.init();
            }
        }
        self.select_rect.sel_corner = -1;
        drawn
    }

    /// Rectangle tool, button pressed at `(tmx, tmy)`: see `pressed_rect`.
    /// A press that starts a rectangle backs the sprite up for undo.
    pub fn button_press_event_rectangle_mode(&mut self, tmx: i32, tmy: i32) -> (ev: EditEvent)
        requires
            old(self).wf(),
            pointer_ok(&*old(self), tmx, tmy),
            old(self).select_rect.mode == 1 ==> geometry_ok(&*old(self)),
        ensures
            rectangle_pressed(*old(self), *final(self), ev, tmx, tmy),
    {
        let mut ev = self.press_shape(tmx, tmy, UndoMode::RECTANGLE);
        ev.left_clicked = ev.queue_draw;
        ev
    }

    /// Rectangle tool, button released: see `released_rect`.
    pub fn button_release_event_rectangle_mode(&mut self) -> (ev: EditEvent)
        ensures
            rectangle_released(*old(self), *final(self), ev),
    {
        let drawn = self.release_shape();
        if drawn {
            EditEvent { queue_draw: true, edit_changed: 1, ..nothing() }
        } else {
            nothing()
        }
    }

    /// Rectangle tool, pointer moved to `(tmx, tmy)` with button 1
    /// (foreground) or 3 (background) held: the rectangle follows the drag
    /// (see `dragged_rect`) and, unless it is empty, the sprite is redrawn
    /// from its backup with the rectangle's outline, or with the whole
    /// rectangle filled when Control is held. A drawing colour of 0 draws
    /// nothing.
    pub fn motion_notify_event_rectangle_mode(&mut self, button1: bool, button3: bool, control: bool, tmx: i32, tmy: i32) -> (ev: EditEvent)
        requires
            old(self).wf(),
            pointer_ok(&*old(self), tmx, tmy),
            shape_motion_ok(&*old(self), button1, button3, tmx, tmy),
        ensures
            rectangle_moved(*old(self), *final(self), ev, button1, button3, control, tmx, tmy),
    {
        let draw_color: u32 = if button1 { self.foreground_color } else if button3 { self.background_color } else { 0 };
        if draw_color == 0 {
            return nothing();
        }
        let (px, py) = self.mouse_to_pixel(tmx, tmy);
        if !self.in_edit_area(px, py) {
            return nothing();
        }
        let r = self.dragged_select_rect(tmx, tmy);
        self.select_rect = r;
        if r.is_empty() {
            return nothing();
        }
        self.restore_sprite();
        let (x0, x1) = if r.right > r.left { (r.left, r.right) } else { (r.right, r.left) };
        let (y0, y1) = if r.top > r.bottom { (r.top, r.bottom) } else { (r.bottom, r.top) };
        let ghost restored = *self;
        proof {
            assert forall|i: int, j: int| #[trigger] restored.sprite.in_bounds(i, j) implies restored.sprite.px(i, j) == old(self).sprite_bak.px(i, j) by {
                assert(old(self).sprite.in_bounds(i, j));
            }
        }
        if control {
            self.fill_rectangle(x0, y0, x1, y1, draw_color);
        } else {
            self.draw_rectangle(x0, y0, x1, y1, draw_color);
        }
        proof {
            assert(x0 != x1 || y0 != y1);
            assert(self.select_rect == r);
            assert(self.sprite_bak == old(self).sprite_bak);
            assert(same_tool_state(&*old(self), &EditAreaDatas { select_rect: old(self).select_rect, ..*self }));
            assert forall|i: int, j: int| #[trigger] self.sprite.in_bounds(i, j) implies self.sprite.px(i, j) == if (if control {
                        in_box(r.left as int, r.top as int, r.right as int, r.bottom as int, i, j)
                    } else {
                        on_box_edge(r.left as int, r.top as int, r.right as int, r.bottom as int, i, j)
                    }) { draw_color } else { old(self).sprite_bak.px(i, j) } by {
                assert(restored.sprite.in_bounds(i, j));
            }
        }
        EditEvent { queue_draw: true, edit_changed: 1, ..nothing() }
    }

    /// Ellipse tool, button pressed at `(tmx, tmy)`: see `pressed_rect`.
    /// A press that starts an ellipse backs the sprite up for undo.
    pub fn button_press_event_ellipse_mode(&mut self, tmx: i32, tmy: i32) -> (ev: EditEvent)
        requires
            old(self).wf(),
            pointer_ok(&*old(self), tmx, tmy),
            old(self).select_rect.mode == 1 ==> geometry_ok(&*old(self)),
        ensures
            ellipse_pressed(*old(self), *final(self), ev, tmx, tmy),
    {
        self.press_shape(tmx, tmy, UndoMode::ELLIPSE)
    }

    /// Ellipse tool, button released: see `released_rect`.
    pub fn button_release_event_ellipse_mode(&mut self) -> (ev: EditEvent)
        ensures
            ellipse_released(*old(self), *final(self), ev),
    {
        let drawn = self.release_shape();
        if drawn {
            EditEvent { queue_draw: true, edit_changed: 1, ..nothing() }
        } else {
            nothing()
        }
    }

    /// Ellipse tool, pointer moved to `(tmx, tmy)` with button 1
    /// (foreground) or 3 (background) held: the ellipse's bounding rectangle
    /// follows the drag (see `dragged_rect`) and, unless it is empty, the
    /// sprite is redrawn from its backup with the outline of the ellipse
    /// inscribed in it, or with the ellipse filled when Control is held. A
    /// drawing colour of 0 draws nothing.
    pub fn motion_notify_event_ellipse_mode(&mut self, button1: bool, button3: bool, control: bool, tmx: i32, tmy: i32) -> (ev: EditEvent)
        requires
            old(self).wf(),
            pointer_ok(&*old(self), tmx, tmy),
            shape_motion_ok(&*old(self), button1, button3, tmx, tmy),
            ellipse_motion_ok(&*old(self), button1, button3, tmx, tmy),
        ensures
            ellipse_moved(*old(self), *final(self), ev, button1, button3, control, tmx, tmy),
    {
        let draw_color: u32 = if button1 { self.foreground_color } else if button3 { self.background_color } else { 0 };
        if draw_color == 0 {
            return nothing();
        }
        let (px, py) = self.mouse_to_pixel(tmx, tmy);
        if !self.in_edit_area(px, py) {
            return nothing();
        }
        let r = self.dragged_select_rect(tmx, tmy);
        self.select_rect = r;
        if r.is_empty() {
            return nothing();
        }
        self.restore_sprite();
        let (x0, x1) = if r.right > r.left { (r.left, r.right) } else { (r.right, r.left) };
        let (y0, y1) = if r.top > r.bottom { (r.bottom, r.top) } else { (r.top, r.bottom) };
        let ghost restored = *self;
        proof {
            assert forall|i: int, j: int| #[trigger] restored.sprite.in_bounds(i, j) implies restored.sprite.px(i, j) == old(self).sprite_bak.px(i, j) by {
                assert(old(self).sprite.in_bounds(i, j));
            }
        }
        proof {
            lemma_ellipse_in_sprite(self.sprite, x0 as int, y0 as int, x1 as int, y1 as int);
        }
        if control {
            self.fill_ellipse(x0, y0, x1, y1, draw_color);
        } else {
            self.border_ellipse(x0, y0, x1, y1, draw_color);
        }
        proof {
            assert forall|i: int, j: int| #[trigger] self.sprite.in_bounds(i, j) implies self.sprite.px(i, j) == if (if control {
                        in_filled_ellipse(x0 as int, y0 as int, x1 as int, y1 as int, i, j)
                    } else {
                        on_ellipse_border(x0 as int, y0 as int, x1 as int, y1 as int, i, j)
                    }) { draw_color } else { old(self).sprite_bak.px(i, j) } by {
                assert(restored.sprite.in_bounds(i, j));
            }
        }
        EditEvent { queue_draw: true, edit_changed: 1, ..nothing() }
    }
}


/// A drag of the ellipse tool that draws redraws the sprite from its backup:
/// the pixels of the ellipse (outline, or filled with Control) inscribed in
/// the new rectangle get the drawing colour (foreground for button 1,
/// background for button 3), and every other pixel is the backup's, so no
/// earlier ellipse of the drag stays.
pub proof fn lemma_ellipse_drag_from_backup(o: EditAreaDatas, f: EditAreaDatas, ev: EditEvent, button1: bool,
    button3: bool, control: bool, tmx: i32, tmy: i32)
    requires
        ellipse_moved(o, f, ev, button1, button3, control, tmx, tmy),
        ev.edit_changed != 0,
    ensures
        ({
            let r = f.select_rect;
            let (x0, x1) = if r.left <= r.right { (r.left as int, r.right as int) } else { (r.right as int, r.left as int) };
            let (y0, y1) = if r.top <= r.bottom { (r.top as int, r.bottom as int) } else { (r.bottom as int, r.top as int) };
            let c = if button1 { o.foreground_color } else { o.background_color };
            &&& button1 || button3
            &&& f.sprite.w() == o.sprite.w() && f.sprite.h() == o.sprite.h()
            &&& f.sprite_bak == o.sprite_bak
            &&& forall|i: int, j: int| #[trigger] f.sprite.in_bounds(i, j) ==> f.sprite.px(i, j) == if (if control {
                in_filled_ellipse(x0, y0, x1, y1, i, j)
            } else {
                on_ellipse_border(x0, y0, x1, y1, i, j)
            }) { c } else { o.sprite_bak.px(i, j) }
        }),
{
}

/// A drag of the rectangle tool that draws redraws the sprite from its
/// backup: the pixels of the new rectangle (outline, or filled with Control)
/// get the drawing colour, and every other pixel is the backup's.
pub proof fn lemma_rectangle_drag_from_backup(o: EditAreaDatas, f: EditAreaDatas, ev: EditEvent, button1: bool,
    button3: bool, control: bool, tmx: i32, tmy: i32)
    requires
        rectangle_moved(o, f, ev, button1, button3, control, tmx, tmy),
        ev.edit_changed != 0,
    ensures
        ({
            let r = f.select_rect;
            let c = if button1 { o.foreground_color } else { o.background_color };
            &&& button1 || button3
            &&& f.sprite.w() == o.sprite.w() && f.sprite.h() == o.sprite.h()
            &&& f.sprite_bak == o.sprite_bak
            &&& forall|i: int, j: int| #[trigger] f.sprite.in_bounds(i, j) ==> f.sprite.px(i, j) == if (if control {
                in_box(r.left as int, r.top as int, r.right as int, r.bottom as int, i, j)
            } else {
                on_box_edge(r.left as int, r.top as int, r.right as int, r.bottom as int, i, j)
            }) { c } else { o.sprite_bak.px(i, j) }
        }),
{
}

proof fn lemma_shift_by_cells(sav: int, k: int, c: int, n: int)
    requires
        c > 0,
        0 <= sav * c + k < n * c,
    ensures
        trunc_div(sav * c + k, c) == sav + k / c,
        0 <= sav + k / c < n,
{
    vstd::arithmetic::div_mod::lemma_hoist_over_denominator(k, sav, c as nat);
    let v = sav * c + k;
    assert(0 <= v / c < n) by (nonlinear_arith)
        requires
            c > 0,
            0 <= v < n * c,
    ;
}

/// Moving a placed shape shifts it by whole cells: when its shifted edges
/// stay in the grid, the top and bottom edges both move by the vertical
/// displacement of the pointer (less 4) in whole cells, rounded down, and
/// likewise the left and right edges across, so the shape keeps its size
/// and stays in the grid. When the shifted edges would leave the grid on
/// one axis, the shape does not move on that axis. (The saved edges are
/// those of a placed shape, which are ordered.)
pub proof fn lemma_shape_move_shifts_whole_cells(s: EditAreaDatas, tmx: i32, tmy: i32)
    requires
        s.cell_size > 0,
        s.select_rect.sav_left <= s.select_rect.sav_right,
        s.select_rect.sav_top <= s.select_rect.sav_bottom,
    ensures
        ({
            let r = s.select_rect;
            let c = s.cell_size as int;
            let kx = tmx - r.mouse_start_x - 4;
            let ky = tmy - r.mouse_start_y - 4;
            let m = float_moved(&s, tmx, tmy);
            let in_x = 0 <= r.sav_left * c + kx && r.sav_right * c + kx < s.nb_pixs_columns * c;
            let in_y = 0 <= r.sav_top * c + ky && r.sav_bottom * c + ky < s.nb_pixs_rows * c;
            &&& m == (SelectRect { left: m.left, top: m.top, right: m.right, bottom: m.bottom, ..r })
            &&& (kx != 0 || ky != 0) && in_y ==> {
                &&& m.top == r.sav_top + ky / c
                &&& m.bottom == r.sav_bottom + ky / c
                &&& 0 <= m.top && m.bottom < s.nb_pixs_rows
            }
            &&& (kx != 0 || ky != 0) && in_x ==> {
                &&& m.left == r.sav_left + kx / c
                &&& m.right == r.sav_right + kx / c
                &&& 0 <= m.left && m.right < s.nb_pixs_columns
            }
            &&& !in_y ==> m.top == r.top && m.bottom == r.bottom
            &&& !in_x ==> m.left == r.left && m.right == r.right
        }),
{
    let r = s.select_rect;
    let c = s.cell_size as int;
    let kx = tmx - r.mouse_start_x - 4;
    let ky = tmy - r.mouse_start_y - 4;
    assert(r.sav_top * c <= r.sav_bottom * c && r.sav_left * c <= r.sav_right * c) by (nonlinear_arith)
        requires
            c > 0,
            r.sav_top <= r.sav_bottom,
            r.sav_left <= r.sav_right,
    ;
    if 0 <= r.sav_top * c + ky && r.sav_bottom * c + ky < s.nb_pixs_rows * c {
        lemma_shift_by_cells(r.sav_top as int, ky, c, s.nb_pixs_rows as int);
        lemma_shift_by_cells(r.sav_bottom as int, ky, c, s.nb_pixs_rows as int);
    }
    if 0 <= r.sav_left * c + kx && r.sav_right * c + kx < s.nb_pixs_columns * c {
        lemma_shift_by_cells(r.sav_left as int, kx, c, s.nb_pixs_columns as int);
        lemma_shift_by_cells(r.sav_right as int, kx, c, s.nb_pixs_columns as int);
    }
}

} // verus!
