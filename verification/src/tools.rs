//! The drawing tools' answers to pointer events on the editing area.
//!
//! Pointer positions reach these functions as whole numbers, already made
//! relative to the grid origin.

use vstd::prelude::*;
use crate::edit_area::{EditAreaDatas, UndoMode, trunc_div, same_tool_state, same_settings, block_from};
use crate::draw::on_line;
use crate::fill::{in_region, is_path};
use crate::select_rect::SelectRect;

verus! {

/// What the widget has to do once an event has been handled.
#[derive(PartialEq, Eq, Structural, Copy, Clone)]
pub struct EditEvent {
    /// Redraw the editing area.
    pub queue_draw: bool,
    /// How many times to emit "edit-changed".
    pub edit_changed: u32,
    /// Emit "pick-foreground-color" with this colour.
    pub pick_foreground: Option<u32>,
    /// Emit "pick-background-color" with this colour.
    pub pick_background: Option<u32>,
    /// Emit "left-clicked" with the pointer position.
    pub left_clicked: bool,
}

/// Nothing to do.
pub open spec fn no_event() -> EditEvent {
    EditEvent { queue_draw: false, edit_changed: 0, pick_foreground: None, pick_background: None, left_clicked: false }
}

pub(crate) fn nothing() -> (e: EditEvent)
    ensures
        e == no_event(),
{
    EditEvent { queue_draw: false, edit_changed: 0, pick_foreground: None, pick_background: None, left_clicked: false }
}

/// Whether the pointer position `m` lies in the span `a..=b`.
pub open spec fn span_hit(m: int, a: int, b: int) -> bool {
    a <= m <= b
}

/// The cells have a positive size and the positions of the selection's cell
/// edges, relative to the grid origin, can be computed in `i32`.
pub open spec fn geometry_ok(s: &EditAreaDatas) -> bool {
    let c = s.cell_size as int;
    &&& 0 < c
    &&& i32::MIN <= s.select_rect.left * c <= i32::MAX
    &&& i32::MIN <= s.select_rect.right * c <= i32::MAX
    &&& i32::MIN <= s.select_rect.top * c <= i32::MAX
    &&& i32::MIN <= s.select_rect.bottom * c <= i32::MAX
}

impl EditAreaDatas {
    /// Whether the pointer lies in the cells of the selection, edges
    /// included. The pointer is at `(mx, my)`, relative to the grid origin.
    pub fn in_select_rect(&self, mx: i32, my: i32) -> (inside: bool)
        requires
            geometry_ok(self),
        ensures
            inside == in_select_spec(self, mx as int, my as int),
    {
        let (px1, py1) = self.select_rect.get_corner(0);
        let (x1, y1) = self.pixel_to_mouse(px1, py1);
        let (px2, py2) = self.select_rect.get_corner(2);
        let (x2, y2) = self.pixel_to_mouse(px2, py2);
        let (_x1, mut _x2) = if x2 > x1 { (x1, x2) } else { (x2, x1) };
        let (_y1, mut _y2) = if y2 > y1 { (y1, y2) } else { (y2, y1) };
        _y2 += self.cell_size as i64;
        _x2 += self.cell_size as i64;
        (mx as i64 >= _x1) && (mx as i64 <= _x2) && (my as i64 >= _y1) && (my as i64 <= _y2)
    }

    /// The first corner (0 to 3) of the selection whose cell holds the
    /// pointer, edges included, or -1. The pointer is at `(mx, my)`,
    /// relative to the grid origin.
    pub fn hit_handle(&self, mx: i32, my: i32) -> (id: i32)
        requires
            geometry_ok(self),
        ensures
            id == first_handle(self, mx as int, my as int),
    {
        let mut id: i32 = -1;
        let mut i: i32 = 0;
        while i < 4
            invariant_except_break
                id == -1,
                forall|k: i32| 0 <= k < i ==> !handle_hit(self, k, mx as int, my as int),
            invariant
                geometry_ok(self),
                0 <= i <= 4,
            ensures
                (id == -1 && forall|k: i32| 0 <= k < 4 ==> !handle_hit(self, k, mx as int, my as int))
                || (0 <= id < 4 && handle_hit(self, id, mx as int, my as int)
                    && forall|k: i32| 0 <= k < id ==> !handle_hit(self, k, mx as int, my as int)),
            decreases 4 - i,
        {
            let (px, py) = self.select_rect.get_corner(i);
            let (x, y) = self.pixel_to_mouse(px, py);
            if (mx as i64 >= x) && mx as i64 <= (x + self.cell_size as i64) && (my as i64 >= y) && my as i64 <= (y + self.cell_size as i64) {
                id = i;
                break;
            }
            i = i + 1;
        }
        id
    }
}

/// Whether the pointer lies in the cell of corner `k` of the selection, edges included.
pub open spec fn handle_hit(s: &EditAreaDatas, k: i32, mx: int, my: int) -> bool {
    let (px, py) = s.select_rect.corner(k);
    let c = s.cell_size as int;
    span_hit(mx, px * c + 4, px * c + 4 + c) && span_hit(my, py * c + 4, py * c + 4 + c)
}

/// The first corner (0 to 3) of the selection whose cell holds the pointer,
/// edges included, or -1.
pub open spec fn first_handle(s: &EditAreaDatas, mx: int, my: int) -> i32 {
    if handle_hit(s, 0, mx, my) {
        0i32
    } else if handle_hit(s, 1, mx, my) {
        1i32
    } else if handle_hit(s, 2, mx, my) {
        2i32
    } else if handle_hit(s, 3, mx, my) {
        3i32
    } else {
        -1i32
    }
}

/// Whether the pointer lies in the cells of the selection, edges included,
/// as `in_select_rect` says.
pub open spec fn in_select_spec(s: &EditAreaDatas, mx: int, my: int) -> bool {
    let c = s.cell_size as int;
    let x1 = s.select_rect.left * c + 4;
    let x2 = s.select_rect.right * c + 4;
    let y1 = s.select_rect.top * c + 4;
    let y2 = s.select_rect.bottom * c + 4;
    span_hit(mx, if x2 > x1 { x1 } else { x2 }, (if x2 > x1 { x2 } else { x1 }) + c)
        && span_hit(my, if y2 > y1 { y1 } else { y2 }, (if y2 > y1 { y2 } else { y1 }) + c)
}

/// The cell under a pointer position (relative to the grid origin, truncated).
pub open spec fn cell_of(s: &EditAreaDatas, m: int) -> int {
    trunc_div(m - 4, s.cell_size as int)
}

/// Every position in the cell `x` (whose left edge `pixel_to_mouse` gives)
/// lies on that cell, as `mouse_to_pixel` finds it.
pub proof fn lemma_cell_round_trip(c: int, x: int, d: int)
    requires
        0 < c,
        0 <= x,
        0 <= d < c,
    ensures
        trunc_div((x * c + 4 + d) - 4, c) == x,
{
    assert((x * c + d) / c == x) by (nonlinear_arith)
        requires
            0 < c,
            0 <= x,
            0 <= d < c,
    ;
}

/// The colour a button draws with: the background colour for button 3, the
/// foreground colour otherwise.
pub open spec fn button_color(s: &EditAreaDatas, button: u32) -> u32 {
    if button == 3 { s.background_color } else { s.foreground_color }
}

/// The pointer position can be turned into a cell.
pub open spec fn pointer_ok(s: &EditAreaDatas, tmx: i32, tmy: i32) -> bool {
    &&& s.cell_size > 0
    &&& tmx - 4 >= i32::MIN
    &&& tmy - 4 >= i32::MIN
}

/// Every field of `b` is that of `a`, but the sprite, its backup, the colours and the undo mode.
pub open spec fn same_but_pixels_colors_undo(a: &EditAreaDatas, b: &EditAreaDatas) -> bool {
    same_settings(a, &EditAreaDatas { foreground_color: a.foreground_color, background_color: a.background_color, ..*b })
    && b.sprite_copy == a.sprite_copy
}

/// What a press of the pencil tool does: see `button_press_event_pencil_mode`.
pub open spec fn pencil_pressed(o: EditAreaDatas, f: EditAreaDatas, ev: EditEvent, button: u32, control: bool, shift: bool, tmx: i32, tmy: i32) -> bool {
    &&& f.wf()
    &&& f.undo_mode == UndoMode::PENCIL
    &&& same_but_pixels_colors_undo(&o, &f)
    &&& ({
        let px = cell_of(&o, tmx as int);
        let py = cell_of(&o, tmy as int);
        let color = button_color(&o, button);
        let has_last = o.last_pixel_x >= 0 || o.last_pixel_y >= 0;
        if control {
            &&& block_from(o.sprite, o.sprite_bak, f.sprite_bak, o.sprite.w(), o.sprite.h())
            &&& f.sprite.w() == o.sprite.w() && f.sprite.h() == o.sprite.h()
            &&& forall|i: int, j: int| #[trigger] f.sprite.in_bounds(i, j) ==> f.sprite.px(i, j) ==
                if has_last && o.sprite.in_bounds(o.last_pixel_x as int, o.last_pixel_y as int) && o.sprite.in_bounds(px, py)
                    && on_line(o.last_pixel_x as int, o.last_pixel_y as int, px, py, i, j) {
                    color
                } else {
                    o.sprite.px(i, j)
                }
            &&& f.foreground_color == o.foreground_color && f.background_color == o.background_color
            &&& ev == (EditEvent { queue_draw: has_last, edit_changed: if has_last { 1 } else { 0 }, ..no_event() })
        } else if shift {
            let pick = if o.sprite.in_bounds(px, py) { o.sprite.px(px, py) } else { 0 };
            &&& f.sprite == o.sprite
            &&& f.sprite_bak == o.sprite_bak
            &&& if button == 1 {
                &&& f.foreground_color == pick && f.background_color == o.background_color
                &&& ev == (EditEvent { pick_foreground: Some(pick), ..no_event() })
            } else {
                &&& f.background_color == pick && f.foreground_color == o.foreground_color
                &&& ev == (EditEvent { pick_background: Some(pick), ..no_event() })
            }
        } else {
            &&& f.foreground_color == o.foreground_color && f.background_color == o.background_color
            &&& if o.in_edit_area_spec(px, py) {
                &&& block_from(o.sprite, o.sprite_bak, f.sprite_bak, o.sprite.w(), o.sprite.h())
                &&& f.sprite.w() == o.sprite.w() && f.sprite.h() == o.sprite.h()
                &&& forall|i: int, j: int| #[trigger] f.sprite.in_bounds(i, j) ==> f.sprite.px(i, j) ==
                    if i == px && j == py { color } else { o.sprite.px(i, j) }
                &&& ev == (EditEvent { queue_draw: true, edit_changed: 1, ..no_event() })
            } else {
                &&& f.sprite == o.sprite
                &&& f.sprite_bak == o.sprite_bak
                &&& ev == (EditEvent { edit_changed: 1, ..no_event() })
            }
        }
    })
}

/// What a release of the pencil tool does.
pub open spec fn pencil_released(o: EditAreaDatas, f: EditAreaDatas, ev: EditEvent, tmx: i32, tmy: i32) -> bool {
    &&& f == (EditAreaDatas {
        last_pixel_x: cell_of(&o, tmx as int) as i32,
        last_pixel_y: cell_of(&o, tmy as int) as i32,
        ..o
    })
    &&& ev == (EditEvent { edit_changed: 1, ..no_event() })
}

/// What a motion of the pencil tool does: see `motion_notify_event_pencil_mode`.
pub open spec fn pencil_moved(o: EditAreaDatas, f: EditAreaDatas, ev: EditEvent, button1: bool, button3: bool, control: bool, tmx: i32, tmy: i32) -> bool {
    &&& f.wf()
    &&& same_tool_state(&o, &f)
    &&& f.sprite_bak == o.sprite_bak
    &&& f.sprite_copy == o.sprite_copy
    &&& ({
        let px = cell_of(&o, tmx as int);
        let py = cell_of(&o, tmy as int);
        let color: u32 = if button1 { o.foreground_color } else if button3 { o.background_color } else { 1024 };
        let has_last = o.last_pixel_x >= 0 || o.last_pixel_y >= 0;
        if color == 1024 || !o.in_edit_area_spec(px, py) {
            &&& f.sprite == o.sprite
            &&& ev == no_event()
        } else if control {
            &&& f.sprite.w() == o.sprite.w() && f.sprite.h() == o.sprite.h()
            &&& forall|i: int, j: int| #[trigger] f.sprite.in_bounds(i, j) ==> f.sprite.px(i, j) ==
                if has_last && o.sprite.in_bounds(o.last_pixel_x as int, o.last_pixel_y as int)
                    && on_line(o.last_pixel_x as int, o.last_pixel_y as int, px, py, i, j) {
                    color
                } else {
                    o.sprite_bak.px(i, j)
                }
            &&& ev == (if has_last { EditEvent { queue_draw: true, edit_changed: 1, ..no_event() } } else { no_event() })
        } else {
            &&& f.sprite.w() == o.sprite.w() && f.sprite.h() == o.sprite.h()
            &&& forall|i: int, j: int| #[trigger] f.sprite.in_bounds(i, j) ==> f.sprite.px(i, j) ==
                if i == px && j == py { color } else { o.sprite.px(i, j) }
            &&& ev == (EditEvent { queue_draw: true, edit_changed: 1, ..no_event() })
        }
    })
}

/// What a press of the fill tool does: see `button_press_event_fill_mode`.
pub open spec fn fill_pressed(o: EditAreaDatas, f: EditAreaDatas, ev: EditEvent, button: u32, tmx: i32, tmy: i32) -> bool {
    &&& ({
        let px = cell_of(&o, tmx as int);
        let py = cell_of(&o, tmy as int);
        let color = button_color(&o, button);
        if !o.in_edit_area_spec(px, py) {
            f == o && ev == no_event()
        } else {
            let t = o.sprite.px(px, py);
            &&& f.wf()
            &&& block_from(o.sprite, o.sprite_bak, f.sprite_bak, o.sprite.w(), o.sprite.h())
            &&& f.sprite_copy == o.sprite_copy
            &&& f.undo_mode == UndoMode::FILL
            &&& same_settings(&o, &f)
            &&& f.sprite.w() == o.sprite.w() && f.sprite.h() == o.sprite.h()
            &&& forall|i: int, j: int| #[trigger] f.sprite.in_bounds(i, j) ==> f.sprite.px(i, j) ==
                if t != color && in_region(o.sprite, t, (px, py), (i, j)) { color } else { o.sprite.px(i, j) }
            &&& ev == (EditEvent { queue_draw: true, edit_changed: 1, ..no_event() })
        }
    })
}

impl EditAreaDatas {
    /// Pencil tool, button pressed at `(tmx, tmy)`. With Control: backs the
    /// sprite up and draws a line from the last released cell to the cell
    /// under the pointer. With Shift: picks the colour under the pointer as
    /// the foreground (button 1) or background colour. Otherwise: backs the
    /// sprite up and paints the cell under the pointer.
    pub fn button_press_event_pencil_mode(&mut self, button: u32, control: bool, shift: bool, tmx: i32, tmy: i32) -> (ev: EditEvent)
        requires
            old(self).wf(),
            pointer_ok(&*old(self), tmx, tmy),
        ensures
            pencil_pressed(*old(self), *final(self), ev, button, control, shift, tmx, tmy),
    {
        let draw_color = if button == 1 {
            self.foreground_color
        } else if button == 3 {
            self.background_color
        } else {
            self.foreground_color
        };
        self.undo_mode = UndoMode::PENCIL;
        let mut ev = nothing();
        if control {
            self.backup_sprite();
            let (px, py) = self.mouse_to_pixel(tmx, tmy);
            if self.last_pixel_x >= 0 || self.last_pixel_y >= 0 {
                let (lx, ly) = (self.last_pixel_x, self.last_pixel_y);
                self.draw_line(lx, ly, px, py, draw_color);
                ev.queue_draw = true;
                ev.edit_changed = 1;
            }
        } else if shift {
            let (px, py) = self.mouse_to_pixel(tmx, tmy);
            let (pick_color, _f_ok) = self.get_pixel_color(px, py);
            if button == 1 {
                self.foreground_color = pick_color;
                ev.pick_foreground = Some(pick_color);
            } else {
                self.background_color = pick_color;
                ev.pick_background = Some(pick_color);
            }
        } else {
            let (px, py) = self.mouse_to_pixel(tmx, tmy);
            if self.in_edit_area(px, py) {
                self.backup_sprite();
                let (r, g, b, a) = crate::rgb_utils::get_rgba(draw_color);
                proof {
                    crate::rgb_utils::lemma_pack_unpack(draw_color);
                }
                self.sprite.put_pixel(px as u32, py as u32, r, g, b, a);
                ev.queue_draw = true;
            }
            ev.edit_changed = 1;
        }
        ev
    }

    /// Pencil tool, button released at `(tmx, tmy)`: the cell under the
    /// pointer becomes the last cell, where a Control line starts.
    pub fn button_release_event_pencil_mode(&mut self, tmx: i32, tmy: i32) -> (ev: EditEvent)
        requires
            pointer_ok(&*old(self), tmx, tmy),
        ensures
            pencil_released(*old(self), *final(self), ev, tmx, tmy),
    {
        let (px, py) = self.mouse_to_pixel(tmx, tmy);
        self.last_pixel_x = px;
        self.last_pixel_y = py;
        EditEvent { edit_changed: 1, ..nothing() }
    }

    /// Pencil tool, pointer moved to `(tmx, tmy)` with button 1 (foreground)
    /// or button 3 (background) held. With Control: puts the backup back and
    /// draws a line from the last released cell to the cell under the
    /// pointer. Otherwise: paints the cell under the pointer. A drawing
    /// colour equal to 1024 draws nothing.
    pub fn motion_notify_event_pencil_mode(&mut self, button1: bool, button3: bool, control: bool, tmx: i32, tmy: i32) -> (ev: EditEvent)
        requires
            old(self).wf(),
            pointer_ok(&*old(self), tmx, tmy),
        ensures
            pencil_moved(*old(self), *final(self), ev, button1, button3, control, tmx, tmy),
    {
        let draw_color: u32 = if button1 {
            self.foreground_color
        } else if button3 {
            self.background_color
        } else {
            1024
        };
        let mut ev = nothing();
        if draw_color != 1024 {
            if control {
                let (px, py) = self.mouse_to_pixel(tmx, tmy);
                if self.in_edit_area(px, py) {
                    self.restore_sprite();
                    let ghost restored = self.sprite;
                    if self.last_pixel_x >= 0 || self.last_pixel_y >= 0 {
                        let (lx, ly) = (self.last_pixel_x, self.last_pixel_y);
                        self.draw_line(lx, ly, px, py, draw_color);
                        ev.queue_draw = true;
                        ev.edit_changed = 1;
                        proof {
                            assert forall|i: int, j: int| #[trigger] self.sprite.in_bounds(i, j) implies self.sprite.px(i, j) ==
                                if old(self).sprite.in_bounds(old(self).last_pixel_x as int, old(self).last_pixel_y as int)
                                    && on_line(old(self).last_pixel_x as int, old(self).last_pixel_y as int, px as int, py as int, i, j) {
                                    draw_color
                                } else {
                                    old(self).sprite_bak.px(i, j)
                                } by {
                                assert(restored.in_bounds(i, j));
                            }
                        }
                    }
                }
            } else {
                let (px, py) = self.mouse_to_pixel(tmx, tmy);
                if self.in_edit_area(px, py) {
                    let (r, g, b, a) = crate::rgb_utils::get_rgba(draw_color);
                    proof {
                        crate::rgb_utils::lemma_pack_unpack(draw_color);
                    }
                    self.sprite.put_pixel(px as u32, py as u32, r, g, b, a);
                    ev.queue_draw = true;
                    ev.edit_changed = 1;
                }
            }
        }
        ev
    }

    /// Fill tool, button pressed at `(tmx, tmy)`: on a cell of the grid,
    /// backs the sprite up and flood-fills from that cell with the
    /// foreground colour (the background colour for button 3).
    pub fn button_press_event_fill_mode(&mut self, button: u32, tmx: i32, tmy: i32) -> (ev: EditEvent)
        requires
            old(self).wf(),
            pointer_ok(&*old(self), tmx, tmy),
        ensures
            fill_pressed(*old(self), *final(self), ev, button, tmx, tmy),
    {
        let draw_color = if button == 1 {
            self.foreground_color
        } else if button == 3 {
            self.background_color
        } else {
            self.foreground_color
        };
        let (px, py) = self.mouse_to_pixel(tmx, tmy);
        if self.in_edit_area(px, py) {
            self.backup_sprite();
            self.undo_mode = UndoMode::FILL;
            self.flood_fill(px, py, draw_color);
            EditEvent { queue_draw: true, edit_changed: 1, ..nothing() }
        } else {
            nothing()
        }
    }
}


/// A press of the fill tool on a cell of the grid recolours the cell under
/// the pointer, and the whole 4-connected region of its colour, with the
/// background colour for button 3 and the foreground colour for any other
/// button; every other pixel keeps its colour.
pub proof fn lemma_fill_press_colour(o: EditAreaDatas, f: EditAreaDatas, ev: EditEvent, button: u32, tmx: i32, tmy: i32)
    requires
        o.wf(),
        fill_pressed(o, f, ev, button, tmx, tmy),
        o.in_edit_area_spec(cell_of(&o, tmx as int), cell_of(&o, tmy as int)),
    ensures
        ({
            let px = cell_of(&o, tmx as int);
            let py = cell_of(&o, tmy as int);
            let c = if button == 3 { o.background_color } else { o.foreground_color };
            &&& f.sprite.in_bounds(px, py)
            &&& f.sprite.px(px, py) == c
            &&& forall|i: int, j: int| o.sprite.in_bounds(i, j) && #[trigger] in_region(o.sprite, o.sprite.px(px, py), (px, py), (i, j))
                ==> f.sprite.px(i, j) == c
            &&& forall|i: int, j: int| #[trigger] f.sprite.in_bounds(i, j) ==> f.sprite.px(i, j) == c || f.sprite.px(i, j) == o.sprite.px(i, j)
        }),
{
    let px = cell_of(&o, tmx as int);
    let py = cell_of(&o, tmy as int);
    let t = o.sprite.px(px, py);
    let p = seq![(px, py)];
    assert(is_path(o.sprite, t, p));
    assert(in_region(o.sprite, t, (px, py), (px, py)));
    assert(f.sprite.in_bounds(px, py));
    assert forall|i: int, j: int| o.sprite.in_bounds(i, j) && #[trigger] in_region(o.sprite, t, (px, py), (i, j)) implies
        f.sprite.px(i, j) == (if button == 3 { o.background_color } else { o.foreground_color }) by {
        assert(f.sprite.in_bounds(i, j));
        let q = choose|q: Seq<(int, int)>| #[trigger] is_path(o.sprite, t, q) && q[0] == (px, py) && q.last() == (i, j);
        assert(q[q.len() - 1] == (i, j));
        assert(o.sprite.px(q[q.len() - 1].0, q[q.len() - 1].1) == t);
    }
    assert forall|i: int, j: int| #[trigger] f.sprite.in_bounds(i, j) implies f.sprite.px(i, j) == (if button == 3 {
        o.background_color
    } else {
        o.foreground_color
    }) || f.sprite.px(i, j) == o.sprite.px(i, j) by {
        assert(f.sprite.in_bounds(i, j));
    }
}

/// A Control drag of the pencil redraws the line over the backup: the
/// pixels of the line from the last released cell to the cell under the
/// pointer get the drawing colour (foreground for button 1, background for
/// button 3), and every other pixel is the backup's, so no earlier
/// rubber-band line stays.
pub proof fn lemma_pencil_line_drag_from_backup(o: EditAreaDatas, f: EditAreaDatas, ev: EditEvent, button1: bool,
    button3: bool, tmx: i32, tmy: i32)
    requires
        pencil_moved(o, f, ev, button1, button3, true, tmx, tmy),
        ev.edit_changed != 0,
    ensures
        ({
            let px = cell_of(&o, tmx as int);
            let py = cell_of(&o, tmy as int);
            let c = if button1 { o.foreground_color } else { o.background_color };
            &&& button1 || button3
            &&& f.sprite.w() == o.sprite.w() && f.sprite.h() == o.sprite.h()
            &&& f.sprite_bak == o.sprite_bak
            &&& forall|i: int, j: int| #[trigger] f.sprite.in_bounds(i, j) ==> f.sprite.px(i, j) == if on_line(
                o.last_pixel_x as int, o.last_pixel_y as int, px, py, i, j) && o.sprite.in_bounds(o.last_pixel_x as int,
                o.last_pixel_y as int) { c } else { o.sprite_bak.px(i, j) }
        }),
{
}


/// A plain press of the pencil (no Control, no Shift) on a cell of the grid
/// paints that cell with the background colour for button 3 and the
/// foreground colour for any other button, changes no other pixel, and keeps
/// the sprite from before the press in the backup.
pub proof fn lemma_pencil_press_paints_cell(o: EditAreaDatas, f: EditAreaDatas, ev: EditEvent, button: u32, tmx: i32, tmy: i32)
    requires
        o.wf(),
        pencil_pressed(o, f, ev, button, false, false, tmx, tmy),
        o.in_edit_area_spec(cell_of(&o, tmx as int), cell_of(&o, tmy as int)),
    ensures
        ({
            let px = cell_of(&o, tmx as int);
            let py = cell_of(&o, tmy as int);
            let c = if button == 3 { o.background_color } else { o.foreground_color };
            &&& f.sprite.w() == o.sprite.w() && f.sprite.h() == o.sprite.h()
            &&& forall|i: int, j: int| #[trigger] f.sprite.in_bounds(i, j) ==> f.sprite.px(i, j) == if i == px && j == py {
                c
            } else {
                o.sprite.px(i, j)
            }
            &&& forall|i: int, j: int| #[trigger] o.sprite.in_bounds(i, j) ==> f.sprite_bak.px(i, j) == o.sprite.px(i, j)
        }),
{
    assert forall|i: int, j: int| #[trigger] o.sprite.in_bounds(i, j) implies f.sprite_bak.px(i, j) == o.sprite.px(i, j) by {
        assert(f.sprite_bak.in_bounds(i, j));
    }
}

/// A Shift press of the pencil picks the colour under the pointer (0 off the
/// sprite): as the foreground colour for button 1, as the background colour
/// otherwise; the other colour and the sprite stay as they were.
pub proof fn lemma_pencil_shift_picks_colour(o: EditAreaDatas, f: EditAreaDatas, ev: EditEvent, button: u32, tmx: i32, tmy: i32)
    requires
        pencil_pressed(o, f, ev, button, false, true, tmx, tmy),
    ensures
        ({
            let px = cell_of(&o, tmx as int);
            let py = cell_of(&o, tmy as int);
            let pick = if o.sprite.in_bounds(px, py) { o.sprite.px(px, py) } else { 0 };
            &&& f.sprite == o.sprite
            &&& button == 1 ==> f.foreground_color == pick && f.background_color == o.background_color
            &&& button != 1 ==> f.background_color == pick && f.foreground_color == o.foreground_color
        }),
{
}

/// A drag of the pencil without Control paints the cell under the pointer
/// with the foreground colour (button 1) or the background colour (button
/// 3) and changes no other pixel. (A drawing colour of 1024 stands for no
/// button and draws nothing.)
pub proof fn lemma_pencil_drag_paints_cell(o: EditAreaDatas, f: EditAreaDatas, ev: EditEvent, button1: bool, button3: bool,
    tmx: i32, tmy: i32)
    requires
        pencil_moved(o, f, ev, button1, button3, false, tmx, tmy),
        button1 || button3,
        (if button1 { o.foreground_color } else { o.background_color }) != 1024,
        o.in_edit_area_spec(cell_of(&o, tmx as int), cell_of(&o, tmy as int)),
    ensures
        ({
            let px = cell_of(&o, tmx as int);
            let py = cell_of(&o, tmy as int);
            let c = if button1 { o.foreground_color } else { o.background_color };
            &&& f.sprite_bak == o.sprite_bak
            &&& f.sprite.w() == o.sprite.w() && f.sprite.h() == o.sprite.h()
            &&& forall|i: int, j: int| #[trigger] f.sprite.in_bounds(i, j) ==> f.sprite.px(i, j) == if i == px && j == py {
                c
            } else {
                o.sprite.px(i, j)
            }
        }),
{
}

} // verus!
