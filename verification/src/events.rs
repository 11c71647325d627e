//! Pointer events on the editing area, handed to the tool in use.
//!
//! Positions arrive in widget coordinates, as whole numbers; the tools see
//! them relative to the grid origin. The middle button drags the grid itself.

use vstd::prelude::*;
use crate::edit_area::{EditAreaDatas, EditMode};
use crate::tools::{EditEvent, no_event, nothing, pointer_ok, geometry_ok, pencil_pressed, pencil_released, pencil_moved, fill_pressed};
use crate::shape_tools::{shape_motion_ok, ellipse_motion_ok, rectangle_pressed, rectangle_released, rectangle_moved, ellipse_pressed,
    ellipse_released, ellipse_moved};
use crate::select_tool::{select_motion_ok, select_pressed_spec, select_released, select_moved_spec};

verus! {

/// The position `(x, y)` relative to the grid origin lies within `i32`.
pub open spec fn relative_ok(s: &EditAreaDatas, x: i32, y: i32) -> bool {
    &&& i32::MIN <= x - s.origin_x <= i32::MAX
    &&& i32::MIN <= y - s.origin_y <= i32::MAX
}

/// A press of `button` at `(x, y)` can be handled: the grid's cells have a
/// size, and the selection's cell edges can be computed where a placed
/// selection is hit-tested.
pub open spec fn press_ok(s: &EditAreaDatas, button: u32, x: i32, y: i32) -> bool {
    button != 2 ==> {
        &&& relative_ok(s, x, y)
        &&& pointer_ok(s, (x - s.origin_x) as i32, (y - s.origin_y) as i32)
        &&& (s.mode == EditMode::RECTANGLE || s.mode == EditMode::ELLIPSE || s.mode == EditMode::SELECT)
            && (s.select_rect.mode == 1 || (s.mode == EditMode::SELECT && s.select_rect.mode == 2)) ==> geometry_ok(s)
    }
}

/// A release at `(x, y)` can be handled.
pub open spec fn release_ok(s: &EditAreaDatas, x: i32, y: i32) -> bool {
    (s.mode == EditMode::SELECT || s.mode == EditMode::PENCIL) ==> {
        &&& relative_ok(s, x, y)
        &&& pointer_ok(s, (x - s.origin_x) as i32, (y - s.origin_y) as i32)
    }
}

/// A motion to `(x, y)` with these buttons held can be handled: see the
/// tools' own conditions; a drag of the grid keeps its origin within `i32`.
pub open spec fn motion_ok(s: &EditAreaDatas, button1: bool, button2: bool, button3: bool, control: bool, x: i32, y: i32) -> bool {
    let tmx = (x - s.origin_x) as i32;
    let tmy = (y - s.origin_y) as i32;
    if button2 {
        &&& i32::MIN <= x - s.start_x <= i32::MAX
        &&& i32::MIN <= y - s.start_y <= i32::MAX
        &&& i32::MIN <= s.start_origin_x + (x - s.start_x) <= i32::MAX
        &&& i32::MIN <= s.start_origin_y + (y - s.start_y) <= i32::MAX
    } else {
        s.mode != EditMode::FILL ==> {
            &&& relative_ok(s, x, y)
            &&& pointer_ok(s, tmx, tmy)
            &&& s.mode == EditMode::SELECT ==> select_motion_ok(s, control, tmx, tmy)
            &&& (s.mode == EditMode::RECTANGLE || s.mode == EditMode::ELLIPSE) ==> shape_motion_ok(s, button1, button3, tmx, tmy)
            &&& s.mode == EditMode::ELLIPSE ==> ellipse_motion_ok(s, button1, button3, tmx, tmy)
        }
    }
}

fn product_fits(v: i32, c: i32) -> (b: bool)
    ensures
        b == (i32::MIN <= v * c <= i32::MAX),
{
    assert(-0x4000_0000_0000_0000 <= v * c <= 0x4000_0000_0000_0000) by (nonlinear_arith)
        requires
            i32::MIN <= v <= i32::MAX,
            i32::MIN <= c <= i32::MAX,
    ;
    let p = v as i64 * c as i64;
    i32::MIN as i64 <= p && p <= i32::MAX as i64
}

impl EditAreaDatas {
    /// A button pressed at `(x, y)`. The middle button starts dragging the
    /// grid; another button goes to the tool in use, with the position made
    /// relative to the grid origin.
    pub fn button_press_event(&mut self, button: u32, control: bool, shift: bool, x: i32, y: i32) -> (ev: EditEvent)
        requires
            old(self).wf(),
            press_ok(&*old(self), button, x, y),
        ensures
            final(self).wf(),
            ({
                let o = *old(self);
                let f = *final(self);
                let tmx = (x - o.origin_x) as i32;
                let tmy = (y - o.origin_y) as i32;
                if button == 2 {
                    &&& f == (EditAreaDatas { start_x: x, start_y: y, start_origin_x: o.origin_x, start_origin_y: o.origin_y, ..o })
                    &&& ev == no_event()
                } else {
                    match o.mode {
                        EditMode::SELECT => select_pressed_spec(o, f, ev, tmx, tmy),
                        EditMode::PENCIL => pencil_pressed(o, f, ev, button, control, shift, tmx, tmy),
                        EditMode::RECTANGLE => rectangle_pressed(o, f, ev, tmx, tmy),
                        EditMode::ELLIPSE => ellipse_pressed(o, f, ev, tmx, tmy),
                        EditMode::FILL => fill_pressed(o, f, ev, button, tmx, tmy),
                    }
                }
            }),
    {
        if button == 2 {
            self.start_x = x;
            self.start_y = y;
            self.start_origin_x = self.origin_x;
            self.start_origin_y = self.origin_y;
            return nothing();
        }
        let tmx = x - self.origin_x;
        let tmy = y - self.origin_y;
        match self.mode {
            EditMode::SELECT => self.button_press_event_select_mode(tmx, tmy),
            EditMode::PENCIL => self.button_press_event_pencil_mode(button, control, shift, tmx, tmy),
            EditMode::RECTANGLE => self.button_press_event_rectangle_mode(tmx, tmy),
            EditMode::ELLIPSE => self.button_press_event_ellipse_mode(tmx, tmy),
            EditMode::FILL => self.button_press_event_fill_mode(button, tmx, tmy),
        }
    }

    /// A button released at `(x, y)`, handed to the tool in use.
    pub fn button_release_event(&mut self, x: i32, y: i32) -> (ev: EditEvent)
        requires
            old(self).wf(),
            release_ok(&*old(self), x, y),
        ensures
            final(self).wf(),
            ({
                let o = *old(self);
                let f = *final(self);
                let tmx = (x - o.origin_x) as i32;
                let tmy = (y - o.origin_y) as i32;
                match o.mode {
                    EditMode::SELECT => select_released(o, f, ev, tmx, tmy),
                    EditMode::PENCIL => pencil_released(o, f, ev, tmx, tmy),
                    EditMode::RECTANGLE => rectangle_released(o, f, ev),
                    EditMode::ELLIPSE => ellipse_released(o, f, ev),
                    EditMode::FILL => f == o && ev == no_event(),
                }
            }),
    {
        match self.mode {
            EditMode::SELECT => {
                let tmx = x - self.origin_x;
                let tmy = y - self.origin_y;
                self.button_release_event_select_mode(tmx, tmy)
            },
            EditMode::PENCIL => {
                let tmx = x - self.origin_x;
                let tmy = y - self.origin_y;
                self.button_release_event_pencil_mode(tmx, tmy)
            },
            EditMode::RECTANGLE => self.button_release_event_rectangle_mode(),
            EditMode::ELLIPSE => self.button_release_event_ellipse_mode(),
            EditMode::FILL => nothing(),
        }
    }

    /// The pointer moved to `(x, y)` with these buttons held. With the
    /// middle button the grid follows the pointer from where the drag
    /// started; otherwise the motion goes to the tool in use.
    pub fn motion_notify_event(&mut self, button1: bool, button2: bool, button3: bool, control: bool, x: i32, y: i32) -> (ev: EditEvent)
        requires
            old(self).wf(),
            motion_ok(&*old(self), button1, button2, button3, control, x, y),
        ensures
            final(self).wf(),
            ({
                let o = *old(self);
                let f = *final(self);
                let tmx = (x - o.origin_x) as i32;
                let tmy = (y - o.origin_y) as i32;
                if button2 {
                    &&& f == (EditAreaDatas {
                        origin_x: (o.start_origin_x + (x - o.start_x)) as i32,
                        origin_y: (o.start_origin_y + (y - o.start_y)) as i32,
                        ..o
                    })
                    &&& ev == (EditEvent { queue_draw: true, ..no_event() })
                } else {
                    match o.mode {
                        EditMode::SELECT => select_moved_spec(o, f, ev, control, tmx, tmy),
                        EditMode::PENCIL => pencil_moved(o, f, ev, button1, button3, control, tmx, tmy),
                        EditMode::RECTANGLE => rectangle_moved(o, f, ev, button1, button3, control, tmx, tmy),
                        EditMode::ELLIPSE => ellipse_moved(o, f, ev, button1, button3, control, tmx, tmy),
                        EditMode::FILL => f == o && ev == no_event(),
                    }
                }
            }),
    {
        if button2 {
            let dx = x - self.start_x;
            let dy = y - self.start_y;
            self.origin_x = self.start_origin_x + dx;
            self.origin_y = self.start_origin_y + dy;
            return EditEvent { queue_draw: true, ..nothing() };
        }
        if self.mode == EditMode::FILL {
            return nothing();
        }
        let tmx = x - self.origin_x;
        let tmy = y - self.origin_y;
        match self.mode {
            EditMode::SELECT => self.motion_notify_event_select_mode(control, tmx, tmy),
            EditMode::PENCIL => self.motion_notify_event_pencil_mode(button1, button3, control, tmx, tmy),
            EditMode::RECTANGLE => self.motion_notify_event_rectangle_mode(button1, button3, control, tmx, tmy),
            EditMode::ELLIPSE => self.motion_notify_event_ellipse_mode(button1, button3, control, tmx, tmy),
            EditMode::FILL => nothing(),
        }
    }

    fn geometry_fits(&self) -> (ok: bool)
        ensures
            ok == geometry_ok(self),
    {
        let c = self.cell_size;
        let r = self.select_rect;
        c > 0 && product_fits(r.left, c) && product_fits(r.right, c) && product_fits(r.top, c) && product_fits(r.bottom, c)
    }

    fn pointer_fits(&self, x: i32, y: i32) -> (ok: bool)
        ensures
            ok == (relative_ok(self, x, y) && pointer_ok(self, (x - self.origin_x) as i32, (y - self.origin_y) as i32)),
    {
        let tx = x as i64 - self.origin_x as i64;
        let ty = y as i64 - self.origin_y as i64;
        i32::MIN as i64 <= tx && tx <= i32::MAX as i64 && i32::MIN as i64 <= ty && ty <= i32::MAX as i64
            && self.cell_size > 0 && tx - 4 >= i32::MIN as i64 && ty - 4 >= i32::MIN as i64
    }

    /// Whether a press of `button` at `(x, y)` can be handled: see `press_ok`.
    pub fn press_fits(&self, button: u32, x: i32, y: i32) -> (ok: bool)
        ensures
            ok == press_ok(self, button, x, y),
    {
        if button == 2 {
            return true;
        }
        if !self.pointer_fits(x, y) {
            return false;
        }
        let shaped = self.mode == EditMode::RECTANGLE || self.mode == EditMode::ELLIPSE || self.mode == EditMode::SELECT;
        let placed = self.select_rect.mode == 1 || (self.mode == EditMode::SELECT && self.select_rect.mode == 2);
        !(shaped && placed) || self.geometry_fits()
    }

    /// Whether a release at `(x, y)` can be handled: see `release_ok`.
    pub fn release_fits(&self, x: i32, y: i32) -> (ok: bool)
        ensures
            ok == release_ok(self, x, y),
    {
        !(self.mode == EditMode::SELECT || self.mode == EditMode::PENCIL) || self.pointer_fits(x, y)
    }

    /// Whether a motion to `(x, y)` with these buttons held can be handled:
    /// see `motion_ok`.
    pub fn motion_fits(&self, button1: bool, button2: bool, button3: bool, control: bool, x: i32, y: i32) -> (ok: bool)
        requires
            self.wf(),
        ensures
            ok == motion_ok(self, button1, button2, button3, control, x, y),
    {
        if button2 {
            let dx = x as i64 - self.start_x as i64;
            let dy = y as i64 - self.start_y as i64;
            let ox = self.start_origin_x as i64 + dx;
            let oy = self.start_origin_y as i64 + dy;
            return i32::MIN as i64 <= dx && dx <= i32::MAX as i64 && i32::MIN as i64 <= dy && dy <= i32::MAX as i64
                && i32::MIN as i64 <= ox && ox <= i32::MAX as i64 && i32::MIN as i64 <= oy && oy <= i32::MAX as i64;
        }
        if self.mode == EditMode::FILL {
            return true;
        }
        if !self.pointer_fits(x, y) {
            return false;
        }
        let tmx = x - self.origin_x;
        let tmy = y - self.origin_y;
        match self.mode {
            EditMode::SELECT => self.select_motion_fits(control, tmx, tmy),
            EditMode::PENCIL => true,
            EditMode::RECTANGLE => self.shape_motion_fits(button1, button3, tmx, tmy),
            EditMode::ELLIPSE => self.shape_motion_fits(button1, button3, tmx, tmy)
                && self.ellipse_motion_fits(button1, button3, tmx, tmy),
            EditMode::FILL => true,
        }
    }
}

} // verus!
