//! The rectangle that the selection, rectangle and ellipse tools drag on the grid.
//!
//! Corners are numbered clockwise from the top left: 0 is (left, top), 1 is
//! (right, top), 2 is (right, bottom) and 3 is (left, bottom).

use vstd::prelude::*;

verus! {

/// A rectangle of pixel cells with the tool state that goes with it.
///
/// `mode` is 0 while a rectangle is being drawn, 1 once it is placed and may be
/// moved or resized, and 2 while a pasted block is being moved. `sel_corner` is
/// the corner being dragged, or -1. The `sav_*` fields keep the position that a
/// move started from, and `mouse_start_*` the pointer position it started at.
#[derive(PartialEq, Eq, Structural, Copy, Clone)]
pub struct SelectRect {
    pub left: i32,
    pub top: i32,
    pub right: i32,
    pub bottom: i32,
    pub mode: i32,
    pub sel_corner: i32,
    pub sav_left: i32,
    pub sav_top: i32,
    pub sav_right: i32,
    pub sav_bottom: i32,
    pub mouse_start_x: i32,
    pub mouse_start_y: i32,
}

/// Corner `n` of a rectangle given by its edges, or `(0, 0)` for another `n`.
pub open spec fn corner_of(left: i32, top: i32, right: i32, bottom: i32, n: i32) -> (i32, i32) {
    if n == 0 {
        (left, top)
    } else if n == 1 {
        (right, top)
    } else if n == 2 {
        (right, bottom)
    } else if n == 3 {
        (left, bottom)
    } else {
        (0i32, 0i32)
    }
}

impl SelectRect {
    /// Corner `n` of this rectangle, as `get_corner` returns it.
    pub open spec fn corner(self, n: i32) -> (i32, i32) {
        corner_of(self.left, self.top, self.right, self.bottom, n)
    }

    /// The rectangle after corner `n` is moved to `(x, y)`, as `set_corner` leaves it.
    pub open spec fn with_corner(self, n: i32, x: i32, y: i32) -> SelectRect {
        if n == 0 {
            SelectRect { left: x, top: y, ..self }
        } else if n == 1 {
            SelectRect { right: x, top: y, ..self }
        } else if n == 2 {
            SelectRect { right: x, bottom: y, ..self }
        } else if n == 3 {
            SelectRect { left: x, bottom: y, ..self }
        } else {
            self
        }
    }

    /// Whether the rectangle has no width or no height, as `is_empty` says.
    pub open spec fn is_empty_spec(self) -> bool {
        self.right == self.left || self.bottom == self.top
    }

    /// The rectangle with its edges ordered, as `normalize` leaves it.
    pub open spec fn normalized(self) -> SelectRect {
        SelectRect {
            left: if self.left <= self.right { self.left } else { self.right },
            right: if self.left <= self.right { self.right } else { self.left },
            top: if self.top <= self.bottom { self.top } else { self.bottom },
            bottom: if self.top <= self.bottom { self.bottom } else { self.top },
            ..self
        }
    }

    /// The rectangle with its edges saved, as `backup_position` leaves it.
    pub open spec fn backed_up(self) -> SelectRect {
        SelectRect { sav_left: self.left, sav_top: self.top, sav_right: self.right, sav_bottom: self.bottom, ..self }
    }

    /// The rectangle with its saved edges put back, as `restore_position`
    /// leaves it.
    pub open spec fn restored(self) -> SelectRect {
        SelectRect { left: self.sav_left, top: self.sav_top, right: self.sav_right, bottom: self.sav_bottom, ..self }
    }

    /// The rectangle with its edges set to zero, as `empty` leaves it.
    pub open spec fn emptied_rect(self) -> SelectRect {
        SelectRect { left: 0, top: 0, right: 0, bottom: 0, ..self }
    }

    /// The rectangle moved by `(dx, dy)`, as `offset` leaves it.
    pub open spec fn offset_by(self, dx: i32, dy: i32) -> SelectRect {
        SelectRect {
            left: (self.left + dx) as i32,
            right: (self.right + dx) as i32,
            top: (self.top + dy) as i32,
            bottom: (self.bottom + dy) as i32,
            ..self
        }
    }

    /// The rectangle as `init` leaves it: empty, in drawing mode, with the
    /// pointer position a move started at set to zero.
    pub open spec fn inited(self) -> SelectRect {
        SelectRect { left: 0, top: 0, right: 0, bottom: 0, mode: 0, mouse_start_x: 0, mouse_start_y: 0, ..self }
    }

    /// The rectangle that `new` makes.
    pub open spec fn new_spec(l: i32, t: i32, r: i32, b: i32) -> SelectRect {
        SelectRect {
            left: l,
            top: t,
            right: r,
            bottom: b,
            mode: 0,
            sel_corner: -1i32,
            sav_left: 0,
            sav_top: 0,
            sav_right: 0,
            sav_bottom: 0,
            mouse_start_x: 0,
            mouse_start_y: 0,
        }
    }

    /// A rectangle with the given edges, in drawing mode, with no corner
    /// selected and a saved position of zeros.
    pub fn new(l: i32, t: i32, r: i32, b: i32) -> (s: SelectRect)
        ensures
            s == SelectRect::new_spec(l, t, r, b),
    {
        SelectRect {
            left: l,
            top: t,
            right: r,
            bottom: b,
            mode: 0,
            sel_corner: -1,
            sav_left: 0,
            sav_top: 0,
            sav_right: 0,
            sav_bottom: 0,
            mouse_start_x: 0,
            mouse_start_y: 0,
        }
    }

    /// Saves the current edges.
    pub fn backup_position(&mut self)
        ensures
            *final(self) == old(self).backed_up(),
    {
        self.sav_left = self.left;
        self.sav_top = self.top;
        self.sav_right = self.right;
        self.sav_bottom = self.bottom;
    }

    /// Puts back the saved edges.
    pub fn restore_position(&mut self)
        ensures
            *final(self) == old(self).restored(),
    {
        self.left = self.sav_left;
        self.top = self.sav_top;
        self.right = self.sav_right;
        self.bottom = self.sav_bottom;
    }

    /// Corner `n` (0 to 3), or `(0, 0)` for another `n`.
    pub fn get_corner(&self, n: i32) -> (c: (i32, i32))
        ensures
            c == self.corner(n),
    {
        if n == 0 {
            (self.left, self.top)
        } else if n == 1 {
            (self.right, self.top)
        } else if n == 2 {
            (self.right, self.bottom)
        } else if n == 3 {
            (self.left, self.bottom)
        } else {
            (0, 0)
        }
    }

    /// Moves corner `n` (0 to 3) to `(x, y)`; another `n` changes nothing.
    pub fn set_corner(&mut self, n: i32, x: i32, y: i32)
        ensures
            *final(self) == old(self).with_corner(n, x, y),
    {
        if n == 0 {
            self.left = x;
            self.top = y;
        } else if n == 1 {
            self.right = x;
            self.top = y;
        } else if n == 2 {
            self.right = x;
            self.bottom = y;
        } else if n == 3 {
            self.left = x;
            self.bottom = y;
        }
    }

    /// Orders the edges so that left <= right and top <= bottom.
    pub fn normalize(&mut self)
        ensures
            *final(self) == old(self).normalized(),
    {
        if self.left > self.right {
            let dum = self.left;
            self.left = self.right;
            self.right = dum;
        }
        if self.top > self.bottom {
            let dum = self.top;
            self.top = self.bottom;
            self.bottom = dum;
        }
    }

    /// Sets the four edges to zero.
    pub fn empty(&mut self)
        ensures
            *final(self) == old(self).emptied_rect(),
    {
        self.left = 0;
        self.right = 0;
        self.top = 0;
        self.bottom = 0;
    }

    /// Whether the rectangle has no width or no height.
    pub fn is_empty(&self) -> (e: bool)
        ensures
            e == self.is_empty_spec(),
    {
        (self.right == self.left) || (self.bottom == self.top)
    }

    /// Empties the rectangle, goes back to drawing mode and forgets the
    /// pointer position a move started at.
    pub fn init(&mut self)
        ensures
            *final(self) == old(self).inited(),
    {
        self.empty();
        self.mode = 0;
        self.mouse_start_x = 0;
        self.mouse_start_y = 0;
    }

    /// Number of columns covered, edges included.
    pub fn width(&self) -> (w: i32)
        requires
            i32::MIN <= self.right - self.left,
            self.right - self.left + 1 <= i32::MAX,
        ensures
            w == self.right - self.left + 1,
    {
        self.right - self.left + 1
    }

    /// Number of rows covered, edges included.
    pub fn height(&self) -> (h: i32)
        requires
            i32::MIN <= self.bottom - self.top,
            self.bottom - self.top + 1 <= i32::MAX,
        ensures
            h == self.bottom - self.top + 1,
    {
        self.bottom - self.top + 1
    }

    /// Moves the rectangle by `(dx, dy)`.
    pub fn offset(&mut self, dx: i32, dy: i32)
        requires
            i32::MIN <= old(self).left + dx <= i32::MAX,
            i32::MIN <= old(self).right + dx <= i32::MAX,
            i32::MIN <= old(self).top + dy <= i32::MAX,
            i32::MIN <= old(self).bottom + dy <= i32::MAX,
        ensures
            *final(self) == old(self).offset_by(dx, dy),
    {
        self.left += dx;
        self.right += dx;
        self.top += dy;
        self.bottom += dy;
    }
}

/// Moving a corner and reading it back gives the point it was moved to.
pub proof fn lemma_set_get_corner(r: SelectRect, n: i32, x: i32, y: i32)
    requires
        0 <= n <= 3,
    ensures
        r.with_corner(n, x, y).corner(n) == (x, y),
{
}

/// Moving a corner leaves the opposite corner where it was.
pub proof fn lemma_set_corner_keeps_opposite(r: SelectRect, n: i32, x: i32, y: i32)
    requires
        0 <= n <= 3,
    ensures
        r.with_corner(n, x, y).corner(((n + 2) % 4) as i32) == r.corner(((n + 2) % 4) as i32),
{
}


/// A call that changes a rectangle's edges: `set_corner`, `offset`,
/// `normalize`, `empty` or `init`, with its arguments.
pub enum RectOp {
    SetCorner(i32, i32, i32),
    Offset(i32, i32),
    Normalize,
    Empty,
    Init,
}

/// The rectangle after the call `op`, as that call's contract states it.
pub open spec fn apply_op(r: SelectRect, op: RectOp) -> SelectRect {
    match op {
        RectOp::SetCorner(n, x, y) => r.with_corner(n, x, y),
        RectOp::Offset(dx, dy) => r.offset_by(dx, dy),
        RectOp::Normalize => r.normalized(),
        RectOp::Empty => r.emptied_rect(),
        RectOp::Init => r.inited(),
    }
}

/// The rectangle after the calls `ops`, in order.
pub open spec fn apply_ops(r: SelectRect, ops: Seq<RectOp>) -> SelectRect
    decreases ops.len(),
{
    if ops.len() == 0 {
        r
    } else {
        apply_op(apply_ops(r, ops.drop_last()), ops.last())
    }
}

/// None of these calls touches the saved edges.
pub proof fn lemma_ops_keep_saved(r: SelectRect, ops: Seq<RectOp>)
    ensures
        apply_ops(r, ops).sav_left == r.sav_left,
        apply_ops(r, ops).sav_top == r.sav_top,
        apply_ops(r, ops).sav_right == r.sav_right,
        apply_ops(r, ops).sav_bottom == r.sav_bottom,
    decreases ops.len(),
{
    if ops.len() > 0 {
        lemma_ops_keep_saved(r, ops.drop_last());
    }
}

/// Restoring gives back the edges saved by `backup_position`, whatever
/// sequence of `set_corner`, `offset`, `normalize`, `empty` and `init`
/// came between, and leaves every other field as the last call left it.
pub proof fn lemma_restore_after_ops(r: SelectRect, ops: Seq<RectOp>)
    ensures
        apply_ops(r.backed_up(), ops).restored() == (SelectRect {
            left: r.left,
            top: r.top,
            right: r.right,
            bottom: r.bottom,
            ..apply_ops(r.backed_up(), ops)
        }),
{
    lemma_ops_keep_saved(r.backed_up(), ops);
}

} // verus!
