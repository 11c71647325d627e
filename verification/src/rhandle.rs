//! A small rectangle given by its four edges, used to hit-test handles.

use vstd::prelude::*;

verus! {

/// A rectangle given by its left, top, right and bottom edges (inclusive).
pub struct RHandle {
    left: i32,
    top: i32,
    right: i32,
    bottom: i32,
}

impl View for RHandle {
    /// `(left, top, right, bottom)`.
    type V = (int, int, int, int);

    closed spec fn view(&self) -> (int, int, int, int) {
        (self.left as int, self.top as int, self.right as int, self.bottom as int)
    }
}

impl RHandle {
    /// A handle with the given edges.
    pub fn new(l: i32, t: i32, r: i32, b: i32) -> (h: RHandle)
        ensures
            h@ == (l as int, t as int, r as int, b as int),
    {
        RHandle { left: l, top: t, right: r, bottom: b }
    }

    /// Right edge minus left edge.
    pub fn width(&self) -> (w: i32)
        requires
            i32::MIN <= self@.2 - self@.0 <= i32::MAX,
        ensures
            w == self@.2 - self@.0,
    {
        self.right - self.left
    }

    /// Bottom edge minus top edge.
    pub fn height(&self) -> (h: i32)
        requires
            i32::MIN <= self@.3 - self@.1 <= i32::MAX,
        ensures
            h == self@.3 - self@.1,
    {
        self.bottom - self.top
    }

    /// Whether the handle has collapsed to a point.
    pub fn is_empty(&self) -> (e: bool)
        ensures
            e == (self@.2 == self@.0 && self@.3 == self@.1),
    {
        (self.right == self.left) && (self.bottom == self.top)
    }

    /// Sets all four edges to zero.
    pub fn empty(&mut self)
        ensures
            final(self)@ == (0int, 0int, 0int, 0int),
    {
        self.left = 0;
        self.right = 0;
        self.top = 0;
        self.bottom = 0;
    }

    /// Whether `(x, y)` lies inside the handle, edges included.
    pub fn pt_in_rect(&self, x: i32, y: i32) -> (inside: bool)
        ensures
            inside == (self@.0 <= x <= self@.2 && self@.1 <= y <= self@.3),
    {
        (x >= self.left) && (x <= self.right) && (y >= self.top) && (y <= self.bottom)
    }

    /// Orders the edges so that left <= right and top <= bottom.
    pub fn normalize(&mut self)
        ensures
            final(self)@ == normalized(old(self)@),
    {
        if self.left > self.right {
            let dum = self.left;
            self.left = self.right;
            self.right = dum;
        }
        if self.top > self.bottom {
            let dum = self.top;
            self.top = self.bottom;
            self.bottom = dum;
        }
    }
}

/// The rectangle with the same corners whose edges are ordered.
pub open spec fn normalized(r: (int, int, int, int)) -> (int, int, int, int) {
    (
        if r.0 <= r.2 { r.0 } else { r.2 },
        if r.1 <= r.3 { r.1 } else { r.3 },
        if r.0 <= r.2 { r.2 } else { r.0 },
        if r.1 <= r.3 { r.3 } else { r.1 },
    )
}

/// Normalizing orders the edges, keeps the edges as a set, and a second
/// normalization changes nothing.
pub proof fn lemma_normalized(r: (int, int, int, int))
    ensures
        normalized(r).0 <= normalized(r).2,
        normalized(r).1 <= normalized(r).3,
        normalized(normalized(r)) == normalized(r),
        (normalized(r).0 == r.0 && normalized(r).2 == r.2) || (normalized(r).0 == r.2
            && normalized(r).2 == r.0),
        (normalized(r).1 == r.1 && normalized(r).3 == r.3) || (normalized(r).1 == r.3
            && normalized(r).3 == r.1),
{
}

} // verus!
