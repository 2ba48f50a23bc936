//! Axis-aligned rectangles and the open-interval intersection test that
//! every collision decision in the game is built on.

use vstd::prelude::*;

verus! {

/// A position on the 2-D canvas, in pixels.  `y` grows downward.
#[derive(Clone, Copy, PartialEq, Eq, Structural, Debug)]
pub struct Point {
    pub x: i16,
    pub y: i16,
}

/// An axis-aligned rectangle anchored at its top-left corner.
#[derive(Clone, Copy, PartialEq, Eq, Structural, Debug)]
pub struct Rect {
    pub position: Point,
    pub width: i16,
    pub height: i16,
}

/// The x-coordinate just past the right edge of `r`.
pub open spec fn spec_right(r: Rect) -> int {
    r.position.x + r.width
}

/// The y-coordinate just past the bottom edge of `r`.
pub open spec fn spec_bottom(r: Rect) -> int {
    r.position.y + r.height
}

/// Open-interval overlap test: rectangles that merely touch along an edge
/// do not intersect.
pub open spec fn spec_intersects(a: Rect, b: Rect) -> bool {
    &&& a.position.x < spec_right(b)
    &&& spec_right(a) > b.position.x
    &&& a.position.y < spec_bottom(b)
    &&& spec_bottom(a) > b.position.y
}

/// `v` forced into the representable range of `i16`.
pub open spec fn clamp_i16(v: int) -> int {
    if v > i16::MAX {
        i16::MAX as int
    } else if v < i16::MIN {
        i16::MIN as int
    } else {
        v
    }
}

/// `a + b` saturated at the bounds of `i16`.
pub fn add_clamped(a: i16, b: i16) -> (r: i16)
    ensures
        r == clamp_i16(a + b),
{
    let s: i32 = a as i32 + b as i32;
    if s > i16::MAX as i32 {
        i16::MAX
    } else if s < i16::MIN as i32 {
        i16::MIN
    } else {
        s as i16
    }
}

impl Rect {
    pub fn new(position: Point, width: i16, height: i16) -> (r: Self)
        ensures
            r == (Rect { position, width, height }),
    {
        Rect { position, width, height }
    }

    pub fn new_from_x_y(x: i16, y: i16, width: i16, height: i16) -> (r: Self)
        ensures
            r == (Rect { position: Point { x, y }, width, height }),
    {
        Rect::new(Point { x, y }, width, height)
    }

    /// The intersection test assumes nothing of the operands: the comparison
    /// is carried out in a wider type, so rectangles whose edges would
    /// overflow `i16` are still answered exactly.
    pub fn intersects(&self, rect: &Rect) -> (r: bool)
        ensures
            r == spec_intersects(*self, *rect),
    {
        let self_right: i32 = self.position.x as i32 + self.width as i32;
        let self_bottom: i32 = self.position.y as i32 + self.height as i32;
        let rect_right: i32 = rect.position.x as i32 + rect.width as i32;
        let rect_bottom: i32 = rect.position.y as i32 + rect.height as i32;
        (self.position.x as i32) < rect_right && self_right > rect.position.x as i32
            && (self.position.y as i32) < rect_bottom && self_bottom > rect.position.y as i32
    }

    pub fn right(&self) -> (r: i16)
        requires
            i16::MIN <= spec_right(*self) <= i16::MAX,
        ensures
            r == spec_right(*self),
    {
        self.position.x + self.width
    }

    pub fn bottom(&self) -> (r: i16)
        requires
            i16::MIN <= spec_bottom(*self) <= i16::MAX,
        ensures
            r == spec_bottom(*self),
    {
        self.position.y + self.height
    }

    pub fn set_x(&mut self, x: i16)
        ensures
            *final(self) == (Rect { position: Point { x, y: old(self).position.y }, ..*old(self) }),
    {
        self.position.x = x
    }

    pub fn x(&self) -> (r: i16)
        ensures
            r == self.position.x,
    {
        self.position.x
    }

    pub fn y(&self) -> (r: i16)
        ensures
            r == self.position.y,
    {
        self.position.y
    }
}

/// The intersection relation is symmetric.
pub proof fn lemma_intersects_symmetric(a: Rect, b: Rect)
    ensures
        spec_intersects(a, b) == spec_intersects(b, a),
{
}

/// A rectangle of positive extent intersects itself.
pub proof fn lemma_intersects_self(a: Rect)
    requires
        a.width > 0,
        a.height > 0,
    ensures
        spec_intersects(a, a),
{
}

/// A rectangle entirely to the left of another, with no horizontal
/// overlap, does not intersect it.
pub proof fn lemma_disjoint_when_left(a: Rect, b: Rect)
    requires
        spec_right(a) <= b.position.x,
    ensures
        !spec_intersects(a, b),
{
}

} // verus!
