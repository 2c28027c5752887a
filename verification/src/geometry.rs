//! Axis-aligned rectangles and the overlap test that classifies a hit by the
//! edge that was struck.

use vstd::prelude::*;

verus! {

/// The edge of an obstacle `b` that a rectangle `a` has run into.
///
/// `Left` means `a` came from the left and struck `b`'s left edge, and
/// likewise for the other three; the y axis points up, so `Top` is the edge
/// with the larger y. `Inside` means the two overlap without `a` sticking out
/// over exactly one edge on either axis.
#[derive(Clone, Copy, Debug, PartialEq, Eq, Structural)]
pub enum Side {
    Left,
    Right,
    Top,
    Bottom,
    Inside,
}

/// A rectangle given by its center and its full width and height.
#[derive(Clone, Copy, Debug, PartialEq, Eq, Structural)]
pub struct Rect {
    pub x: i64,
    pub y: i64,
    pub w: i64,
    pub h: i64,
}

/// Distance between two integers.
pub open spec fn distance(a: int, b: int) -> int {
    if a >= b {
        a - b
    } else {
        b - a
    }
}

impl Rect {
    /// A rectangle has a positive width and a positive height.
    pub open spec fn wf(self) -> bool {
        self.w > 0 && self.h > 0
    }

    /// Twice the x coordinate of the left edge. Edges are kept doubled so
    /// that half extents never need a division.
    pub open spec fn left2(self) -> int {
        2 * self.x - self.w
    }

    /// Twice the x coordinate of the right edge.
    pub open spec fn right2(self) -> int {
        2 * self.x + self.w
    }

    /// Twice the y coordinate of the bottom edge.
    pub open spec fn bottom2(self) -> int {
        2 * self.y - self.h
    }

    /// Twice the y coordinate of the top edge.
    pub open spec fn top2(self) -> int {
        2 * self.y + self.h
    }

    /// Builds a rectangle, or nothing when a side is not positive.
    pub fn new(x: i64, y: i64, w: i64, h: i64) -> (r: Option<Rect>)
        ensures
            r == (if w > 0 && h > 0 {
                Some(Rect { x, y, w, h })
            } else {
                None
            }),
            r matches Some(rect) ==> rect.wf(),
    {
        if w > 0 && h > 0 {
            Some(Rect { x, y, w, h })
        } else {
            None
        }
    }
}

/// The standard overlap predicate for two axis-aligned boxes, with inclusive
/// bounds: on each axis the centers are no further apart than the sum of the
/// half extents, so two boxes that merely touch do overlap.
pub open spec fn overlaps(a: Rect, b: Rect) -> bool {
    &&& 2 * distance(a.x as int, b.x as int) <= a.w + b.w
    &&& 2 * distance(a.y as int, b.y as int) <= a.h + b.h
}

/// `a` sticks out of `b` to the left only.
pub open spec fn enters_from_left(a: Rect, b: Rect) -> bool {
    a.left2() < b.left2() && a.right2() < b.right2()
}

/// `a` sticks out of `b` to the right only.
pub open spec fn enters_from_right(a: Rect, b: Rect) -> bool {
    a.left2() > b.left2() && a.right2() > b.right2()
}

/// `a` sticks out of `b` at the bottom only.
pub open spec fn enters_from_bottom(a: Rect, b: Rect) -> bool {
    a.bottom2() < b.bottom2() && a.top2() < b.top2()
}

/// `a` sticks out of `b` at the top only.
pub open spec fn enters_from_top(a: Rect, b: Rect) -> bool {
    a.bottom2() > b.bottom2() && a.top2() > b.top2()
}

/// Twice the depth by which `a` has entered `b` along x, where it entered
/// over the left or the right edge.
pub open spec fn depth2_x(a: Rect, b: Rect) -> int {
    if enters_from_left(a, b) {
        a.right2() - b.left2()
    } else {
        b.right2() - a.left2()
    }
}

/// Twice the depth by which `a` has entered `b` along y, where it entered
/// over the bottom or the top edge.
pub open spec fn depth2_y(a: Rect, b: Rect) -> int {
    if enters_from_bottom(a, b) {
        a.top2() - b.bottom2()
    } else {
        b.top2() - a.bottom2()
    }
}

/// The side reported for two overlapping rectangles: the edge on the axis
/// with the smaller penetration, x winning a tie; the one axis on which `a`
/// crossed an edge where there is only one; `Inside` where there is none.
pub open spec fn struck_side(a: Rect, b: Rect) -> Side {
    let on_x = enters_from_left(a, b) || enters_from_right(a, b);
    let on_y = enters_from_bottom(a, b) || enters_from_top(a, b);
    if on_y && (!on_x || depth2_y(a, b) < depth2_x(a, b)) {
        if enters_from_bottom(a, b) {
            Side::Bottom
        } else {
            Side::Top
        }
    } else if on_x {
        if enters_from_left(a, b) {
            Side::Left
        } else {
            Side::Right
        }
    } else {
        Side::Inside
    }
}

/// What the overlap test answers: nothing for two rectangles apart, the
/// struck side of `b` otherwise.
pub open spec fn classify(a: Rect, b: Rect) -> Option<Side> {
    if overlaps(a, b) {
        Some(struck_side(a, b))
    } else {
        None
    }
}

/// Tests `a` against `b` and names the edge of `b` that `a` struck.
pub fn classify_overlap(a: Rect, b: Rect) -> (side: Option<Side>)
    ensures
        side == classify(a, b),
        side is Some <==> overlaps(a, b),
{
    let al: i128 = 2 * (a.x as i128) - (a.w as i128);
    let ar: i128 = 2 * (a.x as i128) + (a.w as i128);
    let ab: i128 = 2 * (a.y as i128) - (a.h as i128);
    let at: i128 = 2 * (a.y as i128) + (a.h as i128);
    let bl: i128 = 2 * (b.x as i128) - (b.w as i128);
    let br: i128 = 2 * (b.x as i128) + (b.w as i128);
    let bb: i128 = 2 * (b.y as i128) - (b.h as i128);
    let bt: i128 = 2 * (b.y as i128) + (b.h as i128);
    if !(al <= br && ar >= bl && ab <= bt && at >= bb) {
        return None;
    }
    let from_left = al < bl && ar < br;
    let from_right = al > bl && ar > br;
    let from_bottom = ab < bb && at < bt;
    let from_top = ab > bb && at > bt;
    let on_x = from_left || from_right;
    let on_y = from_bottom || from_top;
    let depth_x: i128 = if from_left {
        ar - bl
    } else {
        br - al
    };
    let depth_y: i128 = if from_bottom {
        at - bb
    } else {
        bt - ab
    };
    if on_y && (!on_x || depth_y < depth_x) {
        if from_bottom {
            Some(Side::Bottom)
        } else {
            Some(Side::Top)
        }
    } else if on_x {
        if from_left {
            Some(Side::Left)
        } else {
            Some(Side::Right)
        }
    } else {
        Some(Side::Inside)
    }
}

/// Whether two rectangles overlap does not depend on which is named first.
pub proof fn lemma_overlap_symmetric(a: Rect, b: Rect)
    ensures
        overlaps(a, b) == overlaps(b, a),
        classify(a, b) is Some <==> classify(b, a) is Some,
{
}

/// A reported side on the x axis means `a` reaches past that edge of `b` and
/// not past the opposite one; likewise on y.
pub proof fn lemma_side_meaning(a: Rect, b: Rect)
    requires
        overlaps(a, b),
    ensures
        struck_side(a, b) == Side::Left ==> a.left2() < b.left2() <= a.right2() < b.right2(),
        struck_side(a, b) == Side::Right ==> b.left2() < a.left2() <= b.right2() < a.right2(),
        struck_side(a, b) == Side::Bottom ==> a.bottom2() < b.bottom2() <= a.top2() < b.top2(),
        struck_side(a, b) == Side::Top ==> b.bottom2() < a.bottom2() <= b.top2() < a.top2(),
{
}

} // verus!
