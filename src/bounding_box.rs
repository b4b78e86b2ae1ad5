//! Axis-aligned boxes in device-pixel coordinates.
use vstd::prelude::*;

verus! {

/// True when `v` is representable as an `i32`.
pub open spec fn fits_i32(v: int) -> bool {
    i32::MIN <= v <= i32::MAX
}

/// Position of a segment `[pos, pos + size)` after pushing it inside
/// `[lo, lo + extent)`, assuming `size <= extent`.
pub open spec fn clamp_pos(pos: int, size: int, lo: int, extent: int) -> int {
    if pos < lo {
        lo
    } else if pos + size > lo + extent {
        lo + extent - size
    } else {
        pos
    }
}

/// The outer box behind an optional reference.
pub open spec fn outer_of(o: Option<&BoundingBox>) -> Option<BoundingBox> {
    match o {
        Some(b) => Some(*b),
        None => None,
    }
}

/// An axis-aligned box with origin `(x, y)`, closed on its low edges and
/// open on its high edges.
#[derive(Clone, Copy, Debug, PartialEq, Eq, Structural)]
pub struct BoundingBox {
    pub x: i32,
    pub y: i32,
    pub width: i32,
    pub height: i32,
}

impl BoundingBox {
    /// Sizes are non-negative and the far edges are representable.
    pub open spec fn wf(self) -> bool {
        &&& self.width >= 0
        &&& self.height >= 0
        &&& self.x + self.width <= i32::MAX
        &&& self.y + self.height <= i32::MAX
    }

    pub open spec fn contains(self, x: int, y: int) -> bool {
        &&& self.x <= x < self.x + self.width
        &&& self.y <= y < self.y + self.height
    }

    /// Each axis: no larger than `outer`, and both edges inside `outer`'s edges.
    pub open spec fn enclosed_in(self, outer: BoundingBox) -> bool {
        &&& self.width <= outer.width
        &&& self.x >= outer.x
        &&& self.x + self.width <= outer.x + outer.width
        &&& self.height <= outer.height
        &&& self.y >= outer.y
        &&& self.y + self.height <= outer.y + outer.height
    }

    /// The box shifted by `(dx, dy)`.
    pub open spec fn translated(self, dx: int, dy: int) -> BoundingBox {
        BoundingBox { x: (self.x + dx) as i32, y: (self.y + dy) as i32, ..self }
    }

    /// The box shrunk to at most `outer`'s size and pushed inside `outer`.
    pub open spec fn rebased(self, outer: BoundingBox) -> BoundingBox {
        let w = if self.width > outer.width { outer.width } else { self.width };
        let h = if self.height > outer.height { outer.height } else { self.height };
        BoundingBox {
            x: clamp_pos(self.x as int, w as int, outer.x as int, outer.width as int) as i32,
            y: clamp_pos(self.y as int, h as int, outer.y as int, outer.height as int) as i32,
            width: w,
            height: h,
        }
    }

    /// The corrections can be returned as `i32`.
    pub open spec fn can_rebase(self, outer: BoundingBox) -> bool {
        &&& fits_i32(self.rebased(outer).x - self.x)
        &&& fits_i32(self.rebased(outer).y - self.y)
    }

    /// The box after `move_in_direction(dx, dy, outer)`.
    pub open spec fn moved(self, dx: int, dy: int, outer: Option<BoundingBox>) -> BoundingBox {
        match outer {
            Some(o) => self.translated(dx, dy).rebased(o),
            None => self.translated(dx, dy),
        }
    }

    /// The move stays representable, and so does its net displacement.
    pub open spec fn can_move(self, dx: int, dy: int, outer: Option<BoundingBox>) -> bool {
        &&& fits_i32(self.x + dx)
        &&& fits_i32(self.y + dy)
        &&& self.translated(dx, dy).wf()
        &&& match outer {
            Some(o) => {
                &&& o.wf()
                &&& self.translated(dx, dy).can_rebase(o)
                &&& fits_i32(self.moved(dx, dy, outer).x - self.x)
                &&& fits_i32(self.moved(dx, dy, outer).y - self.y)
            },
            None => true,
        }
    }

    pub fn is_in_bound(&self, x: i32, y: i32) -> (r: bool)
        ensures
            r == self.contains(x as int, y as int),
    {
        x >= self.x && (x as i64) < self.x as i64 + self.width as i64 && y >= self.y && (y as i64)
            < self.y as i64 + self.height as i64
    }

    /// The midpoint, with the half sizes truncated.
    pub fn get_center(&self) -> (r: (i32, i32))
        requires
            self.wf(),
        ensures
            r.0 == self.x + self.width / 2,
            r.1 == self.y + self.height / 2,
    {
        (self.x + self.width / 2, self.y + self.height / 2)
    }

    pub fn is_enclosed(&self, outer: &BoundingBox) -> (r: bool)
        ensures
            r == self.enclosed_in(*outer),
    {
        let smaller_width_and_enclosed = self.width <= outer.width && self.x >= outer.x
            && self.x as i64 + self.width as i64 <= outer.x as i64 + outer.width as i64;
        let smaller_height_and_enclosed = self.height <= outer.height && self.y >= outer.y
            && self.y as i64 + self.height as i64 <= outer.y as i64 + outer.height as i64;
        smaller_width_and_enclosed && smaller_height_and_enclosed
    }

    /// Shrinks the box to fit `outer` and pushes it inside; returns the
    /// correction applied to the position on each axis.
    pub fn rebase_to_outer_box(&mut self, outer: &BoundingBox) -> (r: (i32, i32))
        requires
            old(self).wf(),
            outer.wf(),
            old(self).can_rebase(*outer),
        ensures
            *final(self) == old(self).rebased(*outer),
            final(self).wf(),
            final(self).enclosed_in(*outer),
            r.0 == final(self).x - old(self).x,
            r.1 == final(self).y - old(self).y,
    {
        if self.width > outer.width {
            self.width = outer.width;
        }
        if self.height > outer.height {
            self.height = outer.height;
        }
        let mut delta_x: i32 = 0;
        let mut delta_y: i32 = 0;
        if !self.is_enclosed(outer) {
            if self.x < outer.x {
                delta_x = outer.x - self.x;
                self.x = outer.x;
            }
            if self.x + self.width > outer.x + outer.width {
                let target = outer.x + outer.width - self.width;
                delta_x = target - self.x;
                self.x = target;
            }
            if self.y < outer.y {
                delta_y = outer.y - self.y;
                self.y = outer.y;
            }
            if self.y + self.height > outer.y + outer.height {
                let target = outer.y + outer.height - self.height;
                delta_y = target - self.y;
                self.y = target;
            }
        }
        (delta_x, delta_y)
    }

    /// Whether `move_in_direction(dir_x, dir_y, outer_bounding_box)` is
    /// representable for this box.
    pub fn fits_move(&self, dir_x: i32, dir_y: i32, outer_bounding_box: Option<&BoundingBox>) -> (r:
        bool)
        ensures
            r == (self.wf() && self.can_move(dir_x as int, dir_y as int, outer_of(outer_bounding_box))),
    {
        let lim: i64 = 0x7fff_ffff;
        if self.width < 0 || self.height < 0 || self.x as i64 + self.width as i64 > lim
            || self.y as i64 + self.height as i64 > lim {
            return false;
        }
        let nx: i64 = self.x as i64 + dir_x as i64;
        let ny: i64 = self.y as i64 + dir_y as i64;
        if nx < -0x8000_0000 || nx > lim || ny < -0x8000_0000 || ny > lim || nx + self.width as i64
            > lim || ny + self.height as i64 > lim {
            return false;
        }
        match outer_bounding_box {
            None => true,
            Some(o) => {
                if o.width < 0 || o.height < 0 || o.x as i64 + o.width as i64 > lim || o.y as i64
                    + o.height as i64 > lim {
                    return false;
                }
                let w: i64 = if self.width > o.width { o.width as i64 } else { self.width as i64 };
                let h: i64 = if self.height > o.height { o.height as i64 } else { self.height as i64 };
                let cx: i64 = if nx < o.x as i64 { o.x as i64 } else if nx + w > o.x as i64 + o.width as i64 {
                    o.x as i64 + o.width as i64 - w
                } else { nx };
                let cy: i64 = if ny < o.y as i64 { o.y as i64 } else if ny + h > o.y as i64 + o.height as i64 {
                    o.y as i64 + o.height as i64 - h
                } else { ny };
                let (dx, dy) = (cx - nx, cy - ny);
                let (mx, my) = (cx - self.x as i64, cy - self.y as i64);
                -0x8000_0000 <= dx && dx <= lim && -0x8000_0000 <= dy && dy <= lim && -0x8000_0000 <= mx
                    && mx <= lim && -0x8000_0000 <= my && my <= lim
            },
        }
    }

    /// Moves the box by `(dir_x, dir_y)`, then, given an outer box, pushes it
    /// back inside; returns the net displacement actually realized.
    pub fn move_in_direction(&mut self, dir_x: i32, dir_y: i32, outer_bounding_box: Option<
        &BoundingBox,
    >) -> (r: (i32, i32))
        requires
            old(self).wf(),
            old(self).can_move(dir_x as int, dir_y as int, outer_of(outer_bounding_box)),
        ensures
            *final(self) == old(self).moved(dir_x as int, dir_y as int, outer_of(outer_bounding_box)),
            final(self).wf(),
            r.0 == final(self).x - old(self).x,
            r.1 == final(self).y - old(self).y,
            outer_bounding_box matches Some(o) ==> final(self).enclosed_in(*o),
            outer_bounding_box is None ==> r == (dir_x, dir_y),
    {
        self.x = self.x + dir_x;
        self.y = self.y + dir_y;
        let mut moved_x = dir_x;
        let mut moved_y = dir_y;
        if let Some(outer) = outer_bounding_box {
            let (delta_x, delta_y) = self.rebase_to_outer_box(outer);
            moved_x = moved_x + delta_x;
            moved_y = moved_y + delta_y;
        }
        (moved_x, moved_y)
    }
}

/// A box with positive sizes contains its own origin corner and not the
/// point just past its right edge.
pub proof fn lemma_origin_in_right_edge_out(b: BoundingBox)
    requires
        b.width > 0,
        b.height > 0,
    ensures
        b.contains(b.x as int, b.y as int),
        !b.contains(b.x + b.width, b.y as int),
{
}

/// Rebasing twice gives the same box as rebasing once, and the second
/// correction is zero on both axes.
pub proof fn lemma_rebase_idempotent(b: BoundingBox, outer: BoundingBox)
    requires
        b.wf(),
        outer.wf(),
        b.can_rebase(outer),
    ensures
        b.rebased(outer).rebased(outer) == b.rebased(outer),
        b.rebased(outer).can_rebase(outer),
        b.rebased(outer).rebased(outer).x - b.rebased(outer).x == 0,
        b.rebased(outer).rebased(outer).y - b.rebased(outer).y == 0,
{
}

/// Moving without an outer box translates by exactly the requested amount.
pub proof fn lemma_unbounded_move_is_translation(b: BoundingBox, dx: int, dy: int)
    requires
        b.wf(),
        b.can_move(dx, dy, None),
    ensures
        b.moved(dx, dy, None).x == b.x + dx,
        b.moved(dx, dy, None).y == b.y + dy,
        b.moved(dx, dy, None).width == b.width,
        b.moved(dx, dy, None).height == b.height,
{
}

/// Moving inside an outer box leaves the box enclosed in it.
pub proof fn lemma_bounded_move_stays_enclosed(b: BoundingBox, dx: int, dy: int, outer: BoundingBox)
    requires
        b.wf(),
        b.can_move(dx, dy, Some(outer)),
    ensures
        b.moved(dx, dy, Some(outer)).enclosed_in(outer),
        b.moved(dx, dy, Some(outer)).wf(),
{
}

} // verus!
