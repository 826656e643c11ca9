use vstd::prelude::*;

verus! {

/// Magnitude bound for the position and extent of an output's geometry.
/// Keeping outputs inside this budget keeps every derived coordinate far
/// from the machine integer limits.
pub const COORD_LIMIT: i32 = 0x0400_0000;

/// Magnitude bound for any coordinate the engine ever computes (window
/// geometries, popup targets, merged output regions).  Sums of two such
/// coordinates still fit in an `i32`.
pub const GEOM_LIMIT: i32 = 0x2000_0000;

/// An axis-aligned rectangle in logical pixels.  `x`/`y` locate the
/// top-left corner; `w`/`h` are the extents.
#[derive(Clone, Copy, Debug, PartialEq, Eq, Structural)]
pub struct Rect {
    pub x: i32,
    pub y: i32,
    pub w: i32,
    pub h: i32,
}

impl Rect {
    /// Tight bound used for output geometries and usable areas: the whole
    /// rectangle lies within the coordinate budget.
    pub open spec fn wf(self) -> bool {
        &&& -COORD_LIMIT <= self.x
        &&& -COORD_LIMIT <= self.y
        &&& 0 <= self.w
        &&& 0 <= self.h
        &&& self.x + self.w <= COORD_LIMIT
        &&& self.y + self.h <= COORD_LIMIT
    }

    /// Loose bound satisfied by every rectangle the engine computes.
    pub open spec fn bounded(self) -> bool {
        &&& -GEOM_LIMIT <= self.x <= GEOM_LIMIT
        &&& -GEOM_LIMIT <= self.y <= GEOM_LIMIT
        &&& 0 <= self.w <= GEOM_LIMIT
        &&& 0 <= self.h <= GEOM_LIMIT
    }

    pub open spec fn right(self) -> int {
        self.x + self.w
    }

    pub open spec fn bottom(self) -> int {
        self.y + self.h
    }

    /// The point `(px, py)` lies inside this rectangle.
    pub open spec fn contains_spec(self, px: int, py: int) -> bool {
        self.x <= px < self.x + self.w && self.y <= py < self.y + self.h
    }

    /// The two rectangles share at least one point, phrased arithmetically.
    pub open spec fn overlaps(self, other: Rect) -> bool {
        &&& 0 < self.w
        &&& 0 < self.h
        &&& 0 < other.w
        &&& 0 < other.h
        &&& self.x < other.right()
        &&& other.x < self.right()
        &&& self.y < other.bottom()
        &&& other.y < self.bottom()
    }

    /// `inner` lies entirely within `self`.
    pub open spec fn contains_rect_spec(self, inner: Rect) -> bool {
        &&& self.x <= inner.x
        &&& inner.right() <= self.right()
        &&& self.y <= inner.y
        &&& inner.bottom() <= self.bottom()
    }

    /// Exec point test; equivalent to `contains_spec`.
    pub fn contains(&self, px: i32, py: i32) -> (r: bool)
        requires
            self.bounded(),
            -GEOM_LIMIT <= px <= GEOM_LIMIT,
            -GEOM_LIMIT <= py <= GEOM_LIMIT,
        ensures
            r == self.contains_spec(px as int, py as int),
    {
        px >= self.x && px - self.x < self.w && py >= self.y && py - self.y < self.h
    }

    /// Exec overlap test; equivalent to `overlaps`.
    pub fn intersects(&self, other: &Rect) -> (r: bool)
        requires
            self.bounded(),
            other.bounded(),
        ensures
            r == self.overlaps(*other),
    {
        self.w > 0 && self.h > 0 && other.w > 0 && other.h > 0 && self.x - other.x < other.w
            && other.x - self.x < self.w && self.y - other.y < other.h && other.y - self.y < self.h
    }

    /// Bounding box of two rectangles.
    pub open spec fn merge_spec(a: Rect, b: Rect) -> Rect {
        let x = if a.x <= b.x {
            a.x as int
        } else {
            b.x as int
        };
        let y = if a.y <= b.y {
            a.y as int
        } else {
            b.y as int
        };
        let right = if a.right() >= b.right() {
            a.right()
        } else {
            b.right()
        };
        let bottom = if a.bottom() >= b.bottom() {
            a.bottom()
        } else {
            b.bottom()
        };
        Rect { x: x as i32, y: y as i32, w: (right - x) as i32, h: (bottom - y) as i32 }
    }

    /// Bounding box of the two rectangles.
    pub fn merge(&self, other: &Rect) -> (r: Rect)
        requires
            self.wf(),
            other.wf(),
        ensures
            r == Rect::merge_spec(*self, *other),
            r.wf(),
            r.contains_rect_spec(*self),
            r.contains_rect_spec(*other),
    {
        let x = if self.x <= other.x {
            self.x
        } else {
            other.x
        };
        let y = if self.y <= other.y {
            self.y
        } else {
            other.y
        };
        let sr = self.x + self.w;
        let or = other.x + other.w;
        let right = if sr >= or {
            sr
        } else {
            or
        };
        let sb = self.y + self.h;
        let ob = other.y + other.h;
        let bottom = if sb >= ob {
            sb
        } else {
            ob
        };
        Rect { x, y, w: right - x, h: bottom - y }
    }

    /// A rectangle overlapping another contains a common point, and a
    /// non-overlapping pair shares none.
    pub proof fn lemma_overlap_point(a: Rect, b: Rect)
        requires
            a.bounded(),
            b.bounded(),
        ensures
            a.overlaps(b) ==> exists|px: int, py: int|
                a.contains_spec(px, py) && b.contains_spec(px, py),
            !a.overlaps(b) ==> forall|px: int, py: int|
                !(a.contains_spec(px, py) && b.contains_spec(px, py)),
    {
        if a.overlaps(b) {
            let px = if a.x >= b.x { a.x as int } else { b.x as int };
            let py = if a.y >= b.y { a.y as int } else { b.y as int };
            assert(a.contains_spec(px, py) && b.contains_spec(px, py));
        }
    }
}

} // verus!
