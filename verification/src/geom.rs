use vstd::prelude::*;

verus! {

/// A point, in integer units. Map-space and screen-space points share this
/// representation; the camera converts between the two spaces.
#[derive(Clone, Copy, PartialEq, Eq, Structural, Debug)]
pub struct Pt {
    pub x: i64,
    pub y: i64,
}

/// An axis-aligned rectangle: the hit region an entity exposes for
/// cursor containment tests.
#[derive(Clone, Copy, PartialEq, Eq, Structural, Debug)]
pub struct Rect {
    pub x1: i64,
    pub y1: i64,
    pub x2: i64,
    pub y2: i64,
}

impl Rect {
    pub open spec fn spec_contains(self, pt: Pt) -> bool {
        self.x1 <= pt.x <= self.x2 && self.y1 <= pt.y <= self.y2
    }

    pub fn contains_pt(&self, pt: Pt) -> (r: bool)
        ensures
            r == self.spec_contains(pt),
    {
        self.x1 <= pt.x && pt.x <= self.x2 && self.y1 <= pt.y && pt.y <= self.y2
    }
}

} // verus!
