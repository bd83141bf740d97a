//! Small vector and rectangle records over exact rational scalars.

use crate::rat::{q_wf, Q, Rat};
use vstd::prelude::*;

verus! {

/// A rational pair at the specification level.
pub type Q2 = (Q, Q);

/// A rational triple at the specification level.
pub type Q3 = (Q, Q, Q);

/// A rational quadruple at the specification level.
pub type Q4 = (Q, Q, Q, Q);

pub open spec fn q2_wf(a: Q2) -> bool {
    q_wf(a.0) && q_wf(a.1)
}

pub open spec fn q3_wf(a: Q3) -> bool {
    q_wf(a.0) && q_wf(a.1) && q_wf(a.2)
}

pub open spec fn q_zero() -> Q {
    (0int, 1int)
}

pub open spec fn q3_zero() -> Q3 {
    (q_zero(), q_zero(), q_zero())
}

#[derive(Clone, Copy, PartialEq, Eq, Structural, Debug)]
pub struct Vec2 {
    pub x: Rat,
    pub y: Rat,
}

#[derive(Clone, Copy, PartialEq, Eq, Structural, Debug)]
pub struct Vec3 {
    pub x: Rat,
    pub y: Rat,
    pub z: Rat,
}

#[derive(Clone, Copy, PartialEq, Eq, Structural, Debug)]
pub struct Vec4 {
    pub x: Rat,
    pub y: Rat,
    pub z: Rat,
    pub w: Rat,
}

impl View for Vec2 {
    type V = Q2;

    open spec fn view(&self) -> Q2 {
        (self.x@, self.y@)
    }
}

impl View for Vec3 {
    type V = Q3;

    open spec fn view(&self) -> Q3 {
        (self.x@, self.y@, self.z@)
    }
}

impl View for Vec4 {
    type V = Q4;

    open spec fn view(&self) -> Q4 {
        (self.x@, self.y@, self.z@, self.w@)
    }
}

impl Vec2 {
    pub open spec fn wf(self) -> bool {
        self.x.wf() && self.y.wf()
    }

    pub fn new(x: Rat, y: Rat) -> (r: Vec2)
        ensures
            r.x == x,
            r.y == y,
    {
        Vec2 { x, y }
    }
}

impl Vec3 {
    pub open spec fn wf(self) -> bool {
        self.x.wf() && self.y.wf() && self.z.wf()
    }

    pub fn new(x: Rat, y: Rat, z: Rat) -> (r: Vec3)
        ensures
            r.x == x,
            r.y == y,
            r.z == z,
    {
        Vec3 { x, y, z }
    }

    pub fn zero() -> (r: Vec3)
        ensures
            r@ == q3_zero(),
            r.wf(),
    {
        Vec3 { x: Rat::zero(), y: Rat::zero(), z: Rat::zero() }
    }
}

impl Vec4 {
    pub open spec fn wf(self) -> bool {
        self.x.wf() && self.y.wf() && self.z.wf() && self.w.wf()
    }
}

/// The views of a sequence of vectors.
pub open spec fn v2_views(s: Seq<Vec2>) -> Seq<Q2> {
    s.map_values(|v: Vec2| v@)
}

pub open spec fn v3_views(s: Seq<Vec3>) -> Seq<Q3> {
    s.map_values(|v: Vec3| v@)
}

pub open spec fn v4_views(s: Seq<Vec4>) -> Seq<Q4> {
    s.map_values(|v: Vec4| v@)
}

pub open spec fn v2s_wf(s: Seq<Vec2>) -> bool {
    forall|i: int| 0 <= i < s.len() ==> (#[trigger] s[i]).wf()
}

pub open spec fn v3s_wf(s: Seq<Vec3>) -> bool {
    forall|i: int| 0 <= i < s.len() ==> (#[trigger] s[i]).wf()
}

/// An axis-aligned rectangle.  The reference left inverted rectangles
/// unchecked; here a well-formed rectangle has `min <= max` on both axes,
/// and the operations that store rectangles state which form they accept.
#[derive(Clone, Copy, PartialEq, Eq, Structural, Debug)]
pub struct Rect {
    pub min: Vec2,
    pub max: Vec2,
}

impl Rect {
    pub open spec fn wf(self) -> bool {
        self.min.wf() && self.max.wf()
    }

    pub fn new(min: Vec2, max: Vec2) -> (r: Rect)
        ensures
            r.min == min,
            r.max == max,
    {
        Rect { min, max }
    }
}

} // verus!
