use vstd::prelude::*;
use crate::element::{Color, Element, color_of, electrons_of, mass_of, radius_of};
use crate::geometry::{COORD_LIMIT, Vec2, in_limits};

verus! {

/// A mobile disk.
#[derive(Clone, Copy, Debug, PartialEq, Eq, Structural)]
pub struct Particle {
    pub position: Vec2,
    pub velocity: Vec2,
    pub element: Element,
}

/// A static axis-aligned wall: `position` is its centre and `size` its full
/// width and height.
#[derive(Clone, Copy, Debug, PartialEq, Eq, Structural)]
pub struct Rectangle {
    pub position: Vec2,
    pub color: Color,
    pub size: Vec2,
}

/// A breakable bond between the particles at indices `a` and `b`.
#[derive(Clone, Copy, Debug, PartialEq, Eq, Structural)]
pub struct Bond {
    pub a: usize,
    pub b: usize,
}

impl Particle {
    pub open spec fn wf(self) -> bool {
        in_limits(self.position) && in_limits(self.velocity)
    }

    pub open spec fn mass_spec(self) -> int {
        mass_of(self.element)
    }

    pub open spec fn radius_spec(self) -> int {
        radius_of(self.element)
    }

    pub fn color(&self) -> (c: Color)
        ensures
            c == color_of(self.element),
    {
        self.element.color()
    }

    pub fn electrons_to_share(&self) -> (n: usize)
        ensures
            n == electrons_of(self.element),
    {
        self.element.electrons_to_share()
    }

    pub fn radius(&self) -> (r: i64)
        ensures
            r == self.radius_spec(),
    {
        self.element.radius()
    }

    pub fn mass(&self) -> (m: i64)
        ensures
            m == self.mass_spec(),
    {
        self.element.mass()
    }
}

impl Rectangle {
    /// The centre lies within the coordinate limits, and the size is
    /// non-negative and at most twice the limit on each axis.
    pub open spec fn wf(self) -> bool {
        in_limits(self.position) && 0 <= self.size.x <= 2 * COORD_LIMIT && 0 <= self.size.y <= 2
            * COORD_LIMIT
    }
}

impl Bond {
    /// Both ends address particles of a store of `n`, and they differ.
    pub open spec fn wf(self, n: int) -> bool {
        self.a < n && self.b < n && self.a != self.b
    }
}

pub open spec fn particles_wf(ps: Seq<Particle>) -> bool {
    forall|i: int| 0 <= i < ps.len() ==> (#[trigger] ps[i]).wf()
}

pub open spec fn walls_wf(ws: Seq<Rectangle>) -> bool {
    forall|i: int| 0 <= i < ws.len() ==> (#[trigger] ws[i]).wf()
}

/// The two bonds join the same unordered pair.
pub open spec fn same_pair(b1: Bond, b2: Bond) -> bool {
    (b1.a == b2.a && b1.b == b2.b) || (b1.a == b2.b && b1.b == b2.a)
}

/// No two bonds join the same unordered pair.
pub open spec fn bonds_unique(bs: Seq<Bond>) -> bool {
    forall|m1: int, m2: int| 0 <= m1 < m2 < bs.len() ==> !same_pair(#[trigger] bs[m1], #[trigger] bs[m2])
}

pub open spec fn bonds_wf(bs: Seq<Bond>, n: int) -> bool {
    forall|i: int| 0 <= i < bs.len() ==> (#[trigger] bs[i]).wf(n)
}

} // verus!
