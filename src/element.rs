use vstd::prelude::*;
use crate::arith::{floor_sqrt, is_floor_sqrt, lemma_floor_sqrt_unique};

verus! {

/// A colour, each channel from 0 (none) to 255 (full).
#[derive(Clone, Copy, Debug, PartialEq, Eq, Structural)]
pub struct Color {
    pub r: u8,
    pub g: u8,
    pub b: u8,
}

/// A species of particle.
#[derive(Clone, Copy, Debug, PartialEq, Eq, Structural)]
pub enum Element {
    Hydrogen,
    Oxygen,
}

/// Mass of one particle of the element.
pub open spec fn mass_of(e: Element) -> int {
    match e {
        Element::Hydrogen => 1,
        Element::Oxygen => 16,
    }
}

/// The squared radius, in squared position units, that an element's mass
/// calls for at unit areal density: `mass / pi` world areas, with pi taken
/// as 355/113, rounded down.
pub open spec fn radius_squared_target(e: Element) -> int {
    mass_of(e) * 113000000 / 355
}

/// Radius of a particle of the element, in position units: the floor of the
/// square root of `radius_squared_target(e)`.
pub open spec fn radius_of(e: Element) -> int {
    match e {
        Element::Hydrogen => 564,
        Element::Oxygen => 2256,
    }
}

pub open spec fn color_of(e: Element) -> Color {
    match e {
        Element::Hydrogen => Color { r: 255, g: 255, b: 255 },
        Element::Oxygen => Color { r: 255, g: 0, b: 0 },
    }
}

pub open spec fn electrons_of(e: Element) -> int {
    match e {
        Element::Hydrogen => 1,
        Element::Oxygen => 2,
    }
}

/// The radius table is the rounded-down square root of the areal target.
pub proof fn lemma_radius_is_floor_sqrt(e: Element)
    ensures
        is_floor_sqrt(radius_squared_target(e), radius_of(e)),
{
}

impl Element {
    /// The display colour of the element.
    pub fn color(&self) -> (c: Color)
        ensures
            c == color_of(*self),
    {
        match self {
            Element::Hydrogen => Color { r: 255, g: 255, b: 255 },
            Element::Oxygen => Color { r: 255, g: 0, b: 0 },
        }
    }

    /// How many electrons the element shares in a bond.
    pub fn electrons_to_share(&self) -> (n: usize)
        ensures
            n == electrons_of(*self),
    {
        match self {
            Element::Hydrogen => 1,
            Element::Oxygen => 2,
        }
    }

    pub fn mass(&self) -> (m: i64)
        ensures
            m == mass_of(*self),
    {
        match self {
            Element::Hydrogen => 1,
            Element::Oxygen => 16,
        }
    }

    /// Radius of a disk of the element's mass at unit areal density.
    pub fn radius(&self) -> (r: i64)
        ensures
            r == radius_of(*self),
            is_floor_sqrt(radius_squared_target(*self), r as int),
    {
        let m = self.mass() as u64;
        let s = floor_sqrt(m * 113000000 / 355);
        proof {
            lemma_radius_is_floor_sqrt(*self);
            lemma_floor_sqrt_unique(radius_squared_target(*self), s as int, radius_of(*self));
        }
        s as i64
    }
}

} // verus!
