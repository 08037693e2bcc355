//! The axis-aligned box that a vehicle is hit in.
use vstd::prelude::*;
use crate::transform::Vec2;

verus! {

/// A box with sides along the axes, given by its half extents.
#[derive(Clone, Copy, Debug, PartialEq, Eq)]
pub struct Cuboid2 {
    pub half_extents: Vec2,
}

impl Cuboid2 {
    /// Whether the point `pt` lies in the box centred at `center`, its edges
    /// included.
    pub open spec fn contains(self, center: Vec2, pt: Vec2) -> bool {
        &&& -self.half_extents.x <= pt.x - center.x <= self.half_extents.x
        &&& -self.half_extents.y <= pt.y - center.y <= self.half_extents.y
    }

    /// The box with the given half extents.
    pub fn new(half_extents: Vec2) -> (c: Cuboid2)
        ensures
            c.half_extents == half_extents,
    {
        Cuboid2 { half_extents }
    }

    /// Whether the point `pt` lies in the box centred at `center`, its edges
    /// included.
    pub fn contains_point(&self, center: &Vec2, pt: &Vec2) -> (inside: bool)
        ensures
            inside == self.contains(*center, *pt),
    {
        let dx: i128 = (pt.x as i128) - (center.x as i128);
        let dy: i128 = (pt.y as i128) - (center.y as i128);
        let hx: i128 = self.half_extents.x as i128;
        let hy: i128 = self.half_extents.y as i128;
        -hx <= dx && dx <= hx && -hy <= dy && dy <= hy
    }
}

} // verus!
