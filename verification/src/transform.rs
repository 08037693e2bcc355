//! Position, scale and rotation of an entity, with the primitives that move it.
use vstd::prelude::*;
use crate::fixed::{lemma_scaled_neg, scaled, scaled_spec, ONE};
use crate::trig::{cos, cos_micro, sin, sin_micro};

verus! {

/// A point or displacement of the plane, each coordinate in millionths of a
/// world unit.
#[derive(Clone, Copy, Debug, PartialEq, Eq, Structural)]
pub struct Vec2 {
    pub x: i64,
    pub y: i64,
}

/// Whether `v` has a place in a coordinate.
pub open spec fn fits(v: int) -> bool {
    i64::MIN <= v <= i64::MAX
}

impl Vec2 {
    /// The vector with the given coordinates.
    pub fn new(x: i64, y: i64) -> (v: Vec2)
        ensures
            v == (Vec2 { x, y }),
    {
        Vec2 { x, y }
    }

    /// Whether the sum of the two vectors has a place in a `Vec2`.
    pub open spec fn can_add(self, v: Vec2) -> bool {
        fits(self.x + v.x) && fits(self.y + v.y)
    }

    /// The sum of the two vectors.
    pub open spec fn plus(self, v: Vec2) -> Vec2
        recommends
            self.can_add(v),
    {
        Vec2 { x: (self.x + v.x) as i64, y: (self.y + v.y) as i64 }
    }
}

/// Where an entity is, how large it is drawn and which way it faces. The
/// rotation is a free angle in millionths of a radian; rotation zero faces
/// along the positive y axis.
#[derive(Clone, Copy, Debug, PartialEq, Eq, Structural)]
pub struct Transform {
    pub pos: Vec2,
    pub scale: Vec2,
    pub rot: i64,
}

impl Transform {
    /// The x component of the unit vector along the heading, in millionths.
    pub open spec fn heading_x(self) -> int {
        -sin_micro(self.rot as int)
    }

    /// The y component of the unit vector along the heading, in millionths.
    pub open spec fn heading_y(self) -> int {
        cos_micro(self.rot as int)
    }

    /// The x coordinate reached by advancing `d` along the heading.
    pub open spec fn ahead_x(self, d: i64) -> int {
        self.pos.x + scaled_spec(d as int, self.heading_x())
    }

    /// The y coordinate reached by advancing `d` along the heading.
    pub open spec fn ahead_y(self, d: i64) -> int {
        self.pos.y + scaled_spec(d as int, self.heading_y())
    }

    /// Whether moving by `v` keeps the position within the coordinates.
    pub open spec fn can_mov(self, v: Vec2) -> bool {
        self.pos.can_add(v)
    }

    /// Whether turning by `r` keeps the rotation within its type.
    pub open spec fn can_rot(self, r: i64) -> bool {
        fits(self.rot + r)
    }

    /// Whether advancing by `d` keeps the position within the coordinates.
    pub open spec fn can_fwd(self, d: i64) -> bool {
        fits(self.ahead_x(d)) && fits(self.ahead_y(d))
    }

    /// The transform after advancing `d` along the heading.
    pub open spec fn fwd_spec(self, d: i64) -> Transform
        recommends
            self.can_fwd(d),
    {
        Transform {
            pos: Vec2 { x: self.ahead_x(d) as i64, y: self.ahead_y(d) as i64 },
            scale: self.scale,
            rot: self.rot,
        }
    }

    /// The transform that every entity starts with.
    pub open spec fn new_spec() -> Transform {
        Transform { pos: Vec2 { x: 0, y: 0 }, scale: Vec2 { x: ONE, y: ONE }, rot: 0 }
    }

    /// At the origin, at scale one, facing along the positive y axis.
    pub fn new() -> (t: Transform)
        ensures
            t == Transform::new_spec(),
    {
        Transform { pos: Vec2 { x: 0, y: 0 }, scale: Vec2 { x: ONE, y: ONE }, rot: 0 }
    }

    /// Moves by `v`.
    pub fn mov(&mut self, v: Vec2)
        requires
            old(self).can_mov(v),
        ensures
            final(self).pos == old(self).pos.plus(v),
            final(self).scale == old(self).scale,
            final(self).rot == old(self).rot,
    {
        self.pos = Vec2 { x: self.pos.x + v.x, y: self.pos.y + v.y };
    }

    /// Moves to `v`.
    pub fn mov_to(&mut self, v: Vec2)
        ensures
            final(self).pos == v,
            final(self).scale == old(self).scale,
            final(self).rot == old(self).rot,
    {
        self.pos = v;
    }

    /// Turns by `r`. The angle is not reduced into one turn.
    pub fn rot(&mut self, r: i64)
        requires
            old(self).can_rot(r),
        ensures
            final(self).rot == old(self).rot + r,
            final(self).pos == old(self).pos,
            final(self).scale == old(self).scale,
    {
        self.rot = self.rot + r;
    }

    /// Turns to face `r`. The angle is not reduced into one turn.
    pub fn rot_to(&mut self, r: i64)
        ensures
            final(self).rot == r,
            final(self).pos == old(self).pos,
            final(self).scale == old(self).scale,
    {
        self.rot = r;
    }

    /// Whether advancing by `d` keeps the position within the coordinates.
    pub fn fwd_fits(&self, d: i64) -> (ok: bool)
        ensures
            ok == self.can_fwd(d),
    {
        let hx: i64 = -sin(self.rot);
        let hy: i64 = cos(self.rot);
        let nx: i128 = (self.pos.x as i128) + scaled(d, hx);
        let ny: i128 = (self.pos.y as i128) + scaled(d, hy);
        (i64::MIN as i128) <= nx && nx <= (i64::MAX as i128) && (i64::MIN as i128) <= ny && ny <= (
        i64::MAX as i128)
    }

    /// Advances by the signed distance `d` along the heading: the position
    /// changes by `d` times `(-sin rot, cos rot)`, each component rounded
    /// toward zero.
    pub fn fwd(&mut self, d: i64)
        requires
            old(self).can_fwd(d),
        ensures
            *final(self) == old(self).fwd_spec(d),
    {
        let hx: i64 = -sin(self.rot);
        let hy: i64 = cos(self.rot);
        let nx: i128 = (self.pos.x as i128) + scaled(d, hx);
        let ny: i128 = (self.pos.y as i128) + scaled(d, hy);
        self.pos = Vec2 { x: nx as i64, y: ny as i64 };
    }
}

/// Advancing by `d` and then by `-d` brings a transform back to where it was,
/// whatever its rotation.
pub proof fn lemma_fwd_then_back(t: Transform, d: i64)
    requires
        d != i64::MIN,
        t.can_fwd(d),
    ensures
        t.fwd_spec(d).can_fwd((-d) as i64),
        t.fwd_spec(d).fwd_spec((-d) as i64) == t,
{
    lemma_scaled_neg(d as int, t.heading_x());
    lemma_scaled_neg(d as int, t.heading_y());
}

} // verus!
