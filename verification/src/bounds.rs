//! Axis-aligned bounding boxes and the swept bound of a moving box.

use vstd::prelude::*;
use crate::fixed::LIMIT;
use crate::vector::Vec3;

verus! {

/// The smaller of two scalars.
pub open spec fn spec_lower(a: i64, b: i64) -> i64 {
    if a <= b {
        a
    } else {
        b
    }
}

/// The larger of two scalars.
pub open spec fn spec_upper(a: i64, b: i64) -> i64 {
    if a >= b {
        a
    } else {
        b
    }
}

/// The component-wise minimum of two vectors.
pub open spec fn spec_inf(a: Vec3, b: Vec3) -> Vec3 {
    Vec3 { x: spec_lower(a.x, b.x), y: spec_lower(a.y, b.y), z: spec_lower(a.z, b.z) }
}

/// The component-wise maximum of two vectors.
pub open spec fn spec_sup(a: Vec3, b: Vec3) -> Vec3 {
    Vec3 { x: spec_upper(a.x, b.x), y: spec_upper(a.y, b.y), z: spec_upper(a.z, b.z) }
}

pub fn lower(a: i64, b: i64) -> (m: i64)
    ensures
        m == spec_lower(a, b),
{
    if a <= b {
        a
    } else {
        b
    }
}

pub fn upper(a: i64, b: i64) -> (m: i64)
    ensures
        m == spec_upper(a, b),
{
    if a >= b {
        a
    } else {
        b
    }
}

pub fn inf(a: Vec3, b: Vec3) -> (m: Vec3)
    ensures
        m == spec_inf(a, b),
{
    Vec3 { x: lower(a.x, b.x), y: lower(a.y, b.y), z: lower(a.z, b.z) }
}

pub fn sup(a: Vec3, b: Vec3) -> (m: Vec3)
    ensures
        m == spec_sup(a, b),
{
    Vec3 { x: upper(a.x, b.x), y: upper(a.y, b.y), z: upper(a.z, b.z) }
}

/// An axis-aligned box, given by its lowest and its highest corner.
#[derive(Clone, Copy, Debug, PartialEq, Eq, Structural)]
pub struct Aabb {
    pub mins: Vec3,
    pub maxs: Vec3,
}

impl Aabb {
    /// Both corners lie within `bound` of the origin on every axis.
    pub open spec fn within(self, bound: int) -> bool {
        self.mins.within(bound) && self.maxs.within(bound)
    }

    /// The point lies in the box, faces included.
    pub open spec fn holds(self, p: Vec3) -> bool {
        self.mins.x <= p.x <= self.maxs.x && self.mins.y <= p.y <= self.maxs.y && self.mins.z
            <= p.z <= self.maxs.z
    }

    /// The other box lies in this one.
    pub open spec fn encloses(self, other: Aabb) -> bool {
        self.mins.x <= other.mins.x && other.maxs.x <= self.maxs.x && self.mins.y <= other.mins.y
            && other.maxs.y <= self.maxs.y && self.mins.z <= other.mins.z && other.maxs.z
            <= self.maxs.z
    }

    /// The two boxes share a point; boxes that only touch do.
    pub open spec fn spec_intersects(self, other: Aabb) -> bool {
        self.mins.x <= other.maxs.x && self.mins.y <= other.maxs.y && self.mins.z <= other.maxs.z
            && self.maxs.x >= other.mins.x && self.maxs.y >= other.mins.y && self.maxs.z
            >= other.mins.z
    }

    /// The smallest box that encloses both.
    pub open spec fn spec_merged(self, other: Aabb) -> Aabb {
        Aabb { mins: spec_inf(self.mins, other.mins), maxs: spec_sup(self.maxs, other.maxs) }
    }

    /// The box moved by `by`.
    pub open spec fn spec_translated(self, by: Vec3) -> Aabb {
        Aabb { mins: self.mins.spec_plus(by), maxs: self.maxs.spec_plus(by) }
    }

    /// The bound of a box that starts at `start` and moves by `movement`:
    /// the smallest box around its first and its last place.
    pub open spec fn spec_swept(self, start: Vec3, movement: Vec3) -> Aabb {
        self.spec_translated(start).spec_merged(
            self.spec_translated(start.spec_plus(movement)),
        )
    }

    pub fn intersects(&self, other: &Aabb) -> (b: bool)
        ensures
            b == self.spec_intersects(*other),
    {
        self.mins.x <= other.maxs.x && self.mins.y <= other.maxs.y && self.mins.z <= other.maxs.z
            && self.maxs.x >= other.mins.x && self.maxs.y >= other.mins.y && self.maxs.z
            >= other.mins.z
    }

    pub fn merged(&self, other: &Aabb) -> (m: Aabb)
        ensures
            m == self.spec_merged(*other),
            m.encloses(*self),
            m.encloses(*other),
    {
        Aabb { mins: inf(self.mins, other.mins), maxs: sup(self.maxs, other.maxs) }
    }

    pub fn translated(&self, by: Vec3) -> (m: Aabb)
        requires
            self.within(2 * LIMIT),
            by.within(2 * LIMIT),
        ensures
            m == self.spec_translated(by),
            m.within(4 * LIMIT),
    {
        Aabb { mins: self.mins.plus(by), maxs: self.maxs.plus(by) }
    }

    /// The swept bound of this box, taken as the local bound of a mover that
    /// starts at `start` and moves by `movement` without turning.
    pub fn swept(&self, start: Vec3, movement: Vec3) -> (m: Aabb)
        requires
            self.within(LIMIT as int),
            start.within(LIMIT as int),
            movement.within(LIMIT as int),
        ensures
            m == self.spec_swept(start, movement),
            m.within(3 * LIMIT),
    {
        let first = self.translated(start);
        let last = self.translated(start.plus(movement));
        first.merged(&last)
    }
}

/// `part` lies between zero and `whole`, ends included.
pub open spec fn lies_within(part: i64, whole: i64) -> bool {
    (whole >= 0 ==> 0 <= part <= whole) && (whole <= 0 ==> whole <= part <= 0)
}

/// The swept bound encloses the box at every place between the first and the
/// last: at `start + offset` for any `offset` that lies, on each axis, between
/// zero and the movement.
pub proof fn lemma_swept_encloses(local: Aabb, start: Vec3, movement: Vec3, offset: Vec3)
    requires
        local.within(LIMIT as int),
        start.within(LIMIT as int),
        movement.within(LIMIT as int),
        lies_within(offset.x, movement.x),
        lies_within(offset.y, movement.y),
        lies_within(offset.z, movement.z),
    ensures
        local.spec_swept(start, movement).encloses(
            local.spec_translated(start.spec_plus(offset)),
        ),
{
}

} // verus!
