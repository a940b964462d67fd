//! What a contact query reports, and the intersection that a sweep makes of it.

use vstd::prelude::*;
use crate::fixed::{SCALE, lemma_product_bound, lemma_square_nonnegative, magnitude};
use crate::vector::{UNIT_SLACK, Vec3};

verus! {

/// The extent of the world in which contacts are resolved: a million units
/// each way.
pub const WORLD_EXTENT: i64 = 1_000_000_000_000;

/// The closest points of two shapes, as a contact query reports them.
#[derive(Clone, Copy, Debug, PartialEq, Eq, Structural)]
pub struct Contact {
    /// The contact point on the first shape.
    pub point1: Vec3,
    /// The contact point on the second shape.
    pub point2: Vec3,
    /// The normal that points out of the first shape.
    pub normal1: Vec3,
    /// The normal that points out of the second shape.
    pub normal2: Vec3,
    /// The distance between the two points; negative when the shapes overlap.
    pub dist: i64,
}

/// The three ways in which a contact query can end.
#[derive(Clone, Copy, Debug, PartialEq, Eq, Structural)]
pub enum ContactOutcome {
    /// The shapes touch or overlap.
    Contact(Contact),
    /// The shapes are apart.
    NoContact,
    /// The query could not be computed for this pair of shapes.
    Unsupported,
}

/// The first contact of a sweep.
#[derive(Clone, Copy, Debug, PartialEq, Eq, Structural)]
pub struct Intersection {
    /// The obstacle that was hit.
    pub entity: u64,
    /// The normal that points out of the mover.
    pub our_normal: Vec3,
    /// The normal that points out of the obstacle.
    pub their_normal: Vec3,
    /// The contact point on the mover.
    pub our_contact_point: Vec3,
    /// The contact point on the obstacle.
    pub their_contact_point: Vec3,
    /// The distance between the two points; negative when the shapes overlap.
    pub distance: i64,
    /// The fraction of the movement that was travelled before the contact.
    pub toi: i64,
}

impl Contact {
    /// The points lie in the world, the normals are unit vectors, and the
    /// distance is no longer than the world.
    pub open spec fn wf(self) -> bool {
        self.point1.within(WORLD_EXTENT as int) && self.point2.within(WORLD_EXTENT as int)
            && self.normal1.is_unit() && self.normal2.is_unit() && magnitude(self.dist as int)
            <= WORLD_EXTENT
    }

    /// Tells whether the contact is well formed.
    pub fn is_valid(&self) -> (b: bool)
        ensures
            b == self.wf(),
    {
        self.point1.is_within(WORLD_EXTENT) && self.point2.is_within(WORLD_EXTENT) && has_unit_length(
            self.normal1,
        ) && has_unit_length(self.normal2) && -WORLD_EXTENT <= self.dist && self.dist
            <= WORLD_EXTENT
    }
}

impl ContactOutcome {
    /// The query found a contact that the engine can take: a contact that is
    /// well formed. One that is not counts as a query that failed.
    pub open spec fn spec_reports_contact(self) -> bool {
        self matches ContactOutcome::Contact(contact) && contact.wf()
    }

    /// Tells whether the query found a contact that the engine can take.
    pub fn reports_contact(&self) -> (b: bool)
        ensures
            b == self.spec_reports_contact(),
    {
        match self {
            ContactOutcome::Contact(contact) => contact.is_valid(),
            _ => false,
        }
    }
}

impl Intersection {
    /// The points lie in the world, the normals are unit vectors, the distance
    /// is no longer than the world, and the time of impact is a fraction.
    pub open spec fn wf(self) -> bool {
        self.our_contact_point.within(WORLD_EXTENT as int) && self.their_contact_point.within(
            WORLD_EXTENT as int,
        ) && self.our_normal.is_unit() && self.their_normal.is_unit() && magnitude(
            self.distance as int,
        ) <= WORLD_EXTENT && 0 <= self.toi <= SCALE
    }
}

/// Tells whether the squared length of `v` is 1.0 up to `UNIT_SLACK`.
pub fn has_unit_length(v: Vec3) -> (b: bool)
    ensures
        b == v.is_unit(),
{
    if !v.is_within(2 * SCALE) {
        proof {
            lemma_beyond_unit(v);
        }
        return false;
    }
    proof {
        lemma_product_bound(v.x as int, v.x as int, 2 * SCALE, 2 * SCALE);
        lemma_product_bound(v.y as int, v.y as int, 2 * SCALE, 2 * SCALE);
        lemma_product_bound(v.z as int, v.z as int, 2 * SCALE, 2 * SCALE);
    }
    let n: i64 = v.x * v.x + v.y * v.y + v.z * v.z;
    SCALE * SCALE - UNIT_SLACK <= n && n <= SCALE * SCALE + UNIT_SLACK
}

/// A vector with a component beyond 2.0 is no unit vector.
proof fn lemma_beyond_unit(v: Vec3)
    requires
        !v.within(2 * SCALE),
    ensures
        !v.is_unit(),
{
    lemma_square_nonnegative(v.x as int);
    lemma_square_nonnegative(v.y as int);
    lemma_square_nonnegative(v.z as int);
    lemma_large_square(v.x as int);
    lemma_large_square(v.y as int);
    lemma_large_square(v.z as int);
}

/// The square of a scalar beyond 2.0 is beyond 4.0.
proof fn lemma_large_square(c: int)
    ensures
        magnitude(c) > 2 * SCALE ==> c * c > 4 * (SCALE * SCALE),
{
    if magnitude(c) > 2 * SCALE {
        let m = magnitude(c);
        assert(m * m > 4 * (SCALE * SCALE)) by (nonlinear_arith)
            requires
                m > 2 * SCALE,
        ;
        assert(m * m == c * c) by (nonlinear_arith)
            requires
                m == magnitude(c),
        ;
    }
}

/// The intersection that a query's outcome stands for: a well-formed contact
/// becomes an intersection with `entity`, with a time of impact still to be
/// set; a query that found the shapes apart, could not be computed, or
/// reported a contact that is not well formed, gives none.
pub open spec fn spec_perform_intersection(entity: u64, outcome: ContactOutcome) -> Option<
    Intersection,
> {
    match outcome {
        ContactOutcome::Contact(contact) if contact.wf() => Some(
            Intersection {
                entity,
                our_normal: contact.normal1,
                their_normal: contact.normal2,
                our_contact_point: contact.point1,
                their_contact_point: contact.point2,
                distance: contact.dist,
                toi: 0,
            },
        ),
        _ => None,
    }
}

/// Turns the outcome of a contact query against `other_entity` into an
/// intersection, if it reports a contact that the engine can take.
pub fn perform_intersection(other_entity: u64, outcome: ContactOutcome) -> (r: Option<
    Intersection,
>)
    ensures
        r == spec_perform_intersection(other_entity, outcome),
        r is Some <==> outcome.spec_reports_contact(),
        r matches Some(found) ==> found.wf() && found.toi == 0 && found.entity == other_entity,
{
    match outcome {
        ContactOutcome::Contact(contact) => {
            if contact.is_valid() {
                Some(
                    Intersection {
                        entity: other_entity,
                        our_normal: contact.normal1,
                        their_normal: contact.normal2,
                        our_contact_point: contact.point1,
                        their_contact_point: contact.point2,
                        distance: contact.dist,
                        toi: 0,
                    },
                )
            } else {
                None
            }
        },
        ContactOutcome::NoContact => None,
        ContactOutcome::Unsupported => None,
    }
}

} // verus!
