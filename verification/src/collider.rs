//! Shapes, colliders and the obstacles that a sweep is run against.

use vstd::prelude::*;
use crate::bounds::{Aabb, inf, spec_inf, spec_sup, sup};
use crate::fixed::{LIMIT, lemma_product_bound};
use crate::vector::Vec3;

verus! {

/// The cross product of `u` and `v` vanishes: the two are parallel, or one of
/// them is zero.
pub open spec fn cross_is_zero(ux: int, uy: int, uz: int, vx: int, vy: int, vz: int) -> bool {
    uy * vz - uz * vy == 0 && uz * vx - ux * vz == 0 && ux * vy - uy * vx == 0
}

/// The three points lie on one line (or two of them coincide).
pub open spec fn collinear(a: Vec3, b: Vec3, c: Vec3) -> bool {
    cross_is_zero(b.x - a.x, b.y - a.y, b.z - a.z, c.x - a.x, c.y - a.y, c.z - a.z)
}

/// Some three of the points are not on one line, so the points span at least a
/// plane.
pub open spec fn spans_plane(points: Seq<Vec3>) -> bool {
    exists|i: int, j: int, k: int|
        0 <= i < points.len() && 0 <= j < points.len() && 0 <= k < points.len() && !collinear(
            points[i],
            points[j],
            points[k],
        )
}

/// Every point lies within `LIMIT` of the origin on every axis.
pub open spec fn all_within_limit(points: Seq<Vec3>) -> bool {
    forall|i: int| 0 <= i < points.len() ==> (#[trigger] points[i]).within(LIMIT as int)
}

/// The lowest corner of the box around the points.
pub open spec fn lowest_corner(points: Seq<Vec3>) -> Vec3
    decreases points.len(),
{
    if points.len() == 0 {
        Vec3 { x: 0, y: 0, z: 0 }
    } else if points.len() == 1 {
        points[0]
    } else {
        spec_inf(lowest_corner(points.drop_last()), points.last())
    }
}

/// The highest corner of the box around the points.
pub open spec fn highest_corner(points: Seq<Vec3>) -> Vec3
    decreases points.len(),
{
    if points.len() == 0 {
        Vec3 { x: 0, y: 0, z: 0 }
    } else if points.len() == 1 {
        points[0]
    } else {
        spec_sup(highest_corner(points.drop_last()), points.last())
    }
}

/// A convex shape, described in its own frame.
#[derive(Debug)]
pub enum Shape {
    /// A box, by its half extents along the three axes.
    Cuboid { half_size: Vec3 },
    /// A ball.
    Sphere { radius: i64 },
    /// A cylinder whose axis is the y axis.
    Cylinder { radius: i64, half_height: i64 },
    /// The convex hull of a set of points.
    ConvexHull { points: Vec<Vec3> },
}

impl Shape {
    /// The shape is one that the engine can bound: its extents are not
    /// negative, everything lies within `LIMIT`, and a hull spans a plane.
    pub open spec fn wf(self) -> bool {
        match self {
            Shape::Cuboid { half_size } => 0 <= half_size.x <= LIMIT && 0 <= half_size.y <= LIMIT
                && 0 <= half_size.z <= LIMIT,
            Shape::Sphere { radius } => 0 <= radius <= LIMIT,
            Shape::Cylinder { radius, half_height } => 0 <= radius <= LIMIT && 0 <= half_height
                <= LIMIT,
            Shape::ConvexHull { points } => all_within_limit(points@) && spans_plane(points@),
        }
    }

    /// The tightest axis-aligned box around the shape in its own frame.
    pub open spec fn spec_local_bounds(self) -> Aabb {
        match self {
            Shape::Cuboid { half_size } => Aabb {
                mins: Vec3 {
                    x: (-half_size.x) as i64,
                    y: (-half_size.y) as i64,
                    z: (-half_size.z) as i64,
                },
                maxs: half_size,
            },
            Shape::Sphere { radius } => Aabb {
                mins: Vec3 { x: (-radius) as i64, y: (-radius) as i64, z: (-radius) as i64 },
                maxs: Vec3 { x: radius, y: radius, z: radius },
            },
            Shape::Cylinder { radius, half_height } => Aabb {
                mins: Vec3 { x: (-radius) as i64, y: (-half_height) as i64, z: (-radius) as i64 },
                maxs: Vec3 { x: radius, y: half_height, z: radius },
            },
            Shape::ConvexHull { points } => Aabb {
                mins: lowest_corner(points@),
                maxs: highest_corner(points@),
            },
        }
    }

    /// Tells whether the shape is well formed.
    pub fn is_valid(&self) -> (b: bool)
        ensures
            b == self.wf(),
    {
        match self {
            Shape::Cuboid { half_size } => 0 <= half_size.x && half_size.x <= LIMIT && 0
                <= half_size.y && half_size.y <= LIMIT && 0 <= half_size.z && half_size.z
                <= LIMIT,
            Shape::Sphere { radius } => 0 <= *radius && *radius <= LIMIT,
            Shape::Cylinder { radius, half_height } => 0 <= *radius && *radius <= LIMIT && 0
                <= *half_height && *half_height <= LIMIT,
            Shape::ConvexHull { points } => forms_hull(points),
        }
    }

    /// The tightest axis-aligned box around the shape in its own frame.
    pub fn local_bounds(&self) -> (b: Aabb)
        requires
            self.wf(),
        ensures
            b == self.spec_local_bounds(),
            b.within(LIMIT as int),
    {
        match self {
            Shape::Cuboid { half_size } => Aabb {
                mins: Vec3 { x: -half_size.x, y: -half_size.y, z: -half_size.z },
                maxs: *half_size,
            },
            Shape::Sphere { radius } => Aabb {
                mins: Vec3 { x: -*radius, y: -*radius, z: -*radius },
                maxs: Vec3 { x: *radius, y: *radius, z: *radius },
            },
            Shape::Cylinder { radius, half_height } => Aabb {
                mins: Vec3 { x: -*radius, y: -*half_height, z: -*radius },
                maxs: Vec3 { x: *radius, y: *half_height, z: *radius },
            },
            Shape::ConvexHull { points } => {
                proof {
                    lemma_spans_plane_has_points(points@);
                }
                corners(points)
            },
        }
    }
}

/// The box around a non-empty set of points.
pub fn corners(points: &Vec<Vec3>) -> (b: Aabb)
    requires
        points@.len() > 0,
        all_within_limit(points@),
    ensures
        b.mins == lowest_corner(points@),
        b.maxs == highest_corner(points@),
        b.within(LIMIT as int),
{
    let mut mins: Vec3 = points[0];
    let mut maxs: Vec3 = points[0];
    let mut i: usize = 1;
    assert(points@.take(1).len() == 1);
    assert(points@.take(1)[0] == points@[0]);
    while i < points.len()
        invariant
            1 <= i <= points.len(),
            all_within_limit(points@),
            mins == lowest_corner(points@.take(i as int)),
            maxs == highest_corner(points@.take(i as int)),
            mins.within(LIMIT as int),
            maxs.within(LIMIT as int),
        decreases points.len() - i,
    {
        proof {
            let next = points@.take(i as int + 1);
            assert(next.drop_last() =~= points@.take(i as int));
            assert(next.last() == points@[i as int]);
            assert(points@[i as int].within(LIMIT as int));
        }
        mins = inf(mins, points[i]);
        maxs = sup(maxs, points[i]);
        i = i + 1;
    }
    assert(points@.take(i as int) =~= points@);
    Aabb { mins, maxs }
}

/// Points that span a plane are at least one point.
pub proof fn lemma_spans_plane_has_points(points: Seq<Vec3>)
    requires
        spans_plane(points),
    ensures
        points.len() > 0,
{
}

/// With `u` not zero along x: what is parallel to `u` twice over is parallel
/// to each other.
proof fn lemma_parallel_through_x(
    ux: int,
    uy: int,
    uz: int,
    px: int,
    py: int,
    pz: int,
    qx: int,
    qy: int,
    qz: int,
)
    requires
        ux != 0,
        cross_is_zero(ux, uy, uz, px, py, pz),
        cross_is_zero(ux, uy, uz, qx, qy, qz),
    ensures
        cross_is_zero(px, py, pz, qx, qy, qz),
{
    let a = ux * py;
    let b = ux * pz;
    assert(ux * (py * qz - pz * qy) == a * qz - b * qy) by (nonlinear_arith)
        requires
            a == ux * py,
            b == ux * pz,
    ;
    assert(a == uy * px && b == uz * px);
    assert(a * qz - b * qy == px * (uy * qz - uz * qy)) by (nonlinear_arith)
        requires
            a == uy * px,
            b == uz * px,
    ;
    assert(ux * (pz * qx - px * qz) == 0) by (nonlinear_arith)
        requires
            ux * pz == uz * px,
            ux * qz == uz * qx,
    ;
    assert(ux * (px * qy - py * qx) == 0) by (nonlinear_arith)
        requires
            ux * py == uy * px,
            ux * qy == uy * qx,
    ;
    assert(px * (uy * qz - uz * qy) == 0) by (nonlinear_arith)
        requires
            uy * qz - uz * qy == 0,
    ;
    lemma_zero_product(ux, py * qz - pz * qy);
    lemma_zero_product(ux, pz * qx - px * qz);
    lemma_zero_product(ux, px * qy - py * qx);
}

/// A product vanishes only if a factor does.
proof fn lemma_zero_product(a: int, b: int)
    requires
        a != 0,
        a * b == 0,
    ensures
        b == 0,
{
    assert(b == 0) by (nonlinear_arith)
        requires
            a != 0,
            a * b == 0,
    ;
}

/// What is parallel to a non-zero `u` twice over is parallel to each other.
proof fn lemma_parallel_transitive(
    ux: int,
    uy: int,
    uz: int,
    px: int,
    py: int,
    pz: int,
    qx: int,
    qy: int,
    qz: int,
)
    requires
        ux != 0 || uy != 0 || uz != 0,
        cross_is_zero(ux, uy, uz, px, py, pz),
        cross_is_zero(ux, uy, uz, qx, qy, qz),
    ensures
        cross_is_zero(px, py, pz, qx, qy, qz),
{
    if ux != 0 {
        lemma_parallel_through_x(ux, uy, uz, px, py, pz, qx, qy, qz);
    } else if uy != 0 {
        lemma_parallel_through_x(uy, uz, ux, py, pz, px, qy, qz, qx);
    } else {
        lemma_parallel_through_x(uz, ux, uy, pz, px, py, qz, qx, qy);
    }
}

/// Three points that each lie on the line through `o` and `a` lie on one line.
proof fn lemma_on_one_line(o: Vec3, a: Vec3, p: Vec3, q: Vec3, r: Vec3)
    requires
        a != o,
        collinear(o, a, p),
        collinear(o, a, q),
        collinear(o, a, r),
    ensures
        collinear(p, q, r),
{
    let (ux, uy, uz) = (a.x - o.x, a.y - o.y, a.z - o.z);
    let (px, py, pz) = (p.x - o.x, p.y - o.y, p.z - o.z);
    let (qx, qy, qz) = (q.x - o.x, q.y - o.y, q.z - o.z);
    let (rx, ry, rz) = (r.x - o.x, r.y - o.y, r.z - o.z);
    lemma_parallel_transitive(ux, uy, uz, px, py, pz, qx, qy, qz);
    lemma_parallel_transitive(ux, uy, uz, px, py, pz, rx, ry, rz);
    lemma_parallel_transitive(ux, uy, uz, qx, qy, qz, rx, ry, rz);
    assert((qy - py) * (rz - pz) - (qz - pz) * (ry - py) == (qy * rz - qz * ry) - (py * rz - pz
        * ry) + (py * qz - pz * qy)) by (nonlinear_arith);
    assert((qz - pz) * (rx - px) - (qx - px) * (rz - pz) == (qz * rx - qx * rz) - (pz * rx - px
        * rz) + (pz * qx - px * qz)) by (nonlinear_arith);
    assert((qx - px) * (ry - py) - (qy - py) * (rx - px) == (qx * ry - qy * rx) - (px * ry - py
        * rx) + (px * qy - py * qx)) by (nonlinear_arith);
    assert(q.x - p.x == qx - px && q.y - p.y == qy - py && q.z - p.z == qz - pz);
    assert(r.x - p.x == rx - px && r.y - p.y == ry - py && r.z - p.z == rz - pz);
}

/// Tells whether three points, each within `LIMIT`, lie on one line.
pub fn on_one_line(a: Vec3, b: Vec3, c: Vec3) -> (r: bool)
    requires
        a.within(LIMIT as int),
        b.within(LIMIT as int),
        c.within(LIMIT as int),
    ensures
        r == collinear(a, b, c),
{
    let ux: i128 = (b.x - a.x) as i128;
    let uy: i128 = (b.y - a.y) as i128;
    let uz: i128 = (b.z - a.z) as i128;
    let vx: i128 = (c.x - a.x) as i128;
    let vy: i128 = (c.y - a.y) as i128;
    let vz: i128 = (c.z - a.z) as i128;
    proof {
        let m = 2 * LIMIT;
        assert(m * m == 0x400_0000_0000_0000_0000_0000_0000_0000int) by (nonlinear_arith)
            requires
                m == 0x2000_0000_0000_0000int,
        ;
        lemma_product_bound(uy as int, vz as int, m, m);
        lemma_product_bound(uz as int, vy as int, m, m);
        lemma_product_bound(uz as int, vx as int, m, m);
        lemma_product_bound(ux as int, vz as int, m, m);
        lemma_product_bound(ux as int, vy as int, m, m);
        lemma_product_bound(uy as int, vx as int, m, m);
    }
    uy * vz - uz * vy == 0 && uz * vx - ux * vz == 0 && ux * vy - uy * vx == 0
}

/// Tells whether the points can form a hull: each lies within `LIMIT`, and
/// they are not all on one line.
pub fn forms_hull(points: &Vec<Vec3>) -> (b: bool)
    ensures
        b == (all_within_limit(points@) && spans_plane(points@)),
{
    let n: usize = points.len();
    let mut i: usize = 0;
    while i < n
        invariant
            n == points.len(),
            i <= n,
            forall|j: int| 0 <= j < i ==> (#[trigger] points@[j]).within(LIMIT as int),
        decreases n - i,
    {
        if !points[i].is_within(LIMIT) {
            return false;
        }
        i = i + 1;
    }
    if n == 0 {
        return false;
    }
    let origin: Vec3 = points[0];
    let mut a: usize = 1;
    while a < n && points[a] == origin
        invariant
            n == points.len(),
            1 <= a <= n,
            origin == points@[0],
            forall|j: int| 0 <= j < a ==> #[trigger] points@[j] == origin,
        decreases n - a,
    {
        a = a + 1;
    }
    if a == n {
        assert forall|i: int, j: int, k: int|
            0 <= i < points@.len() && 0 <= j < points@.len() && 0 <= k < points@.len() implies collinear(
            points@[i],
            points@[j],
            points@[k],
        ) by {
            assert(points@[i] == origin && points@[j] == origin && points@[k] == origin);
        }
        return false;
    }
    let other: Vec3 = points[a];
    let mut b: usize = a + 1;
    assert forall|j: int| 0 <= j < b implies collinear(origin, other, #[trigger] points@[j]) by {
        let p = points@[j];
        if j < a {
            assert(p == origin);
        } else {
            assert(p == other);
            assert((other.y - origin.y) * (other.z - origin.z) == (other.z - origin.z) * (other.y
                - origin.y)) by (nonlinear_arith);
            assert((other.z - origin.z) * (other.x - origin.x) == (other.x - origin.x) * (other.z
                - origin.z)) by (nonlinear_arith);
            assert((other.x - origin.x) * (other.y - origin.y) == (other.y - origin.y) * (other.x
                - origin.x)) by (nonlinear_arith);
        }
    }
    while b < n && on_one_line(origin, other, points[b])
        invariant
            n == points.len(),
            a < b <= n,
            origin == points@[0],
            other == points@[a as int],
            other != origin,
            all_within_limit(points@),
            forall|j: int| 0 <= j < b ==> collinear(origin, other, #[trigger] points@[j]),
        decreases n - b,
    {
        b = b + 1;
    }
    if b == n {
        assert forall|i: int, j: int, k: int|
            0 <= i < points@.len() && 0 <= j < points@.len() && 0 <= k < points@.len() implies collinear(
            points@[i],
            points@[j],
            points@[k],
        ) by {
            lemma_on_one_line(origin, other, points@[i], points@[j], points@[k]);
        }
        return false;
    }
    assert(!collinear(points@[0], points@[a as int], points@[b as int]));
    true
}

/// A shape together with the offset at which its owner carries it. The sweep
/// reads the shape alone.
#[derive(Debug)]
pub struct Collider {
    pub shape: Shape,
    pub offset: Vec3,
}

impl Collider {
    /// The collider's shape is well formed.
    pub open spec fn wf(self) -> bool {
        self.shape.wf()
    }

    /// A box with the given half extents, at no offset.
    pub fn cuboid(half_size: Vec3) -> (c: Collider)
        ensures
            c.shape == (Shape::Cuboid { half_size }),
            c.offset == (Vec3 { x: 0, y: 0, z: 0 }),
    {
        Collider { shape: Shape::Cuboid { half_size }, offset: Vec3::zero() }
    }

    /// A ball with the given radius, at no offset.
    pub fn sphere(radius: i64) -> (c: Collider)
        ensures
            c.shape == (Shape::Sphere { radius }),
            c.offset == (Vec3 { x: 0, y: 0, z: 0 }),
    {
        Collider { shape: Shape::Sphere { radius }, offset: Vec3::zero() }
    }

    /// A cylinder around the y axis, at no offset.
    pub fn cylinder(radius: i64, half_height: i64) -> (c: Collider)
        ensures
            c.shape == (Shape::Cylinder { radius, half_height }),
            c.offset == (Vec3 { x: 0, y: 0, z: 0 }),
    {
        Collider { shape: Shape::Cylinder { radius, half_height }, offset: Vec3::zero() }
    }

    /// The convex hull of the points, at no offset; `None` when the points
    /// cannot form one: when one lies beyond `LIMIT`, or when all lie on one
    /// line (fewer than three points always do).
    pub fn convex_hull(vertices: Vec<Vec3>) -> (c: Option<Collider>)
        ensures
            c is Some <==> all_within_limit(vertices@) && spans_plane(vertices@),
            c matches Some(collider) ==> collider.shape == (Shape::ConvexHull { points: vertices })
                && collider.offset == (Vec3 { x: 0, y: 0, z: 0 }) && collider.wf(),
    {
        if forms_hull(&vertices) {
            Some(Collider { shape: Shape::ConvexHull { points: vertices }, offset: Vec3::zero() })
        } else {
            None
        }
    }

    /// The same collider, carried at `offset`.
    pub fn with_offset(self, offset: Vec3) -> (c: Collider)
        ensures
            c.shape == self.shape,
            c.offset == offset,
    {
        let mut moved = self;
        moved.offset = offset;
        moved
    }
}

/// An obstacle as a sweep sees it: who it is, and the box around its collider
/// where it stands.
#[derive(Clone, Copy, Debug, PartialEq, Eq, Structural)]
pub struct CollisionEntity {
    pub entity: u64,
    pub bounds: Aabb,
}

} // verus!
