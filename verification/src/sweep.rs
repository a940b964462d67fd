//! The sweep engine: a broad phase over bounding boxes, then a march along the
//! movement in fixed steps, with one contact query per step and candidate.
//!
//! The engine does not compute contacts. It says which query it needs next
//! (`Sweep::pending`), takes the query's outcome (`Sweep::answer`), and holds
//! the first intersection once no query is pending.

use vstd::prelude::*;
use crate::bounds::Aabb;
use crate::collider::{CollisionEntity, Shape};
use crate::contact::{
    ContactOutcome, Intersection, perform_intersection, spec_perform_intersection,
};
use crate::fixed::{
    LIMIT, SCALE, lemma_floor_sqrt_is, lemma_part_of, lemma_trunc_div, lemma_trunc_div_le,
    magnitude, mul_div, trunc_div,
};
use crate::vector::{Vec3, lemma_speed_bound};

verus! {

/// The distance between two probes of a sweep: a hundredth of a unit.
pub const STEP_SIZE: i64 = 10_000;

/// An obstacle that passed the broad phase: its place in the list that the
/// sweep was given, and who it is.
#[derive(Clone, Copy, Debug, PartialEq, Eq, Structural)]
pub struct Target {
    pub index: usize,
    pub entity: u64,
}

/// A contact query that a sweep needs: the mover at `position` against the
/// obstacle at `index` of the list that the sweep was given.
#[derive(Clone, Copy, Debug, PartialEq, Eq, Structural)]
pub struct Probe {
    pub position: Vec3,
    pub index: usize,
    pub entity: u64,
}

/// The obstacles whose box meets `swept`, in the order of the list.
pub open spec fn spec_broad_phase(swept: Aabb, colliders: Seq<CollisionEntity>) -> Seq<Target>
    decreases colliders.len(),
{
    if colliders.len() == 0 {
        Seq::empty()
    } else {
        let rest = spec_broad_phase(swept, colliders.drop_last());
        if swept.spec_intersects(colliders.last().bounds) {
            rest.push(
                Target { index: (colliders.len() - 1) as usize, entity: colliders.last().entity },
            )
        } else {
            rest
        }
    }
}

/// Keeps the obstacles whose box meets the swept bound of the mover.
pub fn broad_phase(swept: &Aabb, colliders: &Vec<CollisionEntity>) -> (targets: Vec<Target>)
    ensures
        targets@ == spec_broad_phase(*swept, colliders@),
        targets@.len() <= colliders@.len(),
{
    let mut targets: Vec<Target> = Vec::new();
    let mut i: usize = 0;
    assert(colliders@.take(0) =~= Seq::empty());
    while i < colliders.len()
        invariant
            i <= colliders.len(),
            targets@ == spec_broad_phase(*swept, colliders@.take(i as int)),
            targets@.len() <= i,
        decreases colliders.len() - i,
    {
        proof {
            let next = colliders@.take(i as int + 1);
            assert(next.drop_last() =~= colliders@.take(i as int));
            assert(next.last() == colliders@[i as int]);
        }
        if swept.intersects(&colliders[i].bounds) {
            targets.push(Target { index: i, entity: colliders[i].entity });
        }
        i = i + 1;
    }
    assert(colliders@.take(i as int) =~= colliders@);
    targets
}

/// Every target of the broad phase names an obstacle of the list whose box
/// meets the swept bound.
pub proof fn lemma_broad_phase_sound(swept: Aabb, colliders: Seq<CollisionEntity>, t: int)
    requires
        0 <= t < spec_broad_phase(swept, colliders).len(),
        colliders.len() <= usize::MAX,
    ensures
        0 <= spec_broad_phase(swept, colliders)[t].index < colliders.len(),
        spec_broad_phase(swept, colliders)[t].entity == colliders[spec_broad_phase(
            swept,
            colliders,
        )[t].index as int].entity,
        swept.spec_intersects(
            colliders[spec_broad_phase(swept, colliders)[t].index as int].bounds,
        ),
    decreases colliders.len(),
{
    if colliders.len() > 0 {
        let rest = spec_broad_phase(swept, colliders.drop_last());
        if t < rest.len() {
            lemma_broad_phase_sound(swept, colliders.drop_last(), t);
        }
    }
}

/// The broad phase has no false negatives: every obstacle of the list whose
/// box meets the swept bound is among the targets.
pub proof fn lemma_broad_phase_complete(swept: Aabb, colliders: Seq<CollisionEntity>, i: int)
    requires
        0 <= i < colliders.len(),
        colliders.len() <= usize::MAX,
        swept.spec_intersects(colliders[i].bounds),
    ensures
        exists|t: int|
            0 <= t < spec_broad_phase(swept, colliders).len() && (#[trigger] spec_broad_phase(
                swept,
                colliders,
            )[t]).index == i,
    decreases colliders.len(),
{
    let all = spec_broad_phase(swept, colliders);
    let rest = spec_broad_phase(swept, colliders.drop_last());
    if i == colliders.len() - 1 {
        assert(all[rest.len() as int].index == i);
    } else {
        lemma_broad_phase_complete(swept, colliders.drop_last(), i);
        let t = choose|t: int| 0 <= t < rest.len() && (#[trigger] rest[t]).index == i;
        assert(all[t].index == i);
    }
}

/// The closer of two intersections: the second only where it is strictly
/// closer than the first, so that of two equally close ones the first stays.
pub open spec fn spec_closer(best: Option<Intersection>, hit: Option<Intersection>) -> Option<
    Intersection,
> {
    match (best, hit) {
        (Some(b), Some(h)) => if h.distance < b.distance {
            hit
        } else {
            best
        },
        (None, Some(_)) => hit,
        (_, None) => best,
    }
}

/// The closer of two intersections; of two equally close ones, the first.
pub fn closer(best: Option<Intersection>, hit: Option<Intersection>) -> (r: Option<Intersection>)
    ensures
        r == spec_closer(best, hit),
{
    match (best, hit) {
        (Some(b), Some(h)) => if h.distance < b.distance {
            hit
        } else {
            best
        },
        (None, Some(_)) => hit,
        (_, None) => best,
    }
}

/// The distance of the probe that follows the one at `travelled`.
pub open spec fn spec_next_distance(travelled: int, length: int) -> int {
    if travelled + STEP_SIZE < length {
        travelled + STEP_SIZE
    } else {
        length
    }
}

/// The number of probes that follow the one at `travelled`, if none finds a
/// contact.
pub open spec fn steps_after(travelled: int, length: int) -> int {
    (length - travelled + STEP_SIZE - 1) / (STEP_SIZE as int)
}

/// A sweep as the contracts see it.
pub struct SweepModel {
    pub origin: Vec3,
    pub movement: Vec3,
    pub length: i64,
    pub travelled: i64,
    pub targets: Seq<Target>,
    pub cursor: usize,
    pub best: Option<Intersection>,
}

/// A sweep in progress.
#[derive(Debug)]
pub struct Sweep {
    /// Where the mover starts.
    pub origin: Vec3,
    /// The movement that is swept.
    pub movement: Vec3,
    /// The length of the movement.
    pub length: i64,
    /// The distance from the origin of the probe that is being made.
    pub travelled: i64,
    /// The obstacles that passed the broad phase.
    pub targets: Vec<Target>,
    /// How many targets have been answered for at the current probe.
    pub cursor: usize,
    /// The closest contact at the current probe so far.
    pub best: Option<Intersection>,
}

impl View for Sweep {
    type V = SweepModel;

    open spec fn view(&self) -> SweepModel {
        SweepModel {
            origin: self.origin,
            movement: self.movement,
            length: self.length,
            travelled: self.travelled,
            targets: self.targets@,
            cursor: self.cursor,
            best: self.best,
        }
    }
}

impl SweepModel {
    /// No query is pending: the sweep has its result.
    pub open spec fn finished(self) -> bool {
        self.cursor >= self.targets.len()
    }

    /// The state is one that a sweep can reach.
    pub open spec fn wf(self) -> bool {
        &&& self.origin.within(LIMIT as int)
        &&& self.movement.within(LIMIT as int)
        &&& self.length == self.movement.spec_length()
        &&& 0 <= self.length <= 2 * LIMIT
        &&& 0 <= self.travelled <= self.length
        &&& self.cursor <= self.targets.len()
        &&& self.targets.len() <= usize::MAX
        &&& !self.finished() ==> self.length > 0 && self.travelled > 0
        &&& (self.best matches Some(hit) ==> hit.wf())
    }

    /// Where the mover stands at the current probe: the part of the movement
    /// that `travelled` is of its length, from the origin.
    pub open spec fn position(self) -> Vec3 {
        self.origin.spec_plus(self.movement.spec_ratio(self.travelled as int, self.length as int))
    }

    /// The query that the sweep needs next, if it needs one.
    pub open spec fn pending(self) -> Option<Probe> {
        if self.finished() {
            None
        } else {
            Some(
                Probe {
                    position: self.position(),
                    index: self.targets[self.cursor as int].index,
                    entity: self.targets[self.cursor as int].entity,
                },
            )
        }
    }

    /// The fraction of the movement that has been travelled.
    pub open spec fn toi(self) -> int {
        trunc_div(self.travelled * SCALE, self.length as int)
    }

    /// The sweep after the pending query was answered with `outcome`.
    ///
    /// The contact, if there is one, replaces the best of this probe where it
    /// is strictly closer. After the last target of a probe, the sweep ends
    /// with the best contact, stamped with the time of impact, if there is
    /// one; it ends without one if the whole length was travelled; otherwise
    /// it goes on to the next probe.
    pub open spec fn after(self, outcome: ContactOutcome) -> SweepModel {
        let hit = spec_perform_intersection(self.targets[self.cursor as int].entity, outcome);
        let best = spec_closer(self.best, hit);
        if self.cursor + 1 < self.targets.len() {
            SweepModel { cursor: (self.cursor + 1) as usize, best, ..self }
        } else if let Some(found) = best {
            SweepModel {
                cursor: self.targets.len() as usize,
                best: Some(Intersection { toi: self.toi() as i64, ..found }),
                ..self
            }
        } else if self.travelled >= self.length {
            SweepModel { cursor: self.targets.len() as usize, best: None, ..self }
        } else {
            SweepModel {
                travelled: spec_next_distance(self.travelled as int, self.length as int) as i64,
                cursor: 0,
                best: None,
                ..self
            }
        }
    }

    /// The first intersection of the sweep, once it is finished.
    pub open spec fn intersection(self) -> Option<Intersection> {
        if self.finished() {
            self.best
        } else {
            None
        }
    }

    /// An upper bound on the number of queries that the sweep still needs.
    pub open spec fn queries_left(self) -> int {
        if self.finished() {
            0
        } else {
            steps_after(self.travelled as int, self.length as int) * self.targets.len() + (
            self.targets.len() - self.cursor)
        }
    }

    /// The sweep after the pending queries were answered with `outcomes`, one
    /// after the other; outcomes beyond the end of the sweep are not read.
    pub open spec fn replay(self, outcomes: Seq<ContactOutcome>) -> SweepModel
        decreases outcomes.len(),
    {
        if outcomes.len() == 0 || self.finished() {
            self
        } else {
            self.after(outcomes[0]).replay(outcomes.drop_first())
        }
    }
}

/// The sweep of a mover with the local bound `local` from `translation` by
/// `movement`, before its first query: the targets are what the broad phase
/// keeps of `colliders`, and the first probe lies one step along the movement,
/// or at its end if that is nearer. A movement of no length needs no query.
pub open spec fn spec_begin(
    local: Aabb,
    translation: Vec3,
    movement: Vec3,
    colliders: Seq<CollisionEntity>,
) -> SweepModel {
    let length = movement.spec_length();
    let targets = spec_broad_phase(local.spec_swept(translation, movement), colliders);
    SweepModel {
        origin: translation,
        movement,
        length: length as i64,
        travelled: spec_next_distance(0, length) as i64,
        targets,
        cursor: if length == 0 {
            targets.len() as usize
        } else {
            0
        },
        best: None,
    }
}

impl Sweep {
    /// Starts the sweep of a mover with the local bound `local`.
    pub fn begin(
        local: &Aabb,
        translation: Vec3,
        movement: Vec3,
        colliders: &Vec<CollisionEntity>,
    ) -> (sweep: Sweep)
        requires
            local.within(LIMIT as int),
            translation.within(LIMIT as int),
            movement.within(LIMIT as int),
        ensures
            sweep@ == spec_begin(*local, translation, movement, colliders@),
            sweep@.wf(),
            sweep@.best is None,
            colliders@.len() == 0 ==> sweep@.finished(),
            sweep@.queries_left() <= (steps_after(0, sweep.length as int)) * colliders@.len(),
    {
        let length: i64 = movement.length();
        let swept: Aabb = local.swept(translation, movement);
        let targets: Vec<Target> = broad_phase(&swept, colliders);
        let travelled: i64 = if STEP_SIZE < length {
            STEP_SIZE
        } else {
            length
        };
        let count: usize = targets.len();
        let cursor: usize = if length == 0 {
            count
        } else {
            0
        };
        let sweep = Sweep { origin: translation, movement, length, travelled, targets, cursor, best: None };
        proof {
            lemma_queries_at_start(sweep@, colliders@.len() as int);
        }
        sweep
    }

    /// Tells whether the sweep has its result.
    pub fn is_finished(&self) -> (b: bool)
        ensures
            b == self@.finished(),
    {
        self.cursor >= self.targets.len()
    }

    /// The query that the sweep needs next, if it needs one.
    pub fn pending(&self) -> (probe: Option<Probe>)
        requires
            self@.wf(),
        ensures
            probe == self@.pending(),
    {
        if self.cursor >= self.targets.len() {
            None
        } else {
            proof {
                lemma_position_in_range(self@);
            }
            let target: Target = self.targets[self.cursor];
            let offset: Vec3 = self.movement.ratio(self.travelled, self.length);
            Some(
                Probe {
                    position: self.origin.plus(offset),
                    index: target.index,
                    entity: target.entity,
                },
            )
        }
    }

    /// Takes the outcome of the pending query.
    pub fn answer(&mut self, outcome: ContactOutcome)
        requires
            old(self)@.wf(),
            !old(self)@.finished(),
        ensures
            final(self)@ == old(self)@.after(outcome),
            final(self)@.wf(),
            final(self)@.queries_left() < old(self)@.queries_left(),
    {
        proof {
            lemma_after(self@, outcome);
        }
        let target: Target = self.targets[self.cursor];
        let hit: Option<Intersection> = perform_intersection(target.entity, outcome);
        let best: Option<Intersection> = closer(self.best, hit);
        let count: usize = self.targets.len();
        if self.cursor + 1 < count {
            self.cursor = self.cursor + 1;
            self.best = best;
        } else {
            match best {
                Some(found) => {
                    proof {
                        lemma_toi_is_fraction(self.travelled as int, self.length as int);
                    }
                    let toi: i64 = mul_div(self.travelled, SCALE, self.length);
                    self.cursor = count;
                    self.best = Some(
                        Intersection {
                            entity: found.entity,
                            our_normal: found.our_normal,
                            their_normal: found.their_normal,
                            our_contact_point: found.our_contact_point,
                            their_contact_point: found.their_contact_point,
                            distance: found.distance,
                            toi,
                        },
                    );
                },
                None => {
                    if self.travelled >= self.length {
                        self.cursor = count;
                        self.best = None;
                    } else {
                        self.travelled = if self.travelled + STEP_SIZE < self.length {
                            self.travelled + STEP_SIZE
                        } else {
                            self.length
                        };
                        self.cursor = 0;
                        self.best = None;
                    }
                },
            }
        }
    }

    /// The first intersection of the sweep; `None` while a query is pending,
    /// and when the sweep met nothing.
    pub fn intersection(&self) -> (hit: Option<Intersection>)
        requires
            self@.wf(),
        ensures
            hit == self@.intersection(),
            hit matches Some(found) ==> found.wf(),
    {
        if self.cursor >= self.targets.len() {
            self.best
        } else {
            None
        }
    }
}

/// Starts the sweep of `collider_shape` from `translation` by `movement`
/// against `colliders`. The sweep that comes back asks for its contact queries
/// one by one and holds the closest intersection of the first probe that finds
/// one.
pub fn sweep_intersection_against(
    collider_shape: &Shape,
    translation: Vec3,
    movement: Vec3,
    colliders: &Vec<CollisionEntity>,
) -> (sweep: Sweep)
    requires
        collider_shape.wf(),
        translation.within(LIMIT as int),
        movement.within(LIMIT as int),
    ensures
        sweep@ == spec_begin(collider_shape.spec_local_bounds(), translation, movement, colliders@),
        sweep@.wf(),
        sweep@.best is None,
        colliders@.len() == 0 ==> sweep@.finished() && sweep@.intersection() is None,
        movement == (Vec3 { x: 0, y: 0, z: 0 }) ==> sweep@.finished() && sweep@.intersection() is None,
        sweep@.queries_left() <= steps_after(0, sweep.length as int) * colliders@.len(),
{
    let local: Aabb = collider_shape.local_bounds();
    proof {
        lemma_floor_sqrt_is(0, 0);
    }
    Sweep::begin(&local, translation, movement, colliders)
}

/// The time of impact is a fraction between zero and one.
pub proof fn lemma_toi_is_fraction(travelled: int, length: int)
    requires
        0 <= travelled <= length,
        length > 0,
    ensures
        0 <= trunc_div(travelled * SCALE, length) <= SCALE,
{
    assert(0 <= travelled * SCALE <= SCALE * length) by (nonlinear_arith)
        requires
            0 <= travelled <= length,
    ;
    lemma_trunc_div(travelled * SCALE, length);
    lemma_trunc_div_le(travelled * SCALE, length, SCALE as int);
}

/// The probe's position can be computed without overflow, and lies within
/// twice `LIMIT`.
pub proof fn lemma_position_in_range(s: SweepModel)
    requires
        s.wf(),
        s.length > 0,
    ensures
        s.movement.spec_ratio(s.travelled as int, s.length as int).within(LIMIT as int),
        magnitude(trunc_div(s.movement.x * s.travelled, s.length as int)) <= LIMIT,
        magnitude(trunc_div(s.movement.y * s.travelled, s.length as int)) <= LIMIT,
        magnitude(trunc_div(s.movement.z * s.travelled, s.length as int)) <= LIMIT,
        s.position().within(2 * LIMIT),
{
    lemma_part_of(s.movement.x as int, s.travelled as int, s.length as int);
    lemma_part_of(s.movement.y as int, s.travelled as int, s.length as int);
    lemma_part_of(s.movement.z as int, s.travelled as int, s.length as int);
}

/// At its start a sweep needs at most one query per step and obstacle.
proof fn lemma_queries_at_start(s: SweepModel, obstacles: int)
    requires
        s.wf(),
        s.cursor == 0 || s.finished(),
        s.travelled == spec_next_distance(0, s.length as int),
        s.targets.len() <= obstacles,
    ensures
        s.queries_left() <= steps_after(0, s.length as int) * obstacles,
{
    let n = s.targets.len() as int;
    let before = steps_after(0, s.length as int);
    assert(before >= 0);
    if s.finished() {
        assert(before * obstacles >= 0) by (nonlinear_arith)
            requires
                before >= 0,
                obstacles >= 0,
        ;
    } else {
        let after = steps_after(s.travelled as int, s.length as int);
        assert(after + 1 == before);
        assert(after * n + n == before * n) by (nonlinear_arith)
            requires
                after + 1 == before,
        ;
        assert(before * n <= before * obstacles) by (nonlinear_arith)
            requires
                before >= 0,
                n <= obstacles,
        ;
    }
}

/// An answer leaves the sweep well formed and brings it nearer to its end.
pub proof fn lemma_after(s: SweepModel, outcome: ContactOutcome)
    requires
        s.wf(),
        !s.finished(),
    ensures
        s.after(outcome).wf(),
        s.after(outcome).queries_left() < s.queries_left(),
        0 <= s.toi() <= SCALE,
{
    let n = s.targets.len() as int;
    let next = s.after(outcome);
    lemma_toi_is_fraction(s.travelled as int, s.length as int);
    let now = steps_after(s.travelled as int, s.length as int);
    assert(now >= 0);
    assert(now * n >= 0) by (nonlinear_arith)
        requires
            now >= 0,
            n >= 0,
    ;
    if !next.finished() && next.cursor == 0 && s.cursor + 1 >= n {
        let then = steps_after(next.travelled as int, next.length as int);
        assert(then + 1 == now);
        assert(then * n + n == now * n) by (nonlinear_arith)
            requires
                then + 1 == now,
        ;
    }
}

/// A sweep along which no query reports a contact ends without an
/// intersection, whatever the obstacles and however many queries it takes.
pub proof fn lemma_clear_path(s: SweepModel, outcomes: Seq<ContactOutcome>)
    requires
        s.wf(),
        s.best is None,
        forall|i: int| 0 <= i < outcomes.len() ==> !(#[trigger] outcomes[i]).spec_reports_contact(),
    ensures
        s.replay(outcomes).wf(),
        s.replay(outcomes).best is None,
        s.replay(outcomes).intersection() is None,
    decreases outcomes.len(),
{
    if outcomes.len() > 0 && !s.finished() {
        lemma_after(s, outcomes[0]);
        assert(!outcomes[0].spec_reports_contact());
        let rest = outcomes.drop_first();
        assert forall|i: int| 0 <= i < rest.len() implies !(#[trigger] rest[i]).spec_reports_contact() by {
            assert(rest[i] == outcomes[i + 1]);
        }
        lemma_clear_path(s.after(outcomes[0]), rest);
    }
}

/// A replay is well formed, and every answer that it reads brings the sweep
/// nearer to its end: a sweep never reads more outcomes than `queries_left`.
pub proof fn lemma_replay(s: SweepModel, outcomes: Seq<ContactOutcome>)
    requires
        s.wf(),
    ensures
        s.replay(outcomes).wf(),
        s.replay(outcomes).queries_left() <= s.queries_left(),
        outcomes.len() >= s.queries_left() ==> s.replay(outcomes).finished(),
        s.replay(outcomes).intersection() matches Some(found) ==> 0 <= found.toi <= SCALE,
    decreases outcomes.len(),
{
    if outcomes.len() > 0 && !s.finished() {
        lemma_after(s, outcomes[0]);
        lemma_replay(s.after(outcomes[0]), outcomes.drop_first());
    } else if !s.finished() {
        let now = steps_after(s.travelled as int, s.length as int);
        let n = s.targets.len() as int;
        assert(now * n >= 0) by (nonlinear_arith)
            requires
                now >= 0,
                n >= 0,
        ;
    }
}

/// The broad phase keeps no more obstacles than it was given.
pub proof fn lemma_broad_phase_len(swept: Aabb, colliders: Seq<CollisionEntity>)
    ensures
        spec_broad_phase(swept, colliders).len() <= colliders.len(),
    decreases colliders.len(),
{
    if colliders.len() > 0 {
        lemma_broad_phase_len(swept, colliders.drop_last());
    }
}

/// A sweep is well formed before its first query.
pub proof fn lemma_begin_wf(
    local: Aabb,
    translation: Vec3,
    movement: Vec3,
    colliders: Seq<CollisionEntity>,
)
    requires
        translation.within(LIMIT as int),
        movement.within(LIMIT as int),
        colliders.len() <= usize::MAX,
    ensures
        spec_begin(local, translation, movement, colliders).wf(),
        spec_begin(local, translation, movement, colliders).best is None,
{
    lemma_speed_bound(movement, LIMIT as int);
    lemma_broad_phase_len(local.spec_swept(translation, movement), colliders);
}

} // verus!
