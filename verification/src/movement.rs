//! One frame of a character's movement: acceleration, ground detection,
//! friction or gravity, then move-and-slide.
//!
//! A frame needs two kinds of sweeps, and the sweeps need contact queries
//! that the engine does not compute. So a frame is a `Movement`: it says which
//! query it needs next (`Movement::pending`), takes the query's outcome
//! (`Movement::answer`), and holds the character and its position as the
//! frame leaves them once no query is pending.

use vstd::prelude::*;
use crate::bounds::Aabb;
use crate::character::{
    CHARACTER_OVERCLIP, Character, CharacterInput, DT_LIMIT, MAX_SLIDES, SLIDE_SPEED_LIMIT,
    SPEED_LIMIT, ground_detector, ground_reach, lemma_travel, spec_ground_detector,
    spec_ground_reach, spec_rest,
};
use crate::collider::{Collider, CollisionEntity, Shape};
use crate::contact::{ContactOutcome, Intersection, WORLD_EXTENT};
use crate::fixed::{
    LIMIT, SCALE, lemma_fraction_bound, lemma_part_of, lemma_product_bound, lemma_trunc_div_le,
    magnitude, mul_div, trunc_div,
};
use crate::sweep::{Sweep, SweepModel, lemma_after, lemma_broad_phase_sound, spec_begin};
use crate::vector::{Vec3, lemma_unit_components, lemma_within_reach};

verus! {

/// The part of a frame that a movement is in.
#[derive(Clone, Copy, Debug, PartialEq, Eq, Structural)]
pub enum Stage {
    /// The sweep under the character is being made.
    Ground,
    /// A sweep of move-and-slide is being made.
    Slide,
    /// The frame is over.
    Done,
}

/// The shape that a query is to be made with.
#[derive(Clone, Copy, Debug, PartialEq, Eq, Structural)]
pub enum Mover {
    /// The flat cylinder by which the ground is detected.
    GroundDetector,
    /// The character's own collider.
    Body,
}

/// A contact query that a movement needs: `mover` at `position` against the
/// obstacle at `index` of the list that the movement was given.
#[derive(Clone, Copy, Debug, PartialEq, Eq, Structural)]
pub struct Request {
    pub mover: Mover,
    pub position: Vec3,
    pub index: usize,
    pub entity: u64,
}

/// The largest speed, per axis, that a character can have after `slides`
/// slides of one frame: each slide is bounded by thirteen times the speed
/// before it.
pub open spec fn speed_cap(slides: int) -> int {
    if slides <= 0 {
        30_000_000_000
    } else if slides == 1 {
        390_000_000_000
    } else if slides == 2 {
        5_070_000_000_000
    } else if slides == 3 {
        65_910_000_000_000
    } else {
        856_830_000_000_000
    }
}

/// How far from the origin, per axis, a character can be after `slides`
/// slides of one frame.
pub open spec fn reach_cap(slides: int) -> int {
    (2 + 2 * slides) * WORLD_EXTENT
}

/// The distance over which a slide advances: the contact's distance, but not
/// less than zero.
pub open spec fn spec_advance(distance: i64) -> i64 {
    if distance > 0 {
        distance
    } else {
        0
    }
}

/// Where a slide leaves a character: advanced along its new velocity by the
/// distance to the contact, then pushed off the surface by the overclip.
pub open spec fn spec_pushed(position: Vec3, velocity: Vec3, found: Intersection) -> Vec3 {
    position.spec_plus(
        velocity.spec_normalized().spec_scaled(spec_advance(found.distance) as int),
    ).spec_plus(found.their_normal.spec_scaled(CHARACTER_OVERCLIP as int))
}

/// The time that a slide leaves of `remaining`: the part that the sweep had
/// not yet travelled at the contact.
pub open spec fn spec_time_left(remaining: i64, toi: i64) -> int {
    trunc_div(remaining * (SCALE - toi), SCALE as int)
}

/// A movement as the contracts see it.
pub struct MovementModel {
    pub character: Character,
    pub position: Vec3,
    pub dt: i64,
    pub remaining: i64,
    pub jump: bool,
    pub stage: Stage,
    pub slides: u8,
    pub body: Aabb,
    pub colliders: Seq<CollisionEntity>,
    pub sweep: SweepModel,
}

/// One frame of a character's movement, in progress or over.
#[derive(Debug)]
pub struct Movement {
    /// The character as the frame has changed it so far.
    pub character: Character,
    /// The character's position as the frame has changed it so far.
    pub position: Vec3,
    /// The length of the frame.
    pub dt: i64,
    /// The time that move-and-slide has left.
    pub remaining: i64,
    /// Whether a jump was asked for in this frame.
    pub jump: bool,
    /// The part of the frame that the movement is in.
    pub stage: Stage,
    /// The number of slides made so far.
    pub slides: u8,
    /// The local bound of the character's collider.
    pub body: Aabb,
    /// The obstacles of the frame.
    pub colliders: Vec<CollisionEntity>,
    /// The sweep that is being made.
    pub sweep: Sweep,
}

impl View for Movement {
    type V = MovementModel;

    open spec fn view(&self) -> MovementModel {
        MovementModel {
            character: self.character,
            position: self.position,
            dt: self.dt,
            remaining: self.remaining,
            jump: self.jump,
            stage: self.stage,
            slides: self.slides,
            body: self.body,
            colliders: self.colliders@,
            sweep: self.sweep@,
        }
    }
}

impl MovementModel {
    /// The state is one that a movement can reach.
    pub open spec fn wf(self) -> bool {
        &&& self.character.steady()
        &&& 0 <= self.remaining <= self.dt <= DT_LIMIT
        &&& self.body.within(LIMIT as int)
        &&& self.colliders.len() <= usize::MAX
        &&& self.sweep.wf()
        &&& forall|t: int|
            0 <= t < self.sweep.targets.len() ==> (#[trigger] self.sweep.targets[t]).index
                < self.colliders.len()
        &&& match self.stage {
            Stage::Ground => self.slides == 0 && self.remaining == self.dt
                && self.character.velocity.within(2 * SPEED_LIMIT) && self.position.within(
                WORLD_EXTENT as int,
            ),
            Stage::Slide => self.slides < MAX_SLIDES && self.character.velocity.within(
                speed_cap(self.slides as int),
            ) && self.position.within(reach_cap(self.slides as int)),
            Stage::Done => self.slides <= MAX_SLIDES && self.character.velocity.within(
                speed_cap(MAX_SLIDES as int),
            ) && self.position.within(LIMIT as int),
        }
    }

    /// The frame is over.
    pub open spec fn done(self) -> bool {
        self.stage is Done
    }

    /// The movement waits for the outcome of a query, or is over.
    pub open spec fn settled(self) -> bool {
        self.done() || !self.sweep.finished()
    }

    /// The number of sweeps that the frame can still take.
    pub open spec fn sweeps_left(self) -> int {
        match self.stage {
            Stage::Ground => 5,
            Stage::Slide => if self.slides < MAX_SLIDES {
                MAX_SLIDES - self.slides
            } else {
                1
            },
            Stage::Done => 0,
        }
    }

    /// The movement after its sweep has ended.
    ///
    /// After the sweep under the character: ground detection, then friction
    /// and jump or gravity, then the first sweep of move-and-slide, over the
    /// velocity times the frame's length. After a sweep of move-and-slide that
    /// met an obstacle: the slide, the advance and the push, the time left,
    /// and the next sweep unless this was the last. After one that met
    /// nothing: the rest of the movement, and the end of the frame.
    pub open spec fn advanced(self) -> MovementModel {
        let hit = self.sweep.intersection();
        match self.stage {
            Stage::Ground => {
                let character = self.character.spec_landed(hit).spec_grounded_or_falling(
                    self.jump,
                    self.dt as int,
                );
                let position = spec_rest(self.position, hit);
                MovementModel {
                    character,
                    position,
                    stage: Stage::Slide,
                    sweep: spec_begin(
                        self.body,
                        position,
                        character.velocity.spec_scaled(self.dt as int),
                        self.colliders,
                    ),
                    ..self
                }
            },
            Stage::Slide => match hit {
                Some(found) => {
                    let character = self.character.spec_slid(found.their_normal);
                    let position = spec_pushed(self.position, character.velocity, found);
                    let remaining = spec_time_left(self.remaining, found.toi) as i64;
                    let slides = (self.slides + 1) as u8;
                    if self.slides + 1 < MAX_SLIDES {
                        MovementModel {
                            character,
                            position,
                            remaining,
                            slides,
                            sweep: spec_begin(
                                self.body,
                                position,
                                character.velocity.spec_scaled(remaining as int),
                                self.colliders,
                            ),
                            ..self
                        }
                    } else {
                        MovementModel {
                            character,
                            position,
                            remaining,
                            slides,
                            stage: Stage::Done,
                            ..self
                        }
                    }
                },
                None => MovementModel {
                    position: self.position.spec_plus(
                        self.character.velocity.spec_scaled(self.remaining as int),
                    ),
                    stage: Stage::Done,
                    ..self
                },
            },
            Stage::Done => self,
        }
    }

    /// The movement once it waits for a query or is over: sweeps that end
    /// without a query are passed through.
    pub open spec fn settle(self) -> MovementModel
        decreases self.sweeps_left(),
    {
        if self.settled() {
            self
        } else {
            self.advanced().settle()
        }
    }

    /// The query that the movement needs next, if it needs one.
    pub open spec fn pending(self) -> Option<Request> {
        match (self.stage, self.sweep.pending()) {
            (Stage::Ground, Some(probe)) => Some(
                Request {
                    mover: Mover::GroundDetector,
                    position: probe.position,
                    index: probe.index,
                    entity: probe.entity,
                },
            ),
            (Stage::Slide, Some(probe)) => Some(
                Request {
                    mover: Mover::Body,
                    position: probe.position,
                    index: probe.index,
                    entity: probe.entity,
                },
            ),
            _ => None,
        }
    }

    /// The movement after the pending query was answered with `outcome`.
    pub open spec fn after(self, outcome: ContactOutcome) -> MovementModel {
        (MovementModel { sweep: self.sweep.after(outcome), ..self }).settle()
    }

    /// The movement after the pending queries were answered with `outcomes`,
    /// one after the other; outcomes beyond the end of the frame are not read.
    pub open spec fn replay(self, outcomes: Seq<ContactOutcome>) -> MovementModel
        decreases outcomes.len(),
    {
        if outcomes.len() == 0 || self.pending() is None {
            self
        } else {
            self.after(outcomes[0]).replay(outcomes.drop_first())
        }
    }

    /// The character and its position at the end of the frame if no query
    /// from here on reports a contact: after the sweep under the character,
    /// what ground detection and friction, jump or gravity make of its result,
    /// and then the whole movement; in move-and-slide, the whole movement.
    pub open spec fn unhindered(self) -> (Character, Vec3) {
        match self.stage {
            Stage::Ground => {
                let hit = self.sweep.intersection();
                let character = self.character.spec_landed(hit).spec_grounded_or_falling(
                    self.jump,
                    self.dt as int,
                );
                (
                    character,
                    spec_rest(self.position, hit).spec_plus(
                        character.velocity.spec_scaled(self.remaining as int),
                    ),
                )
            },
            Stage::Slide => (
                self.character,
                self.position.spec_plus(
                    self.character.velocity.spec_scaled(self.remaining as int),
                ),
            ),
            Stage::Done => (self.character, self.position),
        }
    }
}

/// The movement of a frame before its first query: the character is
/// accelerated towards what the input asks for, and the ground is looked for
/// under the place where it would be after the frame.
pub open spec fn spec_perform_movement(
    character: Character,
    dt: i64,
    body: Aabb,
    position: Vec3,
    colliders: Seq<CollisionEntity>,
    input: CharacterInput,
) -> MovementModel {
    let character = character.spec_accelerated(input.spec_wish_dir(), dt as int);
    (MovementModel {
        character,
        position,
        dt,
        remaining: dt,
        jump: input.jump,
        stage: Stage::Ground,
        slides: 0,
        body,
        colliders,
        sweep: spec_begin(
            spec_ground_detector().spec_local_bounds(),
            character.spec_anticipated(position, dt as int),
            spec_ground_reach(),
            colliders,
        ),
    }).settle()
}

impl Character {
    /// Takes the result of one sweep of move-and-slide over `remaining`.
    ///
    /// If the sweep met an obstacle, the character slides along it: the part
    /// of its velocity along the obstacle's normal is taken away, its position
    /// advances along the new velocity by the distance to the contact and is
    /// pushed off the surface, and the time that is left comes back. If the
    /// sweep met nothing, the character moves for all of `remaining` and
    /// nothing comes back.
    #[verifier::rlimit(40)]
    pub fn move_and_slide(
        &mut self,
        position: &mut Vec3,
        remaining: i64,
        hit: Option<Intersection>,
    ) -> (left: Option<i64>)
        requires
            old(self).velocity.within(SLIDE_SPEED_LIMIT as int),
            old(position).within(LIMIT as int),
            0 <= remaining <= DT_LIMIT,
            hit matches Some(found) ==> found.wf(),
        ensures
            match hit {
                Some(found) => {
                    &&& *final(self) == old(self).spec_slid(found.their_normal)
                    &&& *final(position) == spec_pushed(
                        *old(position),
                        final(self).velocity,
                        found,
                    )
                    &&& left == Some(spec_time_left(remaining, found.toi) as i64)
                    &&& 0 <= spec_time_left(remaining, found.toi) <= remaining
                    &&& final(self).velocity.within(13 * old(self).velocity.reach())
                    &&& final(position).within(old(position).reach() + 2 * WORLD_EXTENT)
                },
                None => {
                    &&& *final(self) == *old(self)
                    &&& *final(position) == old(position).spec_plus(
                        old(self).velocity.spec_scaled(remaining as int),
                    )
                    &&& left is None
                    &&& final(position).within(
                        old(position).reach() + 100 * old(self).velocity.reach(),
                    )
                },
            },
    {
        match hit {
            Some(found) => {
                self.slide(found.their_normal);
                let direction: Vec3 = self.velocity.normalized();
                let advance: i64 = if found.distance > 0 {
                    found.distance
                } else {
                    0
                };
                proof {
                    lemma_fraction_bound(direction.x as int, SCALE as int, advance as int);
                    lemma_fraction_bound(direction.y as int, SCALE as int, advance as int);
                    lemma_fraction_bound(direction.z as int, SCALE as int, advance as int);
                    lemma_overclip(found.their_normal);
                    lemma_part_of(remaining as int, SCALE - found.toi, SCALE as int);
                }
                let along: Vec3 = direction.scaled(advance);
                let push: Vec3 = found.their_normal.scaled(CHARACTER_OVERCLIP);
                *position = position.plus(along).plus(push);
                Some(mul_div(remaining, SCALE - found.toi, SCALE))
            },
            None => {
                proof {
                    lemma_travel(self.velocity, remaining as int);
                }
                *position = position.plus(self.velocity.scaled(remaining));
                None
            },
        }
    }

    /// Starts a frame of `dt` for the character at `position`, with `collider`
    /// as its body, against `colliders`.
    ///
    /// The movement that comes back asks for its contact queries one by one;
    /// when none is pending, its `character` and `position` are what the frame
    /// has made of them.
    #[verifier::rlimit(40)]
    pub fn perform_movement(
        self,
        dt: i64,
        collider: &Collider,
        position: Vec3,
        colliders: Vec<CollisionEntity>,
        character_input: &CharacterInput,
    ) -> (movement: Movement)
        requires
            self.steady(),
            self.velocity.within(SPEED_LIMIT as int),
            0 <= dt <= DT_LIMIT,
            collider.wf(),
            position.within(WORLD_EXTENT as int),
        ensures
            movement@ == spec_perform_movement(
                self,
                dt,
                collider.shape.spec_local_bounds(),
                position,
                colliders@,
                *character_input,
            ),
            movement@.wf(),
            movement@.settled(),
    {
        let mut character = self;
        let wish: Vec3 = character_input.compute_wish_dir();
        proof {
            lemma_within_reach(self.velocity, SPEED_LIMIT as int);
            lemma_within_reach(position, WORLD_EXTENT as int);
        }
        character.apply_acceleration(wish, dt);
        assert(character.velocity.within(2 * SPEED_LIMIT));
        proof {
            lemma_within_reach(character.velocity, 2 * SPEED_LIMIT);
        }
        let start: Vec3 = character.anticipated_position(position, dt);
        assert(start.within(LIMIT as int));
        let detector: Shape = ground_detector();
        let detector_bounds: Aabb = detector.local_bounds();
        let reach: Vec3 = ground_reach();
        let count: usize = colliders.len();
        let sweep = Sweep::begin(&detector_bounds, start, reach, &colliders);
        proof {
            lemma_targets_in_list(detector_bounds, start, reach, colliders@);
        }
        let body: Aabb = collider.shape.local_bounds();
        let mut movement = Movement {
            character,
            position,
            dt,
            remaining: dt,
            jump: character_input.jump,
            stage: Stage::Ground,
            slides: 0,
            body,
            colliders,
            sweep,
        };
        movement.settle();
        movement
    }
}

impl Movement {
    /// Tells whether the frame is over.
    pub fn is_done(&self) -> (b: bool)
        ensures
            b == self@.done(),
    {
        match self.stage {
            Stage::Done => true,
            _ => false,
        }
    }

    /// The query that the movement needs next, if it needs one. A settled
    /// movement needs none only when the frame is over.
    pub fn pending(&self) -> (request: Option<Request>)
        requires
            self@.wf(),
        ensures
            request == self@.pending(),
            request matches Some(asked) ==> asked.index < self@.colliders.len(),
            self@.settled() ==> (request is None <==> self@.done()),
    {
        match self.stage {
            Stage::Ground => match self.sweep.pending() {
                Some(probe) => Some(
                    Request {
                        mover: Mover::GroundDetector,
                        position: probe.position,
                        index: probe.index,
                        entity: probe.entity,
                    },
                ),
                None => None,
            },
            Stage::Slide => match self.sweep.pending() {
                Some(probe) => Some(
                    Request {
                        mover: Mover::Body,
                        position: probe.position,
                        index: probe.index,
                        entity: probe.entity,
                    },
                ),
                None => None,
            },
            Stage::Done => None,
        }
    }

    /// Takes the outcome of the pending query.
    ///
    /// Every answer brings the frame nearer to its end: it ends a sweep, or
    /// leaves the sweep with fewer queries to make.
    pub fn answer(&mut self, outcome: ContactOutcome)
        requires
            old(self)@.wf(),
            old(self)@.pending() is Some,
        ensures
            final(self)@ == old(self)@.after(outcome),
            final(self)@.wf(),
            final(self)@.settled(),
            final(self)@.sweeps_left() < old(self)@.sweeps_left() || (final(self)@.sweeps_left()
                == old(self)@.sweeps_left() && final(self)@.sweep.queries_left() < old(
                self,
            )@.sweep.queries_left()),
    {
        proof {
            lemma_after(self@.sweep, outcome);
        }
        self.sweep.answer(outcome);
        self.settle();
    }

    /// Passes through the sweeps that have ended.
    fn settle(&mut self)
        requires
            old(self)@.wf(),
        ensures
            final(self)@ == old(self)@.settle(),
            final(self)@.wf(),
            final(self)@.settled(),
            final(self)@ == old(self)@ || final(self)@.sweeps_left() < old(self)@.sweeps_left(),
    {
        while !self.is_done() && self.sweep.is_finished()
            invariant
                self@.wf(),
                self@.settle() == old(self)@.settle(),
                self@ == old(self)@ || self@.sweeps_left() < old(self)@.sweeps_left(),
            decreases self@.sweeps_left(),
        {
            self.advance();
        }
    }

    /// Takes the result of the sweep that has ended, and starts the next one
    /// or ends the frame.
    fn advance(&mut self)
        requires
            old(self)@.wf(),
            !old(self)@.done(),
            old(self)@.sweep.finished(),
        ensures
            final(self)@ == old(self)@.advanced(),
            final(self)@.wf(),
            final(self)@.sweeps_left() < old(self)@.sweeps_left(),
    {
        match self.stage {
            Stage::Ground => self.advance_from_ground(),
            Stage::Slide => self.advance_from_slide(),
            Stage::Done => {},
        }
    }

    /// Takes the result of the sweep under the character, and starts the
    /// first sweep of move-and-slide.
    #[verifier::rlimit(40)]
    fn advance_from_ground(&mut self)
        requires
            old(self)@.wf(),
            old(self)@.stage is Ground,
            old(self)@.sweep.finished(),
        ensures
            final(self)@ == old(self)@.advanced(),
            final(self)@.wf(),
            final(self)@.stage is Slide,
    {
        let hit: Option<Intersection> = self.sweep.intersection();
        let mut character: Character = self.character;
        let mut position: Vec3 = self.position;
        character.detect_ground(&mut position, hit);
        assert(character.velocity.within(2 * SPEED_LIMIT));
        assert(position.within(2 * WORLD_EXTENT));
        character.ground_or_fall(self.jump, self.dt);
        proof {
            lemma_within_reach(self.character.spec_landed(hit).velocity, 2 * SPEED_LIMIT);
            lemma_travel(character.velocity, self.dt as int);
            lemma_within_reach(character.velocity, 3 * SPEED_LIMIT);
        }
        let movement: Vec3 = character.velocity.scaled(self.dt);
        self.sweep = Sweep::begin(&self.body, position, movement, &self.colliders);
        proof {
            lemma_targets_in_list(self.body, position, movement, self.colliders@);
        }
        self.character = character;
        self.position = position;
        self.stage = Stage::Slide;
    }

    /// Takes the result of a sweep of move-and-slide, and starts the next one
    /// or ends the frame.
    #[verifier::rlimit(40)]
    fn advance_from_slide(&mut self)
        requires
            old(self)@.wf(),
            old(self)@.stage is Slide,
            old(self)@.sweep.finished(),
        ensures
            final(self)@ == old(self)@.advanced(),
            final(self)@.wf(),
            final(self)@.sweeps_left() < old(self)@.sweeps_left(),
    {
        let hit: Option<Intersection> = self.sweep.intersection();
        let mut character: Character = self.character;
        let mut position: Vec3 = self.position;
        proof {
            lemma_within_reach(character.velocity, speed_cap(self.slides as int));
            lemma_within_reach(position, reach_cap(self.slides as int));
        }
        let left: Option<i64> = character.move_and_slide(&mut position, self.remaining, hit);
        self.character = character;
        self.position = position;
        match left {
            Some(remaining) => {
                self.remaining = remaining;
                self.slides = self.slides + 1;
                assert(character.velocity.within(speed_cap(self.slides as int)));
                assert(position.within(reach_cap(self.slides as int)));
                if self.slides < MAX_SLIDES {
                    proof {
                        lemma_travel(character.velocity, remaining as int);
                        lemma_within_reach(character.velocity, speed_cap(self.slides as int));
                    }
                    let movement: Vec3 = character.velocity.scaled(remaining);
                    self.sweep = Sweep::begin(&self.body, position, movement, &self.colliders);
                    proof {
                        lemma_targets_in_list(self.body, position, movement, self.colliders@);
                    }
                } else {
                    self.stage = Stage::Done;
                }
            },
            None => {
                self.stage = Stage::Done;
            },
        }
    }
}

/// The targets of a sweep name obstacles of the list that it was given.
pub proof fn lemma_targets_in_list(
    local: Aabb,
    at: Vec3,
    movement: Vec3,
    colliders: Seq<CollisionEntity>,
)
    requires
        colliders.len() <= usize::MAX,
    ensures
        forall|t: int|
            0 <= t < spec_begin(local, at, movement, colliders).targets.len() ==> (
            #[trigger] spec_begin(local, at, movement, colliders).targets[t]).index
                < colliders.len(),
{
    let targets = spec_begin(local, at, movement, colliders).targets;
    assert forall|t: int| 0 <= t < targets.len() implies (#[trigger] targets[t]).index
        < colliders.len() by {
        lemma_broad_phase_sound(local.spec_swept(at, movement), colliders, t);
    }
}

/// The push off a surface is at most two thousandths of a unit per axis.
pub proof fn lemma_overclip(normal: Vec3)
    requires
        normal.is_unit(),
    ensures
        magnitude(trunc_div(normal.x * CHARACTER_OVERCLIP, SCALE as int)) <= 2 * CHARACTER_OVERCLIP,
        magnitude(trunc_div(normal.y * CHARACTER_OVERCLIP, SCALE as int)) <= 2 * CHARACTER_OVERCLIP,
        magnitude(trunc_div(normal.z * CHARACTER_OVERCLIP, SCALE as int)) <= 2 * CHARACTER_OVERCLIP,
{
    lemma_unit_components(normal);
    let k = CHARACTER_OVERCLIP as int;
    lemma_product_bound(normal.x as int, k, 2 * SCALE, k);
    lemma_product_bound(normal.y as int, k, 2 * SCALE, k);
    lemma_product_bound(normal.z as int, k, 2 * SCALE, k);
    lemma_trunc_div_le(normal.x * k, SCALE as int, 2 * k);
    lemma_trunc_div_le(normal.y * k, SCALE as int, 2 * k);
    lemma_trunc_div_le(normal.z * k, SCALE as int, 2 * k);
}

} // verus!
