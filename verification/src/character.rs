//! The character: its input, its state, and what each part of a frame does to
//! its velocity and position.

use vstd::prelude::*;
use crate::collider::Shape;
use crate::contact::Intersection;
use crate::fixed::{
    LIMIT, SCALE, lemma_fraction_bound, lemma_part_of, lemma_product_bound, lemma_trunc_div,
    lemma_trunc_div_le, magnitude, mul_div, mul_mul_div_capped, trunc_div,
};
use crate::vector::{Vec3, lemma_unit_components};

verus! {

/// The width of the character: one unit.
pub const CHARACTER_WIDTH: i64 = 1_000_000;

/// The height of the character.
pub const CHARACTER_HEIGHT: i64 = 1_700_000;

/// Half the height of the character: how far below its centre the ground is
/// looked for, and how far above the ground its centre rests.
pub const CHARACTER_HALF_HEIGHT: i64 = 850_000;

/// How far a slide pushes the character off the surface that it hit.
pub const CHARACTER_OVERCLIP: i64 = 1_000;

/// The gap that is left between a standing character and the ground.
pub const GROUND_CLEARANCE: i64 = 10_000;

/// The half height of the flat cylinder by which the ground is detected.
pub const DETECTOR_HALF_HEIGHT: i64 = 10_000;

/// The downward acceleration of a character in the air, per second.
pub const GRAVITY: i64 = 9_810_000;

/// The upward speed that a jump gives.
pub const JUMP_SPEED: i64 = 5_000_000;

/// How far up a surface's normal must point for the surface to be ground.
pub const GROUND_NORMAL_MIN: i64 = 700_000;

/// The number of sweeps that one frame's move-and-slide may take.
pub const MAX_SLIDES: u8 = 4;

/// The largest speed, per axis, with which a character may enter a frame, and
/// the largest move speed.
pub const SPEED_LIMIT: i64 = 10_000_000_000;

/// The largest speed, per axis, that the steps of a frame can take: what a
/// character that entered the frame within `SPEED_LIMIT` can reach in it.
pub const SLIDE_SPEED_LIMIT: i64 = 1_000_000_000_000_000;

/// The largest acceleration rate and friction rate.
pub const RATE_LIMIT: i64 = 1_000_000_000;

/// The longest frame, in millionths of a second.
pub const DT_LIMIT: i64 = 100_000_000;

/// One squared, as a divisor of products of three scalars.
pub const SCALE_SQUARED: i64 = 1_000_000_000_000;

/// What the player asks of the character in one frame. `jump` is true only in
/// the frame in which the jump was asked for.
#[derive(Clone, Copy, Debug, PartialEq, Eq, Structural)]
pub struct CharacterInput {
    pub forward: bool,
    pub backward: bool,
    pub left: bool,
    pub right: bool,
    pub jump: bool,
}

/// The state of a character that lasts from frame to frame.
#[derive(Clone, Copy, Debug, PartialEq, Eq, Structural)]
pub struct Character {
    pub velocity: Vec3,
    pub move_speed: i64,
    pub move_accel: i64,
    pub move_friction: i64,
    pub grounded: bool,
}

impl CharacterInput {
    /// The direction that the input asks for, before it is brought to unit
    /// length: forward is towards negative z, right towards positive x, and
    /// opposite keys cancel.
    pub open spec fn spec_raw_wish(self) -> Vec3 {
        Vec3 {
            x: if self.right == self.left {
                0
            } else if self.right {
                SCALE
            } else {
                (-SCALE) as i64
            },
            y: 0,
            z: if self.backward == self.forward {
                0
            } else if self.backward {
                SCALE
            } else {
                (-SCALE) as i64
            },
        }
    }

    /// The direction in the ground plane that the input asks for: of unit
    /// length, or zero.
    pub open spec fn spec_wish_dir(self) -> Vec3 {
        self.spec_raw_wish().spec_normalized()
    }

    /// The direction in the ground plane that the input asks for.
    pub fn compute_wish_dir(&self) -> (wish: Vec3)
        ensures
            wish == self.spec_wish_dir(),
            wish.within(SCALE as int),
            wish.y == 0,
    {
        let mut x: i64 = 0;
        let mut z: i64 = 0;
        if self.forward {
            z = z - SCALE;
        }
        if self.backward {
            z = z + SCALE;
        }
        if self.left {
            x = x - SCALE;
        }
        if self.right {
            x = x + SCALE;
        }
        let raw = Vec3 { x, y: 0, z };
        proof {
            if raw.spec_length() > 0 {
                lemma_trunc_div(0, raw.spec_length());
            }
        }
        raw.normalized()
    }
}

/// The flat cylinder by which the ground is detected: as wide as the
/// character, a hundredth of a unit high either way.
pub open spec fn spec_ground_detector() -> Shape {
    Shape::Cylinder { radius: 500_000, half_height: DETECTOR_HALF_HEIGHT }
}

/// The movement over which the ground is looked for: half the character's
/// height, straight down.
pub open spec fn spec_ground_reach() -> Vec3 {
    Vec3 { x: 0, y: (-CHARACTER_HALF_HEIGHT) as i64, z: 0 }
}

/// The flat cylinder by which the ground is detected.
pub fn ground_detector() -> (shape: Shape)
    ensures
        shape == spec_ground_detector(),
        shape.wf(),
{
    Shape::Cylinder { radius: CHARACTER_WIDTH / 2, half_height: DETECTOR_HALF_HEIGHT }
}

/// The movement over which the ground is looked for.
pub fn ground_reach() -> (reach: Vec3)
    ensures
        reach == spec_ground_reach(),
        reach.within(CHARACTER_HALF_HEIGHT as int),
{
    Vec3 { x: 0, y: -CHARACTER_HALF_HEIGHT, z: 0 }
}

/// The sweep under the character found ground: it met a surface whose normal
/// points up by more than `GROUND_NORMAL_MIN`. (The dot product of a normal
/// with the upward axis is its y component.)
pub open spec fn spec_stands_on(hit: Option<Intersection>) -> bool {
    hit matches Some(found) && found.their_normal.y > GROUND_NORMAL_MIN
}

/// Where a character at `position` rests after ground detection: on found
/// ground its centre is set half its height, and the clearance, above the
/// contact point; otherwise it stays.
pub open spec fn spec_rest(position: Vec3, hit: Option<Intersection>) -> Vec3 {
    match hit {
        Some(found) if found.their_normal.y > GROUND_NORMAL_MIN => Vec3 {
            y: (found.their_contact_point.y + CHARACTER_HALF_HEIGHT + GROUND_CLEARANCE) as i64,
            ..position
        },
        _ => position,
    }
}

/// The speed that gravity adds to a fall in a frame of `dt`.
pub open spec fn spec_gravity_step(dt: int) -> int {
    trunc_div(GRAVITY * dt, SCALE as int)
}

impl Character {
    /// The tunable rates are not negative and not beyond their limits.
    pub open spec fn steady(self) -> bool {
        0 <= self.move_speed <= SPEED_LIMIT && 0 <= self.move_accel <= RATE_LIMIT && 0
            <= self.move_friction <= RATE_LIMIT
    }

    /// The speed that a frame of `dt` may add: the acceleration rate times
    /// `dt` times the move speed, but no more than is missing to the move
    /// speed.
    pub open spec fn spec_accel_speed(self, dt: int) -> int {
        let add_speed = self.move_speed - self.velocity.spec_length();
        let accel_speed = trunc_div(
            self.move_accel * dt * self.move_speed,
            SCALE_SQUARED as int,
        );
        if accel_speed > add_speed {
            add_speed
        } else {
            accel_speed
        }
    }

    /// The character after acceleration towards `wish_dir`: unchanged at or
    /// above the move speed.
    pub open spec fn spec_accelerated(self, wish_dir: Vec3, dt: int) -> Character {
        if self.move_speed - self.velocity.spec_length() <= 0 {
            self
        } else {
            Character {
                velocity: self.velocity.spec_plus(wish_dir.spec_scaled(self.spec_accel_speed(dt))),
                ..self
            }
        }
    }

    /// The speed that is left after friction over `dt`: the speed less the
    /// speed times the friction rate times `dt`, but not less than zero.
    pub open spec fn spec_slowed_speed(self, dt: int) -> int {
        let speed = self.velocity.spec_length();
        let drop = trunc_div(self.move_friction * dt * speed, SCALE_SQUARED as int);
        if speed - drop < 0 {
            0
        } else {
            speed - drop
        }
    }

    /// The character after friction over `dt`: the velocity keeps its
    /// direction and has the speed that is left.
    pub open spec fn spec_slowed(self, dt: int) -> Character {
        let speed = self.velocity.spec_length();
        if speed == 0 {
            self
        } else {
            Character {
                velocity: self.velocity.spec_ratio(self.spec_slowed_speed(dt), speed),
                ..self
            }
        }
    }

    /// The character after gravity over `dt`.
    pub open spec fn spec_fallen(self, dt: int) -> Character {
        Character {
            velocity: Vec3 { y: (self.velocity.y - spec_gravity_step(dt)) as i64, ..self.velocity },
            ..self
        }
    }

    /// The character after ground detection: on found ground it is grounded
    /// and its vertical velocity is zero; otherwise it is in the air.
    pub open spec fn spec_landed(self, hit: Option<Intersection>) -> Character {
        if spec_stands_on(hit) {
            Character { velocity: Vec3 { y: 0, ..self.velocity }, grounded: true, ..self }
        } else {
            Character { grounded: false, ..self }
        }
    }

    /// The character after a jump: it leaves the ground at `JUMP_SPEED`.
    pub open spec fn spec_jumped(self) -> Character {
        Character { velocity: Vec3 { y: JUMP_SPEED, ..self.velocity }, grounded: false, ..self }
    }

    /// The character after what follows ground detection: on the ground,
    /// friction, and then the jump if one is asked for; in the air, gravity.
    pub open spec fn spec_grounded_or_falling(self, jump: bool, dt: int) -> Character {
        if self.grounded {
            if jump {
                self.spec_slowed(dt).spec_jumped()
            } else {
                self.spec_slowed(dt)
            }
        } else {
            self.spec_fallen(dt)
        }
    }

    /// The character after a slide along a surface with the given normal: the
    /// part of the velocity along the normal is taken away.
    pub open spec fn spec_slid(self, normal: Vec3) -> Character {
        Character {
            velocity: self.velocity.spec_minus(
                normal.spec_scaled(self.velocity.spec_dot(normal)),
            ),
            ..self
        }
    }

    /// Where the ground is looked for: where the character would be after
    /// `dt` at its present velocity.
    pub open spec fn spec_anticipated(self, position: Vec3, dt: int) -> Vec3 {
        position.spec_plus(self.velocity.spec_scaled(dt))
    }

    /// Tells whether the tunable rates are within their limits.
    pub fn is_steady(&self) -> (b: bool)
        ensures
            b == self.steady(),
    {
        0 <= self.move_speed && self.move_speed <= SPEED_LIMIT && 0 <= self.move_accel
            && self.move_accel <= RATE_LIMIT && 0 <= self.move_friction && self.move_friction
            <= RATE_LIMIT
    }

    /// Accelerates towards `wish_dir`, unless the character is at or above
    /// its move speed.
    pub fn apply_acceleration(&mut self, wish_dir: Vec3, dt: i64)
        requires
            old(self).steady(),
            old(self).velocity.within(LIMIT as int),
            wish_dir.within(SCALE as int),
            0 <= dt <= DT_LIMIT,
        ensures
            *final(self) == old(self).spec_accelerated(wish_dir, dt as int),
            final(self).velocity.within(old(self).velocity.reach() + old(self).move_speed),
    {
        let add_speed: i64 = self.move_speed - self.velocity.length();
        if add_speed <= 0 {
            return ;
        }
        proof {
            lemma_rate_product(self.move_accel as int, dt as int);
        }
        let accel_speed: i64 = mul_mul_div_capped(
            self.move_accel,
            dt,
            self.move_speed,
            SCALE_SQUARED,
            add_speed,
        );
        proof {
            lemma_fraction_bound(wish_dir.x as int, SCALE as int, accel_speed as int);
            lemma_fraction_bound(wish_dir.y as int, SCALE as int, accel_speed as int);
            lemma_fraction_bound(wish_dir.z as int, SCALE as int, accel_speed as int);
        }
        self.velocity = self.velocity.plus(wish_dir.scaled(accel_speed));
    }

    /// Slows the character by friction, keeping its direction.
    pub fn apply_friction(&mut self, dt: i64)
        requires
            old(self).steady(),
            old(self).velocity.within(LIMIT as int),
            0 <= dt <= DT_LIMIT,
        ensures
            *final(self) == old(self).spec_slowed(dt as int),
            magnitude(final(self).velocity.x as int) <= magnitude(old(self).velocity.x as int),
            magnitude(final(self).velocity.y as int) <= magnitude(old(self).velocity.y as int),
            magnitude(final(self).velocity.z as int) <= magnitude(old(self).velocity.z as int),
    {
        let speed: i64 = self.velocity.length();
        if speed == 0 {
            return ;
        }
        proof {
            lemma_rate_product(self.move_friction as int, dt as int);
        }
        let drop: i64 = mul_mul_div_capped(self.move_friction, dt, speed, SCALE_SQUARED, speed);
        let new_speed: i64 = speed - drop;
        proof {
            lemma_part_of(self.velocity.x as int, new_speed as int, speed as int);
            lemma_part_of(self.velocity.y as int, new_speed as int, speed as int);
            lemma_part_of(self.velocity.z as int, new_speed as int, speed as int);
        }
        self.velocity = self.velocity.ratio(new_speed, speed);
    }

    /// Adds a frame's worth of gravity to the vertical velocity.
    pub fn apply_gravity(&mut self, dt: i64)
        requires
            old(self).velocity.within(LIMIT as int),
            0 <= dt <= DT_LIMIT,
        ensures
            *final(self) == old(self).spec_fallen(dt as int),
            final(self).velocity.y == old(self).velocity.y - spec_gravity_step(dt as int),
            0 <= spec_gravity_step(dt as int) <= 981_000_000,
    {
        proof {
            lemma_gravity_step(dt as int);
        }
        let step: i64 = mul_div(GRAVITY, dt, SCALE);
        self.velocity.y = self.velocity.y - step;
    }

    /// Where the ground is looked for in a frame of `dt`.
    pub fn anticipated_position(&self, position: Vec3, dt: i64) -> (at: Vec3)
        requires
            self.velocity.within(SLIDE_SPEED_LIMIT as int),
            position.within(LIMIT as int),
            0 <= dt <= DT_LIMIT,
        ensures
            at == self.spec_anticipated(position, dt as int),
            at.within(position.reach() + 100 * self.velocity.reach()),
    {
        proof {
            lemma_travel(self.velocity, dt as int);
        }
        position.plus(self.velocity.scaled(dt))
    }

    /// Takes the result of the sweep under the character: on ground, the
    /// character is grounded, stops falling, and rests on the contact point;
    /// otherwise it is in the air.
    pub fn detect_ground(&mut self, position: &mut Vec3, hit: Option<Intersection>)
        requires
            hit matches Some(found) ==> found.wf(),
        ensures
            *final(self) == old(self).spec_landed(hit),
            *final(position) == spec_rest(*old(position), hit),
            final(self).grounded == spec_stands_on(hit),
    {
        match hit {
            Some(found) => {
                if found.their_normal.y > GROUND_NORMAL_MIN {
                    self.grounded = true;
                    position.y = found.their_contact_point.y + CHARACTER_HALF_HEIGHT
                        + GROUND_CLEARANCE;
                    self.velocity.y = 0;
                } else {
                    self.grounded = false;
                }
            },
            None => {
                self.grounded = false;
            },
        }
    }

    /// What follows ground detection: on the ground, friction, and then the
    /// jump if one is asked for; in the air, gravity.
    pub fn ground_or_fall(&mut self, jump: bool, dt: i64)
        requires
            old(self).steady(),
            old(self).velocity.within(LIMIT as int),
            0 <= dt <= DT_LIMIT,
        ensures
            *final(self) == old(self).spec_grounded_or_falling(jump, dt as int),
            final(self).velocity.within(old(self).velocity.reach() + 981_000_000),
    {
        if self.grounded {
            self.apply_friction(dt);
            if jump {
                self.velocity.y = JUMP_SPEED;
                self.grounded = false;
            }
        } else {
            self.apply_gravity(dt);
        }
    }

    /// Takes the part of the velocity along `normal` away.
    pub fn slide(&mut self, normal: Vec3)
        requires
            normal.is_unit(),
            old(self).velocity.within(SLIDE_SPEED_LIMIT as int),
        ensures
            *final(self) == old(self).spec_slid(normal),
            final(self).velocity.within(13 * old(self).velocity.reach()),
    {
        proof {
            lemma_unit_components(normal);
            lemma_slide_bound(self.velocity, normal, SLIDE_SPEED_LIMIT as int);
            lemma_slide_bound(self.velocity, normal, self.velocity.reach());
        }
        let along: i64 = self.velocity.dot(normal);
        self.velocity = self.velocity.minus(normal.scaled(along));
    }
}

/// A rate times a duration stays in range.
pub proof fn lemma_rate_product(rate: int, dt: int)
    requires
        0 <= rate <= RATE_LIMIT,
        0 <= dt <= DT_LIMIT,
    ensures
        0 <= rate * dt <= 100_000_000_000_000_000,
{
    assert(0 <= rate * dt <= 100_000_000_000_000_000) by (nonlinear_arith)
        requires
            0 <= rate <= 1_000_000_000,
            0 <= dt <= 100_000_000,
    ;
}

/// In a frame no component moves by more than a hundred times its speed.
pub proof fn lemma_travel(v: Vec3, dt: int)
    requires
        0 <= dt <= DT_LIMIT,
    ensures
        magnitude(trunc_div(v.x * dt, SCALE as int)) <= 100 * magnitude(v.x as int),
        magnitude(trunc_div(v.y * dt, SCALE as int)) <= 100 * magnitude(v.y as int),
        magnitude(trunc_div(v.z * dt, SCALE as int)) <= 100 * magnitude(v.z as int),
        v.spec_scaled(dt).within(100 * v.reach()),
{
    let cap = DT_LIMIT as int;
    lemma_product_bound(v.x as int, dt, magnitude(v.x as int), cap);
    lemma_product_bound(v.y as int, dt, magnitude(v.y as int), cap);
    lemma_product_bound(v.z as int, dt, magnitude(v.z as int), cap);
    lemma_trunc_div_le(v.x * dt, SCALE as int, 100 * magnitude(v.x as int));
    lemma_trunc_div_le(v.y * dt, SCALE as int, 100 * magnitude(v.y as int));
    lemma_trunc_div_le(v.z * dt, SCALE as int, 100 * magnitude(v.z as int));
}

/// The speed that gravity adds in one frame is not negative and is bounded.
pub proof fn lemma_gravity_step(dt: int)
    requires
        0 <= dt <= DT_LIMIT,
    ensures
        0 <= spec_gravity_step(dt) <= 981_000_000,
        dt > 0 ==> spec_gravity_step(dt) > 0,
{
    lemma_trunc_div(GRAVITY * dt, SCALE as int);
    lemma_trunc_div_le(GRAVITY * dt, SCALE as int, 981_000_000);
}

/// For a velocity within `cap` and a unit normal, the speed along the normal
/// is at most six times `cap`, and a slide changes no component by more than
/// twelve times `cap`.
pub proof fn lemma_slide_bound(v: Vec3, n: Vec3, cap: int)
    requires
        n.is_unit(),
        v.within(cap),
    ensures
        magnitude(v.raw_dot(n)) <= 6 * cap * SCALE,
        magnitude(v.spec_dot(n)) <= 6 * cap,
        magnitude(trunc_div(n.x * v.spec_dot(n), SCALE as int)) <= 12 * cap,
        magnitude(trunc_div(n.y * v.spec_dot(n), SCALE as int)) <= 12 * cap,
        magnitude(trunc_div(n.z * v.spec_dot(n), SCALE as int)) <= 12 * cap,
{
    lemma_unit_components(n);
    let s2 = 2 * SCALE;
    lemma_product_bound(v.x as int, n.x as int, cap, s2);
    lemma_product_bound(v.y as int, n.y as int, cap, s2);
    lemma_product_bound(v.z as int, n.z as int, cap, s2);
    assert(3 * (cap * s2) == (6 * cap) * SCALE) by (nonlinear_arith)
        requires
            s2 == 2 * SCALE,
    ;
    assert(6 * cap * SCALE == (6 * cap) * SCALE) by (nonlinear_arith);
    lemma_trunc_div_le(v.raw_dot(n), SCALE as int, 6 * cap);
    let d = v.spec_dot(n);
    lemma_product_bound(n.x as int, d, s2, 6 * cap);
    lemma_product_bound(n.y as int, d, s2, 6 * cap);
    lemma_product_bound(n.z as int, d, s2, 6 * cap);
    assert(s2 * (6 * cap) == (12 * cap) * SCALE) by (nonlinear_arith)
        requires
            s2 == 2 * SCALE,
    ;
    lemma_trunc_div_le(n.x * d, SCALE as int, 12 * cap);
    lemma_trunc_div_le(n.y * d, SCALE as int, 12 * cap);
    lemma_trunc_div_le(n.z * d, SCALE as int, 12 * cap);
}

} // verus!
