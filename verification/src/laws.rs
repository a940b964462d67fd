//! What holds of every sweep and of every frame.

use vstd::prelude::*;
use crate::bounds::{Aabb, lemma_swept_encloses};
use crate::character::{
    CHARACTER_HALF_HEIGHT, Character, CharacterInput, DT_LIMIT, GROUND_CLEARANCE,
    GROUND_NORMAL_MIN, JUMP_SPEED, SLIDE_SPEED_LIMIT, SPEED_LIMIT, lemma_gravity_step,
    lemma_slide_bound, spec_gravity_step, spec_ground_detector, spec_ground_reach,
};
use crate::collider::{CollisionEntity, highest_corner, lowest_corner};
use crate::contact::{ContactOutcome, WORLD_EXTENT};
use crate::fixed::{
    LIMIT, SCALE, is_floor_sqrt, lemma_floor_sqrt_is, lemma_fraction_bound, lemma_part_of,
    lemma_product_bound, lemma_trunc_div, magnitude, trunc_div,
};
use crate::movement::{MovementModel, Stage, spec_perform_movement};
use crate::sweep::{
    SweepModel, lemma_begin_wf, lemma_broad_phase_complete, lemma_broad_phase_len,
    lemma_clear_path, lemma_position_in_range, lemma_replay, spec_begin, spec_broad_phase,
    steps_after,
};
use crate::vector::{
    UNIT_SLACK, Vec3, lemma_length_dominates, lemma_speed_bound, lemma_unit_components,
};

verus! {

/// A sweep along which no query reports a contact has no intersection.
pub proof fn law_clear_path_has_no_intersection(
    local: Aabb,
    translation: Vec3,
    movement: Vec3,
    colliders: Seq<CollisionEntity>,
    outcomes: Seq<ContactOutcome>,
)
    requires
        translation.within(LIMIT as int),
        movement.within(LIMIT as int),
        colliders.len() <= usize::MAX,
        forall|i: int| 0 <= i < outcomes.len() ==> !(#[trigger] outcomes[i]).spec_reports_contact(),
    ensures
        spec_begin(local, translation, movement, colliders).replay(outcomes).intersection() is None,
{
    lemma_begin_wf(local, translation, movement, colliders);
    lemma_clear_path(spec_begin(local, translation, movement, colliders), outcomes);
}

/// Whatever the queries report, the time of impact of a sweep's intersection
/// is a fraction between zero and one, and the sweep is over after at most
/// one query per step and obstacle.
pub proof fn law_sweep_ends_with_a_fraction(
    local: Aabb,
    translation: Vec3,
    movement: Vec3,
    colliders: Seq<CollisionEntity>,
    outcomes: Seq<ContactOutcome>,
)
    requires
        translation.within(LIMIT as int),
        movement.within(LIMIT as int),
        colliders.len() <= usize::MAX,
    ensures
        spec_begin(local, translation, movement, colliders).replay(outcomes).intersection() matches Some(
            found,
        ) ==> 0 <= found.toi <= SCALE,
        outcomes.len() >= steps_after(0, movement.spec_length()) * colliders.len() ==> spec_begin(
            local,
            translation,
            movement,
            colliders,
        ).replay(outcomes).finished(),
{
    let s = spec_begin(local, translation, movement, colliders);
    lemma_begin_wf(local, translation, movement, colliders);
    lemma_replay(s, outcomes);
    lemma_speed_bound(movement, LIMIT as int);
    lemma_broad_phase_len(local.spec_swept(translation, movement), colliders);
    let n = s.targets.len() as int;
    let all = colliders.len() as int;
    let before = steps_after(0, s.length as int);
    if !s.finished() {
        let after = steps_after(s.travelled as int, s.length as int);
        assert(after + 1 == before);
        assert(after * n + n == before * n) by (nonlinear_arith)
            requires
                after + 1 == before,
        ;
        assert(before * n <= before * all) by (nonlinear_arith)
            requires
                before >= 0,
                0 <= n <= all,
        ;
    }
}

/// The direction that an input asks for is level, and no component of it is
/// longer than one.
pub proof fn lemma_wish_dir_is_level(input: CharacterInput)
    ensures
        input.spec_wish_dir().y == 0,
        input.spec_wish_dir().within(SCALE as int),
{
    let raw = input.spec_raw_wish();
    lemma_speed_bound(raw, SCALE as int);
    let len = raw.spec_length();
    if len != 0 {
        lemma_trunc_div(0, len);
        let q = trunc_div(0, len);
        assert(q == 0) by (nonlinear_arith)
            requires
                q >= 0,
                q * len <= 0,
                len > 0,
        ;
        lemma_length_dominates(raw, len);
        lemma_fraction_bound(raw.x as int, len, SCALE as int);
        lemma_fraction_bound(raw.z as int, len, SCALE as int);
    }
}

/// The direction that an input asks for has length one, or is zero: a
/// diagonal is no faster than a straight line.
pub proof fn law_wish_dir_is_unit_or_zero(input: CharacterInput)
    ensures
        input.spec_wish_dir().spec_length() == 0 || input.spec_wish_dir().spec_length() == SCALE,
        (input.left == input.right && input.forward == input.backward)
            <==> input.spec_wish_dir() == (Vec3 { x: 0, y: 0, z: 0 }),
{
    let raw = input.spec_raw_wish();
    let one = SCALE as int;
    let x_set = input.left != input.right;
    let z_set = input.forward != input.backward;
    if x_set && z_set {
        assert(raw.norm_sq() == 2_000_000_000_000) by (nonlinear_arith)
            requires
                raw.x == 1_000_000 || raw.x == -1_000_000,
                raw.y == 0,
                raw.z == 1_000_000 || raw.z == -1_000_000,
                raw.norm_sq() == raw.x * raw.x + raw.y * raw.y + raw.z * raw.z,
        ;
        assert(is_floor_sqrt(2_000_000_000_000, 1_414_213)) by (nonlinear_arith);
        lemma_floor_sqrt_is(2_000_000_000_000, 1_414_213);
        assert(trunc_div(1_000_000 * one, 1_414_213) == 707_107) by (nonlinear_arith)
            requires
                one == 1_000_000,
        ;
        assert(trunc_div(-1_000_000 * one, 1_414_213) == -707_107) by (nonlinear_arith)
            requires
                one == 1_000_000,
        ;
        let wish = input.spec_wish_dir();
        assert(wish.y == 0) by {
            lemma_wish_dir_is_level(input);
        }
        assert(wish.x == 707_107 || wish.x == -707_107);
        assert(wish.z == 707_107 || wish.z == -707_107);
        assert(wish.norm_sq() == 1_000_000_618_898) by (nonlinear_arith)
            requires
                wish.x == 707_107 || wish.x == -707_107,
                wish.y == 0,
                wish.z == 707_107 || wish.z == -707_107,
                wish.norm_sq() == wish.x * wish.x + wish.y * wish.y + wish.z * wish.z,
        ;
        assert(is_floor_sqrt(1_000_000_618_898, 1_000_000)) by (nonlinear_arith);
        lemma_floor_sqrt_is(1_000_000_618_898, 1_000_000);
    } else if x_set || z_set {
        assert(raw.norm_sq() == 1_000_000_000_000) by (nonlinear_arith)
            requires
                (raw.x == 0 && (raw.z == 1_000_000 || raw.z == -1_000_000)) || (raw.z == 0 && (
                raw.x == 1_000_000 || raw.x == -1_000_000)),
                raw.y == 0,
                raw.norm_sq() == raw.x * raw.x + raw.y * raw.y + raw.z * raw.z,
        ;
        assert(is_floor_sqrt(1_000_000_000_000, 1_000_000)) by (nonlinear_arith);
        lemma_floor_sqrt_is(1_000_000_000_000, 1_000_000);
        assert(trunc_div(1_000_000 * one, 1_000_000) == 1_000_000) by (nonlinear_arith)
            requires
                one == 1_000_000,
        ;
        assert(trunc_div(-1_000_000 * one, 1_000_000) == -1_000_000) by (nonlinear_arith)
            requires
                one == 1_000_000,
        ;
        assert(trunc_div(0 * one, 1_000_000) == 0) by (nonlinear_arith);
        let wish = input.spec_wish_dir();
        assert(wish == raw);
    } else {
        assert(raw.norm_sq() == 0) by (nonlinear_arith)
            requires
                raw.x == 0,
                raw.y == 0,
                raw.z == 0,
                raw.norm_sq() == raw.x * raw.x + raw.y * raw.y + raw.z * raw.z,
        ;
        assert(is_floor_sqrt(0, 0));
        lemma_floor_sqrt_is(0, 0);
    }
}

/// A frame in which no query from here on reports a contact ends as
/// `unhindered` says.
pub proof fn lemma_clear_run(m: MovementModel, outcomes: Seq<ContactOutcome>)
    requires
        !m.done(),
        m.stage is Slide ==> m.sweep.best is None,
        m.stage is Ground ==> m.sweep.finished() || m.sweep.best is None,
        forall|i: int| 0 <= i < outcomes.len() ==> !(#[trigger] outcomes[i]).spec_reports_contact(),
    ensures
        m.settle().replay(outcomes).done() ==> m.settle().replay(outcomes).character
            == m.unhindered().0 && m.settle().replay(outcomes).position == m.unhindered().1,
    decreases m.sweeps_left(), outcomes.len(),
{
    if m.settled() {
        if outcomes.len() > 0 {
            let next = MovementModel { sweep: m.sweep.after(outcomes[0]), ..m };
            let rest = outcomes.drop_first();
            assert(!outcomes[0].spec_reports_contact());
            assert forall|i: int| 0 <= i < rest.len() implies !(#[trigger] rest[i]).spec_reports_contact() by {
                assert(rest[i] == outcomes[i + 1]);
            }
            assert(m.pending() is Some);
            assert(m.replay(outcomes) == next.settle().replay(rest));
            lemma_clear_run(next, rest);
        }
    } else {
        let next = m.advanced();
        if next.done() {
            assert(next.settle() == next);
            assert(next.pending() is None);
        } else {
            lemma_clear_run(next, outcomes);
        }
    }
}

/// Free fall: in a frame in which no query reports a contact, the character
/// is in the air at the end, and its vertical velocity has changed by what
/// gravity adds in the frame, which in a frame of some length is more than
/// nothing.
pub proof fn law_free_fall_gains_gravity(
    character: Character,
    dt: i64,
    body: Aabb,
    position: Vec3,
    colliders: Seq<CollisionEntity>,
    input: CharacterInput,
    outcomes: Seq<ContactOutcome>,
)
    requires
        character.steady(),
        character.velocity.within(SPEED_LIMIT as int),
        0 <= dt <= DT_LIMIT,
        forall|i: int| 0 <= i < outcomes.len() ==> !(#[trigger] outcomes[i]).spec_reports_contact(),
    ensures
        ({
            let end = spec_perform_movement(character, dt, body, position, colliders, input).replay(
                outcomes,
            );
            end.done() ==> !end.character.grounded && end.character.velocity.y
                == character.velocity.y - spec_gravity_step(dt as int) && (dt > 0
                ==> end.character.velocity.y < character.velocity.y)
        }),
{
    let pushed = character.spec_accelerated(input.spec_wish_dir(), dt as int);
    let start = MovementModel {
        character: pushed,
        position,
        dt,
        remaining: dt,
        jump: input.jump,
        stage: Stage::Ground,
        slides: 0,
        body,
        colliders,
        sweep: spec_begin(
            spec_ground_detector().spec_local_bounds(),
            pushed.spec_anticipated(position, dt as int),
            spec_ground_reach(),
            colliders,
        ),
    };
    assert(spec_perform_movement(character, dt, body, position, colliders, input)
        == start.settle());
    lemma_clear_run(start, outcomes);
    lemma_wish_dir_is_level(input);
    lemma_gravity_step(dt as int);
    let a = character.spec_accel_speed(dt as int);
    assert(trunc_div(0 * a, SCALE as int) == 0) by (nonlinear_arith);
    assert(pushed.velocity.y == character.velocity.y);
}

/// Standing: when the sweep under the character has found ground, no jump is
/// asked for, and nothing is in the way of the move, the character is
/// grounded at the end of the frame, its vertical velocity is zero, and it
/// rests at a height that the ground's contact point alone decides. On a floor
/// that does not move the height is the same in every frame.
pub proof fn law_standing_holds_height(m: MovementModel, outcomes: Seq<ContactOutcome>)
    requires
        m.stage is Ground,
        m.sweep.finished(),
        m.sweep.best matches Some(found) && found.their_normal.y > GROUND_NORMAL_MIN
            && found.their_contact_point.within(WORLD_EXTENT as int),
        !m.jump,
        forall|i: int| 0 <= i < outcomes.len() ==> !(#[trigger] outcomes[i]).spec_reports_contact(),
    ensures
        ({
            let end = m.settle().replay(outcomes);
            end.done() ==> end.character.grounded && end.character.velocity.y == 0
                && end.position.y == m.sweep.best->0.their_contact_point.y + CHARACTER_HALF_HEIGHT
                + GROUND_CLEARANCE
        }),
{
    lemma_clear_run(m, outcomes);
    let hit = m.sweep.intersection();
    let landed = m.character.spec_landed(hit);
    let slowed = landed.spec_slowed(m.dt as int);
    let speed = landed.velocity.spec_length();
    assert(slowed.velocity.y == 0) by {
        if speed != 0 {
            lemma_zero_part(landed.spec_slowed_speed(m.dt as int), speed);
        }
    }
    assert(trunc_div(0 * m.remaining, SCALE as int) == 0) by (nonlinear_arith);
}

/// Jump: when the sweep under the character has found ground and a jump is
/// asked for, the character leaves the frame in the air, rising at the jump
/// speed, if nothing is in the way of the move.
pub proof fn law_jump_leaves_the_ground(m: MovementModel, outcomes: Seq<ContactOutcome>)
    requires
        m.stage is Ground,
        m.sweep.finished(),
        m.sweep.best matches Some(found) && found.their_normal.y > GROUND_NORMAL_MIN,
        m.jump,
        forall|i: int| 0 <= i < outcomes.len() ==> !(#[trigger] outcomes[i]).spec_reports_contact(),
    ensures
        ({
            let end = m.settle().replay(outcomes);
            end.done() ==> !end.character.grounded && end.character.velocity.y == JUMP_SPEED
        }),
{
    lemma_clear_run(m, outcomes);
}

/// What is left of `s` times the dot product with the normal after a slide,
/// in terms of the three rounding errors of the slide and of how far the
/// normal is from unit length.
proof fn lemma_slide_identity(
    v1: int,
    v2: int,
    v3: int,
    n1: int,
    n2: int,
    n3: int,
    d: int,
    w1: int,
    w2: int,
    w3: int,
    s: int,
)
    ensures
        s * ((v1 - w1) * n1 + (v2 - w2) * n2 + (v3 - w3) * n3) == s * (v1 * n1 + v2 * n2 + v3 * n3
            - d * s) - d * (n1 * n1 + n2 * n2 + n3 * n3 - s * s) + (n1 * d - w1 * s) * n1 + (n2 * d
            - w2 * s) * n2 + (n3 * d - w3 * s) * n3,
{
    lemma_slide_term(v1, n1, d, w1, s);
    lemma_slide_term(v2, n2, d, w2, s);
    lemma_slide_term(v3, n3, d, w3, s);
    let a1 = (v1 - w1) * n1;
    let a2 = (v2 - w2) * n2;
    let a3 = (v3 - w3) * n3;
    assert(s * (a1 + a2 + a3) == s * a1 + s * a2 + s * a3) by (nonlinear_arith);
    let b1 = v1 * n1;
    let b2 = v2 * n2;
    let b3 = v3 * n3;
    let c1 = n1 * n1;
    let c2 = n2 * n2;
    let c3 = n3 * n3;
    assert(s * (b1 + b2 + b3 - d * s) == s * b1 + s * b2 + s * b3 - d * (s * s))
        by (nonlinear_arith);
    assert(d * (c1 + c2 + c3 - s * s) == d * c1 + d * c2 + d * c3 - d * (s * s))
        by (nonlinear_arith);
}

/// One component of `lemma_slide_identity`.
proof fn lemma_slide_term(v: int, n: int, d: int, w: int, s: int)
    ensures
        s * ((v - w) * n) == s * (v * n) - d * (n * n) + (n * d - w * s) * n,
{
    assert(s * ((v - w) * n) == s * (v * n) - d * (n * n) + (n * d - w * s) * n)
        by (nonlinear_arith);
}

/// Slide: after a slide along a surface with a unit normal, what the velocity
/// still has along the normal is nothing but rounding: at most seven
/// millionths of a unit per second, and four millionths of the speed that was
/// taken away.
pub proof fn law_slide_leaves_no_normal_speed(character: Character, normal: Vec3)
    requires
        normal.is_unit(),
        character.velocity.within(SLIDE_SPEED_LIMIT as int),
    ensures
        magnitude(character.spec_slid(normal).velocity.spec_dot(normal)) * SCALE <= 7 * SCALE + 4
            * magnitude(character.velocity.spec_dot(normal)),
{
    let s = SCALE as int;
    let v = character.velocity;
    let n = normal;
    let after = character.spec_slid(normal).velocity;
    let big = v.raw_dot(n);
    let d = v.spec_dot(n);
    lemma_slide_bound(v, n, SLIDE_SPEED_LIMIT as int);
    lemma_unit_components(n);
    let w1 = trunc_div(n.x * d, s);
    let w2 = trunc_div(n.y * d, s);
    let w3 = trunc_div(n.z * d, s);
    assert(after.x == v.x - w1 && after.y == v.y - w2 && after.z == v.z - w3);
    lemma_trunc_div(big, s);
    lemma_trunc_div(n.x * d, s);
    lemma_trunc_div(n.y * d, s);
    lemma_trunc_div(n.z * d, s);
    let r0 = big - d * s;
    let r1 = n.x * d - w1 * s;
    let r2 = n.y * d - w2 * s;
    let r3 = n.z * d - w3 * s;
    assert(magnitude(r0) < s && magnitude(r1) < s && magnitude(r2) < s && magnitude(r3) < s);
    let e = n.norm_sq() - s * s;
    assert(magnitude(e) <= UNIT_SLACK);
    let left = after.raw_dot(n);
    lemma_slide_identity(
        v.x as int,
        v.y as int,
        v.z as int,
        n.x as int,
        n.y as int,
        n.z as int,
        d,
        w1,
        w2,
        w3,
        s,
    );
    assert(s * left == s * r0 - d * e + r1 * n.x + r2 * n.y + r3 * n.z);
    lemma_product_bound(d, e, magnitude(d), UNIT_SLACK as int);
    lemma_product_bound(r1, n.x as int, s, 2 * s);
    lemma_product_bound(r2, n.y as int, s, 2 * s);
    lemma_product_bound(r3, n.z as int, s, 2 * s);
    assert(s * (2 * s) == 2_000_000_000_000) by (nonlinear_arith)
        requires
            s == 1_000_000,
    ;
    assert(magnitude(d) * UNIT_SLACK == 4 * s * magnitude(d)) by (nonlinear_arith)
        requires
            s == 1_000_000,
            UNIT_SLACK == 4_000_000,
    ;
    assert(magnitude(s * left) <= 7 * s * s + 4 * s * magnitude(d));
    assert(magnitude(left) <= 7 * s + 4 * magnitude(d));
    lemma_trunc_div(left, s);
}

/// Zero times anything, over anything but zero, is zero.
proof fn lemma_zero_part(num: int, den: int)
    requires
        den != 0,
    ensures
        trunc_div(0 * num, den) == 0,
{
    assert(0 * num == 0) by (nonlinear_arith);
    assert(0int / den == 0) by (nonlinear_arith)
        requires
            den != 0,
    ;
}

/// Against no obstacle a sweep is finished before its first query, and has no
/// intersection.
pub proof fn law_empty_scene_needs_no_query(local: Aabb, translation: Vec3, movement: Vec3)
    ensures
        spec_begin(local, translation, movement, Seq::empty()).targets.len() == 0,
        spec_begin(local, translation, movement, Seq::empty()).finished(),
        spec_begin(local, translation, movement, Seq::empty()).pending() is None,
        spec_begin(local, translation, movement, Seq::empty()).intersection() is None,
        spec_begin(local, translation, movement, Seq::empty()).queries_left() == 0,
{
}

/// The broad phase of a sweep drops no obstacle that the mover could touch:
/// an obstacle whose box meets the mover's box at the place of any probe is a
/// target.
pub proof fn law_broad_phase_has_no_false_negative(
    local: Aabb,
    colliders: Seq<CollisionEntity>,
    s: SweepModel,
    i: int,
)
    requires
        local.within(LIMIT as int),
        s.wf(),
        s.length > 0,
        colliders.len() <= usize::MAX,
        s.targets == spec_broad_phase(local.spec_swept(s.origin, s.movement), colliders),
        0 <= i < colliders.len(),
        local.spec_translated(s.position()).spec_intersects(colliders[i].bounds),
    ensures
        exists|t: int| 0 <= t < s.targets.len() && (#[trigger] s.targets[t]).index == i,
{
    let offset = s.movement.spec_ratio(s.travelled as int, s.length as int);
    lemma_position_in_range(s);
    lemma_part_of(s.movement.x as int, s.travelled as int, s.length as int);
    lemma_part_of(s.movement.y as int, s.travelled as int, s.length as int);
    lemma_part_of(s.movement.z as int, s.travelled as int, s.length as int);
    lemma_swept_encloses(local, s.origin, s.movement, offset);
    let swept = local.spec_swept(s.origin, s.movement);
    assert(swept.spec_intersects(colliders[i].bounds));
    lemma_broad_phase_complete(swept, colliders, i);
}

/// The box around the points holds each of them.
pub proof fn law_hull_bound_holds_every_point(points: Seq<Vec3>, i: int)
    requires
        0 <= i < points.len(),
    ensures
        (Aabb { mins: lowest_corner(points), maxs: highest_corner(points) }).holds(points[i]),
    decreases points.len(),
{
    if points.len() > 1 {
        if i < points.len() - 1 {
            law_hull_bound_holds_every_point(points.drop_last(), i);
        } else {
            lemma_corners_reached(points.drop_last());
        }
    }
}

/// The lowest corner of a non-empty set of points is not above the highest.
proof fn lemma_corners_reached(points: Seq<Vec3>)
    requires
        points.len() > 0,
    ensures
        lowest_corner(points).x <= highest_corner(points).x,
        lowest_corner(points).y <= highest_corner(points).y,
        lowest_corner(points).z <= highest_corner(points).z,
    decreases points.len(),
{
    if points.len() > 1 {
        lemma_corners_reached(points.drop_last());
    }
}

} // verus!
