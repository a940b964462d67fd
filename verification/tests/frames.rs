use collisioneer::bounds::Aabb;
use collisioneer::character::{
    ground_detector, ground_reach, Character, CharacterInput, CHARACTER_HALF_HEIGHT,
    CHARACTER_HEIGHT, CHARACTER_OVERCLIP, CHARACTER_WIDTH, DT_LIMIT, GRAVITY, GROUND_CLEARANCE,
    GROUND_NORMAL_MIN, JUMP_SPEED, MAX_SLIDES, SPEED_LIMIT,
};
use collisioneer::collider::{Collider, CollisionEntity, Shape};
use collisioneer::contact::{Contact, ContactOutcome, Intersection, WORLD_EXTENT};
use collisioneer::movement::{Movement, Mover, Request, Stage};
use collisioneer::vector::Vec3;
use nalgebra::{Isometry3, Point3, Vector3};

const UNIT: f64 = 1_000_000.0;
const FLOOR_TOP: i64 = -1_100_000;
const REST: i64 = FLOOR_TOP + CHARACTER_HALF_HEIGHT + GROUND_CLEARANCE;
const SIXTIETH: i64 = 16_667;

fn as_float(fixed: i64) -> f32 {
    (fixed as f64 / UNIT) as f32
}

fn as_fixed(value: f32) -> i64 {
    (value as f64 * UNIT).round() as i64
}

fn fixed(x: f32, y: f32, z: f32) -> Vec3 {
    Vec3::new(as_fixed(x), as_fixed(y), as_fixed(z))
}

fn isometry(at: Vec3) -> Isometry3<f32> {
    Isometry3::translation(as_float(at.x), as_float(at.y), as_float(at.z))
}

fn solid(shape: &Shape) -> Box<dyn parry3d::shape::Shape> {
    match shape {
        Shape::Cuboid { half_size } => Box::new(parry3d::shape::Cuboid::new(Vector3::new(
            as_float(half_size.x),
            as_float(half_size.y),
            as_float(half_size.z),
        ))),
        Shape::Sphere { radius } => Box::new(parry3d::shape::Ball::new(as_float(*radius))),
        Shape::Cylinder { radius, half_height } => {
            Box::new(parry3d::shape::Cylinder::new(as_float(*half_height), as_float(*radius)))
        }
        Shape::ConvexHull { points } => {
            let points: Vec<Point3<f32>> = points
                .iter()
                .map(|p| Point3::new(as_float(p.x), as_float(p.y), as_float(p.z)))
                .collect();
            Box::new(parry3d::shape::ConvexPolyhedron::from_convex_hull(&points).unwrap())
        }
    }
}

struct Obstacle {
    entity: u64,
    solid: Box<dyn parry3d::shape::Shape>,
    pose: Isometry3<f32>,
}

fn obstacle(entity: u64, collider: &Collider, at: Vec3) -> Obstacle {
    Obstacle { entity, solid: solid(&collider.shape), pose: isometry(at) }
}

fn candidates(obstacles: &[Obstacle]) -> Vec<CollisionEntity> {
    obstacles
        .iter()
        .map(|o| {
            let aabb = o.solid.compute_aabb(&o.pose);
            CollisionEntity {
                entity: o.entity,
                bounds: Aabb {
                    mins: Vec3::new(
                        (aabb.mins.x as f64 * UNIT).floor() as i64,
                        (aabb.mins.y as f64 * UNIT).floor() as i64,
                        (aabb.mins.z as f64 * UNIT).floor() as i64,
                    ),
                    maxs: Vec3::new(
                        (aabb.maxs.x as f64 * UNIT).ceil() as i64,
                        (aabb.maxs.y as f64 * UNIT).ceil() as i64,
                        (aabb.maxs.z as f64 * UNIT).ceil() as i64,
                    ),
                },
            }
        })
        .collect()
}

fn query(mover: &dyn parry3d::shape::Shape, at: Vec3, obstacle: &Obstacle) -> ContactOutcome {
    match parry3d::query::contact(&isometry(at), mover, &obstacle.pose, obstacle.solid.as_ref(), 0.0)
    {
        Ok(Some(c)) => ContactOutcome::Contact(Contact {
            point1: fixed(c.point1.x, c.point1.y, c.point1.z),
            point2: fixed(c.point2.x, c.point2.y, c.point2.z),
            normal1: fixed(c.normal1.x, c.normal1.y, c.normal1.z),
            normal2: fixed(c.normal2.x, c.normal2.y, c.normal2.z),
            dist: as_fixed(c.dist),
        }),
        Ok(None) => ContactOutcome::NoContact,
        Err(_) => ContactOutcome::Unsupported,
    }
}

fn admissible(character: &Character, position: Vec3, dt: i64) -> bool {
    character.is_steady()
        && character.velocity.is_within(SPEED_LIMIT)
        && position.is_within(WORLD_EXTENT)
        && 0 <= dt
        && dt <= DT_LIMIT
}

/// One frame against obstacles whose contacts the outside crate computes.
fn frame(
    character: Character,
    position: Vec3,
    dt: i64,
    input: CharacterInput,
    body: &Collider,
    obstacles: &[Obstacle],
) -> (Character, Vec3, usize) {
    assert!(admissible(&character, position, dt) && body.shape.is_valid());
    let detector = solid(&ground_detector());
    let torso = solid(&body.shape);
    let mut movement: Movement =
        character.perform_movement(dt, body, position, candidates(obstacles), &input);
    let mut queries = 0;
    while let Some(request) = movement.pending() {
        let mover = match request.mover {
            Mover::GroundDetector => detector.as_ref(),
            Mover::Body => torso.as_ref(),
        };
        assert_eq!(obstacles[request.index].entity, request.entity);
        movement.answer(query(mover, request.position, &obstacles[request.index]));
        queries += 1;
    }
    assert!(movement.is_done());
    (movement.character, movement.position, queries)
}

/// The contact of an upright cylinder with a level floor, in exact arithmetic.
fn floor_contact(half_height: i64, at: Vec3) -> ContactOutcome {
    let bottom = at.y - half_height;
    if bottom <= FLOOR_TOP {
        ContactOutcome::Contact(Contact {
            point1: Vec3::new(at.x, bottom, at.z),
            point2: Vec3::new(at.x, FLOOR_TOP, at.z),
            normal1: Vec3::new(0, -1_000_000, 0),
            normal2: Vec3::new(0, 1_000_000, 0),
            dist: bottom - FLOOR_TOP,
        })
    } else {
        ContactOutcome::NoContact
    }
}

fn level_floor() -> Vec<CollisionEntity> {
    vec![CollisionEntity {
        entity: 1,
        bounds: Aabb {
            mins: Vec3::new(-10_000_000, -1_300_000, -10_000_000),
            maxs: Vec3::new(10_000_000, FLOOR_TOP, 10_000_000),
        },
    }]
}

/// One frame over a level floor whose contacts are exact.
fn frame_on_floor(
    character: Character,
    position: Vec3,
    dt: i64,
    input: CharacterInput,
) -> (Character, Vec3) {
    assert!(admissible(&character, position, dt));
    let body = body();
    let mut movement = character.perform_movement(dt, &body, position, level_floor(), &input);
    while let Some(request) = movement.pending() {
        let half_height = match request.mover {
            Mover::GroundDetector => 10_000,
            Mover::Body => CHARACTER_HALF_HEIGHT,
        };
        movement.answer(floor_contact(half_height, request.position));
    }
    (movement.character, movement.position)
}

fn idle() -> CharacterInput {
    CharacterInput { forward: false, backward: false, left: false, right: false, jump: false }
}

fn forward() -> CharacterInput {
    CharacterInput { forward: true, ..idle() }
}

fn jump() -> CharacterInput {
    CharacterInput { jump: true, ..idle() }
}

fn walker() -> Character {
    Character {
        velocity: Vec3::new(0, 0, 0),
        move_speed: 12_000_000,
        move_accel: 10_000_000,
        move_friction: 10_000_000,
        grounded: false,
    }
}

fn body() -> Collider {
    Collider::cylinder(CHARACTER_WIDTH / 2, CHARACTER_HEIGHT / 2)
}

fn floor() -> Vec<Obstacle> {
    let slab = Collider::cuboid(Vec3::new(10_000_000, 100_000, 10_000_000));
    vec![obstacle(1, &slab, Vec3::new(0, -1_200_000, 0))]
}

fn hit_with_normal(normal: Vec3, distance: i64, toi: i64) -> Intersection {
    Intersection {
        entity: 1,
        our_normal: Vec3::new(-normal.x, -normal.y, -normal.z),
        their_normal: normal,
        our_contact_point: Vec3::new(0, -1_095_000, 0),
        their_contact_point: Vec3::new(0, FLOOR_TOP, 0),
        distance,
        toi,
    }
}

#[test]
fn the_constants_of_the_character() {
    assert_eq!(CHARACTER_WIDTH, 1_000_000);
    assert_eq!(CHARACTER_HEIGHT, 1_700_000);
    assert_eq!(CHARACTER_HALF_HEIGHT, 850_000);
    assert_eq!(CHARACTER_OVERCLIP, 1_000);
    assert_eq!(GROUND_CLEARANCE, 10_000);
    assert_eq!(GRAVITY, 9_810_000);
    assert_eq!(JUMP_SPEED, 5_000_000);
    assert_eq!(GROUND_NORMAL_MIN, 700_000);
    assert_eq!(MAX_SLIDES, 4);
    assert!(matches!(ground_detector(), Shape::Cylinder { radius: 500_000, half_height: 10_000 }));
    assert_eq!(ground_reach(), Vec3::new(0, -850_000, 0));
}

#[test]
fn wish_dir_of_each_key() {
    let key = |forward, backward, left, right| CharacterInput {
        forward,
        backward,
        left,
        right,
        jump: false,
    };
    assert_eq!(key(true, false, false, false).compute_wish_dir(), Vec3::new(0, 0, -1_000_000));
    assert_eq!(key(false, true, false, false).compute_wish_dir(), Vec3::new(0, 0, 1_000_000));
    assert_eq!(key(false, false, true, false).compute_wish_dir(), Vec3::new(-1_000_000, 0, 0));
    assert_eq!(key(false, false, false, true).compute_wish_dir(), Vec3::new(1_000_000, 0, 0));
    assert_eq!(key(false, false, false, false).compute_wish_dir(), Vec3::new(0, 0, 0));
}

#[test]
fn wish_dir_of_a_diagonal_has_unit_length() {
    let both = CharacterInput { forward: true, right: true, ..idle() };
    let wish = both.compute_wish_dir();
    assert_eq!(wish, Vec3::new(707_107, 0, -707_107));
    assert_eq!(wish.length(), 1_000_000);
    let other = CharacterInput { backward: true, left: true, jump: true, ..idle() };
    assert_eq!(other.compute_wish_dir(), Vec3::new(-707_107, 0, 707_107));
}

#[test]
fn wish_dir_of_opposite_keys_cancels() {
    let all = CharacterInput { forward: true, backward: true, left: true, right: true, jump: false };
    assert_eq!(all.compute_wish_dir(), Vec3::new(0, 0, 0));
    let pair = CharacterInput { forward: true, backward: true, left: true, ..idle() };
    assert_eq!(pair.compute_wish_dir(), Vec3::new(-1_000_000, 0, 0));
}

#[test]
fn acceleration_adds_rate_times_dt_times_move_speed() {
    let mut c = walker();
    c.apply_acceleration(Vec3::new(0, 0, -1_000_000), SIXTIETH);
    assert_eq!(c.velocity, Vec3::new(0, 0, -2_000_040));
    c.apply_acceleration(Vec3::new(707_107, 0, -707_107), SIXTIETH);
    assert_eq!(c.velocity, Vec3::new(1_414_242, 0, -3_414_282));
}

#[test]
fn acceleration_is_clipped_at_the_move_speed() {
    let mut c = walker();
    c.velocity = Vec3::new(11_500_000, 0, 0);
    c.apply_acceleration(Vec3::new(1_000_000, 0, 0), SIXTIETH);
    assert_eq!(c.velocity, Vec3::new(12_000_000, 0, 0));
}

#[test]
fn no_acceleration_at_or_above_the_move_speed() {
    let mut c = walker();
    c.velocity = Vec3::new(12_000_000, 0, 0);
    c.apply_acceleration(Vec3::new(0, 0, 1_000_000), SIXTIETH);
    assert_eq!(c.velocity, Vec3::new(12_000_000, 0, 0));
    c.velocity = Vec3::new(0, -20_000_000, 0);
    c.apply_acceleration(Vec3::new(0, 0, 1_000_000), SIXTIETH);
    assert_eq!(c.velocity, Vec3::new(0, -20_000_000, 0));
}

#[test]
fn no_acceleration_without_a_wish() {
    let mut c = walker();
    c.velocity = Vec3::new(1_000_000, 2, -3);
    c.apply_acceleration(Vec3::new(0, 0, 0), SIXTIETH);
    assert_eq!(c.velocity, Vec3::new(1_000_000, 2, -3));
}

#[test]
fn friction_takes_speed_and_keeps_direction() {
    let mut c = walker();
    c.velocity = Vec3::new(3_000_000, 0, -4_000_000);
    c.apply_friction(SIXTIETH);
    assert_eq!(c.velocity, Vec3::new(2_499_990, 0, -3_333_320));
}

#[test]
fn friction_stops_at_zero() {
    let mut c = walker();
    c.velocity = Vec3::new(3_000_000, 0, -4_000_000);
    c.apply_friction(200_000);
    assert_eq!(c.velocity, Vec3::new(0, 0, 0));
    c.apply_friction(SIXTIETH);
    assert_eq!(c.velocity, Vec3::new(0, 0, 0));
}

#[test]
fn gravity_adds_to_the_fall() {
    let mut c = walker();
    c.apply_gravity(SIXTIETH);
    assert_eq!(c.velocity, Vec3::new(0, -163_503, 0));
    c.apply_gravity(SIXTIETH);
    assert_eq!(c.velocity, Vec3::new(0, -327_006, 0));
    c.apply_gravity(1_000_000);
    assert_eq!(c.velocity, Vec3::new(0, -10_137_006, 0));
    c.apply_gravity(0);
    assert_eq!(c.velocity, Vec3::new(0, -10_137_006, 0));
}

#[test]
fn the_ground_is_looked_for_where_the_character_will_be() {
    let mut c = walker();
    c.velocity = Vec3::new(3_000_000, -6_000_000, 0);
    assert_eq!(
        c.anticipated_position(Vec3::new(1, 2, 3), SIXTIETH),
        Vec3::new(50_002, -100_000, 3)
    );
}

#[test]
fn ground_needs_a_normal_that_points_up() {
    let mut c = walker();
    c.velocity = Vec3::new(1, -2_000_000, 3);
    let mut position = Vec3::new(5, 0, 7);
    c.detect_ground(&mut position, Some(hit_with_normal(Vec3::new(0, 1_000_000, 0), 0, 0)));
    assert!(c.grounded);
    assert_eq!(c.velocity, Vec3::new(1, 0, 3));
    assert_eq!(position, Vec3::new(5, REST, 7));
    assert_eq!(REST, -240_000);

    let mut c = walker();
    c.velocity = Vec3::new(1, -2_000_000, 3);
    let mut position = Vec3::new(5, 0, 7);
    c.detect_ground(&mut position, Some(hit_with_normal(Vec3::new(714_142, 700_001, 0), 0, 0)));
    assert!(c.grounded);
    assert_eq!(position.y, REST);
}

#[test]
fn a_steep_surface_is_no_ground() {
    let mut c = walker();
    c.grounded = true;
    c.velocity = Vec3::new(1, -2_000_000, 3);
    let mut position = Vec3::new(5, 0, 7);
    c.detect_ground(&mut position, Some(hit_with_normal(Vec3::new(714_143, 700_000, 0), 0, 0)));
    assert!(!c.grounded);
    assert_eq!(c.velocity, Vec3::new(1, -2_000_000, 3));
    assert_eq!(position, Vec3::new(5, 0, 7));
}

#[test]
fn nothing_below_is_no_ground() {
    let mut c = walker();
    c.grounded = true;
    c.velocity = Vec3::new(1, -2_000_000, 3);
    let mut position = Vec3::new(5, 0, 7);
    c.detect_ground(&mut position, None);
    assert!(!c.grounded);
    assert_eq!(c.velocity, Vec3::new(1, -2_000_000, 3));
    assert_eq!(position, Vec3::new(5, 0, 7));
}

#[test]
fn on_the_ground_friction_and_then_the_jump() {
    let mut c = walker();
    c.grounded = true;
    c.velocity = Vec3::new(3_000_000, 0, -4_000_000);
    c.ground_or_fall(false, SIXTIETH);
    assert!(c.grounded);
    assert_eq!(c.velocity, Vec3::new(2_499_990, 0, -3_333_320));
    c.ground_or_fall(true, 0);
    assert!(!c.grounded);
    assert_eq!(c.velocity, Vec3::new(2_499_990, 5_000_000, -3_333_320));
}

#[test]
fn in_the_air_gravity_and_no_jump() {
    let mut c = walker();
    c.velocity = Vec3::new(3_000_000, 0, -4_000_000);
    c.ground_or_fall(true, SIXTIETH);
    assert!(!c.grounded);
    assert_eq!(c.velocity, Vec3::new(3_000_000, -163_503, -4_000_000));
}

#[test]
fn a_slide_takes_the_speed_along_the_normal() {
    let mut c = walker();
    c.velocity = Vec3::new(3_000_000, -4_000_000, 500_000);
    c.slide(Vec3::new(0, 1_000_000, 0));
    assert_eq!(c.velocity, Vec3::new(3_000_000, 0, 500_000));
    assert_eq!(c.velocity.dot(Vec3::new(0, 1_000_000, 0)), 0);

    let slanted = Vec3::new(600_000, 800_000, 0);
    c.velocity = Vec3::new(-5_000_000, -5_000_000, 1_000_000);
    c.slide(slanted);
    assert_eq!(c.velocity, Vec3::new(-800_000, 600_000, 1_000_000));
    assert_eq!(c.velocity.dot(slanted), 0);
}

#[test]
fn a_slide_along_a_rounded_normal_leaves_only_rounding() {
    let normal = Vec3::new(577_350, 577_350, 577_350);
    let mut c = walker();
    c.velocity = Vec3::new(-7_000_000, -1_234_567, 3_000_001);
    let before = c.velocity.dot(normal);
    c.slide(normal);
    let after = c.velocity.dot(normal);
    assert!(before < -3_000_000);
    assert!(after.abs() * 1_000_000 <= 7_000_000 + 4 * before.abs(), "left {}", after);
}

#[test]
fn move_and_slide_against_an_obstacle() {
    let mut c = walker();
    c.velocity = Vec3::new(3_000_000, -4_000_000, 0);
    let mut position = Vec3::new(10, 20, 30);
    let hit = hit_with_normal(Vec3::new(0, 1_000_000, 0), -5_000, 250_000);
    let left = c.move_and_slide(&mut position, SIXTIETH, Some(hit));
    assert_eq!(left, Some(12_500));
    assert_eq!(c.velocity, Vec3::new(3_000_000, 0, 0));
    assert_eq!(position, Vec3::new(10, 1_020, 30));
}

#[test]
fn move_and_slide_advances_by_the_distance_to_the_contact() {
    let mut c = walker();
    c.velocity = Vec3::new(3_000_000, -4_000_000, 0);
    let mut position = Vec3::new(10, 20, 30);
    let hit = hit_with_normal(Vec3::new(0, 1_000_000, 0), 20_000, 1_000_000);
    let left = c.move_and_slide(&mut position, SIXTIETH, Some(hit));
    assert_eq!(left, Some(0));
    assert_eq!(position, Vec3::new(20_010, 1_020, 30));
}

#[test]
fn move_and_slide_head_on_stops_the_character() {
    let mut c = walker();
    c.velocity = Vec3::new(0, 0, -4_000_000);
    let mut position = Vec3::new(0, 0, 0);
    let hit = hit_with_normal(Vec3::new(0, 0, 1_000_000), 7_000, 500_000);
    let left = c.move_and_slide(&mut position, 1_000, Some(hit));
    assert_eq!(left, Some(500));
    assert_eq!(c.velocity, Vec3::new(0, 0, 0));
    assert_eq!(position, Vec3::new(0, 0, 1_000));
}

#[test]
fn move_and_slide_through_free_space() {
    let mut c = walker();
    c.velocity = Vec3::new(3_000_000, -4_000_000, 0);
    let mut position = Vec3::new(10, 20, 30);
    let left = c.move_and_slide(&mut position, SIXTIETH, None);
    assert_eq!(left, None);
    assert_eq!(c.velocity, Vec3::new(3_000_000, -4_000_000, 0));
    assert_eq!(position, Vec3::new(50_011, -66_648, 30));
}

#[test]
fn a_frame_in_empty_space_asks_nothing() {
    let movement =
        walker().perform_movement(SIXTIETH, &body(), Vec3::new(0, 0, 0), Vec::new(), &forward());
    assert!(movement.is_done());
    assert_eq!(movement.stage, Stage::Done);
    assert_eq!(movement.pending(), None);
    assert!(!movement.character.grounded);
    assert_eq!(movement.character.velocity, Vec3::new(0, -163_503, -2_000_040));
    assert_eq!(movement.position, Vec3::new(0, -2_725, -33_334));
    assert_eq!(movement.slides, 0);
}

#[test]
fn free_fall_gains_gravity_every_frame() {
    let far = Collider::cuboid(Vec3::new(1_000_000, 1_000_000, 1_000_000));
    let obstacles = vec![obstacle(9, &far, Vec3::new(0, -500_000_000, 0))];
    let mut character = walker();
    let mut position = Vec3::new(0, 0, 0);
    let mut fallen = 0;
    for n in 1..=120 {
        let (c, p, queries) = frame(character, position, SIXTIETH, idle(), &body(), &obstacles);
        assert_eq!(queries, 0);
        assert!(!c.grounded);
        assert_eq!(c.velocity, Vec3::new(0, -163_503 * n, 0));
        assert!(c.velocity.y < character.velocity.y);
        fallen += (163_503 * n * SIXTIETH) / 1_000_000;
        assert_eq!(p, Vec3::new(0, -fallen, 0));
        character = c;
        position = p;
    }
}

#[test]
fn the_first_request_is_for_the_ground_detector_one_step_down() {
    let movement = walker().perform_movement(
        SIXTIETH,
        &body(),
        Vec3::new(0, -250_000, 0),
        level_floor(),
        &idle(),
    );
    assert_eq!(movement.stage, Stage::Ground);
    assert_eq!(
        movement.pending(),
        Some(Request {
            mover: Mover::GroundDetector,
            position: Vec3::new(0, -260_000, 0),
            index: 0,
            entity: 1
        })
    );
}

#[test]
fn the_ground_out_of_reach_is_not_found() {
    let (c, p) = frame_on_floor(walker(), Vec3::new(0, 0, 4_000_000), SIXTIETH, forward());
    assert!(!c.grounded);
    assert_eq!(c.velocity, Vec3::new(0, -163_503, -2_000_040));
    assert_eq!(p, Vec3::new(0, -2_725, 3_966_666));
}

#[test]
fn a_fall_ends_on_the_floor() {
    let mut character = walker();
    let mut position = Vec3::new(0, 0, 4_000_000);
    let mut frames = 0;
    while !character.grounded {
        let (c, p) = frame_on_floor(character, position, SIXTIETH, idle());
        character = c;
        position = p;
        frames += 1;
        assert!(frames < 100);
    }
    assert!(frames > 1);
    assert_eq!(position, Vec3::new(0, REST, 4_000_000));
    assert_eq!(character.velocity, Vec3::new(0, 0, 0));
}

#[test]
fn standing_on_a_floor_is_stable() {
    let mut character = walker();
    let mut position = Vec3::new(0, REST, 4_000_000);
    for _ in 0..200 {
        let (c, p) = frame_on_floor(character, position, SIXTIETH, idle());
        assert!(c.grounded);
        assert_eq!(c.velocity.y, 0);
        assert_eq!(p.y, REST);
        character = c;
        position = p;
    }
    assert_eq!(position, Vec3::new(0, REST, 4_000_000));
    assert_eq!(character.velocity, Vec3::new(0, 0, 0));
}

#[test]
fn walking_on_a_floor_keeps_the_height() {
    let mut character = walker();
    let mut position = Vec3::new(0, REST, 4_000_000);
    let mut last = position.z;
    for _ in 0..60 {
        let (c, p) = frame_on_floor(character, position, SIXTIETH, forward());
        assert!(c.grounded);
        assert_eq!(c.velocity.y, 0);
        assert_eq!(p.y, REST);
        assert!(p.z < last);
        assert_eq!(p.x, 0);
        assert!(c.velocity.length() <= c.move_speed);
        last = p.z;
        character = c;
        position = p;
    }
}

#[test]
fn one_frame_from_within_reach_grounds_and_moves_forward() {
    let (c, p, _) = frame(
        walker(),
        Vec3::new(0, -245_000, 4_000_000),
        10_000,
        forward(),
        &body(),
        &floor(),
    );
    assert!(c.grounded);
    assert_eq!(c.velocity, Vec3::new(0, 0, -1_080_000));
    assert_eq!(p, Vec3::new(0, REST, 3_989_200));
}

#[test]
fn a_character_dropped_over_a_floor_lands_on_it() {
    let obstacles = floor();
    let mut character = walker();
    let mut position = Vec3::new(0, 0, 4_000_000);
    let (first, after_first, _) =
        frame(character, position, SIXTIETH, forward(), &body(), &obstacles);
    assert!(!first.grounded, "the floor is out of reach of the first frame");
    assert_eq!(after_first.y, -2_725);
    let mut frames = 0;
    while !character.grounded {
        let (c, p, _) = frame(character, position, SIXTIETH, forward(), &body(), &obstacles);
        assert!(p.z < position.z);
        character = c;
        position = p;
        frames += 1;
        assert!(frames < 100);
    }
    assert_eq!(position.y, REST);
    assert_eq!(position.x, 0);
    assert_eq!(character.velocity.y, 0);
    assert!(character.velocity.z < 0);
}

#[test]
fn a_jump_from_the_ground_leaves_it_in_the_same_frame() {
    let (c, p) = frame_on_floor(walker(), Vec3::new(0, REST, 0), SIXTIETH, jump());
    assert!(!c.grounded);
    assert_eq!(c.velocity, Vec3::new(0, JUMP_SPEED, 0));
    assert_eq!(p, Vec3::new(0, REST + 83_335, 0));
    let (c, _) = frame_on_floor(walker(), Vec3::new(0, REST, 0), SIXTIETH, idle());
    assert!(c.grounded);
}

#[test]
fn a_jump_in_the_air_does_nothing() {
    let (c, _) = frame_on_floor(walker(), Vec3::new(0, 0, 0), SIXTIETH, jump());
    assert!(!c.grounded);
    assert_eq!(c.velocity, Vec3::new(0, -163_503, 0));
}

#[test]
fn a_jump_from_a_floor_that_the_outside_crate_reports() {
    let (c, p, _) =
        frame(walker(), Vec3::new(0, -245_000, 4_000_000), SIXTIETH, jump(), &body(), &floor());
    assert!(!c.grounded);
    assert_eq!(c.velocity, Vec3::new(0, JUMP_SPEED, 0));
    assert_eq!(p, Vec3::new(0, REST + 83_335, 4_000_000));
}

#[test]
fn a_jump_rises_and_comes_back_to_the_floor() {
    let (mut character, mut position) =
        frame_on_floor(walker(), Vec3::new(0, REST, 0), SIXTIETH, jump());
    let mut top = position.y;
    let mut frames = 1;
    while !character.grounded {
        let (c, p) = frame_on_floor(character, position, SIXTIETH, idle());
        top = top.max(p.y);
        character = c;
        position = p;
        frames += 1;
        assert!(frames < 200);
    }
    assert!(top > REST + 1_000_000, "top {}", top);
    assert_eq!(position.y, REST);
    assert_eq!(character.velocity.y, 0);
}

#[test]
fn walking_into_a_wall_slides_along_it() {
    let slab = Collider::cuboid(Vec3::new(10_000_000, 100_000, 10_000_000));
    let wall = Collider::cuboid(Vec3::new(10_000_000, 10_000_000, 1_000_000));
    let obstacles = vec![
        obstacle(1, &slab, Vec3::new(0, -1_200_000, 0)),
        obstacle(2, &wall, Vec3::new(0, 0, -2_000_000)),
    ];
    let mut character = walker();
    character.velocity = Vec3::new(3_000_000, 0, -6_000_000);
    let start = Vec3::new(0, -245_000, -450_000);
    let (c, p, _) = frame(character, start, 50_000, idle(), &body(), &obstacles);
    let normal = Vec3::new(0, 0, 1_000_000);
    assert!(c.velocity.dot(normal).abs() <= 2_000, "velocity {:?}", c.velocity);
    assert!(c.velocity.x > 0);
    assert!(p.z - 500_000 >= -1_000_000 - 20_000, "position {:?}", p);
    assert!(p.x > 0);
}

#[test]
fn a_frame_makes_at_most_four_slides() {
    let mut character = walker();
    character.velocity = Vec3::new(0, 0, -4_000_000);
    let colliders = vec![CollisionEntity {
        entity: 5,
        bounds: Aabb {
            mins: Vec3::new(-10_000_000, -10_000_000, -10_000_000),
            maxs: Vec3::new(10_000_000, 10_000_000, 10_000_000),
        },
    }];
    let mut movement =
        character.perform_movement(SIXTIETH, &body(), Vec3::new(0, 0, 0), colliders, &idle());
    let wall = Contact {
        point1: Vec3::new(0, 0, -1),
        point2: Vec3::new(0, 0, -2),
        normal1: Vec3::new(-1_000_000, 0, 0),
        normal2: Vec3::new(1_000_000, 0, 0),
        dist: 0,
    };
    let mut body_queries = 0;
    while let Some(request) = movement.pending() {
        match request.mover {
            Mover::GroundDetector => movement.answer(ContactOutcome::NoContact),
            Mover::Body => {
                body_queries += 1;
                movement.answer(ContactOutcome::Contact(wall));
            }
        }
    }
    assert_eq!(body_queries, 4);
    assert_eq!(movement.slides, 4);
    assert!(movement.is_done());
    assert_eq!(movement.character.velocity, Vec3::new(0, -163_503, -4_000_000));
    assert_eq!(movement.position.x, 4_000);
}
