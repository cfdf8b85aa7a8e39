use tank_game::{
    Angle, CollisionMap, Envelope, Hitbox, Idx, Local, Point, TankHitbox, Vector, ENVELOPE_LIMIT,
    TANK_SIZE,
};

fn radians(angle: f32) -> Angle {
    Angle { bits: angle.to_bits() }
}

/// The vector seen from a frame turned by `angle`.
fn turned_back(angle: Angle, v: Vector) -> Vector {
    let rotation: euclid::default::Rotation2D<f32> =
        euclid::Rotation2D::new(euclid::Angle::radians(f32::from_bits(angle.bits)));
    let seen = rotation
        .inverse()
        .transform_vector(euclid::default::Vector2D::new(v.x, v.y).to_f32())
        .to_i64();
    Vector::new(seen.x, seen.y)
}

fn local(hitbox: &TankHitbox, point: &Point) -> Vector {
    turned_back(
        hitbox.angle,
        Vector::new(point.x - hitbox.center.x, point.y - hitbox.center.y),
    )
}

#[test]
fn constants_of_the_hitbox() {
    assert_eq!(TANK_SIZE, 200_000);
    assert_eq!(ENVELOPE_LIMIT, 282_842);
    assert_eq!(
        ENVELOPE_LIMIT,
        (TANK_SIZE as f64 * std::f64::consts::SQRT_2) as i64
    );
}

#[test]
fn centre_of_unturned_hitbox_is_contained() {
    let hitbox = TankHitbox { center: Point::origin(), angle: Angle::zero() };
    let point = Point::new(0, 0);
    assert!(hitbox.contains_point(&point, &local(&hitbox, &point)));
}

#[test]
fn edge_of_unturned_hitbox_is_contained_and_beyond_is_not() {
    let hitbox = TankHitbox { center: Point::new(1_000, -2_000), angle: Angle::zero() };
    let on_edge = Point::new(1_000 + TANK_SIZE, -2_000 - TANK_SIZE);
    assert!(hitbox.contains_point(&on_edge, &local(&hitbox, &on_edge)));
    let beyond = Point::new(1_001 + TANK_SIZE, -2_000);
    assert!(!hitbox.contains_point(&beyond, &local(&hitbox, &beyond)));
}

#[test]
fn point_outside_the_envelope_reach_is_never_contained() {
    let hitbox = TankHitbox { center: Point::origin(), angle: Angle::zero() };
    let far = Point::new(ENVELOPE_LIMIT + 1, ENVELOPE_LIMIT);
    assert!(!hitbox.contains_point(&far, &Vector::zero()));
    let beside = Point::new(ENVELOPE_LIMIT + 1, 0);
    assert!(!hitbox.contains_point(&beside, &Vector::zero()));
    assert!(hitbox.contains_point(&Point::new(ENVELOPE_LIMIT, 0), &Vector::zero()));
    let very_far = Point::new(i64::MAX, i64::MIN);
    assert!(!hitbox.contains_point(&very_far, &Vector::zero()));
    let other_side = TankHitbox { center: Point::new(i64::MIN, 0), angle: Angle::zero() };
    assert!(!other_side.contains_point(&Point::new(i64::MAX, 0), &Vector::zero()));
}

#[test]
fn corner_leaves_the_hitbox_when_it_turns_by_an_eighth() {
    let corner = Point::new(TANK_SIZE, TANK_SIZE);
    let upright = TankHitbox { center: Point::origin(), angle: Angle::zero() };
    assert!(upright.contains_point(&corner, &local(&upright, &corner)));
    let turned = TankHitbox {
        center: Point::origin(),
        angle: radians(std::f32::consts::FRAC_PI_4),
    };
    let seen = local(&turned, &corner);
    assert!(seen.x > TANK_SIZE);
    assert!(!turned.contains_point(&corner, &seen));
}

#[test]
fn point_on_the_axis_stays_in_a_square_turned_by_a_quarter() {
    let point = Point::new(TANK_SIZE, 0);
    let upright = TankHitbox { center: Point::origin(), angle: Angle::zero() };
    assert!(upright.contains_point(&point, &local(&upright, &point)));
    let turned = TankHitbox {
        center: Point::origin(),
        angle: radians(std::f32::consts::FRAC_PI_2),
    };
    assert!(turned.contains_point(&point, &local(&turned, &point)));
}

#[test]
fn envelope_reaches_the_limit_to_each_side() {
    let hitbox = TankHitbox { center: Point::new(10, -20), angle: radians(1.0) };
    let envelope = hitbox.envelope();
    assert_eq!(
        envelope,
        Envelope {
            lower: Point::new(10 - ENVELOPE_LIMIT, -20 - ENVELOPE_LIMIT),
            upper: Point::new(10 + ENVELOPE_LIMIT, -20 + ENVELOPE_LIMIT),
        }
    );
    assert!(envelope.contains(&Point::new(10 + ENVELOPE_LIMIT, -20)));
    assert!(!envelope.contains(&Point::new(11 + ENVELOPE_LIMIT, -20)));
}

#[test]
fn distance_to_the_square_in_its_frame() {
    let hitbox = TankHitbox { center: Point::origin(), angle: Angle::zero() };
    assert_eq!(hitbox.distance_relative(&Vector::new(0, 0)), 0);
    assert_eq!(hitbox.distance_relative(&Vector::new(TANK_SIZE, -TANK_SIZE)), 0);
    assert_eq!(hitbox.distance_relative(&Vector::new(TANK_SIZE + 3, 0)), 9);
    assert_eq!(hitbox.distance_relative(&Vector::new(-TANK_SIZE - 3, TANK_SIZE + 4)), 25);
}

#[test]
fn index_starts_empty() {
    let map = CollisionMap::new();
    assert!(map.candidates(&Point::origin()).is_empty());
    assert_eq!(map.collide(&Point::origin(), &[]), None);
}

#[test]
fn index_finds_what_was_added_by_its_envelope() {
    let mut map = CollisionMap::new();
    let near = Hitbox::new(Point::new(0, 0), Angle::zero(), 0);
    let far = Hitbox::new(Point::new(10_000_000, 0), radians(2.0), 1);
    map.add(near);
    map.add(far);
    assert_eq!(map.candidates(&Point::new(ENVELOPE_LIMIT, -ENVELOPE_LIMIT)), vec![near]);
    assert_eq!(map.candidates(&Point::new(10_000_000, 5)), vec![far]);
    assert!(map.candidates(&Point::new(5_000_000, 0)).is_empty());
    assert!(map.candidates(&Point::new(ENVELOPE_LIMIT + 1, 0)).is_empty());
}

#[test]
fn index_remove_takes_one_entry_out() {
    let mut map = CollisionMap::new();
    let entry = Hitbox::new(Point::new(0, 0), Angle::zero(), 0);
    let other = Hitbox::new(Point::new(100, 0), Angle::zero(), 1);
    map.add(entry);
    map.add(other);
    assert_eq!(map.remove(entry), Some(entry));
    assert_eq!(map.remove(entry), None);
    assert_eq!(map.candidates(&Point::origin()), vec![other]);
    let copy = map.duplicate();
    assert_eq!(map.remove(other), Some(other));
    assert!(map.candidates(&Point::origin()).is_empty());
    assert_eq!(copy.candidates(&Point::origin()), vec![other]);
}

#[test]
fn index_holds_an_entry_as_often_as_it_was_added() {
    let mut map = CollisionMap::new();
    let entry = Hitbox::new(Point::new(0, 0), Angle::zero(), 0);
    map.add(entry);
    map.add(entry);
    assert_eq!(map.candidates(&Point::origin()).len(), 2);
    assert_eq!(map.remove(entry), Some(entry));
    assert_eq!(map.candidates(&Point::origin()).len(), 1);
}

#[test]
fn collide_needs_a_local_point_in_the_square() {
    let mut map = CollisionMap::new();
    let entry = Hitbox::new(Point::new(0, 0), Angle::zero(), 4);
    map.add(entry);
    let point = Point::new(1_000, 1_000);
    assert_eq!(map.collide(&point, &[]), None);
    let inside = Local { tank: Idx::new(4), point: Vector::new(1_000, 1_000) };
    assert_eq!(map.collide(&point, &[inside]), Some(entry));
    let outside = Local { tank: Idx::new(4), point: Vector::new(TANK_SIZE + 1, 0) };
    assert_eq!(map.collide(&point, &[outside]), None);
    let for_another = Local { tank: Idx::new(5), point: Vector::new(0, 0) };
    assert_eq!(map.collide(&point, &[for_another]), None);
    assert_eq!(map.collide(&point, &[outside, inside]), None);
}

#[test]
fn collide_prefers_the_lowest_slot() {
    let mut map = CollisionMap::new();
    let low = Hitbox::new(Point::new(0, 0), Angle::zero(), 1);
    let high = Hitbox::new(Point::new(100, 0), Angle::zero(), 2);
    map.add(high);
    map.add(low);
    let point = Point::new(50, 0);
    let locals = [
        Local { tank: Idx::new(2), point: Vector::new(-50, 0) },
        Local { tank: Idx::new(1), point: Vector::new(50, 0) },
    ];
    assert_eq!(map.collide(&point, &locals), Some(low));
    assert_eq!(map.collide(&point, &locals[..1]), Some(high));
}

#[test]
fn hitbox_entry_gives_back_its_parts() {
    let shape = TankHitbox { center: Point::new(3, 4), angle: radians(0.5) };
    let entry = Hitbox::tank(shape, Idx::new(9));
    assert_eq!(entry.hitbox(), shape);
    assert_eq!(entry.tank_slot(), 9);
    assert_eq!(entry, Hitbox::new(Point::new(3, 4), radians(0.5), 9));
}
