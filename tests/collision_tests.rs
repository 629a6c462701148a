use cloud_lib::add;
use cloud_lib::collision::{
    collide, collision_detection, handle_hexling_collisions, handle_player_collisions, overlaps,
    Body, Collider, Collision, WALL_NUDGE,
};
use cloud_lib::geometry::{distance_squared, update_position, Point, Velocity};

#[test]
fn it_works() {
    let result = add(2, 2);
    assert_eq!(result, 4);
}

fn body(id: u64, x: i32, y: i32, r: i32) -> Body {
    Body { id, position: Point::new(x, y), collider: Collider::new(r) }
}

#[test]
fn overlap_is_symmetric_on_examples() {
    let cases = [
        (Point::new(0, 0), 10, Point::new(15, 0), 6),
        (Point::new(0, 0), 10, Point::new(16, 0), 6),
        (Point::new(-5, 7), 3, Point::new(100, -40), 200),
        (Point::new(0, 0), 0, Point::new(0, 0), 0),
    ];
    for (a, ra, b, rb) in cases {
        assert_eq!(overlaps(a, ra, b, rb), overlaps(b, rb, a, ra));
    }
    assert!(overlaps(Point::new(0, 0), 10, Point::new(15, 0), 6));
    assert!(!overlaps(Point::new(0, 0), 10, Point::new(16, 0), 6));
}

#[test]
fn distance_squared_is_exact() {
    assert_eq!(distance_squared(Point::new(0, 0), Point::new(3, 4)), 25);
    assert_eq!(
        distance_squared(Point::new(i32::MIN, i32::MIN), Point::new(i32::MAX, i32::MAX)),
        2 * (u32::MAX as i128) * (u32::MAX as i128)
    );
}

#[test]
fn collide_reports_each_side() {
    let o = Point::new(0, 0);
    assert_eq!(collide(Point::new(-15, 0), 10, o, 10), Some(Collision::Left));
    assert_eq!(collide(Point::new(15, 0), 10, o, 10), Some(Collision::Right));
    assert_eq!(collide(Point::new(0, 15), 10, o, 10), Some(Collision::Top));
    assert_eq!(collide(Point::new(0, -15), 10, o, 10), Some(Collision::Bottom));
    assert_eq!(collide(Point::new(1, 1), 2, o, 10), Some(Collision::Inside));
    assert_eq!(collide(Point::new(30, 0), 10, o, 10), None);
    // Least penetration decides: 5 along x against 2 along y.
    assert_eq!(collide(Point::new(15, 18), 10, o, 10), Some(Collision::Top));
}

#[test]
fn detection_replaces_previous_contacts() {
    let mut bodies = vec![body(1, 0, 0, 10), body(2, 15, 0, 10), body(3, 100, 100, 5)];
    bodies[2].collider.colliding_entities.push((9, Collision::Inside));
    collision_detection(&mut bodies);
    assert_eq!(bodies[0].collider.colliding_entities, vec![(2, Collision::Left)]);
    assert_eq!(bodies[1].collider.colliding_entities, vec![(1, Collision::Right)]);
    assert!(bodies[2].collider.colliding_entities.is_empty());
    assert_eq!(bodies[1].position, Point::new(15, 0));
}

#[test]
fn detection_excludes_self_and_far_bodies() {
    let mut bodies = vec![body(1, 0, 0, 10)];
    collision_detection(&mut bodies);
    assert!(bodies[0].collider.colliding_entities.is_empty());
    let mut none: Vec<Body> = vec![];
    collision_detection(&mut none);
    assert!(none.is_empty());
}

#[test]
fn player_is_nudged_only_by_walls() {
    let mut c = Collider::new(30);
    c.colliding_entities = vec![
        (7, Collision::Top),
        (8, Collision::Left),
        (9, Collision::Inside),
        (42, Collision::Right),
    ];
    let walls = vec![7, 8, 9];
    let mut v = Velocity::new(0, 0);
    handle_player_collisions(&mut v, &c, &walls);
    assert_eq!(v, Velocity::new(-WALL_NUDGE + WALL_NUDGE, WALL_NUDGE + WALL_NUDGE));
    let mut v2 = Velocity::new(5, 5);
    handle_player_collisions(&mut v2, &Collider::new(30), &walls);
    assert_eq!(v2, Velocity::new(5, 5));
}

#[test]
fn player_bottom_contact_pushes_down() {
    let mut c = Collider::new(30);
    c.colliding_entities = vec![(7, Collision::Bottom)];
    let mut v = Velocity::new(0, 200);
    handle_player_collisions(&mut v, &c, &vec![7]);
    assert_eq!(v, Velocity::new(0, 100));
}

#[test]
fn hexling_is_displaced_by_any_contact() {
    let mut c = Collider::new(6);
    c.colliding_entities = vec![(3, Collision::Right), (4, Collision::Bottom)];
    let mut p = Point::new(1000, 1000);
    handle_hexling_collisions(&mut p, &c, 16);
    assert_eq!(p, Point::new(1000 + 200 * 16, 1000 - 200 * 16));
}

#[test]
fn position_integrates_velocity() {
    let mut p = Point::new(0, 0);
    update_position(&mut p, Velocity::new(200, -50), 16);
    assert_eq!(p, Point::new(3200, -800));
}
