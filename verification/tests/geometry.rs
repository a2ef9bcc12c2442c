use scene_gen::geometry::{overlap, Point, Sphere, UNIT};

fn ball(x: i32, y: i32, z: i32, radius: i32) -> Sphere {
    Sphere { center: Point { x, y, z }, radius, material: String::from("any") }
}

#[test]
fn unit_is_one_thousand() {
    assert_eq!(UNIT, 1000);
}

#[test]
fn touching_spheres_do_not_overlap() {
    let a = ball(0, 0, 0, 1000);
    let b = ball(2000, 0, 0, 1000);
    assert!(!a.overlaps(&b));
    assert!(!b.overlaps(&a));
}

#[test]
fn spheres_one_step_closer_overlap() {
    let a = ball(0, 0, 0, 1000);
    let b = ball(1999, 0, 0, 1000);
    assert!(a.overlaps(&b));
    assert!(b.overlaps(&a));
}

#[test]
fn distance_is_euclidean_in_all_three_axes() {
    // (2000, 3000, 6000) is 7000 away from the origin.
    let a = ball(0, 0, 0, 3000);
    assert!(!a.overlaps(&ball(2000, 3000, 6000, 4000)));
    assert!(a.overlaps(&ball(2000, 3000, 6000, 4001)));
    assert!(a.overlaps(&ball(-2000, -3000, -6000, 4001)));
    assert!(!a.overlaps(&ball(-2000, 3000, -6000, 4000)));
}

#[test]
fn a_sphere_overlaps_itself() {
    let a = ball(5, 6, 7, 1);
    assert!(a.overlaps(&a));
}

#[test]
fn spheres_without_reach_overlap_nothing() {
    let point = ball(0, 0, 0, 0);
    assert!(!point.overlaps(&point));
    let hollow = ball(0, 0, 0, -5);
    assert!(!hollow.overlaps(&ball(0, 0, 0, 5)));
    assert!(!hollow.overlaps(&ball(0, 0, 0, 4)));
    assert!(hollow.overlaps(&ball(0, 0, 0, 6)));
}

#[test]
fn the_widest_coordinates_are_handled() {
    let low = ball(i32::MIN, i32::MIN, i32::MIN, i32::MAX);
    let high = ball(i32::MAX, i32::MAX, i32::MAX, i32::MAX);
    // Three axes of 2^32 - 1 each: farther apart than the radii reach.
    assert!(!low.overlaps(&high));
    let near = ball(i32::MAX, i32::MIN, i32::MIN, i32::MAX);
    // One axis of 2^32 - 1 against a reach of 2^32 - 2.
    assert!(!low.overlaps(&near));
    let nearer = ball(i32::MAX - 1, i32::MIN, i32::MIN, i32::MAX);
    // 2^32 - 2 against 2^32 - 2: they touch.
    assert!(!low.overlaps(&nearer));
    let nearest = ball(i32::MAX - 2, i32::MIN, i32::MIN, i32::MAX);
    assert!(low.overlaps(&nearest));
}

#[test]
fn overlap_with_an_empty_list_is_false() {
    assert!(!overlap(&ball(0, 0, 0, 1000), &Vec::new()));
}

#[test]
fn overlap_looks_at_every_sphere() {
    let shapes = vec![ball(10_000, 0, 0, 1000), ball(-10_000, 0, 0, 1000), ball(0, 0, 9000, 1000)];
    assert!(!overlap(&ball(0, 0, 0, 1000), &shapes));
    assert!(overlap(&ball(9000, 0, 0, 1000), &shapes));
    assert!(overlap(&ball(-9000, 0, 0, 1000), &shapes));
    assert!(overlap(&ball(0, 0, 8000, 1000), &shapes));
    assert!(!overlap(&ball(0, 0, 7000, 1000), &shapes));
}

#[test]
fn overlap_ignores_the_material() {
    let mut other = ball(0, 0, 0, 1000);
    other.material = String::from("other");
    assert!(overlap(&ball(500, 0, 0, 1000), &vec![other]));
}
