use bevy_mod_gizmos::{ray_hits, Color, Dir3, Ray, Vec3i};

fn ray(o: (i32, i32, i32), d: (i16, i16, i16)) -> Ray {
    Ray { origin: Vec3i::new(o.0, o.1, o.2), direction: Dir3 { x: d.0, y: d.1, z: d.2 } }
}

#[test]
fn ray_through_center_hits_even_with_zero_radius() {
    let r = ray((0, 0, 8000), (0, 0, -1000));
    assert!(ray_hits(&r, &Vec3i::new(0, 0, 0), 1000));
    assert!(ray_hits(&r, &Vec3i::new(0, 0, 0), 0));
    assert!(ray_hits(&r, &Vec3i::new(0, 0, -3000), 0));
}

#[test]
fn ray_farther_than_radius_misses() {
    let r = ray((0, 0, 8000), (0, 0, -1000));
    assert!(!ray_hits(&r, &Vec3i::new(1001, 0, 0), 1000));
    assert!(!ray_hits(&r, &Vec3i::new(0, 1500, 0), 1000));
}

#[test]
fn ray_at_exactly_radius_hits() {
    let r = ray((0, 0, 8000), (0, 0, -1000));
    assert!(ray_hits(&r, &Vec3i::new(1000, 0, 0), 1000));
    // distance 5 from an oblique direction: offset (3, 4, 0) against the z axis
    let r = ray((3, 4, 100), (0, 0, 7));
    assert!(ray_hits(&r, &Vec3i::new(0, 0, 0), 5));
    assert!(!ray_hits(&r, &Vec3i::new(0, 0, 0), 4));
}

#[test]
fn oblique_ray_distance() {
    // The line through the origin along (1, 1, 0) passes sqrt(2) from (2, 0, 0).
    let r = ray((0, 0, 0), (1, 1, 0));
    assert!(!ray_hits(&r, &Vec3i::new(2, 0, 0), 1));
    assert!(ray_hits(&r, &Vec3i::new(2, 0, 0), 2));
}

#[test]
fn zero_direction_measures_from_origin() {
    let r = ray((0, 0, 0), (0, 0, 0));
    assert!(ray_hits(&r, &Vec3i::new(3, 4, 0), 5));
    assert!(!ray_hits(&r, &Vec3i::new(3, 4, 0), 4));
}

#[test]
fn extreme_coordinates_do_not_overflow() {
    let r = ray((i32::MAX, i32::MIN, i32::MAX), (i16::MIN, i16::MAX, i16::MIN));
    let far = Vec3i::new(i32::MIN, i32::MAX, i32::MIN);
    // The line passes about 107020.93 steps from `far`.
    assert!(!ray_hits(&r, &far, 0));
    assert!(!ray_hits(&r, &far, 107020));
    assert!(ray_hits(&r, &far, 107021));
    assert!(ray_hits(&r, &far, u32::MAX));
}

#[test]
fn color_key_packs_rgba() {
    assert_eq!(Color::rgba(0x12, 0x34, 0x56, 0x78).key(), 0x1234_5678);
    assert_eq!(Color::red().key(), 0xFF00_00FF);
    assert_ne!(Color::rgba(1, 0, 0, 0).key(), Color::rgba(0, 1, 0, 0).key());
}
