use arcade_car::camera::{camera_follow, CameraPose};
use arcade_car::fixed::Vec3;
use arcade_car::orientation::{Heading, Rot3};

#[test]
fn camera_behind_and_above_unturned_vehicle() {
    let pose = camera_follow(&Vec3::new(0, 0, 0), &Rot3::identity());
    assert_eq!(
        pose,
        CameraPose { position: Vec3::new(0, 3000, -10000), heading: Heading { cos: -1000, sin: 0 } }
    );
}

#[test]
fn camera_keeps_horizontal_distance_under_yaw() {
    let car = Vec3::new(1000, 2000, 3000);
    for (c, s) in [(1000, 0), (600, 800), (-280, 960), (0, -1000), (-800, -600)] {
        let pose = camera_follow(&car, &Heading { cos: c, sin: s }.to_rot3());
        let dx = pose.position.x - car.x;
        let dz = pose.position.z - car.z;
        assert_eq!(dx * dx + dz * dz, 10000 * 10000);
        assert_eq!(pose.position.y - car.y, 3000);
    }
}

#[test]
fn camera_follows_turned_vehicle() {
    let pose = camera_follow(&Vec3::new(1000, 2000, 3000), &Heading { cos: 600, sin: 800 }.to_rot3());
    assert_eq!(pose.position, Vec3::new(-7000, 5000, -3000));
    assert_eq!(pose.heading, Heading { cos: -600, sin: -800 });
}

#[test]
fn camera_ignores_pitch() {
    let pitched = Rot3 {
        xx: 0, xy: -866, xz: 500,
        yx: 0, yy: 500, yz: 866,
        zx: -1000, zy: 0, zz: 0,
    };
    let pose = camera_follow(&Vec3::new(0, 0, 0), &pitched);
    assert_eq!(pose.position, Vec3::new(-10000, 3000, 0));
    assert_eq!(pose.heading, Heading { cos: 0, sin: -1000 });
}

#[test]
fn camera_heading_is_unit_for_near_vertical_forward_axis() {
    let m = Rot3 { xx: 1000, xy: 0, xz: 1, yx: 0, yy: 1000, yz: 0, zx: 0, zy: 0, zz: 1 };
    let pose = camera_follow(&Vec3::new(0, 0, 0), &m);
    assert_eq!(pose.heading, Heading { cos: -707, sin: -707 });
    assert_eq!(pose.position, Vec3::new(-7070, 3000, -7070));
}

#[test]
fn camera_distance_within_tolerance_for_rounded_headings() {
    for (c, s) in [(999, 40), (707, 707), (-966, 259), (1, -1000)] {
        let pose = camera_follow(&Vec3::new(0, 0, 0), &Heading { cos: c, sin: s }.to_rot3());
        let d2 = pose.position.x * pose.position.x + pose.position.z * pose.position.z;
        assert!((d2 - 100_000_000).abs() <= 300_000);
        assert_eq!(pose.position.y, 3000);
    }
}
