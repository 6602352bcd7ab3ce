use arcade_car::fixed::Vec3;
use arcade_car::orientation::{Heading, Rot3};
use arcade_car::vehicle::{
    controller_tick, driving_force, steer, strength, suspension, wheel_force, BodyState,
    DriveKeys, GroundHit, TickOutput, WheelContact, WheelPosition,
};

const WHEELS: [WheelPosition; 4] = [
    WheelPosition::FrontLeft,
    WheelPosition::FrontRight,
    WheelPosition::BackLeft,
    WheelPosition::BackRight,
];

fn keys(accelerate: bool, brake: bool, steer_left: bool, steer_right: bool) -> DriveKeys {
    DriveKeys { accelerate, brake, steer_left, steer_right }
}

fn body_at_origin(angvel_y: i64) -> BodyState {
    BodyState { position: Vec3::zero(), rotation: Rot3::identity(), angvel_y }
}

fn contacts(body: &BodyState, hit: Option<GroundHit>) -> [WheelContact; 4] {
    WHEELS.map(|w| WheelContact { position: w.world_position(&body.position, &body.rotation), hit })
}

fn flat_hit(toi: i64) -> Option<GroundHit> {
    Some(GroundHit { toi, normal: Vec3::new(0, 1000, 0) })
}

fn tick(body: &BodyState, cs: &[WheelContact; 4], k: DriveKeys, elapsed: u32) -> TickOutput {
    let s = suspension(&body.position, cs);
    controller_tick(body, &s, &k, elapsed)
}

#[test]
fn wheel_offsets_are_fixed() {
    assert_eq!(WheelPosition::FrontLeft.local_offset(), Vec3::new(800, -500, 1500));
    assert_eq!(WheelPosition::FrontRight.local_offset(), Vec3::new(-800, -500, 1500));
    assert_eq!(WheelPosition::BackLeft.local_offset(), Vec3::new(800, -500, -1500));
    assert_eq!(WheelPosition::BackRight.local_offset(), Vec3::new(-800, -500, -1500));
}

#[test]
fn wheel_world_position_follows_body() {
    let turned = Heading { cos: 0, sin: 1000 }.to_rot3();
    let p = WheelPosition::FrontLeft.world_position(&Vec3::new(10_000, 2000, -5000), &turned);
    assert_eq!(p, Vec3::new(11_500, 1500, -5800));
}

#[test]
fn strength_is_linear_in_distance() {
    assert_eq!(strength(0), 1000);
    assert_eq!(strength(250), 750);
    assert_eq!(strength(1000), 0);
}

#[test]
fn wheel_force_at_probe_ends() {
    assert_eq!(wheel_force(0), Vec3::new(0, 18_000, 0));
    assert_eq!(wheel_force(1000), Vec3::new(0, 0, 0));
    assert_eq!(wheel_force(500), Vec3::new(0, 9000, 0));
}

#[test]
fn no_contact_no_keys_gives_no_force() {
    let body = BodyState { position: Vec3::new(300, 4000, -700), rotation: Heading { cos: 600, sin: 800 }.to_rot3(), angvel_y: 0 };
    let cs = contacts(&body, None);
    let s = suspension(&body.position, &cs);
    assert_eq!(s.hits, 0);
    assert_eq!(s.average_normal(), None);
    let out = tick(&body, &cs, keys(false, false, true, false), 16);
    assert_eq!(out.force, Vec3::zero());
    assert_eq!(out.torque, Vec3::zero());
    assert_eq!(out.angvel_y, 320);
}

#[test]
fn single_full_compression_gives_full_force() {
    let body = body_at_origin(0);
    let mut cs = contacts(&body, None);
    cs[0].hit = flat_hit(0);
    let s = suspension(&body.position, &cs);
    assert_eq!(s.force, Vec3::new(0, 18_000, 0));
    // offset (800, -500, 1500) crossed with (0, 18, 0)
    assert_eq!(s.torque, Vec3::new(-27_000, 0, 14_400));
    assert_eq!(s.hits, 1);
    cs[0].hit = flat_hit(1000);
    let s = suspension(&body.position, &cs);
    assert_eq!(s.force, Vec3::zero());
    assert_eq!(s.torque, Vec3::zero());
    assert_eq!(s.hits, 1);
}

#[test]
fn suspension_torque_scales_with_strength_squared() {
    let body = body_at_origin(0);
    let mut cs = contacts(&body, None);
    cs[1].hit = flat_hit(500);
    let s = suspension(&body.position, &cs);
    assert_eq!(s.force, Vec3::new(0, 9000, 0));
    // offset (-800, -500, 1500) crossed with (0, 9, 0), then halved
    assert_eq!(s.torque, Vec3::new(-6750, 0, -3600));
}

#[test]
fn steering_is_clamped_however_long_held() {
    let left = keys(false, false, true, false);
    let right = keys(false, false, false, true);
    assert_eq!(steer(0, &left, u32::MAX), 20_000);
    assert_eq!(steer(0, &right, u32::MAX), -20_000);
    let mut w: i64 = 0;
    for _ in 0..100 {
        w = steer(w, &left, 250);
        assert!(-20_000 <= w && w <= 20_000);
    }
    assert_eq!(w, 20_000);
}

#[test]
fn steering_clamps_without_keys() {
    let none = keys(false, false, false, false);
    assert_eq!(steer(35_000, &none, 16), 20_000);
    assert_eq!(steer(-35_000, &none, 16), -20_000);
    assert_eq!(steer(1234, &none, 16), 1234);
}

#[test]
fn steering_left_wins_over_right() {
    assert_eq!(steer(0, &keys(false, false, true, true), 100), 2000);
    assert_eq!(steer(0, &keys(false, false, false, true), 100), -2000);
}

#[test]
fn flat_straight_driving_force_is_forward_drive() {
    assert_eq!(driving_force(&Rot3::identity(), &Heading::straight()), Vec3::new(0, 0, 160_000));
}

#[test]
fn driving_force_turns_with_heading() {
    let d = driving_force(&Rot3::identity(), &Heading { cos: 600, sin: 800 });
    assert_eq!(d, Vec3::new(128_000, 0, 96_000));
}

#[test]
fn four_half_compressed_wheels_accelerating_and_steering() {
    let body = body_at_origin(5000);
    let cs = contacts(&body, flat_hit(500));
    let s = suspension(&body.position, &cs);
    assert_eq!(s.force, Vec3::new(0, 36_000, 0));
    assert_eq!(s.torque, Vec3::zero());
    assert_eq!(s.average_normal(), Some(Vec3::new(0, 1000, 0)));
    let out = controller_tick(&body, &s, &keys(true, false, true, false), 1000);
    assert_eq!(out.force, Vec3::new(0, 36_000, 160_000));
    assert_eq!(out.torque, Vec3::new(-16_000, 0, 0));
    assert_eq!(out.angvel_y, 20_000);
    let slow = controller_tick(&body_at_origin(0), &s, &keys(true, false, true, false), 500);
    assert_eq!(slow.angvel_y, 10_000);
}

#[test]
fn braking_reverses_thrust() {
    let body = body_at_origin(0);
    let cs = contacts(&body, flat_hit(500));
    let out = tick(&body, &cs, keys(false, true, false, false), 16);
    assert_eq!(out.force, Vec3::new(0, 36_000, -160_000));
    assert_eq!(out.torque, Vec3::new(16_000, 0, 0));
}

#[test]
fn acceleration_wins_over_braking() {
    let body = body_at_origin(0);
    let cs = contacts(&body, None);
    let out = tick(&body, &cs, keys(true, true, false, false), 16);
    assert_eq!(out.force, Vec3::new(0, 0, 160_000));
    assert_eq!(out.torque, Vec3::new(-16_000, 0, 0));
}

#[test]
fn average_normal_of_mixed_contacts() {
    let body = body_at_origin(0);
    let mut cs = contacts(&body, None);
    cs[0].hit = Some(GroundHit { toi: 100, normal: Vec3::new(0, 1000, 0) });
    cs[3].hit = Some(GroundHit { toi: 100, normal: Vec3::new(0, 800, 600) });
    let s = suspension(&body.position, &cs);
    assert_eq!(s.hits, 2);
    assert_eq!(s.average_normal(), Some(Vec3::new(0, 900, 300)));
}

#[test]
fn drive_plane_is_flat_without_contact() {
    let body = body_at_origin(0);
    let none = suspension(&body.position, &contacts(&body, None));
    assert_eq!(none.drive_plane(), Rot3::identity());
    let out = controller_tick(&body, &none, &keys(true, false, false, false), 16);
    assert_eq!(out.force, Vec3::new(0, 0, 160_000));
}

#[test]
fn drive_plane_is_flat_on_flat_ground() {
    let body = body_at_origin(0);
    let s = suspension(&body.position, &contacts(&body, flat_hit(500)));
    assert_eq!(s.drive_plane(), Rot3::identity());
}

#[test]
fn drive_plane_follows_sloped_ground() {
    let body = body_at_origin(0);
    let slope = Some(GroundHit { toi: 500, normal: Vec3::new(0, 800, 600) });
    let s = suspension(&body.position, &contacts(&body, slope));
    let plane = s.drive_plane();
    assert_eq!(
        plane,
        Rot3 { xx: 1000, xy: 0, xz: 0, yx: 0, yy: 800, yz: -600, zx: 0, zy: 600, zz: 800 }
    );
    assert_eq!(plane.apply(&Vec3::new(0, 1000, 0)), Vec3::new(0, 800, 600));
    let out = controller_tick(&body, &s, &keys(true, false, false, false), 16);
    assert_eq!(out.force, Vec3::new(0, 36_000 - 96_000, 128_000));
}
