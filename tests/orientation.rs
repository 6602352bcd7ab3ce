use arcade_car::fixed::{div_toward_zero, integer_sqrt, Vec3};
use arcade_car::orientation::{arc_to, Heading, Rot3};

fn yaw(cos: i64, sin: i64) -> Rot3 {
    Heading { cos, sin }.to_rot3()
}

#[test]
fn division_rounds_toward_zero() {
    assert_eq!(div_toward_zero(7, 2), 3);
    assert_eq!(div_toward_zero(-7, 2), -3);
    assert_eq!(div_toward_zero(-6, 3), -2);
    assert_eq!(div_toward_zero(0, 5), 0);
}

#[test]
fn integer_sqrt_values() {
    assert_eq!(integer_sqrt(0), 0);
    assert_eq!(integer_sqrt(1), 1);
    assert_eq!(integer_sqrt(15), 3);
    assert_eq!(integer_sqrt(16), 4);
    assert_eq!(integer_sqrt(1_000_000), 1000);
    assert_eq!(integer_sqrt(u64::MAX), 4_294_967_295);
}

#[test]
fn identity_leaves_vectors_alone() {
    let v = Vec3::new(-1234, 5678, 91011);
    assert_eq!(Rot3::identity().apply(&v), v);
}

#[test]
fn quarter_turn_moves_forward_to_the_side() {
    let r = yaw(0, 1000);
    assert_eq!(r.apply(&Vec3::new(0, 0, 1000)), Vec3::new(1000, 0, 0));
    assert_eq!(r.apply(&Vec3::new(1000, 0, 0)), Vec3::new(0, 0, -1000));
    assert_eq!(r.apply(&Vec3::new(0, 700, 0)), Vec3::new(0, 700, 0));
}

#[test]
fn heading_of_heading_is_unchanged() {
    for (c, s) in [(1000, 0), (600, 800), (-280, 960), (0, -1000), (-1000, 0)] {
        let h = Heading { cos: c, sin: s };
        assert_eq!(h.to_rot3().heading(), h);
    }
}

#[test]
fn heading_drops_pitch() {
    // yaw of a quarter turn, then pitched by 60 degrees (cos 0.5, sin 0.866)
    let pitched = Rot3 {
        xx: 0, xy: -866, xz: 500,
        yx: 0, yy: 500, yz: 866,
        zx: -1000, zy: 0, zz: 0,
    };
    assert_eq!(pitched.heading(), Heading { cos: 0, sin: 1000 });
}

#[test]
fn heading_rescales_short_forward_axis() {
    let m = Rot3 { xx: 1000, xy: 0, xz: 300, yx: 0, yy: 1000, yz: 0, zx: 0, zy: 0, zz: 400 };
    assert_eq!(m.heading(), Heading { cos: 800, sin: 600 });
}

#[test]
fn heading_of_vertical_forward_axis_is_straight() {
    let m = Rot3 { xx: 1000, xy: 0, xz: 0, yx: 0, yy: 0, yz: -1000, zx: 0, zy: 1000, zz: 0 };
    assert_eq!(m.heading(), Heading::straight());
}

#[test]
fn half_turn_negates() {
    let h = Heading { cos: 600, sin: -800 };
    assert_eq!(h.turned_half(), Heading { cos: -600, sin: 800 });
}

#[test]
fn vector_arithmetic() {
    let a = Vec3::new(1500, -2000, 300);
    let b = Vec3::new(-500, 700, 0);
    assert_eq!(a.add(&b), Vec3::new(1000, -1300, 300));
    assert_eq!(a.sub(&b), Vec3::new(2000, -2700, 300));
    assert_eq!(a.neg(), Vec3::new(-1500, 2000, -300));
    assert_eq!(Vec3::zero(), Vec3::new(0, 0, 0));
}

#[test]
fn scale_rounds_toward_zero() {
    let v = Vec3::new(1001, -1001, 7);
    assert_eq!(v.scale(500), Vec3::new(500, -500, 3));
    assert_eq!(v.scale(1000), v);
    assert_eq!(v.scale(0), Vec3::zero());
}

#[test]
fn cross_product_in_fixed_point() {
    let x = Vec3::new(1000, 0, 0);
    let y = Vec3::new(0, 1000, 0);
    assert_eq!(x.cross(&y), Vec3::new(0, 0, 1000));
    assert_eq!(y.cross(&x), Vec3::new(0, 0, -1000));
    let a = Vec3::new(1500, 0, 0);
    let b = Vec3::new(0, -1, 0);
    assert_eq!(a.cross(&b), Vec3::new(0, 0, -1));
    let c = Vec3::new(0, 0, 999);
    assert_eq!(y.cross(&Vec3::new(0, 0, 1)).x, 1);
    assert_eq!(Vec3::new(0, 1, 0).cross(&c), Vec3::new(0, 0, 0));
}

fn near_unit(h: Heading) -> bool {
    let n = h.cos * h.cos + h.sin * h.sin;
    (n - 1_000_000).abs() <= 3000
}

fn forward_axis(xz: i64, zz: i64) -> Rot3 {
    Rot3 { xx: 1000, xy: 0, xz, yx: 0, yy: 1000, yz: 0, zx: 0, zy: 0, zz }
}

#[test]
fn heading_of_near_vertical_forward_axis_is_unit() {
    let h = forward_axis(1, 1).heading();
    assert_eq!(h, Heading { cos: 707, sin: 707 });
    assert!(near_unit(h));
    assert_eq!(h.to_rot3().heading(), h);
}

#[test]
fn heading_keeps_rounded_yaw_rotations() {
    for (c, s) in [(999, 40), (707, 707), (-966, 259), (1, -1000)] {
        let h = Heading { cos: c, sin: s };
        assert_eq!(h.to_rot3().heading(), h);
    }
}

#[test]
fn heading_ignores_rounded_pitch() {
    // yaw 45 degrees with pitch 0 and with pitch 60 degrees, entries rounded
    assert_eq!(forward_axis(707, 707).heading(), Heading { cos: 707, sin: 707 });
    assert_eq!(forward_axis(354, 354).heading(), Heading { cos: 707, sin: 707 });
}

#[test]
fn heading_results_are_unit_and_stable() {
    for xz in (-1000..=1000).step_by(37) {
        for zz in (-1000..=1000).step_by(41) {
            let h = forward_axis(xz, zz).heading();
            assert!(near_unit(h), "{} {}", xz, zz);
            assert_eq!(h.to_rot3().heading(), h);
        }
    }
}

#[test]
fn arc_to_normals() {
    assert_eq!(arc_to(&Vec3::new(0, 1000, 0)), Rot3::identity());
    assert_eq!(arc_to(&Vec3::new(0, 3, 0)), Rot3::identity());
    assert_eq!(arc_to(&Vec3::new(0, 0, 0)), Rot3::identity());
    assert_eq!(
        arc_to(&Vec3::new(0, -1000, 0)),
        Rot3 { xx: 1000, xy: 0, xz: 0, yx: 0, yy: -1000, yz: 0, zx: 0, zy: 0, zz: -1000 }
    );
    let tilted = arc_to(&Vec3::new(1000, 1000, 0));
    assert_eq!(tilted.apply(&Vec3::new(0, 1000, 0)), Vec3::new(707, 707, 0));
    assert_eq!(
        tilted,
        Rot3 { xx: 708, xy: 707, xz: 0, yx: -707, yy: 707, yz: 0, zx: 0, zy: 0, zz: 1000 }
    );
}
