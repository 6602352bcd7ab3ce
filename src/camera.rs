//! The follow camera: behind and above the vehicle, turned with its heading
//! alone, so that suspension pitch and roll do not shake it.
use vstd::prelude::*;
use crate::fixed::{
    horizontal_len2, lemma_tdiv_mul, v3, v3_add, v3_sub, v3_within, within, Vec3, V3, ONE,
};
use crate::orientation::{
    heading_of, heading_rot, lemma_apply_within, lemma_heading_idempotent, rot_apply, Heading,
    Rot3, HEADING_TOLERANCE,
};
use crate::vehicle::COORD_MAX;

verus! {

/// The camera's offset from the vehicle, in the vehicle's heading frame.
pub const CAMERA_HEIGHT: i64 = 3000;

pub const CAMERA_BACK: i64 = 10_000;

pub open spec fn camera_offset() -> V3 {
    v3(0, CAMERA_HEIGHT as int, -CAMERA_BACK)
}

/// Where the camera stands and which way it faces.
#[derive(Clone, Copy, Debug, PartialEq, Eq, Structural)]
pub struct CameraPose {
    pub position: Vec3,
    pub heading: Heading,
}

/// The camera position for a vehicle at `position` with orientation `rot`.
pub open spec fn camera_position_of(position: V3, rot: Rot3) -> V3 {
    v3_add(position, rot_apply(heading_rot(heading_of(rot)), camera_offset()))
}

/// The camera heading: the vehicle's heading turned half a revolution, so that
/// the camera looks back at the vehicle from behind.
pub open spec fn camera_heading_of(rot: Rot3) -> Heading {
    Heading { cos: (-heading_of(rot).cos) as i64, sin: (-heading_of(rot).sin) as i64 }
}

/// The camera pose that follows a vehicle at `position` with orientation `rot`.
pub fn camera_follow(position: &Vec3, rot: &Rot3) -> (r: CameraPose)
    requires
        v3_within(position@, COORD_MAX as int),
        rot.wf(),
    ensures
        r.position@ == camera_position_of(position@, *rot),
        r.heading == camera_heading_of(*rot),
        r.heading.wf(),
        r.heading.is_near_unit(),
{
    let heading = rot.heading();
    let offset = Vec3::new(0, CAMERA_HEIGHT, -CAMERA_BACK);
    let hr = heading.to_rot3();
    proof {
        lemma_apply_within(hr, offset@, CAMERA_BACK as int);
    }
    let turned = hr.apply(&offset);
    CameraPose { position: position.add(&turned), heading: heading.turned_half() }
}

/// Under a pure heading rotation of the vehicle, the camera stands
/// `CAMERA_HEIGHT` above it, and its horizontal distance from the vehicle is
/// the horizontal length of the camera offset: exactly so for a heading exactly
/// on the unit circle, and up to the heading tolerance for every heading that
/// [`Rot3::heading`] returns (squared, in thousandths: within
/// `100 * HEADING_TOLERANCE` of `CAMERA_BACK²`, i.e. about 0.015 units of distance).
pub proof fn lemma_camera_horizontal_distance(position: V3, h: Heading)
    requires
        h.wf(),
        h.is_near_unit(),
    ensures
        v3_sub(camera_position_of(position, heading_rot(h)), position).y == CAMERA_HEIGHT,
        within(
            horizontal_len2(v3_sub(camera_position_of(position, heading_rot(h)), position))
                - horizontal_len2(camera_offset()),
            100 * HEADING_TOLERANCE,
        ),
        h.is_unit() ==> horizontal_len2(
            v3_sub(camera_position_of(position, heading_rot(h)), position),
        ) == horizontal_len2(camera_offset()),
{
    lemma_heading_idempotent(h);
    let c = h.cos as int;
    let s = h.sin as int;
    let off = rot_apply(heading_rot(h), camera_offset());
    assert(c * 0 + 0 * CAMERA_HEIGHT + s * (-CAMERA_BACK) == (-10 * s) * ONE);
    assert(0 * 0 + ONE * CAMERA_HEIGHT + 0 * (-CAMERA_BACK) == CAMERA_HEIGHT * ONE);
    assert((-s) * 0 + 0 * CAMERA_HEIGHT + c * (-CAMERA_BACK) == (-10 * c) * ONE);
    lemma_tdiv_mul(-10 * s, ONE as int);
    lemma_tdiv_mul(CAMERA_HEIGHT as int, ONE as int);
    lemma_tdiv_mul(-10 * c, ONE as int);
    assert(off == v3(-10 * s, CAMERA_HEIGHT as int, -10 * c));
    let d = v3_sub(camera_position_of(position, heading_rot(h)), position);
    assert(d == off);
    assert((-10 * s) * (-10 * s) + (-10 * c) * (-10 * c) == 100 * (c * c + s * s)) by (nonlinear_arith);
}

} // verus!
