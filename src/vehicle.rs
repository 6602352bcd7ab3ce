//! The vehicle controller: per-wheel raycast suspension, drive thrust,
//! braking and steering.
use vstd::prelude::*;
use crate::fixed::{
    div_toward_zero, lemma_cross_within, lemma_scale_within, tdiv, v3, v3_add, v3_cross, v3_neg,
    v3_scale, v3_sub, v3_within, Vec3, V3, ONE,
};
use crate::orientation::{
    arc_to, arc_to_normal, heading_of, heading_rot, lemma_apply_identity, lemma_apply_within, rot_apply, rot_identity,
    Heading, Rot3,
};

verus! {

/// The length of the downward probe cast below each wheel.
pub const MAX_PROBE: i64 = 1000;

/// The upward force a fully compressed wheel produces.
pub const SUSPENSION_FORCE_Y: i64 = 18_000;

/// The largest coordinate of a body or wheel position.
pub const COORD_MAX: i64 = 1_000_000_000_000;

/// The largest component of a wheel offset turned by a well-formed rotation.
pub const ANCHOR_REACH: i64 = 4500;

pub open spec fn suspension_force() -> V3 {
    v3(0, SUSPENSION_FORCE_Y as int, 0)
}

/// Where a wheel sits on the vehicle.
#[derive(Clone, Copy, Debug, PartialEq, Eq, Structural)]
pub enum WheelPosition {
    FrontLeft,
    FrontRight,
    BackLeft,
    BackRight,
}

/// A wheel's anchor point relative to the body, in the body's own frame.
pub open spec fn wheel_offset(w: WheelPosition) -> V3 {
    match w {
        WheelPosition::FrontLeft => v3(800, -500, 1500),
        WheelPosition::FrontRight => v3(-800, -500, 1500),
        WheelPosition::BackLeft => v3(800, -500, -1500),
        WheelPosition::BackRight => v3(-800, -500, -1500),
    }
}

impl WheelPosition {
    /// The anchor point of this wheel in the body's frame.
    pub fn local_offset(&self) -> (r: Vec3)
        ensures
            r@ == wheel_offset(*self),
    {
        match self {
            WheelPosition::FrontLeft => Vec3::new(800, -500, 1500),
            WheelPosition::FrontRight => Vec3::new(-800, -500, 1500),
            WheelPosition::BackLeft => Vec3::new(800, -500, -1500),
            WheelPosition::BackRight => Vec3::new(-800, -500, -1500),
        }
    }

    /// The anchor point of this wheel in the world, for a body at `position`
    /// with orientation `rotation`.
    pub fn world_position(&self, position: &Vec3, rotation: &Rot3) -> (r: Vec3)
        requires
            v3_within(position@, COORD_MAX as int),
            rotation.wf(),
        ensures
            r@ == v3_add(position@, rot_apply(*rotation, wheel_offset(*self))),
            v3_within(r@, COORD_MAX + ANCHOR_REACH),
    {
        let offset = self.local_offset();
        proof {
            lemma_apply_within(*rotation, offset@, 1500);
        }
        let turned = rotation.apply(&offset);
        position.add(&turned)
    }
}

/// What the downward probe below a wheel found: how far along the probe the
/// ground lies, and the ground's surface normal there.
#[derive(Clone, Copy, Debug, PartialEq, Eq, Structural)]
pub struct GroundHit {
    pub toi: i64,
    pub normal: Vec3,
}

impl GroundHit {
    /// The distance lies on the probe and the normal is of unit size at most.
    pub open spec fn wf(&self) -> bool {
        0 <= self.toi <= MAX_PROBE && v3_within(self.normal@, ONE as int)
    }
}

/// A wheel's world position with what its probe found, if anything.
#[derive(Clone, Copy, Debug, PartialEq, Eq, Structural)]
pub struct WheelContact {
    pub position: Vec3,
    pub hit: Option<GroundHit>,
}

impl WheelContact {
    pub open spec fn wf(&self) -> bool {
        &&& v3_within(self.position@, COORD_MAX + ANCHOR_REACH)
        &&& match self.hit {
            Some(g) => g.wf(),
            None => true,
        }
    }
}

/// How strongly a wheel pushes back when the ground lies `toi` along its
/// probe: one at no distance, falling linearly to zero at the probe's end.
pub open spec fn strength_of(toi: int) -> int {
    ONE - toi * ONE / (MAX_PROBE as int)
}

/// The suspension force of one wheel whose ground lies `toi` along its probe.
pub open spec fn wheel_force_of(toi: int) -> V3 {
    v3_scale(suspension_force(), strength_of(toi))
}

/// The suspension torque of one wheel, at `offset` from the body's centre.
pub open spec fn wheel_torque_of(offset: V3, toi: int) -> V3 {
    v3_scale(v3_cross(offset, wheel_force_of(toi)), strength_of(toi))
}

/// The suspension strength for a ground distance along the probe.
pub fn strength(toi: i64) -> (r: i64)
    requires
        0 <= toi <= MAX_PROBE,
    ensures
        r == strength_of(toi as int),
        0 <= r <= ONE,
{
    ONE - toi * ONE / MAX_PROBE
}

/// The suspension force of one wheel whose ground lies `toi` along its probe.
pub fn wheel_force(toi: i64) -> (r: Vec3)
    requires
        0 <= toi <= MAX_PROBE,
    ensures
        r@ == wheel_force_of(toi as int),
        v3_within(r@, SUSPENSION_FORCE_Y as int),
{
    let s = strength(toi);
    let f = Vec3::new(0, SUSPENSION_FORCE_Y, 0);
    proof {
        lemma_scale_within(f@, s as int, SUSPENSION_FORCE_Y as int);
    }
    f.scale(s)
}

/// A fully compressed wheel gives the whole suspension force, and a wheel
/// whose ground lies at the probe's very end gives none.
pub proof fn lemma_wheel_force_ends()
    ensures
        wheel_force_of(0) == suspension_force(),
        wheel_force_of(MAX_PROBE as int) == v3(0, 0, 0),
{
    assert(strength_of(0) == ONE);
    assert(strength_of(MAX_PROBE as int) == 0);
    crate::fixed::lemma_tdiv_mul(SUSPENSION_FORCE_Y as int, ONE as int);
}

/// The sums that the suspension pass gathers over the wheels.
pub ghost struct SuspensionModel {
    pub force: V3,
    pub torque: V3,
    pub hits: int,
    pub normals: V3,
}

/// What one wheel contact adds to the suspension sums, for a body at `body`.
pub open spec fn contact_step(m: SuspensionModel, body: V3, c: WheelContact) -> SuspensionModel {
    match c.hit {
        Some(g) => SuspensionModel {
            force: v3_add(m.force, wheel_force_of(g.toi as int)),
            torque: v3_add(m.torque, wheel_torque_of(v3_sub(c.position@, body), g.toi as int)),
            hits: m.hits + 1,
            normals: v3_add(m.normals, g.normal@),
        },
        None => m,
    }
}

/// The suspension sums over a sequence of wheel contacts.
pub open spec fn suspension_of(body: V3, cs: Seq<WheelContact>) -> SuspensionModel
    decreases cs.len(),
{
    if cs.len() == 0 {
        SuspensionModel { force: v3(0, 0, 0), torque: v3(0, 0, 0), hits: 0, normals: v3(0, 0, 0) }
    } else {
        contact_step(suspension_of(body, cs.drop_last()), body, cs.last())
    }
}

/// The suspension sums of a tick: total force and torque of the wheels that
/// touch ground, how many touch, and the sum of their ground normals.
#[derive(Clone, Copy, Debug, PartialEq, Eq, Structural)]
pub struct Suspension {
    pub force: Vec3,
    pub torque: Vec3,
    pub hits: u64,
    pub normal_sum: Vec3,
}

/// A bound on one wheel's suspension torque.
pub const WHEEL_TORQUE_MAX: i64 = 100_000_000_000_000_000;

impl View for Suspension {
    type V = SuspensionModel;

    open spec fn view(&self) -> SuspensionModel {
        SuspensionModel {
            force: self.force@,
            torque: self.torque@,
            hits: self.hits as int,
            normals: self.normal_sum@,
        }
    }
}

impl Suspension {
    /// The sums are those of four wheels at most.
    pub open spec fn wf(&self) -> bool {
        &&& self.hits <= 4
        &&& v3_within(self.force@, 4 * SUSPENSION_FORCE_Y)
        &&& v3_within(self.torque@, 4 * WHEEL_TORQUE_MAX)
        &&& v3_within(self.normal_sum@, 4 * ONE)
    }
}

proof fn lemma_wheel_torque_within(offset: V3, toi: int)
    requires
        0 <= toi <= MAX_PROBE,
        v3_within(offset, 2 * COORD_MAX + ANCHOR_REACH),
    ensures
        v3_within(v3_cross(offset, wheel_force_of(toi)), WHEEL_TORQUE_MAX as int),
        v3_within(wheel_torque_of(offset, toi), WHEEL_TORQUE_MAX as int),
{
    let s = strength_of(toi);
    assert(0 <= s <= ONE);
    lemma_scale_within(suspension_force(), s, SUSPENSION_FORCE_Y as int);
    lemma_cross_within(
        offset,
        wheel_force_of(toi),
        2 * COORD_MAX + ANCHOR_REACH,
        SUSPENSION_FORCE_Y as int,
    );
    assert(2 * (2 * COORD_MAX + ANCHOR_REACH) * SUSPENSION_FORCE_Y <= WHEEL_TORQUE_MAX);
    lemma_scale_within(
        v3_cross(offset, wheel_force_of(toi)),
        s,
        WHEEL_TORQUE_MAX as int,
    );
}

/// The suspension sums over the four wheel contacts of a body at `body`.
pub fn suspension(body: &Vec3, contacts: &[WheelContact; 4]) -> (r: Suspension)
    requires
        v3_within(body@, COORD_MAX as int),
        forall|i: int| 0 <= i < 4 ==> (#[trigger] contacts@[i]).wf(),
    ensures
        r@ == suspension_of(body@, contacts@),
        r.wf(),
{
    let mut acc = Suspension {
        force: Vec3::zero(),
        torque: Vec3::zero(),
        hits: 0,
        normal_sum: Vec3::zero(),
    };
    let mut i: usize = 0;
    while i < 4
        invariant
            0 <= i <= 4,
            v3_within(body@, COORD_MAX as int),
            forall|j: int| 0 <= j < 4 ==> (#[trigger] contacts@[j]).wf(),
            acc@ == suspension_of(body@, contacts@.take(i as int)),
            acc.hits <= i,
            v3_within(acc.force@, i * SUSPENSION_FORCE_Y),
            v3_within(acc.torque@, i * WHEEL_TORQUE_MAX),
            v3_within(acc.normal_sum@, i * ONE),
        decreases 4 - i,
    {
        let c = contacts[i];
        assert(contacts@.take(i + 1).drop_last() == contacts@.take(i as int));
        assert(contacts@.take(i + 1).last() == c);
        match c.hit {
            Some(g) => {
                let f = wheel_force(g.toi);
                let offset = c.position.sub(body);
                proof {
                    lemma_wheel_torque_within(offset@, g.toi as int);
                }
                let cr = offset.cross(&f);
                let s = strength(g.toi);
                let t = cr.scale(s);
                acc = Suspension {
                    force: acc.force.add(&f),
                    torque: acc.torque.add(&t),
                    hits: acc.hits + 1,
                    normal_sum: acc.normal_sum.add(&g.normal),
                };
            },
            None => {},
        }
        i = i + 1;
    }
    assert(contacts@.take(4) == contacts@);
    acc
}

/// The mean of the ground normals of the wheels that touch ground, or `None`
/// where none does.
pub open spec fn average_normal_of(m: SuspensionModel) -> Option<V3> {
    if m.hits == 0 {
        None
    } else {
        Some(v3(tdiv(m.normals.x, m.hits), tdiv(m.normals.y, m.hits), tdiv(m.normals.z, m.hits)))
    }
}

impl Suspension {
    /// The mean ground normal of the wheels that touch ground, if any does.
    pub fn average_normal(&self) -> (r: Option<Vec3>)
        requires
            self.wf(),
        ensures
            r.is_none() <==> self.hits == 0,
            r matches Some(n) ==> average_normal_of(self@) == Some(n@),
            r matches Some(n) ==> v3_within(n@, 4 * ONE),
    {
        if self.hits == 0 {
            None
        } else {
            let h: i128 = self.hits as i128;
            let n = self.normal_sum;
            proof {
                crate::fixed::lemma_tdiv_within(n.x as int, h as int, 4 * ONE);
                crate::fixed::lemma_tdiv_within(n.y as int, h as int, 4 * ONE);
                crate::fixed::lemma_tdiv_within(n.z as int, h as int, 4 * ONE);
            }
            let x: i128 = div_toward_zero(n.x as i128, h);
            let y: i128 = div_toward_zero(n.y as i128, h);
            let z: i128 = div_toward_zero(n.z as i128, h);
            Some(Vec3::new(x as i64, y as i64, z as i64))
        }
    }
}

/// The drive plane: the shortest rotation taking the vertical axis to the
/// mean ground normal, or the identity where no wheel touches ground (the
/// vehicle is then taken to stand on flat ground).
pub open spec fn drive_plane_of(m: SuspensionModel) -> Rot3 {
    match average_normal_of(m) {
        None => rot_identity(),
        Some(n) => arc_to_normal(n),
    }
}

impl Suspension {
    /// The drive plane for these sums.
    pub fn drive_plane(&self) -> (r: Rot3)
        requires
            self.wf(),
        ensures
            r == drive_plane_of(self@),
            r.wf(),
            self.hits == 0 ==> r == rot_identity(),
    {
        match self.average_normal() {
            None => Rot3::identity(),
            Some(n) => arc_to(&n),
        }
    }
}

/// The thrust of the drive, along the vehicle's forward axis.
pub const FORWARD_DRIVE_Z: i64 = 160_000;

/// The points, in the body's frame, where thrust acts: `(0, y, z)` under
/// acceleration and `(0, y, -z)` under braking.
pub const THRUST_POINT_Y: i64 = -100;

pub const THRUST_POINT_Z: i64 = 100;

pub open spec fn forward_drive() -> V3 {
    v3(0, 0, FORWARD_DRIVE_Z as int)
}

pub open spec fn acceleration_point() -> V3 {
    v3(0, THRUST_POINT_Y as int, THRUST_POINT_Z as int)
}

pub open spec fn braking_point() -> V3 {
    v3(0, THRUST_POINT_Y as int, -THRUST_POINT_Z)
}

/// The drive thrust: the forward drive turned first by the heading, then by
/// the drive plane.
pub open spec fn driving_force_of(plane: Rot3, heading: Heading) -> V3 {
    rot_apply(plane, rot_apply(heading_rot(heading), forward_drive()))
}

/// The bound on a drive thrust's components.
pub const DRIVE_MAX: i64 = 9 * 160_000;

/// The drive thrust for a heading on a drive plane.
pub fn driving_force(plane: &Rot3, heading: &Heading) -> (r: Vec3)
    requires
        plane.wf(),
        heading.wf(),
    ensures
        r@ == driving_force_of(*plane, *heading),
        v3_within(r@, DRIVE_MAX as int),
{
    let fwd = Vec3::new(0, 0, FORWARD_DRIVE_Z);
    let hr = heading.to_rot3();
    proof {
        lemma_apply_within(hr, fwd@, FORWARD_DRIVE_Z as int);
        lemma_apply_within(*plane, rot_apply(hr, fwd@), 3 * FORWARD_DRIVE_Z);
    }
    let turned = hr.apply(&fwd);
    plane.apply(&turned)
}

/// Where no wheel touches ground the drive plane is the identity, and for a
/// body turned by no rotation the heading is straight: the drive thrust is then
/// the forward drive itself.
pub proof fn lemma_flat_straight_drive(m: SuspensionModel)
    requires
        m.hits == 0,
    ensures
        drive_plane_of(m) == rot_identity(),
        heading_of(rot_identity()) == (Heading { cos: ONE, sin: 0 }),
        driving_force_of(drive_plane_of(m), heading_of(rot_identity())) == forward_drive(),
{
    assert(crate::orientation::near_unit(ONE as int, 0)) by (nonlinear_arith);
    let straight = Heading { cos: ONE, sin: 0 };
    assert(heading_rot(straight) == rot_identity());
    crate::orientation::lemma_heading_idempotent(straight);
    lemma_apply_identity(forward_drive());
}

/// Which driving keys are held this tick.
#[derive(Clone, Copy, Debug, PartialEq, Eq, Structural)]
pub struct DriveKeys {
    pub accelerate: bool,
    pub brake: bool,
    pub steer_left: bool,
    pub steer_right: bool,
}

/// The force the keys add: the drive thrust under acceleration, its reverse
/// under braking (acceleration wins where both are held), else nothing.
pub open spec fn drive_force_of(keys: DriveKeys, driving: V3) -> V3 {
    if keys.accelerate {
        driving
    } else if keys.brake {
        v3_neg(driving)
    } else {
        v3(0, 0, 0)
    }
}

/// The torque the keys add, for a body with orientation `rot`: the forward
/// drive acting at the acceleration point, or its reverse at the braking point.
pub open spec fn drive_torque_of(keys: DriveKeys, rot: Rot3) -> V3 {
    let thrust = rot_apply(rot, forward_drive());
    if keys.accelerate {
        v3_cross(rot_apply(rot, acceleration_point()), thrust)
    } else if keys.brake {
        v3_cross(rot_apply(rot, braking_point()), v3_neg(thrust))
    } else {
        v3(0, 0, 0)
    }
}

/// The bound on the torque the keys add.
pub const DRIVE_TORQUE_MAX: i64 = 2 * 300 * 480_000;

/// The force and the torque that the keys add this tick.
pub fn drive_effect(keys: &DriveKeys, rot: &Rot3, driving: &Vec3) -> (r: (Vec3, Vec3))
    requires
        rot.wf(),
        v3_within(driving@, DRIVE_MAX as int),
    ensures
        r.0@ == drive_force_of(*keys, driving@),
        r.1@ == drive_torque_of(*keys, *rot),
        v3_within(r.0@, DRIVE_MAX as int),
        v3_within(r.1@, DRIVE_TORQUE_MAX as int),
{
    if !keys.accelerate && !keys.brake {
        return (Vec3::zero(), Vec3::zero());
    }
    let fwd = Vec3::new(0, 0, FORWARD_DRIVE_Z);
    proof {
        lemma_apply_within(*rot, fwd@, FORWARD_DRIVE_Z as int);
        lemma_apply_within(*rot, acceleration_point(), 100);
        lemma_apply_within(*rot, braking_point(), 100);
    }
    let thrust = rot.apply(&fwd);
    if keys.accelerate {
        let point = rot.apply(&Vec3::new(0, THRUST_POINT_Y, THRUST_POINT_Z));
        proof {
            lemma_cross_within(point@, thrust@, 300, 480_000);
        }
        (*driving, point.cross(&thrust))
    } else {
        let point = rot.apply(&Vec3::new(0, THRUST_POINT_Y, -THRUST_POINT_Z));
        let back = thrust.neg();
        proof {
            lemma_cross_within(point@, back@, 300, 480_000);
        }
        (driving.neg(), point.cross(&back))
    }
}

/// The rate at which steering changes the vertical angular velocity, per
/// second.
pub const STEER_RATE: i64 = 20_000;

/// The bound on the vertical angular velocity.
pub const ANGVEL_LIMIT: i64 = 20_000;

pub open spec fn clamp(v: int, lo: int, hi: int) -> int {
    if v < lo {
        lo
    } else if v > hi {
        hi
    } else {
        v
    }
}

/// The vertical angular velocity after a tick of `elapsed` (fixed-point
/// seconds): steering left raises it, steering right lowers it (left wins where
/// both are held), and the result is clamped to the limit whatever was held.
pub open spec fn steered(angvel: int, keys: DriveKeys, elapsed: int) -> int {
    let delta = STEER_RATE * elapsed / (ONE as int);
    let raw = if keys.steer_left {
        angvel + delta
    } else if keys.steer_right {
        angvel - delta
    } else {
        angvel
    };
    clamp(raw, -ANGVEL_LIMIT, ANGVEL_LIMIT as int)
}

/// The vertical angular velocity after steering for `elapsed`.
pub fn steer(angvel: i64, keys: &DriveKeys, elapsed: u32) -> (r: i64)
    ensures
        r == steered(angvel as int, *keys, elapsed as int),
        -ANGVEL_LIMIT <= r <= ANGVEL_LIMIT,
{
    let delta: i128 = STEER_RATE as i128 * elapsed as i128 / ONE as i128;
    let raw: i128 = if keys.steer_left {
        angvel as i128 + delta
    } else if keys.steer_right {
        angvel as i128 - delta
    } else {
        angvel as i128
    };
    if raw < -ANGVEL_LIMIT as i128 {
        -ANGVEL_LIMIT
    } else if raw > ANGVEL_LIMIT as i128 {
        ANGVEL_LIMIT
    } else {
        raw as i64
    }
}

/// The vehicle body as the controller reads it.
#[derive(Clone, Copy, Debug, PartialEq, Eq, Structural)]
pub struct BodyState {
    pub position: Vec3,
    pub rotation: Rot3,
    pub angvel_y: i64,
}

impl BodyState {
    pub open spec fn wf(&self) -> bool {
        v3_within(self.position@, COORD_MAX as int) && self.rotation.wf()
    }
}

/// What the controller writes to the body for a tick: the whole force and
/// torque, replacing those of the last tick, and the new vertical angular
/// velocity.
#[derive(Clone, Copy, Debug, PartialEq, Eq, Structural)]
pub struct TickOutput {
    pub force: Vec3,
    pub torque: Vec3,
    pub angvel_y: i64,
}

/// The force of a tick: the suspension force and what the keys add.
pub open spec fn tick_force(s: SuspensionModel, body: BodyState, keys: DriveKeys) -> V3 {
    v3_add(
        s.force,
        drive_force_of(keys, driving_force_of(drive_plane_of(s), heading_of(body.rotation))),
    )
}

/// The torque of a tick: the suspension torque and what the keys add.
pub open spec fn tick_torque(s: SuspensionModel, body: BodyState, keys: DriveKeys) -> V3 {
    v3_add(s.torque, drive_torque_of(keys, body.rotation))
}

/// One controller tick, from the suspension sums of this tick.
pub fn controller_tick(
    body: &BodyState,
    susp: &Suspension,
    keys: &DriveKeys,
    elapsed: u32,
) -> (r: TickOutput)
    requires
        body.wf(),
        susp.wf(),
    ensures
        r.force@ == tick_force(susp@, *body, *keys),
        r.torque@ == tick_torque(susp@, *body, *keys),
        r.angvel_y == steered(body.angvel_y as int, *keys, elapsed as int),
        -ANGVEL_LIMIT <= r.angvel_y <= ANGVEL_LIMIT,
{
    let heading = body.rotation.heading();
    let plane = susp.drive_plane();
    let driving = driving_force(&plane, &heading);
    let (df, dt) = drive_effect(keys, &body.rotation, &driving);
    TickOutput {
        force: susp.force.add(&df),
        torque: susp.torque.add(&dt),
        angvel_y: steer(body.angvel_y, keys, elapsed),
    }
}

/// Where no wheel touches ground and neither acceleration nor braking is held,
/// a tick applies no force and no torque at all.
pub proof fn lemma_no_contact_no_force(
    body: BodyState,
    contacts: Seq<WheelContact>,
    keys: DriveKeys,
)
    requires
        forall|i: int| 0 <= i < contacts.len() ==> (#[trigger] contacts[i]).hit.is_none(),
        !keys.accelerate,
        !keys.brake,
    ensures
        tick_force(suspension_of(body.position@, contacts), body, keys) == v3(0, 0, 0),
        tick_torque(suspension_of(body.position@, contacts), body, keys) == v3(0, 0, 0),
{
    lemma_no_contact_sums(body.position@, contacts);
}

proof fn lemma_no_contact_sums(body: V3, contacts: Seq<WheelContact>)
    requires
        forall|i: int| 0 <= i < contacts.len() ==> (#[trigger] contacts[i]).hit.is_none(),
    ensures
        suspension_of(body, contacts).force == v3(0, 0, 0),
        suspension_of(body, contacts).torque == v3(0, 0, 0),
        suspension_of(body, contacts).hits == 0,
    decreases contacts.len(),
{
    if contacts.len() > 0 {
        let rest = contacts.drop_last();
        assert forall|i: int| 0 <= i < rest.len() implies (#[trigger] rest[i]).hit.is_none() by {
            assert(rest[i] == contacts[i]);
        }
        lemma_no_contact_sums(body, rest);
        assert(contacts.last().hit.is_none());
    }
}

} // verus!
