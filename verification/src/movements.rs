//! The velocity integrator and the trajectory integrator.
//!
//! `change_velocity` turns a tick's movement commands plus the elapsed time
//! into a new velocity state and then applies passive angular damping —
//! commands first, damping after, so a tick's outcome is a pure function of
//! its inputs. `apply_velocity` moves a pose along a straight line when the
//! yaw rate is zero and along a constant-radius arc otherwise, with the
//! in-place turn as the degenerate zero-radius case.

use vstd::prelude::*;

use crate::rational::{
    abs_v, add_v, div_v, int_v, is_zero_v, mul_v, neg_v, rat_eq, rat_le, rv_wf, sign_v, sub_v,
    Rat, Ratio,
};
use crate::rotation::{
    angle_rot_v, rot_apply_v, rot_comp_v, rot_eq, rot_wf, Rot, Rotv,
};
use crate::vec3::{v3_add, v3_eq, v3_scale, v3_sub, v3_wf, Vec3r, Vec3v};
use crate::vessels::{MovementProperties, VesselID};

verus! {

/// A discrete movement command's action.
#[derive(Clone, Copy, Debug, PartialEq, Eq, Structural)]
pub enum MovementType {
    Forward,
    Backward,
    TurnLeft,
    TurnRight,
}

/// A movement command: an action aimed at one vessel, valid for one tick.
#[derive(Clone, Copy, Debug, PartialEq, Eq, Structural)]
pub struct MovementEvent {
    pub movement_type: MovementType,
    pub vessel_id: VesselID,
}

/// Mathematical value of a velocity state.
pub ghost struct Velv {
    pub linear: Vec3v,
    pub angular: Vec3v,
}

/// Per-vessel velocity state: linear velocity in the vessel frame and
/// angular velocity, of which only the yaw component drives motion.
#[derive(Clone, Copy, Debug)]
pub struct VelocityVector {
    pub linear_velocity: Vec3r,
    pub angular_velocity: Vec3r,
}

impl View for VelocityVector {
    type V = Velv;

    open spec fn view(&self) -> Velv {
        Velv { linear: self.linear_velocity@, angular: self.angular_velocity@ }
    }
}

impl VelocityVector {
    pub fn new(linear_velocity: Vec3r, angular_velocity: Vec3r) -> (r: VelocityVector)
        ensures
            r@ == (Velv { linear: linear_velocity@, angular: angular_velocity@ }),
    {
        VelocityVector { linear_velocity, angular_velocity }
    }

    pub fn at_rest() -> (r: VelocityVector)
        ensures
            r@ == (Velv { linear: crate::vec3::v3_zero(), angular: crate::vec3::v3_zero() }),
    {
        VelocityVector { linear_velocity: Vec3r::zero(), angular_velocity: Vec3r::zero() }
    }
}

pub open spec fn vel_eq(a: Velv, b: Velv) -> bool {
    v3_eq(a.linear, b.linear) && v3_eq(a.angular, b.angular)
}

pub open spec fn vel_wf(a: Velv) -> bool {
    v3_wf(a.linear) && v3_wf(a.angular)
}

/// Mathematical value of a pose.
pub ghost struct Posev {
    pub position: Vec3v,
    pub orientation: Rotv,
}

/// Position and yaw orientation of an entity.
#[derive(Clone, Copy, Debug)]
pub struct Pose {
    pub position: Vec3r,
    pub orientation: Rot,
}

impl View for Pose {
    type V = Posev;

    open spec fn view(&self) -> Posev {
        Posev { position: self.position@, orientation: self.orientation@ }
    }
}

impl Pose {
    pub fn new(position: Vec3r, orientation: Rot) -> (r: Pose)
        ensures
            r@ == (Posev { position: position@, orientation: orientation@ }),
    {
        Pose { position, orientation }
    }
}

pub open spec fn pose_eq(a: Posev, b: Posev) -> bool {
    v3_eq(a.position, b.position) && rot_eq(a.orientation, b.orientation)
}

pub open spec fn pose_wf(a: Posev) -> bool {
    v3_wf(a.position) && rot_wf(a.orientation)
}

/// Turn-responsiveness multiplier applied to turn commands.
pub open spec fn turn_multiplier_v() -> Ratio {
    int_v(2)
}

/// Feel constant converting the velocity ratio into a usable arc radius.
pub open spec fn turn_radius_scale_v() -> Ratio {
    int_v(10)
}

/// The turn-responsiveness multiplier as an executable value.
pub fn turn_multiplier() -> (r: Rat)
    ensures
        r@ == turn_multiplier_v(),
{
    Rat::from_int(2)
}

/// The turn-radius scale as an executable value.
pub fn turn_radius_scale() -> (r: Rat)
    ensures
        r@ == turn_radius_scale_v(),
{
    Rat::from_int(10)
}

/// How many events in `events` aim action `t` at vessel `id`.
pub open spec fn count_events(events: Seq<MovementEvent>, id: VesselID, t: MovementType) -> int
    decreases events.len(),
{
    if events.len() == 0 {
        0
    } else {
        count_events(events.drop_last(), id, t) + if events.last().vessel_id == id
            && events.last().movement_type == t {
            1int
        } else {
            0int
        }
    }
}

proof fn lemma_count_push(events: Seq<MovementEvent>, e: MovementEvent, id: VesselID, t: MovementType)
    ensures
        count_events(events.push(e), id, t) == count_events(events, id, t) + if e.vessel_id == id
            && e.movement_type == t {
            1int
        } else {
            0int
        },
{
    assert(events.push(e).drop_last() =~= events);
    assert(events.push(e).last() == e);
}

/// Passive angular damping: a velocity whose magnitude is within one
/// damping step snaps to zero; otherwise one step is taken toward zero.
pub open spec fn damp_v(w: Ratio, step: Ratio) -> Ratio {
    if rat_le(abs_v(w), step) {
        int_v(0)
    } else if sign_v(w) == 1 {
        sub_v(w, step)
    } else if sign_v(w) == -1 {
        add_v(w, step)
    } else {
        w
    }
}

/// The velocity integrator's result: every command targeting the vessel
/// adds its acceleration contribution (commands commute — only their
/// counts matter), and damping is applied after command processing.
pub open spec fn change_velocity_v(
    vel: Velv,
    props: crate::vessels::Propsv,
    dt: Ratio,
    events: Seq<MovementEvent>,
    id: VesselID,
) -> Velv {
    let ax = mul_v(props.linear_acceleration.x, dt);
    let aw = mul_v(mul_v(props.angular_acceleration.y, dt), turn_multiplier_v());
    let f = count_events(events, id, MovementType::Forward);
    let b = count_events(events, id, MovementType::Backward);
    let l = count_events(events, id, MovementType::TurnLeft);
    let r = count_events(events, id, MovementType::TurnRight);
    let linx = add_v(vel.linear.x, mul_v(int_v(f - b), ax));
    let wy = add_v(vel.angular.y, mul_v(int_v(l - r), aw));
    let step = mul_v(props.angular_acceleration.y, dt);
    Velv {
        linear: Vec3v { x: linx, y: vel.linear.y, z: vel.linear.z },
        angular: Vec3v { x: vel.angular.x, y: damp_v(wy, step), z: vel.angular.z },
    }
}

/// Exactly the velocity state `change_velocity` returns: `None` only
/// when the net command counts or the exact arithmetic leave the
/// representable range.
pub open spec fn change_velocity_full(
    vel: Velv,
    props: crate::vessels::Propsv,
    dt: Ratio,
    events: Seq<MovementEvent>,
    id: VesselID,
) -> Option<Velv> {
    let f = count_events(events, id, MovementType::Forward);
    let b = count_events(events, id, MovementType::Backward);
    let l = count_events(events, id, MovementType::TurnLeft);
    let r = count_events(events, id, MovementType::TurnRight);
    let cb = crate::rational::COMPONENT_BOUND as int;
    if f - b < -cb || f - b > cb || l - r < -cb || l - r > cb {
        None
    } else {
        match crate::rational::mul_full(props.linear_acceleration.x, dt) {
            None => None,
            Some(axdt) => match crate::rational::mul_full(props.angular_acceleration.y, dt) {
                None => None,
                Some(aydt) => match crate::rational::mul_full(aydt, turn_multiplier_v()) {
                    None => None,
                    Some(awdt) => match crate::rational::mul_full(int_v(f - b), axdt) {
                        None => None,
                        Some(dx) => match crate::rational::add_full(vel.linear.x, dx) {
                            None => None,
                            Some(linx) => match crate::rational::mul_full(int_v(l - r), awdt) {
                                None => None,
                                Some(dw) => match crate::rational::add_full(vel.angular.y, dw) {
                                    None => None,
                                    Some(wy) => match damp_full(wy, aydt) {
                                        None => None,
                                        Some(wd) => Some(
                                            Velv {
                                                linear: Vec3v {
                                                    x: linx,
                                                    y: vel.linear.y,
                                                    z: vel.linear.z,
                                                },
                                                angular: Vec3v {
                                                    x: vel.angular.x,
                                                    y: wd,
                                                    z: vel.angular.z,
                                                },
                                            },
                                        ),
                                    },
                                },
                            },
                        },
                    },
                },
            },
        }
    }
}

/// The velocity integrator. Consumes this tick's commands (those naming
/// another vessel are ignored), integrates them into the velocity state,
/// then applies passive angular damping. Pure: the result depends only on
/// the arguments. The result is `Some` exactly when `change_velocity_full`
/// says so — `None` only when the net command counts or the exact
/// arithmetic leave the representable range — and a tick with no net turn
/// command and a nonnegative damping step never grows the yaw rate and
/// never flips its sign.
#[verifier::loop_isolation(false)]
pub fn change_velocity(
    vel: &VelocityVector,
    props: &MovementProperties,
    dt: &Rat,
    events: &Vec<MovementEvent>,
    id: &VesselID,
) -> (r: Option<VelocityVector>)
    ensures
        r matches Some(v) ==> vel_eq(v@, change_velocity_v(vel@, props@, dt@, events@, *id)),
        r is Some <==> change_velocity_full(vel@, props@, dt@, events@, *id) is Some,
        r matches Some(v) ==> Some(v@) == change_velocity_full(vel@, props@, dt@, events@, *id),
        r matches Some(v) ==> (count_events(events@, *id, MovementType::TurnLeft) == count_events(
            events@,
            *id,
            MovementType::TurnRight,
        ) && rat_le(int_v(0), mul_v(props@.angular_acceleration.y, dt@)) ==> rat_le(
            abs_v(v@.angular.y),
            abs_v(vel@.angular.y),
        ) && (sign_v(v@.angular.y) == sign_v(vel@.angular.y) || sign_v(v@.angular.y) == 0)),
{
    proof {
        use_type_invariant(&props.linear_acceleration.x);
        use_type_invariant(&props.angular_acceleration.y);
        use_type_invariant(&vel.linear_velocity.x);
        use_type_invariant(&vel.angular_velocity.y);
        use_type_invariant(dt);
    }
    let mut nf: usize = 0;
    let mut nb: usize = 0;
    let mut nl: usize = 0;
    let mut nr: usize = 0;
    let mut i: usize = 0;
    proof {
        assert(events@.take(0) =~= Seq::<MovementEvent>::empty());
    }
    while i < events.len()
        invariant
            i <= events.len(),
            nf <= i && nb <= i && nl <= i && nr <= i,
            nf as int == count_events(events@.take(i as int), *id, MovementType::Forward),
            nb as int == count_events(events@.take(i as int), *id, MovementType::Backward),
            nl as int == count_events(events@.take(i as int), *id, MovementType::TurnLeft),
            nr as int == count_events(events@.take(i as int), *id, MovementType::TurnRight),
        decreases events.len() - i,
    {
        proof {
            assert(events@.take(i as int + 1) =~= events@.take(i as int).push(events@[i as int]));
            lemma_count_push(events@.take(i as int), events@[i as int], *id, MovementType::Forward);
            lemma_count_push(events@.take(i as int), events@[i as int], *id, MovementType::Backward);
            lemma_count_push(events@.take(i as int), events@[i as int], *id, MovementType::TurnLeft);
            lemma_count_push(events@.take(i as int), events@[i as int], *id, MovementType::TurnRight);
        }
        let e = &events[i];
        if e.vessel_id == *id {
            match e.movement_type {
                MovementType::Forward => {
                    nf = nf + 1;
                },
                MovementType::Backward => {
                    nb = nb + 1;
                },
                MovementType::TurnLeft => {
                    nl = nl + 1;
                },
                MovementType::TurnRight => {
                    nr = nr + 1;
                },
            }
        }
        i = i + 1;
    }
    proof {
        assert(events@.take(events@.len() as int) =~= events@);
    }
    let fb: i128 = nf as i128 - nb as i128;
    let lr: i128 = nl as i128 - nr as i128;
    let bound: i128 = crate::rational::COMPONENT_BOUND as i128;
    if fb < -bound || fb > bound || lr < -bound || lr > bound {
        return None;
    }
    let netf = Rat::from_int(fb as i64);
    let netl = Rat::from_int(lr as i64);
    let axdt = match props.linear_acceleration.x.checked_mul(dt) {
        Some(v) => v,
        None => {
            return None;
        },
    };
    let aydt = match props.angular_acceleration.y.checked_mul(dt) {
        Some(v) => v,
        None => {
            return None;
        },
    };
    let two = turn_multiplier();
    let awdt = match aydt.checked_mul(&two) {
        Some(v) => v,
        None => {
            return None;
        },
    };
    let dx = match netf.checked_mul(&axdt) {
        Some(v) => v,
        None => {
            return None;
        },
    };
    let linx = match vel.linear_velocity.x.checked_add(&dx) {
        Some(v) => v,
        None => {
            return None;
        },
    };
    let dw = match netl.checked_mul(&awdt) {
        Some(v) => v,
        None => {
            return None;
        },
    };
    let wy_cmd = match vel.angular_velocity.y.checked_add(&dw) {
        Some(v) => v,
        None => {
            return None;
        },
    };
    let wy_new = match damp(&wy_cmd, &aydt) {
        Some(v) => v,
        None => {
            return None;
        },
    };
    let ghost fnb = int_v(
        count_events(events@, *id, MovementType::Forward) - count_events(
            events@,
            *id,
            MovementType::Backward,
        ),
    );
    let ghost lnr = int_v(
        count_events(events@, *id, MovementType::TurnLeft) - count_events(
            events@,
            *id,
            MovementType::TurnRight,
        ),
    );
    let ghost axv = mul_v(props@.linear_acceleration.x, dt@);
    let ghost awv = mul_v(mul_v(props@.angular_acceleration.y, dt@), turn_multiplier_v());
    let ghost wy_ideal = add_v(vel@.angular.y, mul_v(lnr, awv));
    let ghost step_ideal = mul_v(props@.angular_acceleration.y, dt@);
    proof {
        use_type_invariant(&axdt);
        use_type_invariant(&aydt);
        use_type_invariant(&awdt);
        use_type_invariant(&dx);
        use_type_invariant(&linx);
        use_type_invariant(&dw);
        use_type_invariant(&wy_cmd);
        use_type_invariant(&wy_new);
        crate::rational::lemma_wf_add(props@.linear_acceleration.x, dt@);
        crate::rational::lemma_wf_add(props@.angular_acceleration.y, dt@);
        crate::rational::lemma_wf_add(mul_v(props@.angular_acceleration.y, dt@), turn_multiplier_v());
        crate::rational::lemma_wf_add(aydt@, two@);
        crate::rational::lemma_mul_congr(aydt@, step_ideal, two@, turn_multiplier_v());
        crate::rational::lemma_eq_trans(awdt@, mul_v(aydt@, two@), awv);
        crate::rational::lemma_wf_add(fnb, axv);
        crate::rational::lemma_wf_add(lnr, awv);
        crate::rational::lemma_mul_congr(netf@, fnb, axdt@, axv);
        crate::rational::lemma_wf_add(netf@, axdt@);
        crate::rational::lemma_eq_trans(dx@, mul_v(netf@, axdt@), mul_v(fnb, axv));
        crate::rational::lemma_add_congr(vel@.linear.x, vel@.linear.x, dx@, mul_v(fnb, axv));
        crate::rational::lemma_wf_add(vel@.linear.x, dx@);
        crate::rational::lemma_eq_trans(
            linx@,
            add_v(vel@.linear.x, dx@),
            add_v(vel@.linear.x, mul_v(fnb, axv)),
        );
        crate::rational::lemma_mul_congr(netl@, lnr, awdt@, awv);
        crate::rational::lemma_wf_add(netl@, awdt@);
        crate::rational::lemma_eq_trans(dw@, mul_v(netl@, awdt@), mul_v(lnr, awv));
        crate::rational::lemma_add_congr(vel@.angular.y, vel@.angular.y, dw@, mul_v(lnr, awv));
        crate::rational::lemma_wf_add(vel@.angular.y, dw@);
        crate::rational::lemma_eq_trans(wy_cmd@, add_v(vel@.angular.y, dw@), wy_ideal);
        crate::rational::lemma_wf_add(vel@.angular.y, mul_v(lnr, awv));
        lemma_damp_congr(wy_cmd@, wy_ideal, aydt@, step_ideal);
        lemma_damp_wf(wy_ideal, step_ideal);
        lemma_damp_wf(wy_cmd@, aydt@);
        crate::rational::lemma_eq_trans(
            wy_new@,
            damp_v(wy_cmd@, aydt@),
            damp_v(wy_ideal, step_ideal),
        );
        if count_events(events@, *id, MovementType::TurnLeft) == count_events(
            events@,
            *id,
            MovementType::TurnRight,
        ) && rat_le(int_v(0), step_ideal) {
            assert(rat_eq(wy_ideal, vel@.angular.y)) by (nonlinear_arith)
                requires
                    wy_ideal.n == vel@.angular.y.n * (1 * awv.d) + (0 * awv.n) * vel@.angular.y.d,
                    wy_ideal.d == vel@.angular.y.d * (1 * awv.d),
                    awv.d > 0,
                    vel@.angular.y.d > 0,
            ;
            lemma_damp_congr(wy_ideal, vel@.angular.y, step_ideal, step_ideal);
            lemma_damping_law(vel@.angular.y, step_ideal);
            lemma_damp_wf(vel@.angular.y, step_ideal);
            crate::rational::lemma_eq_trans(
                wy_new@,
                damp_v(wy_ideal, step_ideal),
                damp_v(vel@.angular.y, step_ideal),
            );
            crate::rational::lemma_abs_congr(wy_new@, damp_v(vel@.angular.y, step_ideal));
            crate::rational::lemma_sign_congr(wy_new@, damp_v(vel@.angular.y, step_ideal));
            crate::rational::lemma_le_congr(
                abs_v(wy_new@),
                abs_v(damp_v(vel@.angular.y, step_ideal)),
                abs_v(vel@.angular.y),
                abs_v(vel@.angular.y),
            );
        }
    }
    Some(
        VelocityVector {
            linear_velocity: Vec3r {
                x: linx,
                y: vel.linear_velocity.y,
                z: vel.linear_velocity.z,
            },
            angular_velocity: Vec3r {
                x: vel.angular_velocity.x,
                y: wy_new,
                z: vel.angular_velocity.z,
            },
        },
    )
}

/// Exactly the damped velocity `damp` returns.
pub open spec fn damp_full(w: Ratio, step: Ratio) -> Option<Ratio> {
    if rat_le(abs_v(w), step) {
        Some(int_v(0))
    } else if sign_v(w) == 1 {
        crate::rational::sub_full(w, step)
    } else if sign_v(w) == -1 {
        crate::rational::add_full(w, step)
    } else {
        Some(w)
    }
}

/// One damping step toward zero, exactly as `damp_v` describes. `None`
/// only when the exact arithmetic leaves the representable range.
pub fn damp(w: &Rat, step: &Rat) -> (r: Option<Rat>)
    ensures
        r matches Some(q) ==> rat_eq(q@, damp_v(w@, step@)),
        r is Some <==> damp_full(w@, step@) is Some,
        r matches Some(q) ==> Some(q@) == damp_full(w@, step@),
{
    proof {
        use_type_invariant(w);
        use_type_invariant(step);
    }
    let aw = w.abs();
    if aw.le(step) {
        Some(Rat::zero())
    } else if w.signum() == 1 {
        w.checked_sub(step)
    } else if w.signum() == -1 {
        w.checked_add(step)
    } else {
        Some(*w)
    }
}

/// Damping respects value equality.
pub proof fn lemma_damp_congr(w: Ratio, w2: Ratio, step: Ratio, step2: Ratio)
    requires
        rv_wf(w),
        rv_wf(w2),
        rv_wf(step),
        rv_wf(step2),
        rat_eq(w, w2),
        rat_eq(step, step2),
    ensures
        rat_eq(damp_v(w, step), damp_v(w2, step2)),
{
    crate::rational::lemma_abs_congr(w, w2);
    crate::rational::lemma_sign_congr(w, w2);
    crate::rational::lemma_le_congr(abs_v(w), abs_v(w2), step, step2);
    if !rat_le(abs_v(w), step) {
        if sign_v(w) == 1 {
            crate::rational::lemma_sub_congr(w, w2, step, step2);
        } else if sign_v(w) == -1 {
            crate::rational::lemma_add_congr(w, w2, step, step2);
        }
    }
}

pub proof fn lemma_damp_wf(w: Ratio, step: Ratio)
    requires
        rv_wf(w),
        rv_wf(step),
    ensures
        rv_wf(damp_v(w, step)),
{
    crate::rational::lemma_wf_add(w, step);
}

/// The damping law: for a nonnegative damping step, one damping step
/// never increases the magnitude of the angular velocity and never flips
/// its sign — it clamps to exactly zero instead of overshooting.
pub proof fn lemma_damping_law(w: Ratio, step: Ratio)
    requires
        rv_wf(w),
        rv_wf(step),
        rat_le(int_v(0), step),
    ensures
        rat_le(abs_v(damp_v(w, step)), abs_v(w)),
        sign_v(damp_v(w, step)) == sign_v(w) || sign_v(damp_v(w, step)) == 0,
{
    let r = damp_v(w, step);
    if rat_le(abs_v(w), step) {
        assert(r == int_v(0));
        assert(abs_v(int_v(0)) == int_v(0));
        assert(rat_le(int_v(0), abs_v(w)));
    } else if sign_v(w) == 1 {
        assert(step.n * w.d < w.n * step.d);
        assert(r == sub_v(w, step));
        assert(r.n == w.n * step.d - step.n * w.d);
        assert(r.n > 0);
        assert(step.n >= 0);
        assert(r.n * w.d <= w.n * r.d) by (nonlinear_arith)
            requires
                r.n == w.n * step.d - step.n * w.d,
                r.d == w.d * step.d,
                step.n >= 0,
                w.d > 0,
        ;
        assert(sign_v(r) == 1);
    } else if sign_v(w) == -1 {
        assert(step.n * w.d < (-w.n) * step.d);
        assert(r == add_v(w, step));
        assert(r.n == w.n * step.d + step.n * w.d);
        assert(r.n < 0) by (nonlinear_arith)
            requires
                r.n == w.n * step.d + step.n * w.d,
                step.n * w.d < (-w.n) * step.d,
        ;
        assert(sign_v(r) == -1);
        assert((-r.n) * w.d <= (-w.n) * r.d) by (nonlinear_arith)
            requires
                r.n == w.n * step.d + step.n * w.d,
                r.d == w.d * step.d,
                step.n >= 0,
                w.d > 0,
        ;
    } else {
        assert(sign_v(w) == 0);
        assert(w.n == 0);
        assert(rat_le(abs_v(w), step));
    }
}

/// A command-free tick only damps: the commanded yaw velocity equals the
/// incoming one, so the damping law bounds the outcome against it.
pub proof fn lemma_command_free_tick(
    vel: Velv,
    props: crate::vessels::Propsv,
    dt: Ratio,
    id: VesselID,
)
    requires
        vel_wf(vel),
        v3_wf(props.linear_acceleration),
        v3_wf(props.angular_acceleration),
        rv_wf(dt),
        rat_le(int_v(0), mul_v(props.angular_acceleration.y, dt)),
    ensures
        rat_le(
            abs_v(change_velocity_v(vel, props, dt, Seq::empty(), id).angular.y),
            abs_v(vel.angular.y),
        ),
        sign_v(change_velocity_v(vel, props, dt, Seq::empty(), id).angular.y) == sign_v(
            vel.angular.y,
        ) || sign_v(change_velocity_v(vel, props, dt, Seq::empty(), id).angular.y) == 0,
{
    let aw = mul_v(mul_v(props.angular_acceleration.y, dt), turn_multiplier_v());
    let step = mul_v(props.angular_acceleration.y, dt);
    let wy = add_v(vel.angular.y, mul_v(int_v(0), aw));
    crate::rational::lemma_wf_add(props.angular_acceleration.y, dt);
    crate::rational::lemma_wf_add(mul_v(props.angular_acceleration.y, dt), turn_multiplier_v());
    crate::rational::lemma_wf_add(int_v(0), aw);
    crate::rational::lemma_wf_add(vel.angular.y, mul_v(int_v(0), aw));
    assert(rat_eq(wy, vel.angular.y)) by (nonlinear_arith)
        requires
            wy.n == vel.angular.y.n * (1 * aw.d) + (0 * aw.n) * vel.angular.y.d,
            wy.d == vel.angular.y.d * (1 * aw.d),
            aw.d > 0,
            vel.angular.y.d > 0,
    ;
    lemma_damp_congr(wy, vel.angular.y, step, step);
    lemma_damping_law(vel.angular.y, step);
    lemma_damp_wf(vel.angular.y, step);
    lemma_damp_wf(wy, step);
    crate::rational::lemma_abs_congr(damp_v(wy, step), damp_v(vel.angular.y, step));
    crate::rational::lemma_sign_congr(damp_v(wy, step), damp_v(vel.angular.y, step));
    crate::rational::lemma_le_congr(
        abs_v(damp_v(wy, step)),
        abs_v(damp_v(vel.angular.y, step)),
        abs_v(vel.angular.y),
        abs_v(vel.angular.y),
    );
}

// ---------------------------------------------------------------------------
// The trajectory integrator.
// ---------------------------------------------------------------------------

/// Radius of the turn circle: the velocity ratio scaled by the feel
/// constant. Meaningful only when the yaw rate is nonzero; its sign
/// follows the sign of `linear.x / angular.y`.
pub open spec fn turn_radius_v(vel: Velv) -> Ratio {
    mul_v(div_v(vel.linear.x, vel.angular.y), turn_radius_scale_v())
}

/// Centre of the turn circle: the position offset by the turn radius
/// along the local negative-z axis, rotated into the world frame.
pub open spec fn turn_circle_center_v(pose: Posev, vel: Velv) -> Vec3v {
    v3_add(
        pose.position,
        rot_apply_v(
            pose.orientation,
            Vec3v { x: int_v(0), y: int_v(0), z: neg_v(turn_radius_v(vel)) },
        ),
    )
}

/// Angle swept in one tick: arc length travelled over turn radius.
pub open spec fn sweep_angle_v(vel: Velv, dt: Ratio) -> Ratio {
    div_v(mul_v(vel.linear.x, dt), turn_radius_v(vel))
}

/// The trajectory integrator's result. With zero yaw rate the pose moves
/// in a straight line; with a zero turn radius it turns in place; else
/// position and orientation together rotate about the turn-circle centre
/// by the sweep angle.
pub open spec fn apply_velocity_v(pose: Posev, vel: Velv, dt: Ratio) -> Posev {
    if is_zero_v(vel.angular.y) {
        Posev {
            position: v3_add(
                pose.position,
                v3_scale(dt, rot_apply_v(pose.orientation, vel.linear)),
            ),
            orientation: pose.orientation,
        }
    } else if is_zero_v(turn_radius_v(vel)) {
        Posev {
            position: pose.position,
            orientation: rot_comp_v(angle_rot_v(mul_v(vel.angular.y, dt)), pose.orientation),
        }
    } else {
        let rsweep = angle_rot_v(sweep_angle_v(vel, dt));
        let center = turn_circle_center_v(pose, vel);
        Posev {
            position: v3_add(center, rot_apply_v(rsweep, v3_sub(pose.position, center))),
            orientation: rot_comp_v(rsweep, pose.orientation),
        }
    }
}

/// Straight-line law: with zero yaw rate the position update is exactly
/// `dt` times the linear velocity rotated into the world frame, whatever
/// the orientation, and the orientation is unchanged.
pub proof fn lemma_straight_line(pose: Posev, vel: Velv, dt: Ratio)
    requires
        is_zero_v(vel.angular.y),
    ensures
        apply_velocity_v(pose, vel, dt).position == v3_add(
            pose.position,
            v3_scale(dt, rot_apply_v(pose.orientation, vel.linear)),
        ),
        apply_velocity_v(pose, vel, dt).orientation == pose.orientation,
{
}

/// Turn-radius law: the radius magnitude is the magnitude of
/// `linear.x / angular.y` times the scale, and its sign is the sign of
/// that quotient.
pub proof fn lemma_turn_radius_law(vel: Velv)
    requires
        vel_wf(vel),
        !is_zero_v(vel.angular.y),
    ensures
        rat_eq(
            abs_v(turn_radius_v(vel)),
            mul_v(abs_v(div_v(vel.linear.x, vel.angular.y)), turn_radius_scale_v()),
        ),
        sign_v(turn_radius_v(vel)) == sign_v(div_v(vel.linear.x, vel.angular.y)),
{
    let q = div_v(vel.linear.x, vel.angular.y);
    crate::rational::lemma_wf_div(vel.linear.x, vel.angular.y);
    let r = turn_radius_v(vel);
    assert(r.n == q.n * 10 && r.d == q.d * 1);
    if q.n >= 0 {
        assert(r.n >= 0);
        assert(rat_eq(r, mul_v(q, int_v(10))));
    } else {
        assert(r.n < 0);
        assert((-r.n) * (q.d * 1) == ((-q.n) * 10) * r.d) by (nonlinear_arith)
            requires
                r.n == q.n * 10,
                r.d == q.d * 1,
        ;
    }
}

/// Sweep law: the sweep angle is exactly arc length over radius, and the
/// arc branch advances the orientation by the rotation of that angle.
pub proof fn lemma_arc_sweep(pose: Posev, vel: Velv, dt: Ratio)
    requires
        !is_zero_v(vel.angular.y),
        !is_zero_v(turn_radius_v(vel)),
    ensures
        sweep_angle_v(vel, dt) == div_v(mul_v(vel.linear.x, dt), turn_radius_v(vel)),
        apply_velocity_v(pose, vel, dt).orientation == rot_comp_v(
            angle_rot_v(sweep_angle_v(vel, dt)),
            pose.orientation,
        ),
{
}


/// Exactly the pair `calculate_turn_circle_center` returns.
pub open spec fn turn_circle_full(pose: Posev, vel: Velv) -> Option<(Ratio, Vec3v)> {
    if is_zero_v(vel.angular.y) {
        None
    } else {
        match crate::rational::div_full(vel.linear.x, vel.angular.y) {
            None => None,
            Some(q) => match crate::rational::mul_full(q, int_v(10)) {
                None => None,
                Some(radius) => match crate::rotation::rot_apply_full(
                    pose.orientation,
                    Vec3v { x: int_v(0), y: int_v(0), z: neg_v(radius) },
                ) {
                    None => None,
                    Some(rotated) => match crate::vec3::v3_add_full(pose.position, rotated) {
                        None => None,
                        Some(center) => Some((radius, center)),
                    },
                },
            },
        }
    }
}

/// Exactly the pose `apply_velocity` returns.
pub open spec fn apply_velocity_full(pose: Posev, vel: Velv, dt: Ratio) -> Option<Posev> {
    if is_zero_v(vel.angular.y) {
        match crate::rotation::rot_apply_full(pose.orientation, vel.linear) {
            None => None,
            Some(world) => match crate::vec3::v3_scale_full(dt, world) {
                None => None,
                Some(delta) => match crate::vec3::v3_add_full(pose.position, delta) {
                    None => None,
                    Some(np) => Some(Posev { position: np, orientation: pose.orientation }),
                },
            },
        }
    } else {
        match turn_circle_full(pose, vel) {
            None => None,
            Some(rc) => if is_zero_v(rc.0) {
                match crate::rational::mul_full(vel.angular.y, dt) {
                    None => None,
                    Some(angle) => match crate::rotation::from_angle_full(angle) {
                        None => None,
                        Some(rturn) => match crate::rotation::rot_comp_full(
                            rturn,
                            pose.orientation,
                        ) {
                            None => None,
                            Some(orient) => Some(
                                Posev { position: pose.position, orientation: orient },
                            ),
                        },
                    },
                }
            } else {
                match crate::rational::mul_full(vel.linear.x, dt) {
                    None => None,
                    Some(path) => match crate::rational::div_full(path, rc.0) {
                        None => None,
                        Some(sweep) => match crate::rotation::from_angle_full(sweep) {
                            None => None,
                            Some(rsweep) => match crate::vec3::v3_sub_full(pose.position, rc.1) {
                                None => None,
                                Some(rel) => match crate::rotation::rot_apply_full(rsweep, rel) {
                                    None => None,
                                    Some(rotrel) => match crate::vec3::v3_add_full(rc.1, rotrel) {
                                        None => None,
                                        Some(np) => match crate::rotation::rot_comp_full(
                                            rsweep,
                                            pose.orientation,
                                        ) {
                                            None => None,
                                            Some(orient) => Some(
                                                Posev { position: np, orientation: orient },
                                            ),
                                        },
                                    },
                                },
                            },
                        },
                    },
                }
            },
        }
    }
}

/// Computes the turn radius and the turn-circle centre for this pose and
/// velocity. `None` when the yaw rate is zero — no turn circle exists
/// then — or when the exact arithmetic leaves the representable range.
pub fn calculate_turn_circle_center(pose: &Pose, vel: &VelocityVector) -> (r: Option<(Rat, Vec3r)>)
    ensures
        is_zero_v(vel@.angular.y) ==> r is None,
        r matches Some(p) ==> rat_eq(p.0@, turn_radius_v(vel@)) && v3_eq(
            p.1@,
            turn_circle_center_v(pose@, vel@),
        ),
        r is Some <==> turn_circle_full(pose@, vel@) is Some,
        r matches Some(p) ==> Some((p.0@, p.1@)) == turn_circle_full(pose@, vel@),
{
    proof {
        use_type_invariant(&vel.linear_velocity.x);
        use_type_invariant(&vel.angular_velocity.y);
        use_type_invariant(&pose.position.x);
        use_type_invariant(&pose.position.y);
        use_type_invariant(&pose.position.z);
        use_type_invariant(&pose.orientation.c);
        use_type_invariant(&pose.orientation.s);
    }
    if vel.angular_velocity.y.is_zero() {
        return None;
    }
    let q = match vel.linear_velocity.x.checked_div(&vel.angular_velocity.y) {
        Some(v) => v,
        None => {
            return None;
        },
    };
    let scale = turn_radius_scale();
    let radius = match q.checked_mul(&scale) {
        Some(v) => v,
        None => {
            return None;
        },
    };
    let ghost qv = div_v(vel@.linear.x, vel@.angular.y);
    proof {
        use_type_invariant(&q);
        use_type_invariant(&radius);
        crate::rational::lemma_wf_div(vel@.linear.x, vel@.angular.y);
        crate::rational::lemma_mul_congr(q@, qv, scale@, turn_radius_scale_v());
        crate::rational::lemma_wf_add(q@, scale@);
        crate::rational::lemma_wf_add(qv, turn_radius_scale_v());
        crate::rational::lemma_eq_trans(radius@, mul_v(q@, scale@), turn_radius_v(vel@));
    }
    let offset = Vec3r::new(Rat::zero(), Rat::zero(), radius.neg());
    let rotated = match pose.orientation.checked_apply(&offset) {
        Some(v) => v,
        None => {
            return None;
        },
    };
    let center = match pose.position.checked_add(&rotated) {
        Some(v) => v,
        None => {
            return None;
        },
    };
    let ghost offv = Vec3v { x: int_v(0), y: int_v(0), z: neg_v(turn_radius_v(vel@)) };
    proof {
        use_type_invariant(&rotated.x);
        use_type_invariant(&rotated.y);
        use_type_invariant(&rotated.z);
        use_type_invariant(&center.x);
        use_type_invariant(&center.y);
        use_type_invariant(&center.z);
        crate::rational::lemma_neg_congr(radius@, turn_radius_v(vel@));
        assert(crate::vec3::v3_eq(offset@, offv));
        crate::rotation::lemma_rot_apply_congr(pose@.orientation, pose@.orientation, offset@, offv);
        crate::rotation::lemma_rot_apply_wf(pose@.orientation, offset@);
        crate::vec3::lemma_v3_eq_trans(
            rotated@,
            rot_apply_v(pose@.orientation, offset@),
            rot_apply_v(pose@.orientation, offv),
        );
        crate::rotation::lemma_rot_apply_wf(pose@.orientation, offv);
        crate::vec3::lemma_v3_add_congr(
            pose@.position,
            pose@.position,
            rotated@,
            rot_apply_v(pose@.orientation, offv),
        );
        crate::vec3::lemma_v3_wf_ops(pose@.position, rotated@, int_v(1));
        crate::vec3::lemma_v3_eq_trans(
            center@,
            v3_add(pose@.position, rotated@),
            turn_circle_center_v(pose@, vel@),
        );
    }
    Some((radius, center))
}

/// The trajectory integrator: advances a pose by one tick of its velocity
/// state. Straight-line motion when the yaw rate is zero, an in-place turn
/// when the turn radius is zero, otherwise a rotation of the whole pose
/// about the turn-circle centre by the sweep angle. `None` only when the
/// exact arithmetic leaves the representable range.
pub fn apply_velocity(pose: &Pose, vel: &VelocityVector, dt: &Rat) -> (r: Option<Pose>)
    ensures
        r matches Some(p) ==> pose_eq(p@, apply_velocity_v(pose@, vel@, dt@)),
        r is Some <==> apply_velocity_full(pose@, vel@, dt@) is Some,
        r matches Some(p) ==> Some(p@) == apply_velocity_full(pose@, vel@, dt@),
        r matches Some(p) ==> (crate::rotation::rot_unit(pose@.orientation)
            ==> crate::rotation::rot_unit(p@.orientation)),
{
    proof {
        use_type_invariant(&vel.linear_velocity.x);
        use_type_invariant(&vel.linear_velocity.y);
        use_type_invariant(&vel.linear_velocity.z);
        use_type_invariant(&vel.angular_velocity.y);
        use_type_invariant(&pose.position.x);
        use_type_invariant(&pose.position.y);
        use_type_invariant(&pose.position.z);
        use_type_invariant(&pose.orientation.c);
        use_type_invariant(&pose.orientation.s);
        use_type_invariant(dt);
    }
    if vel.angular_velocity.y.is_zero() {
        let world = match pose.orientation.checked_apply(&vel.linear_velocity) {
            Some(v) => v,
            None => {
                return None;
            },
        };
        let delta = match world.checked_scale(dt) {
            Some(v) => v,
            None => {
                return None;
            },
        };
        let newpos = match pose.position.checked_add(&delta) {
            Some(v) => v,
            None => {
                return None;
            },
        };
        proof {
            use_type_invariant(&world.x);
            use_type_invariant(&world.y);
            use_type_invariant(&world.z);
            use_type_invariant(&delta.x);
            use_type_invariant(&delta.y);
            use_type_invariant(&delta.z);
            use_type_invariant(&newpos.x);
            use_type_invariant(&newpos.y);
            use_type_invariant(&newpos.z);
            crate::rotation::lemma_rot_apply_wf(pose@.orientation, vel@.linear);
            crate::vec3::lemma_v3_scale_congr(
                dt@,
                dt@,
                world@,
                rot_apply_v(pose@.orientation, vel@.linear),
            );
            crate::vec3::lemma_v3_wf_ops(world@, world@, dt@);
            crate::vec3::lemma_v3_eq_trans(
                delta@,
                v3_scale(dt@, world@),
                v3_scale(dt@, rot_apply_v(pose@.orientation, vel@.linear)),
            );
            crate::vec3::lemma_v3_wf_ops(rot_apply_v(pose@.orientation, vel@.linear), world@, dt@);
            crate::vec3::lemma_v3_add_congr(
                pose@.position,
                pose@.position,
                delta@,
                v3_scale(dt@, rot_apply_v(pose@.orientation, vel@.linear)),
            );
            crate::vec3::lemma_v3_wf_ops(pose@.position, delta@, dt@);
            crate::vec3::lemma_v3_eq_trans(
                newpos@,
                v3_add(pose@.position, delta@),
                apply_velocity_v(pose@, vel@, dt@).position,
            );
        }
        return Some(Pose { position: newpos, orientation: pose.orientation });
    }
    let (radius, center) = match calculate_turn_circle_center(pose, vel) {
        Some(v) => v,
        None => {
            return None;
        },
    };
    proof {
        use_type_invariant(&radius);
        use_type_invariant(&center.x);
        use_type_invariant(&center.y);
        use_type_invariant(&center.z);
        crate::rational::lemma_wf_div(vel@.linear.x, vel@.angular.y);
        crate::rational::lemma_wf_add(div_v(vel@.linear.x, vel@.angular.y), turn_radius_scale_v());
        crate::rational::lemma_sign_congr(radius@, turn_radius_v(vel@));
    }
    if radius.is_zero() {
        let angle = match vel.angular_velocity.y.checked_mul(dt) {
            Some(v) => v,
            None => {
                return None;
            },
        };
        let rturn = match Rot::checked_from_angle(&angle) {
            Some(v) => v,
            None => {
                return None;
            },
        };
        let orient = match rturn.checked_compose(&pose.orientation) {
            Some(v) => v,
            None => {
                return None;
            },
        };
        proof {
            use_type_invariant(&angle);
            use_type_invariant(&rturn.c);
            use_type_invariant(&rturn.s);
            use_type_invariant(&orient.c);
            use_type_invariant(&orient.s);
            crate::rational::lemma_wf_add(vel@.angular.y, dt@);
            crate::rotation::lemma_angle_rot_congr(angle@, mul_v(vel@.angular.y, dt@));
            crate::rotation::lemma_angle_rot_wf(angle@);
            crate::rotation::lemma_angle_rot_wf(mul_v(vel@.angular.y, dt@));
            crate::rotation::lemma_rot_eq_trans(
                rturn@,
                angle_rot_v(angle@),
                angle_rot_v(mul_v(vel@.angular.y, dt@)),
            );
            crate::rotation::lemma_rot_comp_congr(
                rturn@,
                angle_rot_v(mul_v(vel@.angular.y, dt@)),
                pose@.orientation,
                pose@.orientation,
            );
            crate::rotation::lemma_rot_comp_wf(rturn@, pose@.orientation);
            crate::rotation::lemma_rot_eq_trans(
                orient@,
                rot_comp_v(rturn@, pose@.orientation),
                rot_comp_v(angle_rot_v(mul_v(vel@.angular.y, dt@)), pose@.orientation),
            );
            if crate::rotation::rot_unit(pose@.orientation) {
                crate::rotation::lemma_angle_rot_unit(mul_v(vel@.angular.y, dt@));
                crate::rotation::lemma_rot_comp_unit(
                    angle_rot_v(mul_v(vel@.angular.y, dt@)),
                    pose@.orientation,
                );
                crate::rotation::lemma_rot_comp_wf(
                    angle_rot_v(mul_v(vel@.angular.y, dt@)),
                    pose@.orientation,
                );
                crate::rotation::lemma_rot_unit_congr(
                    orient@,
                    rot_comp_v(angle_rot_v(mul_v(vel@.angular.y, dt@)), pose@.orientation),
                );
            }
        }
        return Some(Pose { position: pose.position, orientation: orient });
    }
    let path = match vel.linear_velocity.x.checked_mul(dt) {
        Some(v) => v,
        None => {
            return None;
        },
    };
    let sweep = match path.checked_div(&radius) {
        Some(v) => v,
        None => {
            return None;
        },
    };
    let rsweep = match Rot::checked_from_angle(&sweep) {
        Some(v) => v,
        None => {
            return None;
        },
    };
    let rel = match pose.position.checked_sub(&center) {
        Some(v) => v,
        None => {
            return None;
        },
    };
    let rotated = match rsweep.checked_apply(&rel) {
        Some(v) => v,
        None => {
            return None;
        },
    };
    let newpos = match center.checked_add(&rotated) {
        Some(v) => v,
        None => {
            return None;
        },
    };
    let orient = match rsweep.checked_compose(&pose.orientation) {
        Some(v) => v,
        None => {
            return None;
        },
    };
    proof {
        use_type_invariant(&path);
        use_type_invariant(&sweep);
        use_type_invariant(&rsweep.c);
        use_type_invariant(&rsweep.s);
        use_type_invariant(&rel.x);
        use_type_invariant(&rel.y);
        use_type_invariant(&rel.z);
        use_type_invariant(&rotated.x);
        use_type_invariant(&rotated.y);
        use_type_invariant(&rotated.z);
        use_type_invariant(&newpos.x);
        use_type_invariant(&newpos.y);
        use_type_invariant(&newpos.z);
        use_type_invariant(&orient.c);
        use_type_invariant(&orient.s);
        let sv = sweep_angle_v(vel@, dt@);
        let cv = turn_circle_center_v(pose@, vel@);
        let rs = angle_rot_v(sv);
        crate::rational::lemma_wf_add(vel@.linear.x, dt@);
        crate::rational::lemma_div_congr(
            path@,
            mul_v(vel@.linear.x, dt@),
            radius@,
            turn_radius_v(vel@),
        );
        crate::rational::lemma_wf_div(path@, radius@);
        crate::rational::lemma_eq_trans(sweep@, div_v(path@, radius@), sv);
        crate::rational::lemma_wf_div(mul_v(vel@.linear.x, dt@), turn_radius_v(vel@));
        crate::rotation::lemma_angle_rot_congr(sweep@, sv);
        crate::rotation::lemma_angle_rot_wf(sweep@);
        crate::rotation::lemma_angle_rot_wf(sv);
        crate::rotation::lemma_rot_eq_trans(rsweep@, angle_rot_v(sweep@), rs);
        crate::rotation::lemma_rot_apply_wf(pose@.orientation, Vec3v { x: int_v(0), y: int_v(0), z: neg_v(turn_radius_v(vel@)) });
        crate::vec3::lemma_v3_wf_ops(
            pose@.position,
            rot_apply_v(pose@.orientation, Vec3v { x: int_v(0), y: int_v(0), z: neg_v(turn_radius_v(vel@)) }),
            int_v(1),
        );
        crate::vec3::lemma_v3_add_congr(pose@.position, pose@.position, center@, cv);
        crate::vec3::lemma_v3_wf_ops(pose@.position, center@, int_v(1));
        crate::vec3::lemma_v3_eq_trans(rel@, v3_sub(pose@.position, center@), v3_sub(pose@.position, cv));
        crate::vec3::lemma_v3_wf_ops(pose@.position, cv, int_v(1));
        crate::rotation::lemma_rot_apply_congr(rsweep@, rs, rel@, v3_sub(pose@.position, cv));
        crate::rotation::lemma_rot_apply_wf(rsweep@, rel@);
        crate::vec3::lemma_v3_eq_trans(
            rotated@,
            rot_apply_v(rsweep@, rel@),
            rot_apply_v(rs, v3_sub(pose@.position, cv)),
        );
        crate::rotation::lemma_rot_apply_wf(rs, v3_sub(pose@.position, cv));
        crate::vec3::lemma_v3_add_congr(
            center@,
            cv,
            rotated@,
            rot_apply_v(rs, v3_sub(pose@.position, cv)),
        );
        crate::vec3::lemma_v3_wf_ops(center@, rotated@, int_v(1));
        crate::vec3::lemma_v3_eq_trans(
            newpos@,
            v3_add(center@, rotated@),
            v3_add(cv, rot_apply_v(rs, v3_sub(pose@.position, cv))),
        );
        crate::rotation::lemma_rot_comp_congr(rsweep@, rs, pose@.orientation, pose@.orientation);
        crate::rotation::lemma_rot_comp_wf(rsweep@, pose@.orientation);
        crate::rotation::lemma_rot_eq_trans(
            orient@,
            rot_comp_v(rsweep@, pose@.orientation),
            rot_comp_v(rs, pose@.orientation),
        );
        if crate::rotation::rot_unit(pose@.orientation) {
            crate::rotation::lemma_angle_rot_unit(sv);
            crate::rotation::lemma_rot_comp_unit(rs, pose@.orientation);
            crate::rotation::lemma_rot_comp_wf(rs, pose@.orientation);
            crate::rotation::lemma_rot_unit_congr(orient@, rot_comp_v(rs, pose@.orientation));
        }
    }
    Some(Pose { position: newpos, orientation: orient })
}


} // verus!
