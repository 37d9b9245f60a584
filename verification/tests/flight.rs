use flightcore::camera::{
    calculate_camera_position, calculate_focussing_point, logistic_interpolation, sqrt_floor,
    track_camera, CameraBehaviour, CameraRotation,
};
use flightcore::movements::{
    apply_velocity, calculate_turn_circle_center, change_velocity, damp, MovementEvent,
    MovementType, Pose, VelocityVector,
};
use flightcore::rational::Rat;
use flightcore::rotation::Rot;
use flightcore::vec3::Vec3r;
use flightcore::vessels::{MovementProperties, Player, VesselID};

fn rat(n: i64, d: i64) -> Rat {
    Rat::new(n, d).unwrap()
}

fn vec(x: Rat, y: Rat, z: Rat) -> Vec3r {
    Vec3r::new(x, y, z)
}

fn host_id() -> VesselID {
    VesselID { player: Player::Host, id: 0 }
}

fn cruiser_props() -> MovementProperties {
    MovementProperties {
        linear_acceleration: vec(Rat::from_int(100), Rat::from_int(5), Rat::from_int(5)),
        angular_acceleration: vec(Rat::from_int(5), Rat::from_int(5), Rat::from_int(5)),
    }
}

fn default_behaviour() -> CameraBehaviour {
    CameraBehaviour {
        offset: Rat::from_int(-30),
        camera_rotation: CameraRotation::MatchY,
        velocity_offset: Rat::from_int(50),
        focal_point: vec(Rat::zero(), Rat::from_int(4), Rat::zero()),
    }
}

#[test]
fn rational_reduction_and_equality() {
    let half = rat(1, 2);
    assert!(rat(2, 4).eq_val(&half));
    assert!(rat(-3, -6).eq_val(&half));
    assert!(rat(1, -2).eq_val(&rat(-1, 2)));
    let sum = rat(1, 3).checked_add(&rat(1, 6)).unwrap();
    assert!(sum.eq_val(&half));
    let prod = rat(2, 3).checked_mul(&rat(3, 4)).unwrap();
    assert!(prod.eq_val(&half));
    let quot = rat(1, 4).checked_div(&half).unwrap();
    assert!(quot.eq_val(&half));
    assert!(Rat::new(1, 0).is_none());
    assert!(half.checked_div(&Rat::zero()).is_none());
}

#[test]
fn straight_line_forward_motion() {
    // Vessel at the origin, identity orientation, linear velocity (20,0,0),
    // zero angular velocity, dt = 1: the new position is (20,0,0).
    let pose = Pose::new(Vec3r::zero(), Rot::identity());
    let vel = VelocityVector::new(
        vec(Rat::from_int(20), Rat::zero(), Rat::zero()),
        Vec3r::zero(),
    );
    let out = apply_velocity(&pose, &vel, &Rat::one()).unwrap();
    assert_eq!(out.position.x.num(), 20);
    assert_eq!(out.position.x.den(), 1);
    assert_eq!(out.position.y.num(), 0);
    assert_eq!(out.position.z.num(), 0);
    assert!(out.orientation.c.eq_val(&Rat::one()));
    assert!(out.orientation.s.eq_val(&Rat::zero()));
}

#[test]
fn straight_line_rotated_orientation() {
    // Orientation (cos, sin) = (3/5, 4/5) on the unit circle: forward thrust
    // of 5 for one second moves by 5 * (3/5, 0, -4/5) = (3, 0, -4).
    let orient = Rot::new(rat(3, 5), rat(4, 5));
    assert!(orient.is_unit());
    let pose = Pose::new(Vec3r::zero(), orient);
    let vel = VelocityVector::new(
        vec(Rat::from_int(5), Rat::zero(), Rat::zero()),
        Vec3r::zero(),
    );
    let out = apply_velocity(&pose, &vel, &Rat::one()).unwrap();
    assert!(out.position.x.eq_val(&Rat::from_int(3)));
    assert!(out.position.y.eq_val(&Rat::zero()));
    assert!(out.position.z.eq_val(&Rat::from_int(-4)));
}

#[test]
fn turn_radius_is_scaled_velocity_ratio() {
    // angular_velocity.y = 1/2, linear_velocity.x = 10, scale 10:
    // radius = (10 / (1/2)) * 10 = 200.
    let pose = Pose::new(Vec3r::zero(), Rot::identity());
    let vel = VelocityVector::new(
        vec(Rat::from_int(10), Rat::zero(), Rat::zero()),
        vec(Rat::zero(), rat(1, 2), Rat::zero()),
    );
    let (radius, center) = calculate_turn_circle_center(&pose, &vel).unwrap();
    assert!(radius.eq_val(&Rat::from_int(200)));
    // centre: identity orientation offsets along local -z by the radius.
    assert!(center.x.eq_val(&Rat::zero()));
    assert!(center.y.eq_val(&Rat::zero()));
    assert!(center.z.eq_val(&Rat::from_int(-200)));
}

#[test]
fn turn_radius_sign_follows_velocity_ratio() {
    let pose = Pose::new(Vec3r::zero(), Rot::identity());
    let back_left = VelocityVector::new(
        vec(Rat::from_int(-10), Rat::zero(), Rat::zero()),
        vec(Rat::zero(), rat(1, 2), Rat::zero()),
    );
    let (r1, _) = calculate_turn_circle_center(&pose, &back_left).unwrap();
    assert_eq!(r1.signum(), -1);
    let back_right = VelocityVector::new(
        vec(Rat::from_int(-10), Rat::zero(), Rat::zero()),
        vec(Rat::zero(), rat(-1, 2), Rat::zero()),
    );
    let (r2, _) = calculate_turn_circle_center(&pose, &back_right).unwrap();
    assert_eq!(r2.signum(), 1);
    // no turn circle without a yaw rate
    let coasting = VelocityVector::new(
        vec(Rat::from_int(-10), Rat::zero(), Rat::zero()),
        Vec3r::zero(),
    );
    assert!(calculate_turn_circle_center(&pose, &coasting).is_none());
}

#[test]
fn sweep_angle_is_arc_length_over_radius() {
    // With radius 200 and speed 10, a tick of dt = 7100/113 travels
    // 71000/113 = (355/113) * 200 of arc, so the sweep angle is 355/113
    // (the classic rational approximation of pi) and the orientation
    // advances by exactly the circle map's rotation of that angle. The
    // map is the tangent-half-angle surrogate, so this pins the angle,
    // not a trigonometric half circle.
    let pose = Pose::new(Vec3r::zero(), Rot::identity());
    let vel = VelocityVector::new(
        vec(Rat::from_int(10), Rat::zero(), Rat::zero()),
        vec(Rat::zero(), rat(1, 2), Rat::zero()),
    );
    let dt = rat(7100, 113);
    let out = apply_velocity(&pose, &vel, &dt).unwrap();
    let expected = Rot::checked_from_angle(&rat(355, 113)).unwrap();
    assert!(out.orientation.c.eq_val(&expected.c));
    assert!(out.orientation.s.eq_val(&expected.s));
}

#[test]
fn turn_in_place_when_radius_is_zero() {
    let pose = Pose::new(
        vec(Rat::from_int(7), Rat::zero(), Rat::from_int(-2)),
        Rot::identity(),
    );
    let vel = VelocityVector::new(
        Vec3r::zero(),
        vec(Rat::zero(), Rat::one(), Rat::zero()),
    );
    let out = apply_velocity(&pose, &vel, &Rat::one()).unwrap();
    assert!(out.position.x.eq_val(&Rat::from_int(7)));
    assert!(out.position.z.eq_val(&Rat::from_int(-2)));
    let expected = Rot::checked_from_angle(&Rat::one()).unwrap();
    assert!(out.orientation.c.eq_val(&expected.c));
    assert!(out.orientation.s.eq_val(&expected.s));
}

#[test]
fn damping_clamps_to_zero() {
    // |w| <= step snaps to exactly zero, never overshooting.
    let w = rat(1, 12);
    let step = rat(1, 12);
    assert!(damp(&w, &step).unwrap().is_zero());
    let w2 = rat(-1, 24);
    assert!(damp(&w2, &step).unwrap().is_zero());
}

#[test]
fn damping_keeps_sign() {
    let step = rat(1, 4);
    let pos = damp(&Rat::one(), &step).unwrap();
    assert!(pos.eq_val(&rat(3, 4)));
    assert_eq!(pos.signum(), 1);
    let neg = damp(&Rat::from_int(-1), &step).unwrap();
    assert!(neg.eq_val(&rat(-3, 4)));
    assert_eq!(neg.signum(), -1);
}

#[test]
fn held_turn_for_one_second() {
    // Vessel at rest, angular acceleration 5, TurnLeft held every tick at
    // dt = 1/60 for 60 ticks. Each tick adds 5 * (1/60) * 2 = 1/6 and then
    // damps by 5/60 = 1/12, a net 1/12: after one second the yaw rate is 5,
    // well below the undamped bound of 10.
    let props = cruiser_props();
    let dt = rat(1, 60);
    let id = host_id();
    let events = vec![MovementEvent { movement_type: MovementType::TurnLeft, vessel_id: id }];
    let mut vel = VelocityVector::at_rest();
    for _ in 0..60 {
        vel = change_velocity(&vel, &props, &dt, &events, &id).unwrap();
    }
    assert!(vel.angular_velocity.y.eq_val(&Rat::from_int(5)));
    assert!(vel.angular_velocity.y.le(&Rat::from_int(10)));
}

#[test]
fn commands_commute_and_filter_by_vessel() {
    let props = cruiser_props();
    let dt = rat(1, 60);
    let id = host_id();
    let other = VesselID { player: Player::Host, id: 1 };
    let fwd = MovementEvent { movement_type: MovementType::Forward, vessel_id: id };
    let left = MovementEvent { movement_type: MovementType::TurnLeft, vessel_id: id };
    let stray = MovementEvent { movement_type: MovementType::Backward, vessel_id: other };
    let vel = VelocityVector::new(
        vec(Rat::from_int(3), Rat::zero(), Rat::zero()),
        vec(Rat::zero(), rat(1, 2), Rat::zero()),
    );
    let a = change_velocity(&vel, &props, &dt, &vec![fwd, left, stray], &id).unwrap();
    let b = change_velocity(&vel, &props, &dt, &vec![stray, left, fwd], &id).unwrap();
    assert!(a.linear_velocity.eq_val(&b.linear_velocity));
    assert!(a.angular_velocity.eq_val(&b.angular_velocity));
    // the stray command changed nothing: same as without it
    let c = change_velocity(&vel, &props, &dt, &vec![left, fwd], &id).unwrap();
    assert!(a.linear_velocity.eq_val(&c.linear_velocity));
    assert!(a.angular_velocity.eq_val(&c.angular_velocity));
    // forward adds 100/60 = 5/3 to the linear velocity
    let expected_vx = rat(3, 1).checked_add(&rat(5, 3)).unwrap();
    assert!(a.linear_velocity.x.eq_val(&expected_vx));
}

#[test]
fn logistic_midpoint_is_half_supremum() {
    let l = logistic_interpolation(&Rat::one(), &Rat::from_int(50), &rat(1, 100), &Rat::one())
        .unwrap();
    assert!(l.eq_val(&Rat::from_int(25)));
}

#[test]
fn logistic_is_increasing_and_bounded() {
    let sup = Rat::from_int(50);
    let k = rat(1, 100);
    let mid = Rat::one();
    let l0 = logistic_interpolation(&Rat::zero(), &sup, &k, &mid).unwrap();
    let l1 = logistic_interpolation(&Rat::one(), &sup, &k, &mid).unwrap();
    let l9 = logistic_interpolation(&Rat::from_int(900), &sup, &k, &mid).unwrap();
    assert!(l0.lt(&l1));
    assert!(l1.lt(&l9));
    assert!(Rat::zero().lt(&l0));
    assert!(l9.lt(&sup));
}

#[test]
fn sqrt_floor_on_the_grid() {
    let two = sqrt_floor(&Rat::from_int(2)).unwrap();
    assert_eq!(two.num(), 1414213);
    assert_eq!(two.den(), 1000000);
    let four = sqrt_floor(&Rat::from_int(4)).unwrap();
    assert!(four.eq_val(&Rat::from_int(2)));
    assert!(sqrt_floor(&Rat::from_int(-1)).is_none());
    assert!(sqrt_floor(&Rat::zero()).unwrap().is_zero());
}

#[test]
fn focus_point_sits_on_forward_ray_when_not_turning() {
    // At rest and not turning: speed 0 gives the look-ahead distance
    // 50 / (1 + 101/100) = 5000/201 straight down the forward (+x) axis.
    let pose = Pose::new(Vec3r::zero(), Rot::identity());
    let vel = VelocityVector::at_rest();
    let beh = default_behaviour();
    let focus = calculate_focussing_point(&vel, &beh, &pose).unwrap();
    assert!(focus.x.eq_val(&rat(5000, 201)));
    assert!(focus.y.is_zero());
    assert!(focus.z.is_zero());
}

#[test]
fn camera_sits_behind_the_anchor() {
    // Anchor (0,4,0), focus (5,4,0): the camera sits 30 away from the
    // anchor, opposite the focus direction (negative offset), at (-30,4,0)
    // up to the millionth-grid direction magnitude.
    let pose = Pose::new(Vec3r::zero(), Rot::identity());
    let beh = default_behaviour();
    let focus = vec(Rat::from_int(5), Rat::from_int(4), Rat::zero());
    let campos = calculate_camera_position(&pose, &beh, &focus).unwrap();
    assert!(campos.x.eq_val(&Rat::from_int(-30)));
    assert!(campos.y.eq_val(&Rat::from_int(4)));
    assert!(campos.z.is_zero());
}

#[test]
fn track_camera_full_update() {
    // speed 1 sits at the logistic midpoint, so the look-ahead distance is
    // exactly 25 and the whole turning-camera chain stays representable.
    let pose = Pose::new(Vec3r::zero(), Rot::identity());
    let vel = VelocityVector::new(
        vec(Rat::one(), Rat::zero(), Rat::zero()),
        vec(Rat::zero(), rat(1, 2), Rat::zero()),
    );
    let beh = default_behaviour();
    let cam = track_camera(&pose, &vel, &beh).unwrap();
    // the camera looks from behind the vessel toward a focus ahead of it:
    // the look direction has a positive x component.
    assert_eq!(cam.look.x.signum(), 1);
    // and with zero angular velocity the camera ends up on the x axis.
    let coasting = VelocityVector::new(
        vec(Rat::from_int(20), Rat::zero(), Rat::zero()),
        Vec3r::zero(),
    );
    let cam2 = track_camera(&pose, &coasting, &beh).unwrap();
    assert!(cam2.position.z.is_zero());
    assert_eq!(cam2.position.y.signum(), 1);
}

#[test]
fn command_free_tick_only_damps() {
    let props = cruiser_props();
    let dt = rat(1, 60);
    let id = host_id();
    let vel = VelocityVector::new(
        vec(Rat::from_int(8), Rat::zero(), Rat::zero()),
        vec(Rat::zero(), Rat::from_int(2), Rat::zero()),
    );
    let out = change_velocity(&vel, &props, &dt, &vec![], &id).unwrap();
    // linear velocity persists, there is no drag
    assert!(out.linear_velocity.x.eq_val(&Rat::from_int(8)));
    // yaw rate shrinks by 5/60 = 1/12 and keeps its sign
    assert!(out.angular_velocity.y.eq_val(&rat(23, 12)));
    assert_eq!(out.angular_velocity.y.signum(), 1);
}
