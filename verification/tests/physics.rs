//! Rods, right-hand sides, step caps and the start of a run, in floating point.

use physical_object::constrain::{unit, ConstraintSet};
use physical_object::integrate::bounds::{
    collision_hmax, mat_inf_norm, renormalize_quats, Survey,
};
use physical_object::integrate::driver::{Action, Engine, Phase, SolverStats};
use physical_object::integrate::dynamics::{
    g_contacts, g_contacts_sprk, rhs_full, sprk_force, sprk_velocity, PairPose, RhsParams,
    SprkParams,
};
use physical_object::integrate::{
    check_separable, propagate_single, run, run_cvode, run_sprk, step, Conserved, Launch, Method,
    CV_ADAMS, CV_BDF,
};
use physical_object::linalg::{Mat3, Quat, Vec3};
use physical_object::scalar::Scalar;
use physical_object::system::{Boundary, PhysicalObject, PhysicalObjectSystem};

const G: f64 = 9.81;

/// A double-precision number.
#[derive(Clone, Copy, Debug, PartialEq)]
struct R(f64);

impl Scalar for R {
    fn decimal(mantissa: i64, exponent: i32) -> R {
        R(format!("{}e{}", mantissa, exponent).parse::<f64>().unwrap())
    }

    fn count(n: usize) -> R {
        R(n as f64)
    }

    fn infinity() -> R {
        R(f64::INFINITY)
    }

    fn tiny() -> R {
        R(f64::from_bits(1))
    }

    fn add(self, other: R) -> R {
        R(self.0 + other.0)
    }

    fn sub(self, other: R) -> R {
        R(self.0 - other.0)
    }

    fn mul(self, other: R) -> R {
        R(self.0 * other.0)
    }

    fn div(self, other: R) -> R {
        R(self.0 / other.0)
    }

    fn neg(self) -> R {
        R(-self.0)
    }

    fn sqrt(self) -> R {
        R(self.0.sqrt())
    }

    fn abs(self) -> R {
        R(self.0.abs())
    }

    fn larger(self, other: R) -> R {
        R(self.0.max(other.0))
    }

    fn smaller(self, other: R) -> R {
        R(self.0.min(other.0))
    }

    fn less(self, other: R) -> bool {
        self.0 < other.0
    }

    fn at_most(self, other: R) -> bool {
        self.0 <= other.0
    }

    fn same(self, other: R) -> bool {
        self.0 == other.0
    }

    fn is_finite(self) -> bool {
        self.0.is_finite()
    }

    fn is_nan(self) -> bool {
        self.0.is_nan()
    }

    fn ceil(self) -> i64 {
        self.0.ceil() as i64
    }

    fn round(self) -> i64 {
        self.0.round() as i64
    }

    fn show(self) -> String {
        format!("{}", self.0)
    }

    fn of_decimal(mantissa: i64, exponent: i32) -> R {
        R::decimal(mantissa, exponent)
    }

    fn of_count(n: usize) -> R {
        R::count(n)
    }

    fn spec_infinity() -> R {
        R::infinity()
    }

    fn spec_tiny() -> R {
        R::tiny()
    }

    fn spec_add(self, other: R) -> R {
        self.add(other)
    }

    fn spec_sub(self, other: R) -> R {
        self.sub(other)
    }

    fn spec_mul(self, other: R) -> R {
        self.mul(other)
    }

    fn spec_div(self, other: R) -> R {
        self.div(other)
    }

    fn spec_larger(self, other: R) -> R {
        self.larger(other)
    }

    fn spec_smaller(self, other: R) -> R {
        self.smaller(other)
    }

    fn spec_neg(self) -> R {
        self.neg()
    }

    fn spec_sqrt(self) -> R {
        self.sqrt()
    }

    fn spec_abs(self) -> R {
        self.abs()
    }

    fn spec_less(self, other: R) -> bool {
        self.less(other)
    }

    fn spec_at_most(self, other: R) -> bool {
        self.at_most(other)
    }

    fn spec_same(self, other: R) -> bool {
        self.same(other)
    }

    fn spec_is_finite(self) -> bool {
        self.is_finite()
    }

    fn spec_is_nan(self) -> bool {
        self.is_nan()
    }

    fn spec_ceil(self) -> i64 {
        self.ceil()
    }

    fn spec_round(self) -> i64 {
        self.round()
    }

    fn shown(self) -> String {
        self.show()
    }
}

fn v(x: f64, y: f64, z: f64) -> Vec3<R> {
    Vec3::new(R(x), R(y), R(z))
}

fn vector(d: &[f64]) -> Vec<R> {
    d.iter().map(|x| R(*x)).collect()
}

fn plain(d: &[R]) -> Vec<f64> {
    d.iter().map(|x| x.0).collect()
}

fn point(mass: f64, position: Vec3<R>, momentum: Vec3<R>) -> PhysicalObject<R> {
    PhysicalObject {
        position,
        momentum,
        orientation: Quat::new(R(1.0), R(0.0), R(0.0), R(0.0)),
        angular_momentum: Vec3::zeros(),
        mass: R(mass),
        inverse_mass: R(1.0 / mass),
        charge: R(0.0),
        inverse_inertia: Mat3::zeros(),
        magnetic_moment: Mat3::zeros(),
        boundary: Boundary::Point,
    }
}

fn identity() -> Mat3<R> {
    Mat3 { r0: v(1.0, 0.0, 0.0), r1: v(0.0, 1.0, 0.0), r2: v(0.0, 0.0, 1.0) }
}

fn system(objects: Vec<PhysicalObject<R>>) -> PhysicalObjectSystem<R> {
    let n = objects.len();
    PhysicalObjectSystem {
        objects,
        external_forces: vec![Vec3::zeros(); n],
        external_torques: vec![Vec3::zeros(); n],
        g_constant: R(0.0),
        softening: R(0.0),
        uniform_gravity: Vec3::zeros(),
        e_field: Vec3::zeros(),
        b_field: Vec3::zeros(),
        time: R(0.0),
        rtol: R(1e-9),
        atol: R(1e-12),
        method: Method::Adams,
        collide_enabled: true,
        contact_slop: R(1e-6),
        contacts: Vec::new(),
        collision_count: 0,
        max_events_in_burst: 16,
        constraints: ConstraintSet::default(),
    }
}

fn two_bodies(sep: f64) -> PhysicalObjectSystem<R> {
    system(vec![
        point(1.0, Vec3::zeros(), Vec3::zeros()),
        point(1.0, v(sep, 0.0, 0.0), Vec3::zeros()),
    ])
}

/// Anchor at the origin, bob hanging at angle `theta` from straight down on a
/// rod of length `l`.
fn pendulum(theta: f64, l: f64) -> PhysicalObjectSystem<R> {
    let mut anchor = point(1.0, Vec3::zeros(), Vec3::zeros());
    anchor.inverse_mass = R(0.0);
    let bob = point(1.0, v(l * theta.sin(), -l * theta.cos(), 0.0), Vec3::zeros());
    let mut s = system(vec![anchor, bob]);
    s.uniform_gravity = v(0.0, -G, 0.0);
    s.collide_enabled = false;
    s.method = Method::Ida;
    let snapshot = s.clone();
    s.constraints.add_distance(&snapshot, 0, 1, Some(R(l))).unwrap();
    s
}

fn sprk(dt: f64) -> Method<R> {
    Method::Sprk { table: "ARKODE_SPRK_LEAPFROG_2_2".to_string(), dt: R(dt) }
}

#[test]
fn a_bare_constrain_freezes_the_current_separation() {
    let sys = two_bodies(2.5);
    let mut cs = ConstraintSet::default();
    cs.add_distance(&sys, 0, 1, None).unwrap();
    assert_eq!(cs.distances[0].length, R(2.5));
    // g is exactly zero in the configuration it was measured from
    let q = vector(&[0.0, 0.0, 0.0, 2.5, 0.0, 0.0]);
    let mut g = vector(&[0.0]);
    cs.residual(&q, &mut g);
    assert_eq!(g[0], R(0.0));
}

/// The analytic gradient must match a central difference of `g` itself.
#[test]
fn jacobian_transpose_matches_a_central_difference() {
    let sys = two_bodies(2.0);
    let mut cs = ConstraintSet::default();
    cs.add_distance(&sys, 0, 1, Some(R(2.0))).unwrap();
    let q = vector(&[0.1, -0.2, 0.3, 2.0, 0.4, -0.1]);

    let mut analytic = vec![R(0.0); 6];
    let anchors = ConstraintSet::anchor_flags(&sys);
    cs.add_jacobian_transpose(&anchors, &q, &[R(1.0)], &mut analytic);

    let h = 1e-6;
    for k in 0..6 {
        let (mut qp, mut qm) = (q.clone(), q.clone());
        qp[k] = R(qp[k].0 + h);
        qm[k] = R(qm[k].0 - h);
        let (mut gp, mut gm) = (vec![R(0.0)], vec![R(0.0)]);
        cs.residual(&qp, &mut gp);
        cs.residual(&qm, &mut gm);
        let fd = (gp[0].0 - gm[0].0) / (2.0 * h);
        assert!(
            (fd - analytic[k].0).abs() < 1e-6,
            "component {k}: finite difference {fd} vs analytic {}",
            analytic[k].0
        );
    }
}

/// An anchor absorbs the multiplier instead of being pushed by it.
#[test]
fn an_anchor_receives_no_multiplier_force() {
    let mut sys = two_bodies(1.0);
    sys.objects[0].inverse_mass = R(0.0);
    let mut cs = ConstraintSet::default();
    cs.add_distance(&sys, 0, 1, Some(R(1.0))).unwrap();
    let q = vector(&[0.0, 0.0, 0.0, 1.0, 0.0, 0.0]);
    let mut out = vec![R(0.0); 6];
    let anchors = ConstraintSet::anchor_flags(&sys);
    cs.add_jacobian_transpose(&anchors, &q, &[R(1.0)], &mut out);
    assert_eq!(&plain(&out)[0..3], &[0.0, 0.0, 0.0], "anchor must not be pushed");
    assert_eq!(&plain(&out)[3..6], &[1.0, 0.0, 0.0], "free body carries the force");
}

#[test]
fn degenerate_constraints_are_refused_by_name() {
    let mut sys = two_bodies(1.0);
    let mut cs = ConstraintSet::default();
    assert!(cs.add_distance(&sys, 0, 0, None).unwrap_err().contains("DIFFERENT"));
    assert!(cs.add_distance(&sys, 0, 9, None).unwrap_err().contains("existing objects"));
    assert!(cs.add_distance(&sys, 0, 1, Some(R(-1.0))).unwrap_err().contains("positive"));
    cs.add_distance(&sys, 0, 1, None).unwrap();
    assert!(cs.add_distance(&sys, 1, 0, None).unwrap_err().contains("already constrained"));

    sys.objects[0].inverse_mass = R(0.0);
    sys.objects[1].inverse_mass = R(0.0);
    let mut cs2 = ConstraintSet::default();
    assert!(cs2.add_distance(&sys, 0, 1, None).unwrap_err().contains("both have inverse_mass"));
}

/// A constrained system may only be run by the differential-algebraic
/// integrator; any other method is refused by name.
#[test]
fn a_constrained_system_refuses_the_wrong_method() {
    let mut s = pendulum(0.5, 1.0);
    s.method = Method::Adams;
    let e = run(&mut s, R(1.0), 10).unwrap_err();
    assert!(e.contains("METHOD IDA"), "{e}");
    assert!(e.contains("1 rigid constraint"), "{e}");
}

#[test]
fn every_other_method_refuses_a_constrained_system() {
    for method in vec![Method::Adams, Method::Bdf, sprk(0.01)] {
        let mut s = pendulum(0.5, 1.0);
        s.method = method;
        let e = run(&mut s, R(1.0), 10).unwrap_err();
        assert_eq!(
            e,
            "the system has 1 rigid constraint(s), which this method would ignore; use METHOD IDA"
        );
    }
}

#[test]
fn the_differential_algebraic_solver_takes_a_constrained_system() {
    let mut s = pendulum(0.5, 1.0);
    s.contacts.push((0, 1));
    match run(&mut s, R(1.0), 10).unwrap() {
        Launch::Ida { t_end, nout } => {
            assert_eq!(t_end, R(1.0));
            assert_eq!(nout, 10);
        }
        other => panic!("{:?}", other),
    }
    assert!(s.contacts.is_empty(), "the contacts of the last run are gone");
}

/// A rod acts on centres only, so the bodies it joins may spin.
#[test]
fn a_rod_may_carry_a_spinning_body() {
    let mut s = pendulum(0.5, 1.0);
    s.objects[1].inverse_inertia = identity();
    s.objects[1].angular_momentum = v(0.0, 1.0, 0.0);
    assert!(matches!(
        run(&mut s, R(1.0), 10),
        Ok(Launch::Ida { t_end: R(t), nout: 10 }) if t == 1.0
    ));
}

/// A bare rod is satisfied the instant it is made.
#[test]
fn a_bare_constrain_is_immediately_consistent() {
    let mut s = system(vec![
        point(1.0, Vec3::zeros(), Vec3::zeros()),
        point(1.0, v(0.3, 0.4, 0.0), Vec3::zeros()),
    ]);
    s.collide_enabled = false;
    s.method = Method::Ida;
    let snapshot = s.clone();
    let k = s.constraints.add_distance(&snapshot, 0, 1, None).unwrap();
    assert_eq!(k, 0);
    assert!((s.constraints.distances[0].length.0 - 0.5).abs() < 1e-15, "3-4-5 triangle");
    assert_eq!(s.constraints.drift(&s).0, R(0.0), "consistent at once");
}

/// A rod between two immovable anchors constrains nothing and would make the
/// equations singular; it is refused when it is made.
#[test]
fn a_rod_between_two_anchors_is_refused_up_front() {
    let mut a = point(1.0, Vec3::zeros(), Vec3::zeros());
    let mut b = point(1.0, v(1.0, 0.0, 0.0), Vec3::zeros());
    a.inverse_mass = R(0.0);
    b.inverse_mass = R(0.0);
    let s = system(vec![a, b]);
    let mut cs = ConstraintSet::default();
    let e = cs.add_distance(&s, 0, 1, None).unwrap_err();
    assert!(e.contains("both have inverse_mass"), "{e}");
}

#[test]
fn refused_rods_leave_the_set_alone() {
    let sys = two_bodies(1.0);
    let mut cs = ConstraintSet::default();
    assert_eq!(cs.add_distance(&sys, 0, 1, Some(R(1.5))), Ok(0));
    assert!(cs.add_distance(&sys, 0, 0, None).is_err());
    assert!(cs.add_distance(&sys, 0, 1, None).is_err());
    assert!(cs.add_distance(&sys, 0, 2, Some(R(1.0))).is_err());
    assert_eq!(cs.len(), 1);
    assert!(!cs.is_empty());
    assert_eq!(cs.distances[0].length, R(1.5));
}

#[test]
fn a_rod_of_no_length_is_refused() {
    let sys = two_bodies(0.0);
    let mut cs = ConstraintSet::default();
    assert!(cs.add_distance(&sys, 0, 1, None).unwrap_err().contains("positive"));
    assert!(cs.add_distance(&sys, 0, 1, Some(R(f64::NAN))).is_err());
    assert!(cs.is_empty());
}

#[test]
fn an_existing_object_is_named_in_the_refusal() {
    let sys = two_bodies(1.0);
    let mut cs = ConstraintSet::default();
    assert_eq!(
        cs.add_distance(&sys, 0, 9, None).unwrap_err(),
        "CONSTRAIN needs two existing objects (obj0..obj1); got obj0 and obj9"
    );
    let none = system(vec![]);
    assert_eq!(
        cs.add_distance(&none, 3, 4, None).unwrap_err(),
        "CONSTRAIN needs two existing objects (obj0..obj0); got obj3 and obj4"
    );
}

#[test]
fn the_velocity_residual_is_the_rate_of_the_length() {
    let sys = two_bodies(2.0);
    let mut cs = ConstraintSet::default();
    cs.add_distance(&sys, 0, 1, None).unwrap();
    let q = vector(&[0.0, 0.0, 0.0, 3.0, 4.0, 0.0]);
    let u = vector(&[1.0, 0.0, 0.0, 1.0, 5.0, 7.0]);
    let mut out = vec![R(9.0); 2];
    cs.velocity_residual(&q, &u, &mut out);
    assert!((out[0].0 - 4.0).abs() < 1e-12, "0.8 of the relative speed 5");
    assert_eq!(out[1], R(9.0), "what belongs to no rod is left alone");
}

/// An anchor at the end of the bodies needs no room in the force vector.
#[test]
fn an_anchor_needs_no_room() {
    let mut sys = two_bodies(1.0);
    sys.objects[1].inverse_mass = R(0.0);
    let mut cs = ConstraintSet::default();
    cs.add_distance(&sys, 0, 1, None).unwrap();
    let anchors = ConstraintSet::anchor_flags(&sys);
    assert_eq!(anchors, vec![false, true]);
    let mut out = vec![R(1.0); 3];
    cs.add_jacobian_transpose(&anchors, &sys.pack_translation()[..6], &[R(2.0)], &mut out);
    assert_eq!(plain(&out), vec![-1.0, 1.0, 1.0]);
}

#[test]
fn drift_reports_the_worst_rod() {
    let mut s = system(vec![
        point(1.0, Vec3::zeros(), Vec3::zeros()),
        point(2.0, v(1.0, 0.0, 0.0), v(3.0, 0.0, 0.0)),
        point(1.0, v(0.0, 2.0, 0.0), Vec3::zeros()),
    ]);
    let snapshot = s.clone();
    s.constraints.add_distance(&snapshot, 0, 1, Some(R(1.25))).unwrap();
    s.constraints.add_distance(&snapshot, 0, 2, Some(R(1.5))).unwrap();
    assert_eq!(s.constraints.drift(&s), (R(0.5), R(1.5)));
}

#[test]
fn no_rods_report_no_drift() {
    let s = two_bodies(1.0);
    assert_eq!(s.constraints.drift(&s), (R(0.0), R(0.0)));
}

#[test]
fn the_gate_names_the_first_spinning_body() {
    let mut s = pendulum(0.5, 1.0);
    assert_eq!(s.constraints.gate(&s), Ok(()));
    s.objects[1].angular_momentum = v(0.0, 1.0, 0.0);
    assert_eq!(s.constraints.gate(&s), Ok(()), "a point cannot turn");
    s.objects[1].inverse_inertia = identity();
    let e = s.constraints.gate(&s).unwrap_err();
    assert!(e.contains("obj1 has spinning rigid-body state"), "{e}");
}

#[test]
fn the_gate_names_the_first_torque() {
    let mut s = pendulum(0.5, 1.0);
    s.external_torques[0] = v(0.0, 0.0, 1.0);
    let e = s.constraints.gate(&s).unwrap_err();
    assert_eq!(
        e,
        "constrained (IDA) integration cannot apply external torques (obj0): constraints act on positions only"
    );
}

#[test]
fn a_direction_is_a_unit_vector_or_nothing() {
    let d = unit(v(3.0, 0.0, 4.0));
    assert!((d.x.0 - 0.6).abs() < 1e-15 && d.y == R(0.0) && (d.z.0 - 0.8).abs() < 1e-15);
    let none = unit(v(0.0, 0.0, 0.0));
    assert_eq!((none.x, none.y, none.z), (R(0.0), R(0.0), R(0.0)));
}

/// Two unit masses at distance two, with a softening of zero: the pull is a
/// quarter of `G`.
#[test]
fn gravity_falls_with_the_square_of_the_distance() {
    let mut s = two_bodies(2.0);
    s.g_constant = R(3.0);
    let params = RhsParams::from_system(&s);
    let y = s.pack_state();
    let mut out = vec![R(0.0); 26];
    rhs_full(&params, &y, &mut out);
    assert_eq!(plain(&out)[3..6], [0.75, 0.0, 0.0]);
    assert_eq!(plain(&out)[16..19], [-0.75, 0.0, 0.0]);
}

#[test]
fn both_layouts_feel_the_same_gravity() {
    let mut s = system(vec![
        point(2.0, v(0.1, 0.2, 0.3), v(1.0, 2.0, 3.0)),
        point(3.0, v(1.1, -0.2, 0.4), v(-1.0, 0.5, 0.0)),
        point(5.0, v(-2.0, 0.7, 0.9), v(0.0, 0.0, 4.0)),
    ]);
    s.g_constant = R(0.7);
    s.softening = R(0.05);
    s.uniform_gravity = v(0.0, -G, 0.0);
    s.e_field = v(0.0, 2.0, 0.0);
    s.objects[1].charge = R(-1.5);
    s.external_forces[2] = v(1.0, 1.0, 1.0);
    let mut full = vec![R(0.0); 39];
    rhs_full(&RhsParams::from_system(&s), &s.pack_state(), &mut full);
    let params = SprkParams::from_system(&s);
    let mut translational = vec![R(0.0); 18];
    sprk_force(&params, &s.pack_translation(), &mut translational);
    sprk_velocity(&params, &s.pack_translation(), &mut translational);
    for i in 0..3 {
        for c in 0..3 {
            assert_eq!(full[13 * i + c], translational[3 * i + c], "velocity");
            assert_eq!(full[13 * i + 3 + c], translational[9 + 3 * i + c], "force");
        }
    }
}

#[test]
fn a_charge_is_turned_by_the_magnetic_field() {
    let mut s = system(vec![point(2.0, Vec3::zeros(), v(4.0, 0.0, 0.0))]);
    s.objects[0].charge = R(3.0);
    s.b_field = v(0.0, 0.0, 1.0);
    let mut out = vec![R(0.0); 13];
    rhs_full(&RhsParams::from_system(&s), &s.pack_state(), &mut out);
    assert_eq!(plain(&out)[0..3], [2.0, 0.0, 0.0]);
    assert_eq!(plain(&out)[3..6], [0.0, -6.0, 0.0]);
}

/// However a body tumbles, without torque its angular momentum stays, and its
/// quaternion turns at a right angle to itself.
#[test]
fn a_tumbling_body_keeps_its_angular_momentum() {
    let mut s = system(vec![point(1.0, Vec3::zeros(), Vec3::zeros())]);
    s.objects[0].inverse_inertia =
        Mat3 { r0: v(1.0, 0.0, 0.0), r1: v(0.0, 0.5, 0.0), r2: v(0.0, 0.0, 0.25) };
    s.objects[0].angular_momentum = v(1.0, 2.0, 3.0);
    s.objects[0].orientation = Quat::new(R(0.5), R(0.5), R(-0.5), R(0.5));
    let y = s.pack_state();
    let mut out = vec![R(0.0); 13];
    rhs_full(&RhsParams::from_system(&s), &y, &mut out);
    assert_eq!(plain(&out)[10..13], [0.0, 0.0, 0.0]);
    let turn: f64 = (6..10).map(|k| y[k].0 * out[k].0).sum();
    assert!(turn.abs() < 1e-15, "{turn}");
    assert!((6..10).any(|k| out[k].0 != 0.0));
}

#[test]
fn a_spinning_body_turns_at_half_its_angular_velocity() {
    let mut s = system(vec![point(1.0, Vec3::zeros(), Vec3::zeros())]);
    s.objects[0].inverse_inertia = identity();
    s.objects[0].angular_momentum = v(0.0, 0.0, 2.0);
    s.external_torques[0] = v(0.0, 5.0, 0.0);
    let mut out = vec![R(0.0); 13];
    rhs_full(&RhsParams::from_system(&s), &s.pack_state(), &mut out);
    assert_eq!(plain(&out)[6..10], [0.0, 0.0, 0.0, 1.0]);
    assert_eq!(plain(&out)[10..13], [0.0, 5.0, 0.0]);
}

/// The distance of the centres along `x`, and a mark of the first orientation.
fn probe(pose: PairPose<R>) -> R {
    R(pose.position_j.x.0 - pose.position_i.x.0 + 100.0 * pose.orientation_i.x.0)
}

#[test]
fn separations_come_from_the_state() {
    let s = two_bodies(2.0);
    let mut params = RhsParams::from_system(&s);
    assert_eq!(params.pairs.len(), 0);
    params.pairs = vec![(1, 0), (0, 1)];
    let mut y = s.pack_state();
    y[13] = R(7.0);
    y[19] = R(0.0);
    y[20] = R(2.0);
    let mut gout = vec![R(-5.0); 3];
    g_contacts(&params, &y, probe, &mut gout);
    assert_eq!(gout[0], R(93.0), "the orientation is normalized");
    assert_eq!(gout[1], R(7.0));
    assert_eq!(gout[2], R(-5.0), "what belongs to no pair is left alone");
}

/// Whatever the state holds of a body besides its pose is found by its number.
#[test]
fn a_pose_names_its_bodies() {
    let mut s = two_bodies(2.0);
    s.objects[1].boundary = Boundary::Torus { tube_radius: R(0.25) };
    let mut params = RhsParams::from_system(&s);
    params.pairs = vec![(1, 0), (0, 1)];
    let rings = vec![R(0.0), R(3.0)];
    let named = |pose: PairPose<R>| match (pose.boundary_i, pose.boundary_j) {
        (Boundary::Torus { tube_radius }, _) => rings[pose.i].add(tube_radius),
        (_, Boundary::Torus { tube_radius }) => rings[pose.j].sub(tube_radius),
        _ => R(0.0),
    };
    let mut gout = vec![R(0.0); 2];
    g_contacts(&params, &s.pack_state(), named, &mut gout);
    assert_eq!(plain(&gout), vec![3.25, 2.75]);
    let mut translational = SprkParams::from_system(&s);
    translational.pairs = vec![(0, 1)];
    let numbers = |pose: PairPose<R>| R(10.0 * pose.i as f64 + pose.j as f64);
    g_contacts_sprk(&translational, &s.pack_translation(), numbers, &mut gout);
    assert_eq!(plain(&gout), vec![1.0, 2.75]);
}

/// On the state packed from a system, the root functions see its bodies where
/// they stand.
#[test]
fn a_packed_system_is_posed_as_it_stands() {
    let mut s = two_bodies(2.0);
    s.objects[0].orientation = Quat::new(R(0.0), R(1.0), R(0.0), R(0.0));
    let mut full = RhsParams::from_system(&s);
    let mut separable = SprkParams::from_system(&s);
    full.pairs = vec![(0, 1)];
    separable.pairs = vec![(0, 1)];
    let (mut a, mut b) = (vec![R(0.0)], vec![R(0.0)]);
    g_contacts(&full, &s.pack_state(), probe, &mut a);
    g_contacts_sprk(&separable, &s.pack_translation(), probe, &mut b);
    assert_eq!((a[0], b[0]), (R(102.0), R(102.0)));
}

#[test]
fn separable_separations_keep_the_orientation() {
    let mut s = two_bodies(2.0);
    s.objects[1].orientation = Quat::new(R(0.0), R(1.0), R(0.0), R(0.0));
    let mut params = SprkParams::from_system(&s);
    params.pairs = vec![(1, 0)];
    let mut y = s.pack_translation();
    y[3] = R(6.0);
    let mut gout = vec![R(0.0)];
    g_contacts_sprk(&params, &y, probe, &mut gout);
    assert_eq!(gout[0], R(94.0));
}

#[test]
fn states_survive_packing() {
    let mut s = system(vec![
        point(2.0, v(0.1, 0.2, 0.3), v(1.0, 2.0, 3.0)),
        point(3.0, v(1.1, -0.2, 0.4), v(-1.0, 0.5, 0.0)),
    ]);
    assert_eq!(s.state_len(), 26);
    let d: Vec<R> = (0..26).map(|k| R(k as f64)).collect();
    s.unpack_state(&d);
    assert_eq!(s.objects[1].angular_momentum.z, R(25.0));
    assert_eq!(s.objects[1].mass, R(3.0));
    assert_eq!(s.pack_state(), d);
    let t: Vec<R> = (0..12).map(|k| R(100.0 + k as f64)).collect();
    s.unpack_translation(&t);
    assert_eq!(s.objects[1].momentum.x, R(109.0));
    assert_eq!(s.objects[1].angular_momentum.z, R(25.0));
    assert_eq!(s.pack_translation(), t);
}

#[test]
fn the_matrix_norm_is_the_largest_row_sum() {
    let m = Mat3 { r0: v(1.0, -2.0, 0.5), r1: v(-3.0, 0.0, -1.0), r2: v(0.0, 0.0, 3.5) };
    assert_eq!(mat_inf_norm(&m), R(4.0));
}

#[test]
fn quaternions_are_renormalized_and_nothing_else() {
    let s = two_bodies(1.0);
    let mut y = s.pack_state();
    y[6] = R(1.25);
    y[0] = R(42.0);
    let worst = renormalize_quats(&mut y, 2);
    assert_eq!(worst, R(0.25));
    assert_eq!(y[6], R(1.0));
    assert_eq!(y[0], R(42.0));
    assert_eq!(renormalize_quats(&mut y, 2), R(0.0));
}

fn resting_survey(n: usize, radius: f64) -> Survey<R> {
    Survey { accelerations: vec![Vec3::zeros(); n], bounding_radii: vec![R(radius); n] }
}

#[test]
fn nothing_that_moves_needs_no_step_cap() {
    let mut s = two_bodies(3.0);
    for o in s.objects.iter_mut() {
        o.boundary = Boundary::Sphere { radius: R(0.5) };
    }
    let h = collision_hmax(&s, &resting_survey(2, 0.5), &vec![(0, 1)], R(10.0), R(1.0));
    assert_eq!(h, R(0.0));
}

#[test]
fn the_step_cap_is_half_a_feature_at_the_closing_speed() {
    let mut s = two_bodies(3.0);
    for o in s.objects.iter_mut() {
        o.boundary = Boundary::Sphere { radius: R(0.5) };
    }
    s.objects[0].momentum = v(2.0, 0.0, 0.0);
    s.objects[1].boundary = Boundary::Cuboid { half_extents: [R(0.75), R(0.25), R(4.0)] };
    let survey = resting_survey(2, 0.5);
    assert_eq!(collision_hmax(&s, &survey, &vec![(0, 1)], R(10.0), R(1.0)), R(0.0625));
    assert_eq!(
        collision_hmax(&s, &survey, &vec![(0, 1)], R(0.01), R(1.0)),
        R(0.01),
        "never beyond the rest of the run"
    );
    assert_eq!(
        collision_hmax(&s, &survey, &vec![(0, 1)], R(-1.0), R(1.0)),
        R(1e-12),
        "never below the floor"
    );
}

/// A body at rest that will fall gets a finite cap all the same.
#[test]
fn the_step_cap_looks_ahead() {
    let mut s = two_bodies(3.0);
    for o in s.objects.iter_mut() {
        o.boundary = Boundary::Sphere { radius: R(0.5) };
    }
    s.uniform_gravity = v(0.0, -4.0, 0.0);
    let h = collision_hmax(&s, &resting_survey(2, 0.5), &vec![(0, 1)], R(10.0), R(0.5));
    assert_eq!(h, R(0.5 / (2.0 * 4.0)));
}

/// Points have no feature to cross; while they move, the rest of the run is the
/// cap.
#[test]
fn moving_points_are_capped_by_the_run() {
    let mut s = two_bodies(3.0);
    s.objects[0].momentum = v(2.0, 0.0, 0.0);
    let survey = resting_survey(2, 0.0);
    assert_eq!(collision_hmax(&s, &survey, &vec![(0, 1)], R(10.0), R(1.0)), R(10.0));
    assert_eq!(collision_hmax(&s, &survey, &vec![(0, 1)], R(1.0), R(0.0)), R(1.0));
}

/// Without a feature there is nothing to divide: not even an infinite speed
/// leaves the cap undefined.
#[test]
fn infinitely_fast_points_are_capped_by_the_run() {
    let mut s = two_bodies(3.0);
    s.objects[0].momentum = v(f64::INFINITY, 0.0, 0.0);
    let survey = resting_survey(2, 0.0);
    assert_eq!(collision_hmax(&s, &survey, &vec![(0, 1)], R(1.0), R(0.0)), R(1.0));
    assert_eq!(collision_hmax(&s, &survey, &vec![(0, 1)], R(-1.0), R(0.0)), R(1e-12));
    s.objects[1].boundary = Boundary::Sphere { radius: R(0.5) };
    assert_eq!(collision_hmax(&s, &survey, &vec![(0, 1)], R(1.0), R(0.0)), R(1e-12));
}

/// In one step of the cap the centres come closer by half the thinnest feature
/// at most.
#[test]
fn one_step_carries_no_body_through_another() {
    let mut s = two_bodies(3.0);
    s.objects[0].boundary = Boundary::Sphere { radius: R(0.5) };
    s.objects[1].boundary = Boundary::Torus { tube_radius: R(0.3) };
    s.objects[0].momentum = v(3.0, -4.0, 0.0);
    s.uniform_gravity = v(0.0, -9.81, 0.0);
    for growth in vec![0.0, 0.5, 3.0] {
        let survey = resting_survey(2, 0.5);
        let cap = collision_hmax(&s, &survey, &vec![(0, 1)], R(10.0), R(growth));
        assert!(cap.0 > 1e-12 && 2.0 * cap.0 * 5.0 <= 0.3 * (1.0 + 1e-15));
    }
}

#[test]
fn a_feature_of_no_size_is_passed_over() {
    let mut s = two_bodies(3.0);
    s.objects[0].momentum = v(2.0, 0.0, 0.0);
    s.objects[0].boundary = Boundary::Sphere { radius: R(0.0) };
    s.objects[1].boundary = Boundary::Disk { radius: R(0.5) };
    let survey = resting_survey(2, 0.5);
    assert_eq!(collision_hmax(&s, &survey, &vec![(0, 1)], R(10.0), R(1.0)), R(0.125));
    s.objects[1].boundary = Boundary::Cylinder { radius: R(0.5), half_height: R(-1.0) };
    assert_eq!(collision_hmax(&s, &survey, &vec![(0, 1)], R(10.0), R(1.0)), R(10.0));
}

#[test]
fn a_longer_horizon_tightens_the_step_cap() {
    let mut s = two_bodies(3.0);
    for o in s.objects.iter_mut() {
        o.boundary = Boundary::Sphere { radius: R(0.5) };
    }
    s.objects[0].momentum = v(2.0, 0.0, 0.0);
    s.uniform_gravity = v(0.0, -4.0, 0.0);
    let cap = |growth: f64| {
        collision_hmax(&s, &resting_survey(2, 0.5), &vec![(0, 1)], R(10.0), R(growth))
    };
    assert_eq!(cap(0.0), R(0.125));
    assert!(cap(0.5).less(cap(0.0)) && cap(1.0).less(cap(0.5)));
}

/// Forces and torques beyond those of the bodies are left over.
#[test]
fn forces_for_no_body_are_left_over() {
    let mut s = system(vec![point(2.0, Vec3::zeros(), Vec3::zeros())]);
    s.external_forces = vec![v(1.0, 2.0, 3.0), v(9.0, 9.0, 9.0)];
    s.external_torques.push(Vec3::zeros());
    let mut out = vec![R(0.0); 13];
    rhs_full(&RhsParams::from_system(&s), &s.pack_state(), &mut out);
    assert_eq!(plain(&out)[3..6], [1.0, 2.0, 3.0]);
    assert!(run(&mut s, R(1.0), 1).is_ok());
}

/// Plays a run of which every integration ends at its output, but for an event
/// at `event` in the first. Returns the times of the snapshots.
fn outputs_with_an_event(event: f64) -> Vec<f64> {
    let mut s = two_bodies(3.0);
    let mut d = match run(&mut s, R(2.0), 2).unwrap() {
        Launch::Solver(d) => d,
        other => panic!("{:?}", other),
    };
    let mut y = Vec::new();
    let mut seen = false;
    let mut action = Action::CreateContext;
    for _ in 0..200 {
        action = match action {
            Action::CreateContext => d.on_context(&mut s, 0, true),
            Action::NewVector(_)
            | Action::CreateSolver
            | Action::NewMatrix(_)
            | Action::NewLinearSolver => d.on_made(&mut s, true),
            Action::StoreState(state) => {
                y = state;
                d.on_stored(&mut s, true)
            }
            Action::ReadState => d.on_read(&mut s, Some(y.clone())),
            Action::FindPairs => d.on_pairs(&mut s, vec![(0, 1)]),
            Action::Survey => d.on_survey(&mut s, &resting_survey(2, 0.0)),
            Action::Evolve(tout) => {
                if seen {
                    d.on_evolved(&mut s, 0, false, tout)
                } else {
                    seen = true;
                    d.on_evolved(&mut s, 2, true, R(event))
                }
            }
            Action::RootInfo(n) => d.on_roots(&mut s, 0, &vec![-1; n]),
            Action::CompareEvents { .. } => d.on_burst(&mut s, false),
            Action::ResolveImpulses { .. } => d.on_resolved(&mut s, Ok(1)),
            Action::GetStats => {
                d.on_stats(&mut s, SolverStats { nst: 0, nfe: 0, nni: 0, netf: 0, nge: 0 })
            }
            Action::MeasureOverlaps => d.on_overlaps(&mut s, &vec![None]),
            Action::MeasureConserved => {
                let nothing = Conserved {
                    energy: R(0.0),
                    total_momentum: Vec3::zeros(),
                    total_angular_momentum: Vec3::zeros(),
                    center_of_mass: Vec3::zeros(),
                };
                d.on_conserved(&mut s, nothing)
            }
            Action::Free => break,
            _ => d.on_code(&mut s, 0),
        }
        .unwrap();
    }
    d.report().snapshots.iter().map(|s| s.t.0).collect()
}

/// An event within rounding of the output ends the interval at its own time;
/// one before that does not.
#[test]
fn an_event_next_to_the_output_ends_the_interval() {
    assert_eq!(outputs_with_an_event(1.0 - 5e-13), vec![1.0 - 5e-13, 2.0]);
    assert_eq!(outputs_with_an_event(1.0 - 5e-12), vec![1.0, 2.0]);
}

#[test]
fn a_run_must_go_forward() {
    let mut s = two_bodies(1.0);
    s.time = R(2.5);
    let e = run_cvode(&mut s, R(2.5), 1, CV_ADAMS).unwrap_err();
    assert_eq!(e, "t_end (2.5) must be greater than current time (2.5)");
    let e = run_sprk(&mut s, R(1.0), 1, "T".to_string(), R(0.1)).unwrap_err();
    assert_eq!(e, "t_end (1) must be greater than current time (2.5)");
}

#[test]
fn a_fixed_step_must_be_positive() {
    let mut s = two_bodies(1.0);
    for dt in vec![0.0, -0.5, f64::NAN] {
        let e = run_sprk(&mut s, R(1.0), 1, "T".to_string(), R(dt)).unwrap_err();
        assert_eq!(e, format!("SPRK requires a positive fixed step dt (got {dt})"));
    }
}

#[test]
fn without_bodies_only_time_passes() {
    for method in vec![Method::Adams, Method::Bdf, sprk(0.01)] {
        let mut s = system(vec![]);
        s.method = method;
        match run(&mut s, R(3.0), 7).unwrap() {
            Launch::Done(report) => {
                assert_eq!(report.snapshots.len(), 0);
                assert_eq!((report.nst, report.ncollisions), (0, 0));
                assert_eq!(report.constraint_drift, (R(0.0), R(0.0)));
                assert!(!report.tolerance_floored);
                assert_eq!(report.initial_velocity_projected, R(0.0));
            }
            other => panic!("{:?}", other),
        }
        assert_eq!(s.time, R(3.0));
    }
}

#[test]
fn the_method_chooses_the_solver() {
    let mut s = two_bodies(1.0);
    s.time = R(0.5);
    for (method, number) in vec![(Method::Adams, CV_ADAMS), (Method::Bdf, CV_BDF)] {
        s.method = method;
        match run(&mut s, R(2.0), 0).unwrap() {
            Launch::Solver(d) => {
                assert!(matches!(d.engine(), Engine::Cvode { lmm } if *lmm == number));
                assert!(matches!(d.phase(), Phase::Context));
                assert_eq!((d.bodies(), d.outputs()), (2, 1));
                assert_eq!((d.start(), d.end(), d.time()), (R(0.5), R(2.0), R(0.5)));
                assert_eq!((d.burst(), d.roots_armed(), d.pairs().len()), (0, false, 0));
                assert_eq!(d.report().snapshots.len(), 0);
            }
            other => panic!("{:?}", other),
        }
    }
    s.method = sprk(0.25);
    match run(&mut s, R(2.0), 5).unwrap() {
        Launch::Solver(d) => {
            match d.engine() {
                Engine::Sprk { table, dt } => {
                    assert_eq!(table, "ARKODE_SPRK_LEAPFROG_2_2");
                    assert_eq!(*dt, R(0.25));
                }
                other => panic!("{:?}", other),
            }
            assert_eq!(d.outputs(), 5);
        }
        other => panic!("{:?}", other),
    }
}

#[test]
fn a_magnetic_field_is_not_separable() {
    let mut s = two_bodies(1.0);
    s.b_field = v(0.0, 0.0, 1e-3);
    s.method = sprk(0.1);
    let e = run(&mut s, R(1.0), 1).unwrap_err();
    assert_eq!(
        e,
        "SPRK method requires a separable Hamiltonian: magnetic field B must be zero (the Lorentz force q v x B is velocity-dependent); use METHOD ADAMS or BDF"
    );
}

#[test]
fn a_spinning_body_is_not_separable() {
    let mut s = two_bodies(1.0);
    s.objects[1].angular_momentum = v(1.0, 0.0, 0.0);
    assert_eq!(check_separable(&s), Ok(()), "a point cannot turn");
    s.objects[1].inverse_inertia = identity();
    assert_eq!(
        check_separable(&s).unwrap_err(),
        "SPRK method integrates translational dynamics only: object 1 has spinning rigid-body state (nonzero angular momentum and invertible inertia tensor); use METHOD ADAMS or BDF"
    );
}

#[test]
fn a_magnetic_body_is_not_separable() {
    let mut s = two_bodies(1.0);
    s.objects[0].magnetic_moment = identity();
    s.external_torques[0] = v(1.0, 0.0, 0.0);
    assert_eq!(
        check_separable(&s).unwrap_err(),
        "SPRK method requires zero magnetic moment tensor (object 0); use METHOD ADAMS or BDF"
    );
}

#[test]
fn a_torque_is_not_separable() {
    let mut s = two_bodies(1.0);
    s.external_torques[1] = v(0.0, 0.0, -1.0);
    assert_eq!(
        check_separable(&s).unwrap_err(),
        "SPRK method cannot apply external torques (object 1); use METHOD ADAMS or BDF"
    );
}

#[test]
fn a_step_is_a_run_with_one_output() {
    let mut s = two_bodies(1.0);
    s.time = R(1.5);
    match step(&mut s, R(0.25)).unwrap() {
        Launch::Solver(d) => {
            assert_eq!((d.start(), d.end(), d.outputs()), (R(1.5), R(1.75), 1));
        }
        other => panic!("{:?}", other),
    }
    assert!(step(&mut s, R(0.0)).is_err());
}

/// The clock of the system that lends its tolerances does not matter.
#[test]
fn a_single_body_starts_its_own_clock() {
    let mut s = two_bodies(1.0);
    s.time = R(1e30);
    let o = point(4.0, v(1.0, 2.0, 3.0), Vec3::zeros());
    match propagate_single(&mut s, &o, Vec3::zeros(), Vec3::zeros(), R(0.5)).unwrap() {
        Launch::Solver(d) => {
            assert_eq!((d.start(), d.time(), d.end()), (R(0.0), R(0.0), R(0.5)));
        }
        other => panic!("{:?}", other),
    }
    assert_eq!(s.time, R(0.0));
    let e = propagate_single(&mut s, &o, Vec3::zeros(), Vec3::zeros(), R(-1.0)).unwrap_err();
    assert_eq!(e, "t_end (-1) must be greater than current time (0)");
}

#[test]
fn a_single_body_is_propagated_alone() {
    let mut s = pendulum(0.5, 1.0);
    s.g_constant = R(5.0);
    s.b_field = v(1.0, 1.0, 1.0);
    let o = point(4.0, v(1.0, 2.0, 3.0), Vec3::zeros());
    match propagate_single(&mut s, &o, v(1.0, 0.0, 0.0), v(0.0, 1.0, 0.0), R(0.5)).unwrap() {
        Launch::Solver(d) => {
            assert!(matches!(d.engine(), Engine::Cvode { lmm: CV_ADAMS }));
            assert_eq!((d.bodies(), d.outputs(), d.end()), (1, 1, R(0.5)));
        }
        other => panic!("{:?}", other),
    }
    assert_eq!(s.objects.len(), 1);
    assert_eq!(s.objects[0].mass, R(4.0));
    let mut out = vec![R(0.0); 13];
    rhs_full(&RhsParams::from_system(&s), &s.pack_state(), &mut out);
    assert_eq!(plain(&out)[3..6], [1.0, 0.0, 0.0], "the force and nothing else");
    assert_eq!(plain(&out)[10..13], [0.0, 1.0, 0.0]);
}
