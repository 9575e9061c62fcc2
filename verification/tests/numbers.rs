//! Fixed-point arithmetic, vectors over it, and numerals.

use physical_object::constrain::{unit, ConstraintSet};
use physical_object::fixed::Fixed;
use physical_object::integrate::bounds::{collision_hmax, renormalize_quats, Survey};
use physical_object::integrate::dynamics::{rhs_full, RhsParams};
use physical_object::integrate::{step, Method};
use physical_object::linalg::{
    read_quat, read_vec3, write_quat, write_vec3, Mat3, Quat, Vec3,
};
use physical_object::scalar::{clamp, Scalar};
use physical_object::system::{Boundary, PhysicalObject, PhysicalObjectSystem};
use physical_object::text::{append_number, append_signed};

const ONE: i64 = 4294967296;

fn f(x: i64) -> Fixed {
    Fixed::decimal(x, 0)
}

fn raw(raw: i64) -> Fixed {
    Fixed { raw }
}

#[test]
fn decimals_are_rounded_to_the_nearest_fraction() {
    assert_eq!(Fixed::decimal(5, -1), raw(ONE / 2));
    assert_eq!(Fixed::decimal(-25, -2), raw(-ONE / 4));
    assert_eq!(Fixed::decimal(1, -1), raw(429496730));
    assert_eq!(Fixed::decimal(-1, -1), raw(-429496730));
    assert_eq!(Fixed::decimal(12, 2), raw(1200 * ONE));
    assert_eq!(Fixed::decimal(1, -12), raw(0));
    assert_eq!(Fixed::decimal(7, -60), raw(0));
    assert_eq!(Fixed::decimal(0, i32::MAX), raw(0));
    assert_eq!(Fixed::decimal(0, i32::MIN), raw(0));
}

#[test]
fn large_numbers_saturate() {
    assert_eq!(Fixed::decimal(3, 9), Fixed::infinity());
    assert_eq!(Fixed::decimal(-1, i32::MAX), Fixed::infinity().neg());
    assert_eq!(f(2_000_000_000).add(f(2_000_000_000)), Fixed::infinity());
    assert_eq!(f(-2_000_000_000).sub(f(2_000_000_000)), raw(-i64::MAX));
    assert_eq!(f(100_000).mul(f(-100_000)), raw(-i64::MAX));
    assert_eq!(raw(i64::MIN).neg(), Fixed::infinity());
    assert_eq!(raw(i64::MIN).abs(), Fixed::infinity());
    assert_eq!(Fixed::count(usize::MAX), Fixed::infinity());
    assert!(!Fixed::infinity().is_finite());
    assert!(!Fixed::infinity().neg().is_finite());
    assert!(f(0).is_finite());
    assert!(!f(0).is_nan());
}

#[test]
fn products_and_quotients_round_away_from_zero() {
    assert_eq!(f(6).mul(f(-7)), f(-42));
    assert_eq!(raw(1).mul(Fixed::decimal(5, -1)), raw(1));
    assert_eq!(raw(-1).mul(Fixed::decimal(5, -1)), raw(-1));
    assert_eq!(raw(1).mul(Fixed::decimal(25, -2)), raw(0));
    assert_eq!(f(1).div(f(3)), raw(1431655765));
    assert_eq!(f(-2).div(f(3)), raw(-2863311531));
    assert_eq!(f(7).div(f(-2)), Fixed::decimal(-35, -1));
    assert_eq!(f(1).div(f(0)), Fixed::infinity());
    assert_eq!(f(-1).div(f(0)), Fixed::infinity().neg());
    assert_eq!(f(0).div(f(0)), f(0));
}

#[test]
fn roots_are_rounded_down() {
    assert_eq!(f(9).sqrt(), f(3));
    assert_eq!(f(0).sqrt(), f(0));
    assert_eq!(f(2).sqrt(), raw(6074000999));
    assert_eq!(f(-4).sqrt(), f(0));
    assert_eq!(Fixed::infinity().sqrt(), raw(199032864766430));
}

#[test]
fn whole_numbers_above_and_nearest() {
    assert_eq!(Fixed::decimal(21, -1).ceil(), 3);
    assert_eq!(f(2).ceil(), 2);
    assert_eq!(Fixed::decimal(-21, -1).ceil(), -2);
    assert_eq!(f(0).ceil(), 0);
    assert_eq!(raw(i64::MIN).ceil(), -2147483648);
    assert_eq!(Fixed::infinity().ceil(), 2147483648);
    assert_eq!(Fixed::decimal(25, -1).round(), 3);
    assert_eq!(Fixed::decimal(-25, -1).round(), -3);
    assert_eq!(Fixed::decimal(24, -1).round(), 2);
}

#[test]
fn numbers_are_ordered() {
    assert_eq!(f(2).larger(f(3)), f(3));
    assert_eq!(f(2).smaller(f(3)), f(2));
    assert!(f(2).less(f(3)) && !f(3).less(f(3)));
    assert!(f(3).at_most(f(3)) && !f(4).at_most(f(3)));
    assert!(f(3).same(f(3)) && !f(3).same(f(4)));
    assert_eq!(clamp(f(5), f(1), f(3)), f(3));
    assert_eq!(clamp(f(0), f(1), f(3)), f(1));
    assert_eq!(clamp(f(2), f(1), f(3)), f(2));
}

#[test]
fn a_number_is_shown_in_decimals() {
    assert_eq!(f(-1).show(), "-1");
    assert_eq!(f(0).show(), "0");
    assert_eq!(Fixed::decimal(5, -1).show(), "0.5");
    assert_eq!(Fixed::decimal(-275, -2).show(), "-2.75");
    assert_eq!(f(2147483647).show(), "2147483647");
    assert_eq!(raw(3).show(), "0.00000000069849193096160888671875");
    assert_eq!(Fixed::infinity().show(), "inf");
    assert_eq!(Fixed::infinity().neg().show(), "-inf");
}

#[test]
fn a_number_less_itself_or_times_zero_is_zero() {
    for x in vec![raw(1), f(-3), Fixed::infinity(), raw(i64::MIN)] {
        assert_eq!(x.sub(x), f(0));
        assert_eq!(x.mul(f(0)), f(0));
    }
}

#[test]
fn numerals_are_decimal() {
    let mut s = String::new();
    append_number(&mut s, 0);
    append_number(&mut s, u64::MAX);
    append_signed(&mut s, -7);
    append_signed(&mut s, i64::MIN);
    assert_eq!(s, "018446744073709551615-7-9223372036854775808");
}

fn v(x: i64, y: i64, z: i64) -> Vec3<Fixed> {
    Vec3::new(f(x), f(y), f(z))
}

#[test]
fn vectors_add_up() {
    let (a, b) = (v(1, 2, 3), v(4, -5, 6));
    assert!(a.add(b).same(v(5, -3, 9)));
    assert!(a.sub(b).same(v(-3, 7, -3)));
    assert!(a.scale(f(2)).same(v(2, 4, 6)));
    assert_eq!(a.dot(b), f(12));
    assert!(a.cross(b).same(v(27, 6, -13)));
    assert_eq!(v(2, 3, 6).norm(), f(7));
    assert_eq!(v(2, 3, 6).norm_squared(), f(49));
    assert!(Vec3::<Fixed>::zeros().is_zero());
    assert!(!v(0, 0, 1).is_zero());
}

#[test]
fn matrices_act_on_vectors() {
    let m = Mat3 { r0: v(1, 2, 3), r1: v(4, 5, 6), r2: v(7, 8, 9) };
    assert!(m.apply(v(1, 0, -1)).same(v(-2, -2, -2)));
    assert!(m.transpose().r0.same(v(1, 4, 7)));
    assert!(m.mul(m.transpose()).r1.same(v(32, 77, 122)));
    assert!(Mat3::<Fixed>::zeros().is_zero());
    assert!(!m.is_zero());
}

#[test]
fn quaternions_rotate() {
    let i = Quat::new(f(0), f(1), f(0), f(0));
    let j = Quat::new(f(0), f(0), f(1), f(0));
    let k = i.mul(j);
    assert_eq!((k.w, k.x, k.y, k.z), (f(0), f(0), f(0), f(1)));
    let q = Quat::new(f(0), f(3), f(0), f(4));
    assert_eq!(q.norm(), f(5));
    let half_turn = Quat::new(f(0), f(0), f(0), f(2)).normalize().to_rotation_matrix();
    assert!(half_turn.apply(v(1, 2, 3)).same(v(-1, -2, 3)));
    let p = Quat::pure(v(1, 2, 3)).scale(f(2));
    assert_eq!((p.w, p.x, p.y, p.z), (f(0), f(2), f(4), f(6)));
}

#[test]
fn vectors_are_read_where_they_were_written() {
    let mut d = vec![f(0); 9];
    write_vec3(&mut d, 1, v(1, 2, 3));
    write_quat(&mut d, 5, Quat::new(f(6), f(7), f(8), f(9)));
    assert!(read_vec3(&d, 1).same(v(1, 2, 3)));
    let q = read_quat(&d, 5);
    assert_eq!((q.w, q.x, q.y, q.z), (f(6), f(7), f(8), f(9)));
    assert_eq!((d[0], d[4]), (f(0), f(0)));
}

fn body(x: i64, inverse_mass: i64) -> PhysicalObject<Fixed> {
    PhysicalObject {
        position: v(x, 0, 0),
        momentum: v(3, 4, 5),
        orientation: Quat::new(f(1), f(0), f(0), f(0)),
        angular_momentum: Vec3::zeros(),
        mass: f(1),
        inverse_mass: f(inverse_mass),
        charge: f(0),
        inverse_inertia: Mat3::zeros(),
        magnetic_moment: Mat3::zeros(),
        boundary: Boundary::Point,
    }
}

#[test]
fn an_immovable_body_stands_still() {
    assert!(body(0, 0).is_anchor());
    assert!(body(0, 0).velocity().is_zero());
    assert!(!body(0, 1).is_anchor());
    assert!(body(0, 1).velocity().same(v(3, 4, 5)));
}

fn system(objects: Vec<PhysicalObject<Fixed>>) -> PhysicalObjectSystem<Fixed> {
    let n = objects.len();
    PhysicalObjectSystem {
        objects,
        external_forces: vec![Vec3::zeros(); n],
        external_torques: vec![Vec3::zeros(); n],
        g_constant: f(0),
        softening: f(0),
        uniform_gravity: Vec3::zeros(),
        e_field: Vec3::zeros(),
        b_field: Vec3::zeros(),
        time: f(0),
        rtol: f(0),
        atol: f(0),
        method: Method::Adams,
        collide_enabled: false,
        contact_slop: f(0),
        contacts: Vec::new(),
        collision_count: 0,
        max_events_in_burst: 1,
        constraints: ConstraintSet::default(),
    }
}

#[test]
fn a_bare_rod_has_no_error_in_fixed_point() {
    let s = system(vec![body(0, 1), body(7, 1)]);
    let mut cs = ConstraintSet::default();
    assert_eq!(cs.add_distance(&s, 0, 1, None), Ok(0));
    let q = vec![f(0), f(0), f(0), f(7), f(0), f(0)];
    let mut g = vec![f(1)];
    cs.residual(&q, &mut g);
    assert_eq!(g[0], f(0));
    assert_eq!(cs.drift(&s), (f(0), f(0)));
}

#[test]
fn a_refused_length_is_shown_in_decimals() {
    let s = system(vec![body(0, 1), body(7, 1)]);
    let mut cs = ConstraintSet::default();
    let mut refusal = |length: Fixed| cs.add_distance(&s, 0, 1, Some(length)).unwrap_err();
    assert_eq!(
        refusal(Fixed::decimal(-15, -1)),
        "CONSTRAIN length must be positive and finite (got -1.5)"
    );
    assert_eq!(
        refusal(Fixed::infinity()),
        "CONSTRAIN length must be positive and finite (got inf)"
    );
}

#[test]
fn a_direction_turns_with_its_vector() {
    let d = Vec3::new(raw(12345678901), raw(-777), raw(987654321));
    let (there, back) = (unit(d), unit(d.scale(f(-1))));
    assert_eq!((back.x, back.y, back.z), (there.x.neg(), there.y.neg(), there.z.neg()));
    let twice = unit(d.scale(f(2)));
    for (a, b) in vec![(there.x, twice.x), (there.y, twice.y), (there.z, twice.z)] {
        assert!((a.raw - b.raw).abs() <= 4, "{} and {}", a.show(), b.show());
    }
    assert!((there.norm().raw - ONE).abs() <= 4);
    let again = there.scale(d.norm());
    for (a, b) in vec![(again.x, d.x), (again.y, d.y), (again.z, d.z)] {
        assert!((a.raw - b.raw).abs() <= 8, "{} and {}", a.show(), b.show());
    }
}

#[test]
fn a_second_renormalization_changes_little() {
    let mut s = system(vec![body(0, 1), body(7, 1)]);
    s.objects[0].orientation =
        Quat::new(Fixed::decimal(7, -1), Fixed::decimal(-3, -1), Fixed::decimal(5, -1), f(1));
    s.objects[1].orientation = Quat::new(f(0), Fixed::decimal(6, -1), f(0), f(0));
    let mut y = s.pack_state();
    assert!(raw(ONE / 5).less(renormalize_quats(&mut y, 2)));
    let once = y.clone();
    assert!(renormalize_quats(&mut y, 2).at_most(raw(12)));
    for k in 0..26 {
        assert!((y[k].raw - once[k].raw).abs() <= 14);
    }
}

/// The rates of the momenta of bodies that only pull each other add up to
/// nothing.
#[test]
fn pulls_add_up_to_nothing() {
    let mut s = system(vec![body(0, 1), body(3, 1), body(7, 1)]);
    s.objects[1].position.y = f(5);
    s.objects[2].position.z = f(-2);
    s.g_constant = f(2);
    let mut out = vec![f(0); 39];
    rhs_full(&RhsParams::from_system(&s), &s.pack_state(), &mut out);
    for c in 3..6 {
        assert_eq!(out[c].raw + out[13 + c].raw + out[26 + c].raw, 0);
    }
    assert!(f(0).less(out[3]));
}

/// Where the strength of a pull is rounded differently from the two ends, little
/// of the two pulls is left.
#[test]
fn pulls_nearly_cancel() {
    let mut s = system(vec![body(0, 1), body(1, 1)]);
    s.objects[0].mass = Fixed::decimal(25, -2);
    s.objects[1].mass = f(4);
    s.g_constant = raw(1);
    let mut out = vec![f(0); 26];
    rhs_full(&RhsParams::from_system(&s), &s.pack_state(), &mut out);
    let left = out[3].raw + out[16].raw;
    assert!(left != 0 && left.abs() <= 5, "{left}");
}

/// However long a quaternion is, it gives the same orientation.
#[test]
fn a_longer_quaternion_is_the_same_orientation() {
    let q = Quat::new(Fixed::decimal(7, -1), Fixed::decimal(-3, -1), Fixed::decimal(5, -1), f(1));
    let (a, b) = (q.normalize(), q.scale(f(3)).normalize());
    for (x, y) in vec![(a.w, b.w), (a.x, b.x), (a.y, b.y), (a.z, b.z)] {
        assert!((x.raw - y.raw).abs() <= 4, "{} and {}", x.show(), y.show());
    }
}

/// A rod between free bodies pushes them apart equally; the multipliers of a
/// chain add no momentum.
#[test]
fn multiplier_forces_add_no_momentum() {
    let mut s = system(vec![body(0, 1), body(3, 1), body(7, 1)]);
    s.objects[1].position.y = f(4);
    let mut cs = ConstraintSet::default();
    cs.add_distance(&s, 0, 1, None).unwrap();
    cs.add_distance(&s, 1, 2, None).unwrap();
    let q = s.pack_translation()[..9].to_vec();
    let mut out = vec![f(0); 9];
    let anchors = ConstraintSet::anchor_flags(&s);
    cs.add_jacobian_transpose(&anchors, &q, &[f(5), f(-2)], &mut out);
    for c in 0..3 {
        assert_eq!(out[c].raw + out[3 + c].raw + out[6 + c].raw, 0);
    }
    assert!((out[0].raw + 3 * ONE).abs() <= 5);
    assert!((out[1].raw + 4 * ONE).abs() <= 5);
}

/// What the multipliers do against a velocity is what they do against the rates
/// of the rods.
#[test]
fn rates_and_multiplier_forces_are_adjoint() {
    let s = system(vec![body(0, 1), body(4, 1)]);
    let mut cs = ConstraintSet::default();
    cs.add_distance(&s, 0, 1, None).unwrap();
    let q = s.pack_translation()[..6].to_vec();
    let u = vec![f(1), f(2), f(3), f(-4), f(5), f(6)];
    let mut rate = vec![f(0)];
    cs.velocity_residual(&q, &u, &mut rate);
    let mut force = vec![f(0); 6];
    cs.add_jacobian_transpose(&ConstraintSet::anchor_flags(&s), &q, &[f(3)], &mut force);
    let work = (0..6).fold(f(0), |w, k| w.add(force[k].mul(u[k])));
    assert_eq!(rate[0], f(-5));
    assert_eq!(work, f(3).mul(rate[0]));
    let drifting: Vec<Fixed> = (0..6).map(|k| u[k].add(f(10))).collect();
    let mut same = vec![f(0)];
    cs.velocity_residual(&q, &drifting, &mut same);
    assert_eq!(same, rate, "a velocity in common changes no rate");
}

/// The force of a unit multiplier is what the error of a rod gains for each step
/// of a body.
#[test]
fn a_rod_pushes_along_the_gradient() {
    let mut s = system(vec![body(0, 1), body(3, 1)]);
    s.objects[1].position = v(3, 4, 0);
    let mut cs = ConstraintSet::default();
    cs.add_distance(&s, 0, 1, Some(f(2))).unwrap();
    let q = s.pack_translation()[..6].to_vec();
    let mut force = vec![f(0); 6];
    cs.add_jacobian_transpose(&ConstraintSet::anchor_flags(&s), &q, &[f(1)], &mut force);
    let h = Fixed::decimal(1, -3);
    for k in 0..6 {
        let (mut ahead, mut behind) = (q.clone(), q.clone());
        ahead[k] = ahead[k].add(h);
        behind[k] = behind[k].sub(h);
        let (mut gp, mut gm) = (vec![f(0)], vec![f(0)]);
        cs.residual(&ahead, &mut gp);
        cs.residual(&behind, &mut gm);
        let slope = gp[0].sub(gm[0]).div(h.add(h));
        assert!((slope.raw - force[k].raw).abs() < 10_000, "component {k}");
    }
}

/// However small the bodies are, a cap is never rounded to none at all.
#[test]
fn a_cap_is_never_rounded_away() {
    let mut s = system(vec![body(0, 1), body(7, 1)]);
    for o in s.objects.iter_mut() {
        o.boundary = Boundary::Sphere { radius: raw(1) };
    }
    s.objects[0].momentum = v(2, 0, 0);
    s.objects[1].momentum = Vec3::zeros();
    let survey =
        Survey { accelerations: vec![Vec3::zeros(); 2], bounding_radii: vec![raw(1); 2] };
    assert_eq!(Fixed::tiny(), raw(1));
    assert_eq!(collision_hmax(&s, &survey, &vec![(0, 1)], f(1), f(1)), raw(1));
    s.objects[0].momentum = Vec3::zeros();
    assert_eq!(collision_hmax(&s, &survey, &vec![(0, 1)], f(1), f(1)), f(0));
}

#[test]
fn the_least_step_goes_forward() {
    let mut s = system(vec![body(0, 1)]);
    s.time = f(3);
    assert!(step(&mut s, raw(1)).is_ok());
    assert_eq!(
        step(&mut s, f(0)).unwrap_err(),
        "t_end (3) must be greater than current time (3)"
    );
    assert!(step(&mut s, raw(-1)).is_err());
}
