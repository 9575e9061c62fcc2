//! Whole runs of the driver against a solver that plays a script.

use physical_object::constrain::ConstraintSet;
use physical_object::fixed::Fixed;
use physical_object::integrate::bounds::Survey;
use physical_object::integrate::driver::{
    method_name_failed, no_array, Action, Drive, Params, Phase, SolverStats,
};
use physical_object::integrate::{
    run, snapshot, Conserved, Launch, Method, RunReport,
};
use physical_object::linalg::{Mat3, Quat, Vec3};
use physical_object::scalar::Scalar;
use physical_object::system::{Boundary, PhysicalObject, PhysicalObjectSystem};

fn f(x: i64) -> Fixed {
    Fixed::decimal(x, 0)
}

fn tenths(x: i64) -> Fixed {
    Fixed::decimal(x, -1)
}

fn ball(x: i64) -> PhysicalObject<Fixed> {
    PhysicalObject {
        position: Vec3::new(f(x), f(0), f(0)),
        momentum: Vec3::zeros(),
        orientation: Quat::new(f(1), f(0), f(0), f(0)),
        angular_momentum: Vec3::zeros(),
        mass: f(1),
        inverse_mass: f(1),
        charge: f(0),
        inverse_inertia: Mat3::zeros(),
        magnetic_moment: Mat3::zeros(),
        boundary: Boundary::Sphere { radius: f(1) },
    }
}

fn balls(n: usize, method: Method<Fixed>) -> PhysicalObjectSystem<Fixed> {
    PhysicalObjectSystem {
        objects: (0..n).map(|i| ball(4 * i as i64)).collect(),
        external_forces: vec![Vec3::zeros(); n],
        external_torques: vec![Vec3::zeros(); n],
        g_constant: f(0),
        softening: f(0),
        uniform_gravity: Vec3::zeros(),
        e_field: Vec3::zeros(),
        b_field: Vec3::zeros(),
        time: f(0),
        rtol: Fixed::decimal(1, -6),
        atol: Fixed::decimal(1, -9),
        method,
        collide_enabled: true,
        contact_slop: tenths(1),
        contacts: Vec::new(),
        collision_count: 0,
        max_events_in_burst: 2,
        constraints: ConstraintSet::default(),
    }
}

fn leapfrog() -> Method<Fixed> {
    Method::Sprk { table: "ARKODE_SPRK_LEAPFROG_2_2".to_string(), dt: tenths(1) }
}

fn launch(s: &mut PhysicalObjectSystem<Fixed>, t_end: i64, nout: usize) -> Drive<Fixed> {
    match run(s, f(t_end), nout).unwrap() {
        Launch::Solver(d) => d,
        other => panic!("{:?}", other),
    }
}

/// A solver that plays a script, and what stands around it.
struct Host {
    /// The state vector.
    y: Vec<Fixed>,
    /// The pairs that can collide.
    pairs: Vec<(usize, usize)>,
    /// The times at which a root is reported, soonest first.
    roots: Vec<Fixed>,
    /// Whether an event continues the burst of the last one.
    bursts: bool,
    /// How deep the pairs overlap at the end of each interval.
    depth: Option<Fixed>,
    /// The answer of the call of this name.
    fault: Option<(&'static str, i32)>,
    /// What the first quaternion component is left at after integration.
    twist: Fixed,
    /// The names of the calls made.
    calls: Vec<String>,
    /// The step caps set.
    caps: Vec<Fixed>,
    /// The step limits set.
    limits: Vec<i64>,
    /// Whether each impulse was forced to be plastic.
    plastic: Vec<bool>,
    /// Whether each projection was forced to be plastic.
    projections: Vec<bool>,
}

fn host() -> Host {
    Host {
        y: Vec::new(),
        pairs: Vec::new(),
        roots: Vec::new(),
        bursts: true,
        depth: None,
        fault: None,
        twist: f(1),
        calls: Vec::new(),
        caps: Vec::new(),
        limits: Vec::new(),
        plastic: Vec::new(),
        projections: Vec::new(),
    }
}

fn name(action: &Action<Fixed>) -> String {
    let text = format!("{:?}", action);
    let end = text.find(|c: char| !c.is_alphanumeric()).unwrap_or(text.len());
    text[..end].to_string()
}

impl Host {
    fn code(&self, call: &str) -> i32 {
        match self.fault {
            Some((at, code)) if at == call => code,
            _ => 0,
        }
    }

    fn made(&self, call: &str) -> bool {
        self.code(call) == 0
    }

    /// Runs to the end.
    fn drive(
        &mut self,
        d: &mut Drive<Fixed>,
        s: &mut PhysicalObjectSystem<Fixed>,
    ) -> Result<(), String> {
        let mut action = Action::CreateContext;
        let mut separable = false;
        loop {
            let call = name(&action);
            self.calls.push(call.clone());
            assert!(self.calls.len() < 5000, "the run does not come to an end");
            action = match action {
                Action::CreateContext => d.on_context(s, self.code(&call), self.made("Context"))?,
                Action::NewVector(n) => {
                    self.y = vec![f(0); n];
                    d.on_made(s, self.made(&call))?
                }
                Action::CreateSolver | Action::NewMatrix(_) | Action::NewLinearSolver => {
                    d.on_made(s, self.made(&call))?
                }
                Action::StoreState(v) => {
                    assert_eq!(v.len(), self.y.len());
                    self.y = v;
                    d.on_stored(s, self.made(&call))?
                }
                Action::ReadState => {
                    let read = if self.made(&call) { Some(self.y.clone()) } else { None };
                    d.on_read(s, read)?
                }
                Action::FindPairs => d.on_pairs(s, self.pairs.clone())?,
                Action::Survey => {
                    let n = s.objects.len();
                    let survey = Survey {
                        accelerations: vec![Vec3::zeros(); n],
                        bounding_radii: vec![f(1); n],
                    };
                    d.on_survey(s, &survey)?
                }
                Action::Evolve(tout) => {
                    let code = self.code(&call);
                    if code < 0 {
                        d.on_evolved(s, code, false, tenths(5))?
                    } else if d.roots_armed() && !self.roots.is_empty() && self.roots[0].at_most(tout)
                    {
                        let t = self.roots.remove(0);
                        d.on_evolved(s, 2, true, t)?
                    } else {
                        if !separable {
                            self.y[6] = self.twist;
                        }
                        d.on_evolved(s, 0, false, tout)?
                    }
                }
                Action::RootInfo(n) => {
                    let mut roots = vec![0; n];
                    roots[0] = -1;
                    d.on_roots(s, self.code(&call), &roots)?
                }
                Action::CompareEvents { .. } => d.on_burst(s, self.bursts)?,
                Action::ResolveImpulses { flagged, force_plastic } => {
                    assert!(flagged[0]);
                    self.plastic.push(force_plastic);
                    let resolved = if self.made(&call) { Ok(1) } else { Err("no".to_string()) };
                    d.on_resolved(s, resolved)?
                }
                Action::ResolvePenetrations { force_plastic } => {
                    self.projections.push(force_plastic);
                    d.on_resolved(s, Ok(2))?
                }
                Action::GetStats => d.on_stats(
                    s,
                    SolverStats { nst: 10, nfe: 20, nni: 30, netf: 1, nge: 5 },
                )?,
                Action::MeasureOverlaps => {
                    let overlaps = vec![self.depth; self.pairs.len()];
                    self.depth = None;
                    d.on_overlaps(s, &overlaps)?
                }
                Action::MeasureConserved => {
                    let measured = Conserved {
                        energy: s.time,
                        total_momentum: Vec3::zeros(),
                        total_angular_momentum: Vec3::zeros(),
                        center_of_mass: Vec3::zeros(),
                    };
                    d.on_conserved(s, measured)?
                }
                Action::SetMaxStep(h) => {
                    self.caps.push(h);
                    d.on_code(s, self.code(&call))?
                }
                Action::SetMaxNumSteps(n) => {
                    self.limits.push(n);
                    d.on_code(s, self.code(&call))?
                }
                Action::SetUserData(params) => {
                    separable = matches!(params, Params::Separable(_));
                    d.on_code(s, self.code(&call))?
                }
                Action::Free => return Ok(()),
                _ => d.on_code(s, self.code(&call))?,
            };
        }
    }

    fn count(&self, call: &str) -> usize {
        self.calls.iter().filter(|c| c.as_str() == call).count()
    }
}

fn times(report: &RunReport<Fixed>) -> Vec<Fixed> {
    report.snapshots.iter().map(|s| s.t).collect()
}

fn finish(
    h: &mut Host,
    s: &mut PhysicalObjectSystem<Fixed>,
    t_end: i64,
    nout: usize,
) -> RunReport<Fixed> {
    let mut d = launch(s, t_end, nout);
    h.drive(&mut d, s).unwrap();
    assert!(matches!(d.phase(), Phase::Finished));
    d.into_report()
}

fn failure(fault: (&'static str, i32), method: Method<Fixed>) -> String {
    let mut s = balls(2, method);
    let mut h = host();
    h.pairs = vec![(0, 1)];
    h.roots = vec![tenths(5)];
    h.fault = Some(fault);
    let mut d = launch(&mut s, 4, 4);
    let e = h.drive(&mut d, &mut s).unwrap_err();
    assert!(matches!(d.phase(), Phase::Finished), "a failed run is over");
    e
}

/// The setup calls come in the solver's order, once, and then the outputs.
#[test]
fn a_quiet_multistep_run_takes_the_plain_path() {
    let mut s = balls(2, Method::Adams);
    let mut h = host();
    let report = finish(&mut h, &mut s, 4, 2);
    assert_eq!(
        h.calls,
        vec![
            "CreateContext",
            "NewVector",
            "StoreState",
            "CreateSolver",
            "Init",
            "SetTolerances",
            "NewMatrix",
            "NewLinearSolver",
            "AttachLinearSolver",
            "SetMaxNumSteps",
            "FindPairs",
            "SetUserData",
            "Evolve",
            "ReadState",
            "MeasureConserved",
            "Evolve",
            "ReadState",
            "MeasureConserved",
            "GetStats",
            "Free",
        ]
    );
    assert_eq!(h.limits, vec![500_000]);
    assert_eq!(times(&report), vec![f(2), f(4)]);
    assert_eq!((report.nst, report.nfe, report.nni), (10, 20, 30));
    assert_eq!((report.netf, report.nge, report.ncollisions), (1, 5, 0));
    assert_eq!(s.time, f(4));
}

#[test]
fn a_quiet_separable_run_counts_its_own_steps() {
    let mut s = balls(1, leapfrog());
    let mut h = host();
    let report = finish(&mut h, &mut s, 4, 2);
    assert_eq!(
        h.calls,
        vec![
            "CreateContext",
            "NewVector",
            "StoreState",
            "CreateSolver",
            "SetMethodName",
            "SetFixedStep",
            "SetMaxNumSteps",
            "FindPairs",
            "SetUserData",
            "Evolve",
            "ReadState",
            "MeasureConserved",
            "Evolve",
            "ReadState",
            "MeasureConserved",
            "Free",
        ]
    );
    assert_eq!(h.y.len(), 6);
    assert_eq!(h.limits, vec![2000], "never less than two thousand");
    assert_eq!((report.nst, report.nfe), (40, 0));
    assert_eq!(times(&report), vec![f(2), f(4)]);
}

#[test]
fn a_long_separable_run_may_take_twice_its_steps() {
    let mut s = balls(1, leapfrog());
    let mut h = host();
    finish(&mut h, &mut s, 1000, 1);
    assert_eq!(h.limits, vec![2 * (10_000 + 16)]);
}

#[test]
fn a_run_without_roots_ends_in_time() {
    for method in vec![Method::Adams, Method::Bdf, leapfrog()] {
        let mut s = balls(2, method);
        let mut h = host();
        h.pairs = vec![(0, 1)];
        h.depth = Some(f(-1));
        h.twist = f(2);
        finish(&mut h, &mut s, 4, 7);
        assert!(h.calls.len() - 1 <= 48 * 7 + 47, "{}", h.calls.len());
    }
}

#[test]
fn asking_for_no_output_gives_one() {
    let mut s = balls(1, Method::Bdf);
    let mut h = host();
    let report = finish(&mut h, &mut s, 4, 0);
    assert_eq!(times(&report), vec![f(4)]);
}

#[test]
fn outputs_are_evenly_spaced() {
    let mut s = balls(1, Method::Bdf);
    s.time = f(2);
    let mut h = host();
    let report = finish(&mut h, &mut s, 4, 4);
    assert_eq!(times(&report), vec![tenths(25), f(3), tenths(35), f(4)]);
    assert_eq!(report.snapshots[1].energy, f(3), "measured when the clock showed it");
}

#[test]
fn collisions_switched_off_are_not_watched() {
    let mut s = balls(2, Method::Adams);
    s.collide_enabled = false;
    let mut h = host();
    h.pairs = vec![(0, 1)];
    h.depth = Some(f(-1));
    finish(&mut h, &mut s, 4, 2);
    for call in vec!["RootInit", "Survey", "SetMaxStep", "MeasureOverlaps", "RootInfo"] {
        assert_eq!(h.count(call), 0, "{call}");
    }
}

#[test]
fn pairs_arm_the_rootfinding() {
    let mut s = balls(2, Method::Adams);
    s.objects[0].momentum = Vec3::new(f(1), f(0), f(0));
    let mut h = host();
    h.pairs = vec![(0, 1)];
    finish(&mut h, &mut s, 4, 2);
    assert_eq!(h.count("RootInit"), 1);
    assert_eq!(h.count("SetRootDirection"), 1);
    assert_eq!(h.count("SetNoInactiveRootWarn"), 1);
    // half a radius at unit speed: at arming, and at the start of each interval
    assert_eq!(h.caps, vec![tenths(5), tenths(5), tenths(5)]);
    assert_eq!(h.count("MeasureOverlaps"), 2);
}

#[test]
fn the_separable_solver_needs_no_step_cap() {
    let mut s = balls(2, leapfrog());
    let mut h = host();
    h.pairs = vec![(0, 1)];
    h.roots = vec![f(1)];
    let report = finish(&mut h, &mut s, 4, 2);
    assert_eq!(h.count("RootInit"), 1);
    assert_eq!(h.count("SetNoInactiveRootWarn"), 0);
    assert_eq!(h.count("Survey"), 0);
    assert_eq!(h.count("GetStats"), 0);
    assert_eq!(h.count("ReInit"), 1);
    assert_eq!(report.ncollisions, 1);
}

/// Counters are read before the restart that zeroes them.
#[test]
fn an_event_restarts_the_solver_and_loses_no_count() {
    let mut s = balls(2, Method::Adams);
    let mut h = host();
    h.pairs = vec![(0, 1)];
    h.roots = vec![f(1)];
    let report = finish(&mut h, &mut s, 4, 2);
    let at = h.calls.iter().position(|c| c == "RootInfo").unwrap();
    assert_eq!(
        h.calls[at..at + 10],
        [
            "RootInfo",
            "ReadState",
            "CompareEvents",
            "ResolveImpulses",
            "StoreState",
            "GetStats",
            "ReInit",
            "Survey",
            "SetMaxStep",
            "Evolve",
        ]
    );
    assert_eq!((report.nst, report.nge), (20, 10), "twice what one reading gives");
    assert_eq!(report.ncollisions, 1);
    assert_eq!(s.collision_count, 1);
    assert_eq!(h.plastic, vec![false]);
}

/// An event on an output time goes straight to the output.
#[test]
fn an_event_on_the_output_ends_the_interval() {
    let mut s = balls(2, Method::Adams);
    let mut h = host();
    h.pairs = vec![(0, 1)];
    h.roots = vec![f(2)];
    let report = finish(&mut h, &mut s, 4, 2);
    let at = h.calls.iter().position(|c| c == "ReInit").unwrap();
    assert_eq!(h.calls[at + 1..at + 4], ["Survey", "SetMaxStep", "ReadState"]);
    assert_eq!(times(&report), vec![f(2), f(4)]);
}

/// Past the limit impacts turn plastic; past twice the limit penetration is
/// projected out and rootfinding rests until the next output.
#[test]
fn a_chattering_contact_is_put_to_rest() {
    let mut s = balls(2, Method::Adams);
    let mut h = host();
    h.pairs = vec![(0, 1)];
    h.roots = (1..9).map(tenths).collect();
    let report = finish(&mut h, &mut s, 4, 2);
    // the limit is two: events three to five are plastic, the fifth disarms,
    // and once armed again every further event of the burst disarms again
    assert_eq!(h.plastic[..6], [false, false, true, true, true, true]);
    assert_eq!(h.count("DisarmRoots"), 2);
    assert_eq!(h.projections, vec![true, true]);
    assert_eq!(h.count("RootInit"), 2, "armed at the start, and again for the second output");
    assert_eq!(h.plastic.len(), 6);
    assert_eq!(report.ncollisions, 6 + 2 * 2);
    assert_eq!(s.collision_count, 10);
}

/// A flight between two events begins a new burst, however many there were.
#[test]
fn separate_bounces_are_never_plastic() {
    let mut s = balls(2, Method::Adams);
    let mut h = host();
    h.bursts = false;
    h.pairs = vec![(0, 1)];
    h.roots = (1..9).map(tenths).collect();
    finish(&mut h, &mut s, 4, 2);
    assert_eq!(h.plastic, vec![false; 8]);
    assert_eq!(h.count("DisarmRoots"), 0);
}

/// The burst is counted across outputs: asking for more of them changes
/// nothing about the contacts.
#[test]
fn a_burst_does_not_end_with_the_output() {
    let plastic = |nout: usize| {
        let mut s = balls(2, Method::Adams);
        let mut h = host();
        h.pairs = vec![(0, 1)];
        h.roots = vec![tenths(5), tenths(15), tenths(25), tenths(35)];
        finish(&mut h, &mut s, 4, nout);
        h.plastic
    };
    assert_eq!(plastic(1), vec![false, false, true, true]);
    assert_eq!(plastic(4), plastic(1));
}

/// The count of the system grows by what the report counts, wherever it began.
#[test]
fn both_counts_of_collisions_grow_together() {
    for method in vec![Method::Adams, leapfrog()] {
        let mut s = balls(2, method);
        s.collision_count = 7;
        let mut h = host();
        h.pairs = vec![(0, 1)];
        h.roots = (1..9).map(tenths).collect();
        let report = finish(&mut h, &mut s, 4, 2);
        assert!(report.ncollisions > 0);
        assert_eq!(s.collision_count, 7 + report.ncollisions);
    }
}

/// Events between the outputs move no output.
#[test]
fn snapshots_keep_to_the_outputs() {
    let mut s = balls(2, Method::Bdf);
    s.time = f(2);
    let mut h = host();
    h.pairs = vec![(0, 1)];
    h.roots = vec![tenths(21), tenths(27), f(3), tenths(39)];
    let report = finish(&mut h, &mut s, 4, 4);
    assert_eq!(times(&report), vec![tenths(25), f(3), tenths(35), f(4)]);
}

/// Making quaternions unit again and storing them leaves angular momenta alone.
#[test]
fn a_run_keeps_the_spin_that_the_solver_keeps() {
    let mut s = balls(2, Method::Adams);
    s.objects[0].angular_momentum = Vec3::new(f(1), f(-2), tenths(3));
    s.objects[1].angular_momentum = Vec3::new(f(0), f(5), f(0));
    let before = s.clone();
    let mut h = host();
    h.twist = f(2);
    finish(&mut h, &mut s, 4, 3);
    assert_eq!(h.count("ReInit"), 3);
    for (o, was) in s.objects.iter().zip(before.objects.iter()) {
        assert!(o.angular_momentum.same(was.angular_momentum));
    }
}

#[test]
fn a_run_changes_no_mass_and_no_shape() {
    for method in vec![Method::Adams, Method::Bdf, leapfrog()] {
        let mut s = balls(3, method);
        s.objects[1].charge = f(3);
        s.objects[2].mass = f(5);
        let before = s.clone();
        let mut h = host();
        h.pairs = vec![(0, 1)];
        h.roots = vec![f(1)];
        h.twist = f(2);
        finish(&mut h, &mut s, 4, 3);
        assert_eq!(s.objects.len(), 3);
        for (o, was) in s.objects.iter().zip(before.objects.iter()) {
            assert_eq!((o.mass, o.inverse_mass), (was.mass, was.inverse_mass));
            assert_eq!(o.charge, was.charge);
            assert!(o.inverse_inertia.is_zero() && o.magnetic_moment.is_zero());
            assert!(matches!(o.boundary, Boundary::Sphere { radius } if radius == f(1)));
        }
    }
}

#[test]
fn a_separable_run_turns_no_body() {
    let mut s = balls(2, leapfrog());
    s.objects[1].orientation = Quat::new(f(0), f(2), f(0), f(0));
    s.objects[1].angular_momentum = Vec3::new(f(1), f(2), f(3));
    let before = s.clone();
    let mut h = host();
    finish(&mut h, &mut s, 4, 3);
    for (o, was) in s.objects.iter().zip(before.objects.iter()) {
        assert_eq!(o.orientation.x, was.orientation.x);
        assert!(o.angular_momentum.same(was.angular_momentum));
        assert_eq!((o.mass, o.inverse_mass), (was.mass, was.inverse_mass));
    }
}

#[test]
fn a_deep_overlap_is_swept_at_the_output() {
    for (method, stats) in vec![(Method::Adams, 2), (leapfrog(), 0)] {
        let mut s = balls(2, method);
        let mut h = host();
        h.pairs = vec![(0, 1)];
        h.depth = Some(tenths(-2));
        let report = finish(&mut h, &mut s, 4, 2);
        assert_eq!(h.projections, vec![false]);
        assert_eq!(h.count("ReInit"), 1);
        assert_eq!(h.count("GetStats"), stats);
        assert_eq!(report.ncollisions, 2);
    }
}

#[test]
fn a_shallow_overlap_is_left_alone() {
    let mut s = balls(2, Method::Adams);
    let mut h = host();
    h.pairs = vec![(0, 1)];
    h.depth = Some(tenths(-1));
    finish(&mut h, &mut s, 4, 2);
    assert_eq!(h.count("ResolvePenetrations"), 0);
    assert_eq!(h.count("ReInit"), 0);
}

#[test]
fn drifted_quaternions_are_renormalized() {
    let mut s = balls(1, Method::Adams);
    let mut h = host();
    h.twist = f(2);
    let report = finish(&mut h, &mut s, 4, 1);
    let at = h.calls.iter().position(|c| c == "Evolve").unwrap();
    assert_eq!(
        h.calls[at..],
        [
            "Evolve",
            "ReadState",
            "StoreState",
            "GetStats",
            "ReInit",
            "MeasureConserved",
            "GetStats",
            "Free",
        ]
    );
    assert_eq!(s.objects[0].orientation.w, f(1));
    assert_eq!(report.nst, 20);
}

#[test]
fn the_multistep_solver_fails_by_name() {
    let adams = |call: &'static str, code: i32| failure((call, code), Method::Adams);
    assert_eq!(adams("CreateContext", -9), "SUNContext_Create failed: -9");
    assert_eq!(adams("Context", 1), "SUNContext_Create returned NULL");
    assert_eq!(adams("NewVector", 1), "N_VNew_Serial(26) returned NULL");
    assert_eq!(adams("CreateSolver", 1), "CVodeCreate(lmm = 1) returned NULL");
    assert_eq!(failure(("CreateSolver", 1), Method::Bdf), "CVodeCreate(lmm = 2) returned NULL");
    assert_eq!(adams("Init", -22), "CVodeInit failed: -22");
    assert_eq!(adams("SetTolerances", 7), "CVodeSStolerances failed: 7");
    assert_eq!(adams("NewMatrix", 1), "SUNDenseMatrix(26, 26) returned NULL");
    assert_eq!(adams("NewLinearSolver", 1), "SUNLinSol_Dense returned NULL");
    assert_eq!(adams("AttachLinearSolver", -1), "CVodeSetLinearSolver failed: -1");
    assert_eq!(adams("SetMaxNumSteps", -2), "CVodeSetMaxNumSteps failed: -2");
    assert_eq!(adams("SetUserData", -3), "CVodeSetUserData failed: -3");
    assert_eq!(adams("RootInit", -4), "CVodeRootInit failed: -4");
    assert_eq!(adams("SetRootDirection", -5), "CVodeSetRootDirection failed: -5");
    assert_eq!(adams("SetNoInactiveRootWarn", -6), "CVodeSetNoInactiveRootWarn failed: -6");
    assert_eq!(adams("SetMaxStep", -7), "CVodeSetMaxStep failed: -7");
    assert_eq!(
        adams("Evolve", -1),
        "CVode failed with retval = -1 at t = 0.5"
    );
    assert_eq!(adams("RootInfo", -8), "CVodeGetRootInfo failed: -8");
    assert_eq!(adams("ReInit", -10), "CVodeReInit failed: -10");
    assert_eq!(adams("ResolveImpulses", 1), "no");
}

#[test]
fn the_separable_solver_fails_by_name() {
    let sprk = |call: &'static str, code: i32| failure((call, code), leapfrog());
    assert_eq!(sprk("NewVector", 1), "N_VNew_Serial(12) returned NULL");
    assert_eq!(sprk("CreateSolver", 1), "SPRKStepCreate returned NULL");
    assert_eq!(
        sprk("SetMethodName", -22),
        "SPRKStepSetMethodName(\"ARKODE_SPRK_LEAPFROG_2_2\") failed: -22"
    );
    assert_eq!(sprk("SetFixedStep", -1), "ARKodeSetFixedStep failed: -1");
    assert_eq!(sprk("SetMaxNumSteps", -2), "ARKodeSetMaxNumSteps failed: -2");
    assert_eq!(sprk("SetUserData", -3), "ARKodeSetUserData failed: -3");
    assert_eq!(sprk("RootInit", -4), "ARKodeRootInit failed: -4");
    assert_eq!(sprk("SetRootDirection", -5), "ARKodeSetRootDirection failed: -5");
    assert_eq!(
        sprk("Evolve", -1),
        "ARKodeEvolve failed with retval = -1 at t = 0.5"
    );
    assert_eq!(sprk("RootInfo", -8), "ARKodeGetRootInfo failed: -8");
    assert_eq!(sprk("ReInit", -10), "ARKodeReset failed: -10");
}

/// Only the multistep solver takes a positive code for a failure.
#[test]
fn a_warning_does_not_stop_the_separable_solver() {
    let mut s = balls(1, leapfrog());
    let mut h = host();
    h.fault = Some(("SetFixedStep", 1));
    finish(&mut h, &mut s, 4, 1);
}

#[test]
fn a_state_out_of_reach_fails_the_run() {
    let mut s = balls(1, Method::Adams);
    let mut h = host();
    h.fault = Some(("StoreState", 1));
    let mut d = launch(&mut s, 4, 1);
    let expected = "N_VGetArrayPointer returned NULL for y (not a serial N_Vector)";
    assert_eq!(h.drive(&mut d, &mut s).unwrap_err(), expected);
    let mut h = host();
    h.fault = Some(("ReadState", 1));
    let mut d = launch(&mut s, 4, 1);
    assert_eq!(h.drive(&mut d, &mut s).unwrap_err(), expected);
    assert_eq!(no_array("ydot"), "N_VGetArrayPointer returned NULL for ydot (not a serial N_Vector)");
}

/// The faults of arming again and of disarming have names of their own.
#[test]
fn later_faults_are_told_apart() {
    let fail_at = |call: &'static str, method: Method<Fixed>| {
        let mut s = balls(2, method);
        let mut h = host();
        h.pairs = vec![(0, 1)];
        h.roots = (1..9).map(tenths).collect();
        let mut d = launch(&mut s, 4, 2);
        // let the first occurrence pass, and fail the second
        let mut seen = false;
        let mut e = String::new();
        let mut action = Action::CreateContext;
        for _ in 0..500 {
            let this = name(&action);
            if this == call && (seen || call == "DisarmRoots") {
                h.fault = Some((call, -7));
            }
            if this == call {
                seen = true;
            }
            match one(&mut h, &mut d, &mut s, action) {
                Ok(next) => action = next,
                Err(why) => {
                    e = why;
                    break;
                }
            }
        }
        e
    };
    assert_eq!(fail_at("DisarmRoots", Method::Adams), "CVodeRootInit (disarm) failed: -7");
    assert_eq!(fail_at("DisarmRoots", leapfrog()), "ARKodeRootInit (disarm) failed: -7");
    assert_eq!(fail_at("RootInit", Method::Adams), "CVodeRootInit (re-arm) failed: -7");
    assert_eq!(fail_at("RootInit", leapfrog()), "ARKodeRootInit (re-arm) failed: -7");
    assert_eq!(
        fail_at("SetRootDirection", Method::Adams),
        "CVodeSetRootDirection (re-arm) failed: -7"
    );
    assert_eq!(
        fail_at("SetRootDirection", leapfrog()),
        "ARKodeSetRootDirection (re-arm) failed: -7"
    );
    assert_eq!(
        fail_at("SetNoInactiveRootWarn", Method::Adams),
        "CVodeSetNoInactiveRootWarn (re-arm) failed: -7"
    );
    assert_eq!(fail_at("SetMaxStep", Method::Adams), "CVodeSetMaxStep (interval) failed: -7");
}

/// One exchange, with codes only where a fault is set.
fn one(
    h: &mut Host,
    d: &mut Drive<Fixed>,
    s: &mut PhysicalObjectSystem<Fixed>,
    action: Action<Fixed>,
) -> Result<Action<Fixed>, String> {
    let call = name(&action);
    match action {
        Action::CreateContext => d.on_context(s, 0, true),
        Action::NewVector(n) => {
            h.y = vec![f(0); n];
            d.on_made(s, true)
        }
        Action::CreateSolver | Action::NewMatrix(_) | Action::NewLinearSolver => {
            d.on_made(s, true)
        }
        Action::StoreState(v) => {
            h.y = v;
            d.on_stored(s, true)
        }
        Action::ReadState => d.on_read(s, Some(h.y.clone())),
        Action::FindPairs => d.on_pairs(s, h.pairs.clone()),
        Action::Survey => d.on_survey(
            s,
            &Survey { accelerations: vec![Vec3::zeros(); 2], bounding_radii: vec![f(1); 2] },
        ),
        Action::Evolve(tout) => {
            if d.roots_armed() && !h.roots.is_empty() && h.roots[0].at_most(tout) {
                let t = h.roots.remove(0);
                d.on_evolved(s, 2, true, t)
            } else {
                d.on_evolved(s, 0, false, tout)
            }
        }
        Action::RootInfo(n) => d.on_roots(s, 0, &vec![-1; n]),
        Action::CompareEvents { .. } => d.on_burst(s, true),
        Action::ResolveImpulses { .. } | Action::ResolvePenetrations { .. } => {
            d.on_resolved(s, Ok(1))
        }
        Action::GetStats => {
            d.on_stats(s, SolverStats { nst: 1, nfe: 1, nni: 1, netf: 1, nge: 1 })
        }
        Action::MeasureOverlaps => d.on_overlaps(s, &vec![None; h.pairs.len()]),
        Action::MeasureConserved => d.on_conserved(
            s,
            Conserved {
                energy: f(0),
                total_momentum: Vec3::zeros(),
                total_angular_momentum: Vec3::zeros(),
                center_of_mass: Vec3::zeros(),
            },
        ),
        Action::Free => Err("finished".to_string()),
        _ => d.on_code(s, h.code(&call)),
    }
}

#[test]
fn a_table_name_is_quoted_in_the_refusal() {
    let method = Method::Sprk { table: "a\"b".to_string(), dt: tenths(1) };
    assert_eq!(
        failure(("SetMethodName", -22), method),
        "SPRKStepSetMethodName(\"a\\\"b\") failed: -22"
    );
    assert_eq!(method_name_failed("\"x\"", 5), "SPRKStepSetMethodName(\"x\") failed: 5");
}

#[test]
fn a_snapshot_is_what_was_measured() {
    let measured = Conserved {
        energy: f(3),
        total_momentum: Vec3::new(f(1), f(0), f(0)),
        total_angular_momentum: Vec3::new(f(0), f(2), f(0)),
        center_of_mass: Vec3::new(f(0), f(0), f(5)),
    };
    let s = snapshot(measured, f(7));
    assert_eq!((s.t, s.energy), (f(7), f(3)));
    assert_eq!(s.total_momentum.x, f(1));
    assert_eq!(s.total_angular_momentum.y, f(2));
    assert_eq!(s.center_of_mass.z, f(5));
}
