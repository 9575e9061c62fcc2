//! Time integration: the methods, what a run reports, and how a run starts.

use crate::constrain::ConstraintSet;
use crate::integrate::driver::{fixed_step_limit, Drive, DriveView, Engine, Phase};
use crate::integrate::dynamics::copied;
use crate::linalg::Vec3;
use crate::scalar::{zero, Scalar};
use crate::system::{PhysicalObject, PhysicalObjectSystem, SystemView};
use crate::text::{a_text_mentions_its_parts, append_number, mentions, numeral};
use vstd::prelude::*;

pub mod bounds;
pub mod driver;
pub mod dynamics;

verus! {

/// Integration method.
#[derive(Clone, Debug, PartialEq)]
pub enum Method<S> {
    /// Adams-Moulton multistep (non-stiff default).
    Adams,
    /// Backward differentiation (stiff problems, e.g. fast magnetic gyration).
    Bdf,
    /// Symplectic partitioned Runge-Kutta with fixed step `dt` and the
    /// coefficient table of that name.
    Sprk { table: String, dt: S },
    /// Differential-algebraic integration, which holds constraints exactly.
    Ida,
}

/// The conserved quantities of a system.
#[derive(Clone, Copy, Debug)]
pub struct Conserved<S> {
    pub energy: S,
    pub total_momentum: Vec3<S>,
    pub total_angular_momentum: Vec3<S>,
    pub center_of_mass: Vec3<S>,
}

/// Conserved-quantity snapshot recorded at each output time.
#[derive(Clone, Copy, Debug)]
pub struct Snapshot<S> {
    pub t: S,
    pub energy: S,
    pub total_momentum: Vec3<S>,
    pub total_angular_momentum: Vec3<S>,
    pub center_of_mass: Vec3<S>,
}

/// The snapshot of what was measured at the time `t`.
pub open spec fn snapshot_at<S>(measured: Conserved<S>, t: S) -> Snapshot<S> {
    Snapshot {
        t,
        energy: measured.energy,
        total_momentum: measured.total_momentum,
        total_angular_momentum: measured.total_angular_momentum,
        center_of_mass: measured.center_of_mass,
    }
}

pub fn snapshot<S: Scalar>(measured: Conserved<S>, t: S) -> (r: Snapshot<S>)
    ensures
        r == snapshot_at(measured, t),
{
    Snapshot {
        t,
        energy: measured.energy,
        total_momentum: measured.total_momentum,
        total_angular_momentum: measured.total_angular_momentum,
        center_of_mass: measured.center_of_mass,
    }
}

/// Result of a run: a snapshot for each output, and solver statistics.
#[derive(Debug)]
pub struct RunReport<S> {
    pub snapshots: Vec<Snapshot<S>>,
    /// Internal solver steps; for a fixed step, computed from the step.
    pub nst: i64,
    /// Right-hand-side evaluations (multistep methods only).
    pub nfe: i64,
    /// Nonlinear iterations (multistep methods only).
    pub nni: i64,
    /// Local error test failures (multistep methods only).
    pub netf: i64,
    /// Root-function evaluations, nonzero only when rootfinding was armed.
    pub nge: i64,
    /// Collision impulses resolved during the run.
    pub ncollisions: u64,
    /// The worst constraint error and rate: zero without constraints.
    pub constraint_drift: (S, S),
    /// Whether a tolerance was asked for that the constraints cannot hold.
    pub tolerance_floored: bool,
    /// How far the initial velocities had to be moved to be consistent.
    pub initial_velocity_projected: S,
}

/// A report, as mathematical values.
#[verifier::ext_equal]
pub struct RunReportView<S> {
    pub snapshots: Seq<Snapshot<S>>,
    pub nst: i64,
    pub nfe: i64,
    pub nni: i64,
    pub netf: i64,
    pub nge: i64,
    pub ncollisions: u64,
    pub constraint_drift: (S, S),
    pub tolerance_floored: bool,
    pub initial_velocity_projected: S,
}

impl<S: Scalar> View for RunReport<S> {
    type V = RunReportView<S>;

    open spec fn view(&self) -> RunReportView<S> {
        RunReportView {
            snapshots: self.snapshots@,
            nst: self.nst,
            nfe: self.nfe,
            nni: self.nni,
            netf: self.netf,
            nge: self.nge,
            ncollisions: self.ncollisions,
            constraint_drift: self.constraint_drift,
            tolerance_floored: self.tolerance_floored,
            initial_velocity_projected: self.initial_velocity_projected,
        }
    }
}

/// The report of a run in which nothing has happened yet.
pub open spec fn empty_report<S: Scalar>() -> RunReportView<S> {
    RunReportView {
        snapshots: Seq::empty(),
        nst: 0,
        nfe: 0,
        nni: 0,
        netf: 0,
        nge: 0,
        ncollisions: 0,
        constraint_drift: (zero(), zero()),
        tolerance_floored: false,
        initial_velocity_projected: zero(),
    }
}

impl<S: Scalar> Default for RunReport<S> {
    fn default() -> (r: Self)
        ensures
            r@ == empty_report::<S>(),
    {
        RunReport {
            snapshots: Vec::new(),
            nst: 0,
            nfe: 0,
            nni: 0,
            netf: 0,
            nge: 0,
            ncollisions: 0,
            constraint_drift: (S::decimal(0, 0), S::decimal(0, 0)),
            tolerance_floored: false,
            initial_velocity_projected: S::decimal(0, 0),
        }
    }
}

impl<S: Scalar> Clone for RunReport<S> {
    fn clone(&self) -> (r: Self)
        ensures
            r@ == self@,
    {
        RunReport {
            snapshots: copied(&self.snapshots),
            nst: self.nst,
            nfe: self.nfe,
            nni: self.nni,
            netf: self.netf,
            nge: self.nge,
            ncollisions: self.ncollisions,
            constraint_drift: self.constraint_drift,
            tolerance_floored: self.tolerance_floored,
            initial_velocity_projected: self.initial_velocity_projected,
        }
    }
}

/// The solver's number for the Adams-Moulton formulas.
pub const CV_ADAMS: i32 = 1;

/// The solver's number for the backward differentiation formulas.
pub const CV_BDF: i32 = 2;

/// How a run begins.
#[derive(Debug)]
pub enum Launch<S> {
    /// With nothing to integrate it is already over.
    Done(RunReport<S>),
    /// It goes through a solver, and waits for the answer to
    /// [`Action::CreateContext`](driver::Action::CreateContext).
    Solver(Drive<S>),
    /// It is left to the differential-algebraic solver, which is to take the
    /// system to `t_end` in `nout` evenly spaced outputs.
    Ida { t_end: S, nout: usize },
}

/// How a run begins, as mathematical values.
#[verifier::ext_equal]
pub enum LaunchView<S> {
    Done(RunReportView<S>),
    Solver(DriveView<S>),
    Ida { t_end: S, nout: nat },
}

impl<S: Scalar> View for Launch<S> {
    type V = LaunchView<S>;

    open spec fn view(&self) -> LaunchView<S> {
        match *self {
            Launch::Done(report) => LaunchView::Done(report@),
            Launch::Solver(drive) => LaunchView::Solver(drive@),
            Launch::Ida { t_end, nout } => LaunchView::Ida { t_end, nout: nout as nat },
        }
    }
}

/// The system as a run begins, and how it begins or why it is refused.
#[verifier::ext_equal]
pub struct Start<S> {
    pub system: SystemView<S>,
    pub launch: Result<LaunchView<S>, Seq<char>>,
}

/// What a call that starts a run leads to.
pub open spec fn started<S: Scalar>(
    system: SystemView<S>,
    r: Result<Launch<S>, String>,
) -> Start<S> {
    Start {
        system,
        launch: match r {
            Ok(launch) => Ok(launch@),
            Err(e) => Err(e@),
        },
    }
}

/// A run that is refused and leaves the system as it is.
pub open spec fn refused<S: Scalar>(s: SystemView<S>, why: Seq<char>) -> Start<S> {
    Start { system: s, launch: Err(why) }
}

/// A run of no bodies, for which only time passes.
pub open spec fn passed<S: Scalar>(s: SystemView<S>, t_end: S) -> Start<S> {
    Start {
        system: SystemView { time: t_end, ..s },
        launch: Ok(LaunchView::Done(empty_report())),
    }
}

/// The refusal of a run that would not move forward in time.
pub open spec fn late_text<S: Scalar>(t_end: S, t0: S) -> Seq<char> {
    "t_end ("@ + t_end.shown()@ + ") must be greater than current time ("@ + t0.shown()@ + ")"@
}

fn late<S: Scalar>(t_end: S, t0: S) -> (r: String)
    ensures
        r@ == late_text(t_end, t0),
{
    let mut r = String::from_str("t_end (");
    r.append(t_end.show().as_str());
    r.append(") must be greater than current time (");
    r.append(t0.show().as_str());
    r.append(")");
    r
}

/// At least one output.
pub open spec fn outputs(nout: nat) -> nat {
    if nout == 0 {
        1
    } else {
        nout
    }
}

/// A run of the system through a solver, before the first answer.
pub open spec fn fresh<S: Scalar>(
    s: SystemView<S>,
    engine: Engine<S>,
    t_end: S,
    nout: nat,
) -> DriveView<S> {
    DriveView {
        phase: Phase::Context,
        engine,
        n: s.objects.len(),
        nout: outputs(nout),
        k: 0,
        t0: s.time,
        t_end,
        t: s.time,
        tout: s.time,
        last_event_t: S::spec_infinity().spec_neg(),
        burst: 0,
        armed: false,
        roots_armed: false,
        pairs: Seq::empty(),
        flagged: Seq::empty(),
        held: Seq::empty(),
        report: empty_report(),
    }
}

/// How a run through the multistep solver begins.
pub open spec fn cvode_start<S: Scalar>(
    s: SystemView<S>,
    t_end: S,
    nout: nat,
    lmm: i32,
) -> Start<S> {
    if t_end.spec_at_most(s.time) {
        refused(s, late_text(t_end, s.time))
    } else if s.objects.len() == 0 {
        passed(s, t_end)
    } else {
        Start {
            system: s,
            launch: Ok(LaunchView::Solver(fresh(s, Engine::Cvode { lmm }, t_end, nout))),
        }
    }
}

/// Begins a run through the multistep solver with Newton iteration, over the
/// full state; `lmm` is [`CV_ADAMS`] or [`CV_BDF`].
pub fn run_cvode<S: Scalar>(
    system: &mut PhysicalObjectSystem<S>,
    t_end: S,
    nout: usize,
    lmm: i32,
) -> (r: Result<Launch<S>, String>)
    requires
        old(system)@.wf(),
    ensures
        started(final(system)@, r) == cvode_start(old(system)@, t_end, nout as nat, lmm),
        r matches Ok(Launch::Solver(drive)) ==> drive@.drives(final(system)@),
{
    if t_end.at_most(system.time) {
        return Err(late(t_end, system.time));
    }
    if system.objects.len() == 0 {
        system.time = t_end;
        return Ok(Launch::Done(RunReport::default()));
    }
    Ok(Launch::Solver(Drive::begin(system, Engine::Cvode { lmm }, t_end, nout)))
}

/// The refusal of a fixed step that does not move forward.
pub open spec fn step_text<S: Scalar>(dt: S) -> Seq<char> {
    "SPRK requires a positive fixed step dt (got "@ + dt.shown()@ + ")"@
}

/// The refusal of a magnetic field.
pub open spec fn field_text() -> Seq<char> {
    "SPRK method requires a separable Hamiltonian: magnetic field B must be zero (the Lorentz force q v x B is velocity-dependent); use METHOD ADAMS or BDF"@
}

/// Why body `i` cannot be integrated as a point mass, if it cannot.
pub open spec fn body_refusal<S: Scalar>(o: PhysicalObject<S>, i: nat) -> Option<Seq<char>> {
    if o.spec_is_spinning() {
        Some(
            "SPRK method integrates translational dynamics only: object "@ + numeral(i)
                + " has spinning rigid-body state (nonzero angular momentum and invertible inertia tensor); use METHOD ADAMS or BDF"@,
        )
    } else if !o.magnetic_moment.spec_is_zero() {
        Some(
            "SPRK method requires zero magnetic moment tensor (object "@ + numeral(i)
                + "); use METHOD ADAMS or BDF"@,
        )
    } else {
        None
    }
}

/// The refusal of the first of the first `n` bodies that has one.
pub open spec fn bodies_refusal<S: Scalar>(
    objects: Seq<PhysicalObject<S>>,
    n: nat,
) -> Option<Seq<char>>
    decreases n,
{
    if n == 0 {
        None
    } else {
        let i = (n - 1) as nat;
        match bodies_refusal(objects, i) {
            Some(why) => Some(why),
            None => body_refusal(objects[i as int], i),
        }
    }
}

/// The refusal of the first external torque among the first `n`.
pub open spec fn torques_refusal<S: Scalar>(torques: Seq<Vec3<S>>, n: nat) -> Option<Seq<char>>
    decreases n,
{
    if n == 0 {
        None
    } else {
        let i = (n - 1) as nat;
        match torques_refusal(torques, i) {
            Some(why) => Some(why),
            None => if torques[i as int].spec_is_zero() {
                None
            } else {
                Some(
                    "SPRK method cannot apply external torques (object "@ + numeral(i)
                        + "); use METHOD ADAMS or BDF"@,
                )
            },
        }
    }
}

/// Why the motion of the system is not that of separable point masses, if it
/// is not: forces that depend on velocity, or anything that turns.
pub open spec fn separability_refusal<S: Scalar>(s: SystemView<S>) -> Option<Seq<char>> {
    if !s.b_field.spec_is_zero() {
        Some(field_text())
    } else {
        match bodies_refusal(s.objects, s.objects.len()) {
            Some(why) => Some(why),
            None => torques_refusal(s.external_torques, s.external_torques.len()),
        }
    }
}

/// A refusal, as a sequence of characters.
pub open spec fn refusal_view(r: Result<(), String>) -> Option<Seq<char>> {
    match r {
        Ok(_) => None,
        Err(e) => Some(e@),
    }
}

fn check_body<S: Scalar>(o: &PhysicalObject<S>, i: usize) -> (r: Result<(), String>)
    ensures
        refusal_view(r) == body_refusal(*o, i as nat),
{
    if o.is_spinning() {
        let mut e = String::from_str("SPRK method integrates translational dynamics only: object ");
        append_number(&mut e, i as u64);
        e.append(
            " has spinning rigid-body state (nonzero angular momentum and invertible inertia tensor); use METHOD ADAMS or BDF",
        );
        return Err(e);
    }
    if !o.magnetic_moment.is_zero() {
        let mut e = String::from_str("SPRK method requires zero magnetic moment tensor (object ");
        append_number(&mut e, i as u64);
        e.append("); use METHOD ADAMS or BDF");
        return Err(e);
    }
    Ok(())
}

/// Refuses a system that is not one of separable point masses, and says which
/// feature stands in the way.
pub fn check_separable<S: Scalar>(system: &PhysicalObjectSystem<S>) -> (r: Result<(), String>)
    ensures
        refusal_view(r) == separability_refusal(system@),
{
    if !system.b_field.is_zero() {
        return Err(
            String::from_str(
                "SPRK method requires a separable Hamiltonian: magnetic field B must be zero (the Lorentz force q v x B is velocity-dependent); use METHOD ADAMS or BDF",
            ),
        );
    }
    let mut i: usize = 0;
    while i < system.objects.len()
        invariant
            i <= system.objects@.len(),
            system@.b_field.spec_is_zero(),
            bodies_refusal(system@.objects, i as nat) is None,
        decreases system.objects@.len() - i,
    {
        let checked = check_body(&system.objects[i], i);
        if let Err(e) = checked {
            proof {
                a_refused_body_is_the_first(system@.objects, (i + 1) as nat, system@.objects.len());
            }
            return Err(e);
        }
        i += 1;
    }
    let mut i: usize = 0;
    while i < system.external_torques.len()
        invariant
            i <= system.external_torques@.len(),
            system@.b_field.spec_is_zero(),
            bodies_refusal(system@.objects, system@.objects.len()) is None,
            torques_refusal(system@.external_torques, i as nat) is None,
        decreases system.external_torques@.len() - i,
    {
        if !system.external_torques[i].is_zero() {
            let mut e = String::from_str("SPRK method cannot apply external torques (object ");
            append_number(&mut e, i as u64);
            e.append("); use METHOD ADAMS or BDF");
            proof {
                a_refused_torque_is_the_first(
                    system@.external_torques,
                    (i + 1) as nat,
                    system@.external_torques.len(),
                );
            }
            return Err(e);
        }
        i += 1;
    }
    Ok(())
}

proof fn a_refused_body_is_the_first<S: Scalar>(objects: Seq<PhysicalObject<S>>, m: nat, n: nat)
    requires
        m <= n,
        bodies_refusal(objects, m) is Some,
    ensures
        bodies_refusal(objects, n) == bodies_refusal(objects, m),
    decreases n,
{
    if m < n {
        a_refused_body_is_the_first(objects, m, (n - 1) as nat);
    }
}

proof fn a_refused_torque_is_the_first<S: Scalar>(torques: Seq<Vec3<S>>, m: nat, n: nat)
    requires
        m <= n,
        torques_refusal(torques, m) is Some,
    ensures
        torques_refusal(torques, n) == torques_refusal(torques, m),
    decreases n,
{
    if m < n {
        a_refused_torque_is_the_first(torques, m, (n - 1) as nat);
    }
}

/// How a run through the separable solver begins.
pub open spec fn sprk_start<S: Scalar>(
    s: SystemView<S>,
    t_end: S,
    nout: nat,
    table: String,
    dt: S,
) -> Start<S> {
    if t_end.spec_at_most(s.time) {
        refused(s, late_text(t_end, s.time))
    } else if dt.spec_is_nan() || dt.spec_at_most(zero()) {
        refused(s, step_text(dt))
    } else if s.objects.len() == 0 {
        passed(s, t_end)
    } else {
        match separability_refusal(s) {
            Some(why) => refused(s, why),
            None => Start {
                system: s,
                launch: Ok(LaunchView::Solver(fresh(s, Engine::Sprk { table, dt }, t_end, nout))),
            },
        }
    }
}

/// Whether the number of fixed steps the run would take can be counted, if
/// the run takes place.
pub open spec fn steps_countable<S: Scalar>(
    s: SystemView<S>,
    t_end: S,
    table: String,
    dt: S,
) -> bool {
    sprk_start(s, t_end, 1, table, dt).launch is Ok && s.objects.len() > 0 ==> fixed_step_limit(
        s.time,
        t_end,
        dt,
    ) <= i64::MAX
}

/// Begins a symplectic run with the fixed step `dt`, over the translational
/// state, of a system of separable point masses.
pub fn run_sprk<S: Scalar>(
    system: &mut PhysicalObjectSystem<S>,
    t_end: S,
    nout: usize,
    table: String,
    dt: S,
) -> (r: Result<Launch<S>, String>)
    requires
        old(system)@.wf(),
        steps_countable(old(system)@, t_end, table, dt),
    ensures
        started(final(system)@, r) == sprk_start(old(system)@, t_end, nout as nat, table, dt),
        r matches Ok(Launch::Solver(drive)) ==> drive@.drives(final(system)@),
{
    if t_end.at_most(system.time) {
        return Err(late(t_end, system.time));
    }
    if dt.is_nan() || dt.at_most(S::decimal(0, 0)) {
        let mut e = String::from_str("SPRK requires a positive fixed step dt (got ");
        e.append(dt.show().as_str());
        e.append(")");
        return Err(e);
    }
    if system.objects.len() == 0 {
        system.time = t_end;
        return Ok(Launch::Done(RunReport::default()));
    }
    let separable = check_separable(system);
    if let Err(e) = separable {
        return Err(e);
    }
    Ok(Launch::Solver(Drive::begin(system, Engine::Sprk { table, dt }, t_end, nout)))
}

/// The refusal of a constrained system by a method that would let its
/// constraints go.
pub open spec fn constrained_text(count: nat) -> Seq<char> {
    "the system has "@ + numeral(count)
        + " rigid constraint(s), which this method would ignore; use METHOD IDA"@
}

/// How a run with the system's method begins.
pub open spec fn run_start<S: Scalar>(s: SystemView<S>, t_end: S, nout: nat) -> Start<S> {
    let s = SystemView { contacts: Seq::empty(), ..s };
    match s.method {
        Method::Ida => Start { system: s, launch: Ok(LaunchView::Ida { t_end, nout }) },
        _ if s.constraints.len() > 0 => refused(s, constrained_text(s.constraints.len())),
        Method::Adams => cvode_start(s, t_end, nout, CV_ADAMS),
        Method::Bdf => cvode_start(s, t_end, nout, CV_BDF),
        Method::Sprk { table, dt } => sprk_start(s, t_end, nout, table, dt),
    }
}

/// Whether the steps of the system's own method can be counted.
pub open spec fn run_countable<S: Scalar>(s: SystemView<S>, t_end: S) -> bool {
    s.constraints.len() == 0 ==> (s.method matches Method::Sprk { table, dt } ==> steps_countable(
        s,
        t_end,
        table,
        dt,
    ))
}

/// Begins to integrate the system from its current time to `t_end` with its
/// method, in `nout` evenly spaced outputs.
pub fn run<S: Scalar>(system: &mut PhysicalObjectSystem<S>, t_end: S, nout: usize) -> (r: Result<
    Launch<S>,
    String,
>)
    requires
        old(system)@.wf(),
        run_countable(old(system)@, t_end),
    ensures
        started(final(system)@, r) == run_start(old(system)@, t_end, nout as nat),
        r matches Ok(Launch::Solver(drive)) ==> drive@.drives(final(system)@),
{
    system.contacts = Vec::new();
    if let Method::Ida = system.method {
        return Ok(Launch::Ida { t_end, nout });
    }
    let count = system.constraints.len();
    if count > 0 {
        let mut e = String::from_str("the system has ");
        append_number(&mut e, count as u64);
        e.append(" rigid constraint(s), which this method would ignore; use METHOD IDA");
        return Err(e);
    }
    match &system.method {
        Method::Sprk { table, dt } => {
            let table = table.clone();
            let dt = *dt;
            run_sprk(system, t_end, nout, table, dt)
        },
        Method::Bdf => run_cvode(system, t_end, nout, CV_BDF),
        _ => run_cvode(system, t_end, nout, CV_ADAMS),
    }
}

/// Begins to advance the system by the single interval `dt`, with one output.
pub fn step<S: Scalar>(system: &mut PhysicalObjectSystem<S>, dt: S) -> (r: Result<
    Launch<S>,
    String,
>)
    requires
        old(system)@.wf(),
        run_countable(old(system)@, old(system)@.time.spec_add(dt)),
    ensures
        started(final(system)@, r) == run_start(
            old(system)@,
            old(system)@.time.spec_add(dt),
            1,
        ),
        r matches Ok(Launch::Solver(drive)) ==> drive@.drives(final(system)@),
{
    let t_end = system.time.add(dt);
    run(system, t_end, 1)
}

/// The system of one body alone, under a constant force and torque and nothing
/// else at time zero, with the tolerances of `s`.
pub open spec fn lone<S: Scalar>(
    s: SystemView<S>,
    o: PhysicalObject<S>,
    force: Vec3<S>,
    torque: Vec3<S>,
) -> SystemView<S> {
    SystemView {
        time: zero(),
        objects: seq![o],
        external_forces: seq![force],
        external_torques: seq![torque],
        g_constant: zero(),
        uniform_gravity: Vec3::spec_zeros(),
        e_field: Vec3::spec_zeros(),
        b_field: Vec3::spec_zeros(),
        method: Method::Adams,
        constraints: Seq::empty(),
        ..s
    }
}

/// Begins to propagate the body `obj` alone for `dt`, under a constant force
/// and torque, with the tolerances of `system`, which becomes the system of that
/// body, at time zero. Once the run is finished the body is
/// `system.objects[0]`.
pub fn propagate_single<S: Scalar>(
    system: &mut PhysicalObjectSystem<S>,
    obj: &PhysicalObject<S>,
    force: Vec3<S>,
    torque: Vec3<S>,
    dt: S,
) -> (r: Result<Launch<S>, String>)
    requires
        2 * old(system)@.max_events_in_burst <= usize::MAX,
    ensures
        started(final(system)@, r) == run_start(
            lone(old(system)@, *obj, force, torque),
            zero::<S>().spec_add(dt),
            1,
        ),
        r matches Ok(Launch::Solver(drive)) ==> drive@.drives(final(system)@),
{
    system.time = S::decimal(0, 0);
    system.objects = vec![*obj];
    system.external_forces = vec![force];
    system.external_torques = vec![torque];
    system.g_constant = S::decimal(0, 0);
    system.uniform_gravity = Vec3::zeros();
    system.e_field = Vec3::zeros();
    system.b_field = Vec3::zeros();
    system.method = Method::Adams;
    system.constraints = ConstraintSet::default();
    assert(system@ =~= lone(old(system)@, *obj, force, torque));
    step(system, dt)
}

/// A system of separable point masses is one without a magnetic field, in which
/// nothing spins, nothing is magnetic and no torque acts; no other is refused,
/// and no other is taken.
pub proof fn separable_systems_are_point_masses<S: Scalar>(s: SystemView<S>)
    ensures
        separability_refusal(s) is None <==> {
            &&& s.b_field.spec_is_zero()
            &&& forall|i: int|
                0 <= i < s.objects.len() ==> !(#[trigger] s.objects[i]).spec_is_spinning()
                    && s.objects[i].magnetic_moment.spec_is_zero()
            &&& forall|i: int|
                0 <= i < s.external_torques.len() ==> (
                #[trigger] s.external_torques[i]).spec_is_zero()
        },
{
    unrefused_bodies(s.objects, s.objects.len());
    unrefused_torques(s.external_torques, s.external_torques.len());
}

proof fn unrefused_bodies<S: Scalar>(objects: Seq<PhysicalObject<S>>, n: nat)
    requires
        n <= objects.len(),
    ensures
        bodies_refusal(objects, n) is None <==> forall|i: int|
            0 <= i < n ==> !(#[trigger] objects[i]).spec_is_spinning()
                && objects[i].magnetic_moment.spec_is_zero(),
    decreases n,
{
    if n > 0 {
        unrefused_bodies(objects, (n - 1) as nat);
    }
}

proof fn unrefused_torques<S: Scalar>(torques: Seq<Vec3<S>>, n: nat)
    requires
        n <= torques.len(),
    ensures
        torques_refusal(torques, n) is None <==> forall|i: int|
            0 <= i < n ==> (#[trigger] torques[i]).spec_is_zero(),
    decreases n,
{
    if n > 0 {
        unrefused_torques(torques, (n - 1) as nat);
    }
}

/// A constrained system is refused by every method but the
/// differential-algebraic one, which takes it.
pub proof fn only_ida_takes_a_constrained_system<S: Scalar>(s: SystemView<S>, t_end: S, nout: nat)
    requires
        s.constraints.len() > 0,
    ensures
        run_start(s, t_end, nout).launch == if s.method is Ida {
            Ok::<LaunchView<S>, Seq<char>>(LaunchView::Ida { t_end, nout })
        } else {
            Err(constrained_text(s.constraints.len()))
        },
{
}

/// The start of a run clears the contacts, lets time pass where there is no
/// body to move, and changes nothing else.
pub proof fn starting_a_run_only_clears_contacts<S: Scalar>(s: SystemView<S>, t_end: S, nout: nat)
    ensures
        run_start(s, t_end, nout).system == (SystemView {
            contacts: Seq::empty(),
            time: match run_start(s, t_end, nout).launch {
                Ok(LaunchView::Done(_)) => t_end,
                _ => s.time,
            },
            ..s
        }),
        run_start(s, t_end, nout).launch matches Ok(LaunchView::Done(report)) ==> report
            == empty_report::<S>() && s.objects.len() == 0,
{
}

/// No solver run goes backwards or stands still.
pub proof fn a_run_goes_forward<S: Scalar>(s: SystemView<S>, t_end: S, nout: nat)
    requires
        t_end.spec_at_most(s.time),
        !(s.method is Ida),
    ensures
        run_start(s, t_end, nout).launch is Err,
{
}

/// A run is taken exactly when it goes forward and its method can take the
/// system: the differential-algebraic one any, every other only a system without
/// constraints, and the separable one only with a step above zero and, where
/// there are bodies, one of point masses without a magnetic field.
pub proof fn a_run_is_taken_exactly_when_its_method_can_take_it<S: Scalar>(
    s: SystemView<S>,
    t_end: S,
    nout: nat,
)
    ensures
        run_start(s, t_end, nout).launch is Ok <==> (s.method is Ida || {
            &&& s.constraints.len() == 0
            &&& !t_end.spec_at_most(s.time)
            &&& s.method matches Method::Sprk { dt, .. } ==> {
                &&& !dt.spec_is_nan() && !dt.spec_at_most(zero())
                &&& s.objects.len() > 0 ==> {
                    &&& s.b_field.spec_is_zero()
                    &&& forall|i: int|
                        0 <= i < s.objects.len() ==> {
                            let o = #[trigger] s.objects[i];
                            &&& o.angular_momentum.spec_is_zero()
                                || o.inverse_inertia.spec_is_zero()
                            &&& o.magnetic_moment.spec_is_zero()
                        }
                    &&& forall|i: int|
                        0 <= i < s.external_torques.len() ==> (
                        #[trigger] s.external_torques[i]).spec_is_zero()
                }
            }
        }),
{
    separable_systems_are_point_masses(SystemView { contacts: Seq::empty(), ..s });
}

/// A system that the separable method refuses for a body is refused for the first
/// that spins or has a magnetic moment, and the refusal names it.
pub proof fn the_first_offender_is_named<S: Scalar>(s: SystemView<S>, k: nat)
    requires
        s.b_field.spec_is_zero(),
        k < s.objects.len(),
        offends(s.objects[k as int]),
        forall|i: int| 0 <= i < k ==> !offends(#[trigger] s.objects[i]),
    ensures
        separability_refusal(s) matches Some(why) && mentions(why, numeral(k)),
        separability_refusal(s) == separability_refusal(
            SystemView { objects: s.objects.take(k as int + 1), ..s },
        ),
{
    the_first_refusal_stands(s.objects, k, s.objects.len());
    the_first_refusal_stands(s.objects.take(k as int + 1), k, k + 1);
    if s.objects[k as int].spec_is_spinning() {
        a_text_mentions_its_parts(
            "SPRK method integrates translational dynamics only: object "@,
            numeral(k),
            " has spinning rigid-body state (nonzero angular momentum and invertible inertia tensor); use METHOD ADAMS or BDF"@,
        );
    } else {
        a_text_mentions_its_parts(
            "SPRK method requires zero magnetic moment tensor (object "@,
            numeral(k),
            "); use METHOD ADAMS or BDF"@,
        );
    }
}

/// Whether a body is more than a point mass.
pub open spec fn offends<S: Scalar>(o: PhysicalObject<S>) -> bool {
    ||| !o.angular_momentum.spec_is_zero() && !o.inverse_inertia.spec_is_zero()
    ||| !o.magnetic_moment.spec_is_zero()
}

proof fn the_first_refusal_stands<S: Scalar>(
    objects: Seq<PhysicalObject<S>>,
    k: nat,
    n: nat,
)
    requires
        k < objects.len(),
        n <= objects.len(),
        offends(objects[k as int]),
        forall|i: int| 0 <= i < k ==> !offends(#[trigger] objects[i]),
    ensures
        bodies_refusal(objects, n) == if n <= k {
            None
        } else {
            body_refusal(objects[k as int], k)
        },
    decreases n,
{
    if n > 0 {
        the_first_refusal_stands(objects, k, (n - 1) as nat);
        if n <= k {
            assert(!offends(objects[n - 1]));
        }
    }
}

/// A run goes through the solver of its method, from the time of the system to
/// the end that was asked for, in as many outputs, and has nothing to report yet
/// and no event behind it.
pub proof fn a_run_goes_through_the_solver_of_its_method<S: Scalar>(
    s: SystemView<S>,
    t_end: S,
    nout: nat,
)
    ensures
        run_start(s, t_end, nout).launch matches Ok(launch) ==> match launch {
            LaunchView::Solver(run) => {
                &&& match s.method {
                    Method::Adams => run.engine == (Engine::Cvode::<S> { lmm: 1 }),
                    Method::Bdf => run.engine == (Engine::Cvode::<S> { lmm: 2 }),
                    Method::Sprk { table, dt } => run.engine == (Engine::Sprk { table, dt }),
                    Method::Ida => false,
                }
                &&& run.n == s.objects.len() && run.n > 0
                &&& run.nout >= 1 && (nout > 0 ==> run.nout == nout) && (nout == 0 ==> run.nout
                    == 1)
                &&& run.t0 == s.time && run.t == s.time && run.t_end == t_end
                &&& run.k == 0 && run.burst == 0
                &&& run.last_event_t == S::spec_infinity().spec_neg()
                &&& !run.armed && !run.roots_armed
                &&& run.report.snapshots.len() == 0 && run.report.ncollisions == 0
                &&& run.report.nst == 0 && run.report.nfe == 0 && run.report.nni == 0
                &&& run.report.netf == 0 && run.report.nge == 0
                &&& run.report.constraint_drift == (zero::<S>(), zero::<S>())
                &&& !run.report.tolerance_floored
                &&& run.report.initial_velocity_projected == zero::<S>()
            },
            LaunchView::Ida { t_end: end, nout: count } => s.method is Ida && end == t_end
                && count == nout,
            LaunchView::Done(report) => {
                &&& s.objects.len() == 0 && run_start(s, t_end, nout).system.time == t_end
                &&& report.snapshots.len() == 0 && report.ncollisions == 0 && report.nst == 0
                &&& report.nfe == 0 && report.nni == 0 && report.netf == 0 && report.nge == 0
            },
        },
{
}

/// A body is propagated alone: it is the only one, under the force and the torque
/// that were given and nothing else, from time zero, to the tolerances of the
/// system that lends them.
pub proof fn a_lone_body_is_alone<S: Scalar>(
    s: SystemView<S>,
    o: PhysicalObject<S>,
    force: Vec3<S>,
    torque: Vec3<S>,
)
    ensures
        ({
            let l = lone(s, o, force, torque);
            &&& l.objects.len() == 1 && l.objects[0] == o
            &&& l.external_forces.len() == 1 && l.external_forces[0] == force
            &&& l.external_torques.len() == 1 && l.external_torques[0] == torque
            &&& l.time == zero::<S>() && l.g_constant == zero::<S>()
            &&& l.uniform_gravity == Vec3::<S>::spec_zeros()
            &&& l.e_field == Vec3::<S>::spec_zeros() && l.b_field == Vec3::<S>::spec_zeros()
            &&& l.constraints.len() == 0 && l.method is Adams
            &&& l.rtol == s.rtol && l.atol == s.atol
        }),
{
}

/// A run that is launched belongs to its system, is on schedule, and has at
/// least one output ahead of it.
pub proof fn a_launched_run_is_in_order<S: Scalar>(s: SystemView<S>, t_end: S, nout: usize)
    requires
        s.wf(),
        run_countable(s, t_end),
    ensures
        run_start(s, t_end, nout as nat).launch matches Ok(LaunchView::Solver(run)) ==> {
            &&& run.drives(run_start(s, t_end, nout as nat).system)
            &&& run.on_schedule()
            &&& run.phase is Context
            &&& run.nout >= 1
            &&& run.t0 == s.time && run.t_end == t_end
        },
{
}

/// A lone body is always integrated by the Adams formulas, as long as time is
/// to pass at all.
pub proof fn a_lone_body_is_always_taken<S: Scalar>(
    s: SystemView<S>,
    o: PhysicalObject<S>,
    force: Vec3<S>,
    torque: Vec3<S>,
    t_end: S,
)
    requires
        !t_end.spec_at_most(zero()),
    ensures
        run_start(lone(s, o, force, torque), t_end, 1).launch matches Ok(LaunchView::Solver(run))
            && run.engine == (Engine::Cvode::<S> { lmm: CV_ADAMS }) && run.n == 1,
{
}

} // verus!
