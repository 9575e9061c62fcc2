//! The driver of a run: which solver call comes next, given what the last one
//! answered.
//!
//! A [`Drive`] never calls a solver. It asks for one call at a time, as an
//! [`Action`], and is told the answer by the method for that kind of answer.
//! It owns everything a run decides: the order of the calls, which failures
//! end the run and in which words, the output times, when rootfinding is
//! armed, when contacts turn plastic, when the solver's history has to be
//! discarded, and what the report adds up.
//!
//! Contacts come in bursts. An event that follows the previous one after a
//! real flight starts a new burst, however many outputs lie between: past the
//! burst limit impacts turn plastic, and past twice the limit penetration is
//! projected out and rootfinding is disarmed until the next output.

use crate::integrate::bounds::SurveyView;
use crate::integrate::dynamics::{RhsParams, RhsParamsView, SprkParams, SprkParamsView};
use crate::integrate::{fresh, Conserved, RunReport, RunReportView};
use crate::scalar::{one, Scalar};
use crate::system::{PhysicalObjectSystem, SystemView};
use crate::text::{append_signed, signed_numeral};
use vstd::prelude::*;

pub mod laws;
pub mod machine;
pub mod momenta;
pub mod questions;
pub mod steps;
pub mod transitions;

verus! {

/// The solver a run goes through.
#[derive(Clone, Debug)]
pub enum Engine<S> {
    /// Multistep with Newton iteration on the full state; `lmm` is the
    /// solver's number for the formula family.
    Cvode { lmm: i32 },
    /// Symplectic partitioned Runge-Kutta on the translational state.
    Sprk { table: String, dt: S },
}

/// Where a run stands: the call whose answer it waits for.
#[derive(Clone, Copy, Debug)]
pub enum Phase {
    Context,
    Vector,
    Load,
    Solver,
    Init,
    Tolerances,
    Matrix,
    LinearSolver,
    Attach,
    MethodName,
    FixedStep,
    MaxNumSteps,
    Pairs,
    UserData,
    ArmInit,
    ArmDirection,
    ArmQuiet,
    ArmSurvey,
    ArmMaxStep,
    RearmInit,
    RearmDirection,
    RearmQuiet,
    IntervalSurvey,
    IntervalMaxStep,
    Evolve,
    RootInfo,
    EventRead,
    Burst,
    Impulses,
    Projection,
    Disarm,
    EventStore,
    EventStats,
    EventReInit,
    EventSurvey,
    EventMaxStep,
    EndRead,
    RenormStore,
    RenormStats,
    RenormReInit,
    Overlaps,
    Sweep,
    SweepStore,
    SweepStats,
    SweepReInit,
    Measure,
    FinalStats,
    Finished,
}

/// Parameters for the solver's callbacks.
#[derive(Clone, Debug)]
pub enum Params<S> {
    Full(RhsParams<S>),
    Separable(SprkParams<S>),
}

/// What a run asks for next.
#[derive(Clone, Debug)]
pub enum Action<S> {
    /// Create the solver context. Answer: `on_context`.
    CreateContext,
    /// Create a state vector of this length. Answer: `on_made`.
    NewVector(usize),
    /// Copy this state into the state vector. Answer: `on_stored`.
    StoreState(Vec<S>),
    /// Create the integrator. Answer: `on_made`.
    CreateSolver,
    /// Initialize the integrator at this time. Answer: `on_code`.
    Init(S),
    /// Set the error tolerances. Answer: `on_code`.
    SetTolerances { rtol: S, atol: S },
    /// Create a dense square matrix of this size. Answer: `on_made`.
    NewMatrix(usize),
    /// Create the dense linear solver. Answer: `on_made`.
    NewLinearSolver,
    /// Attach the linear solver. Answer: `on_code`.
    AttachLinearSolver,
    /// Choose the coefficient table. Answer: `on_code`.
    SetMethodName(String),
    /// Set the fixed step. Answer: `on_code`.
    SetFixedStep(S),
    /// Limit the internal steps. Answer: `on_code`.
    SetMaxNumSteps(i64),
    /// Find the pairs of bodies that can collide. Answer: `on_pairs`.
    FindPairs,
    /// Hand the callbacks their parameters. Answer: `on_code`.
    SetUserData(Params<S>),
    /// Arm rootfinding with this many components. Answer: `on_code`.
    RootInit(usize),
    /// Report only roots of these directions. Answer: `on_code`.
    SetRootDirection(Vec<i32>),
    /// Silence the warning on inactive roots. Answer: `on_code`.
    SetNoInactiveRootWarn,
    /// Survey the bodies for the step cap. Answer: `on_survey`.
    Survey,
    /// Cap the internal step; zero lifts the cap. Answer: `on_code`.
    SetMaxStep(S),
    /// Integrate towards this time. Answer: `on_evolved`.
    Evolve(S),
    /// Ask which of this many roots were found. Answer: `on_roots`.
    RootInfo(usize),
    /// Copy the state out of the state vector. Answer: `on_read`.
    ReadState,
    /// Compare the times of two events. Answer: `on_burst`.
    CompareEvents { t: S, last: S },
    /// Resolve impulses at the flagged pairs and record the contacts.
    /// Answer: `on_resolved`.
    ResolveImpulses { flagged: Vec<bool>, force_plastic: bool },
    /// Project penetrations out and record the contacts. Answer:
    /// `on_resolved`.
    ResolvePenetrations { force_plastic: bool },
    /// Disarm rootfinding. Answer: `on_code`.
    DisarmRoots,
    /// Read the solver's counters. Answer: `on_stats`.
    GetStats,
    /// Restart the integrator at this time. Answer: `on_code`.
    ReInit(S),
    /// Measure how deep each pair overlaps. Answer: `on_overlaps`.
    MeasureOverlaps,
    /// Measure the conserved quantities. Answer: `on_conserved`.
    MeasureConserved,
    /// Release the solver. The run is finished and its report complete.
    Free,
}

/// The counters of the solver since it was last restarted.
#[derive(Clone, Copy, Debug)]
pub struct SolverStats {
    pub nst: i64,
    pub nfe: i64,
    pub nni: i64,
    pub netf: i64,
    pub nge: i64,
}

/// What a run asks for next, as mathematical values.
#[verifier::ext_equal]
pub enum ActionView<S> {
    CreateContext,
    NewVector(nat),
    StoreState(Seq<S>),
    CreateSolver,
    Init(S),
    SetTolerances { rtol: S, atol: S },
    NewMatrix(nat),
    NewLinearSolver,
    AttachLinearSolver,
    SetMethodName(Seq<char>),
    SetFixedStep(S),
    SetMaxNumSteps(int),
    FindPairs,
    SetFullData(RhsParamsView<S>),
    SetSeparableData(SprkParamsView<S>),
    RootInit(nat),
    SetRootDirection(Seq<i32>),
    SetNoInactiveRootWarn,
    Survey,
    SetMaxStep(S),
    Evolve(S),
    RootInfo(nat),
    ReadState,
    CompareEvents { t: S, last: S },
    ResolveImpulses { flagged: Seq<bool>, force_plastic: bool },
    ResolvePenetrations { force_plastic: bool },
    DisarmRoots,
    GetStats,
    ReInit(S),
    MeasureOverlaps,
    MeasureConserved,
    Free,
}

impl<S: Scalar> View for Action<S> {
    type V = ActionView<S>;

    open spec fn view(&self) -> ActionView<S> {
        match *self {
            Action::CreateContext => ActionView::CreateContext,
            Action::NewVector(n) => ActionView::NewVector(n as nat),
            Action::StoreState(d) => ActionView::StoreState(d@),
            Action::CreateSolver => ActionView::CreateSolver,
            Action::Init(t) => ActionView::Init(t),
            Action::SetTolerances { rtol, atol } => ActionView::SetTolerances { rtol, atol },
            Action::NewMatrix(n) => ActionView::NewMatrix(n as nat),
            Action::NewLinearSolver => ActionView::NewLinearSolver,
            Action::AttachLinearSolver => ActionView::AttachLinearSolver,
            Action::SetMethodName(table) => ActionView::SetMethodName(table@),
            Action::SetFixedStep(dt) => ActionView::SetFixedStep(dt),
            Action::SetMaxNumSteps(n) => ActionView::SetMaxNumSteps(n as int),
            Action::FindPairs => ActionView::FindPairs,
            Action::SetUserData(Params::Full(p)) => ActionView::SetFullData(p@),
            Action::SetUserData(Params::Separable(p)) => ActionView::SetSeparableData(p@),
            Action::RootInit(n) => ActionView::RootInit(n as nat),
            Action::SetRootDirection(d) => ActionView::SetRootDirection(d@),
            Action::SetNoInactiveRootWarn => ActionView::SetNoInactiveRootWarn,
            Action::Survey => ActionView::Survey,
            Action::SetMaxStep(h) => ActionView::SetMaxStep(h),
            Action::Evolve(t) => ActionView::Evolve(t),
            Action::RootInfo(n) => ActionView::RootInfo(n as nat),
            Action::ReadState => ActionView::ReadState,
            Action::CompareEvents { t, last } => ActionView::CompareEvents { t, last },
            Action::ResolveImpulses { flagged, force_plastic } => ActionView::ResolveImpulses {
                flagged: flagged@,
                force_plastic,
            },
            Action::ResolvePenetrations { force_plastic } => ActionView::ResolvePenetrations {
                force_plastic,
            },
            Action::DisarmRoots => ActionView::DisarmRoots,
            Action::GetStats => ActionView::GetStats,
            Action::ReInit(t) => ActionView::ReInit(t),
            Action::MeasureOverlaps => ActionView::MeasureOverlaps,
            Action::MeasureConserved => ActionView::MeasureConserved,
            Action::Free => ActionView::Free,
        }
    }
}

/// A run in progress.
#[derive(Debug)]
pub struct Drive<S> {
    phase: Phase,
    engine: Engine<S>,
    /// Number of bodies.
    n: usize,
    /// Number of outputs, and the one being integrated towards.
    nout: usize,
    k: usize,
    t0: S,
    t_end: S,
    /// The time reached, and the time of the present output.
    t: S,
    tout: S,
    /// The time of the last contact event, and how many there were in its
    /// burst.
    last_event_t: S,
    burst: usize,
    /// Whether collisions are watched for at all, and at this moment.
    armed: bool,
    roots_armed: bool,
    pairs: Vec<(usize, usize)>,
    /// Which pairs the last root belongs to.
    flagged: Vec<bool>,
    /// The state read at the end of the interval.
    held: Vec<S>,
    report: RunReport<S>,
}

/// A run in progress, as mathematical values.
#[verifier::ext_equal]
pub struct DriveView<S> {
    pub phase: Phase,
    pub engine: Engine<S>,
    pub n: nat,
    pub nout: nat,
    pub k: nat,
    pub t0: S,
    pub t_end: S,
    pub t: S,
    pub tout: S,
    pub last_event_t: S,
    pub burst: nat,
    pub armed: bool,
    pub roots_armed: bool,
    pub pairs: Seq<(usize, usize)>,
    pub flagged: Seq<bool>,
    pub held: Seq<S>,
    pub report: RunReportView<S>,
}

impl<S: Scalar> View for Drive<S> {
    type V = DriveView<S>;

    closed spec fn view(&self) -> DriveView<S> {
        DriveView {
            phase: self.phase,
            engine: self.engine,
            n: self.n as nat,
            nout: self.nout as nat,
            k: self.k as nat,
            t0: self.t0,
            t_end: self.t_end,
            t: self.t,
            tout: self.tout,
            last_event_t: self.last_event_t,
            burst: self.burst as nat,
            armed: self.armed,
            roots_armed: self.roots_armed,
            pairs: self.pairs@,
            flagged: self.flagged@,
            held: self.held@,
            report: self.report@,
        }
    }
}

impl<S: Scalar> Drive<S> {
    /// A run that has not asked for anything yet.
    pub(crate) fn begin(
        system: &PhysicalObjectSystem<S>,
        engine: Engine<S>,
        t_end: S,
        nout: usize,
    ) -> (r: Self)
        ensures
            r@ == fresh(system@, engine, t_end, nout as nat),
    {
        Drive {
            phase: Phase::Context,
            engine,
            n: system.objects.len(),
            nout: if nout == 0 {
                1
            } else {
                nout
            },
            k: 0,
            t0: system.time,
            t_end,
            t: system.time,
            tout: system.time,
            last_event_t: S::infinity().neg(),
            burst: 0,
            armed: false,
            roots_armed: false,
            pairs: Vec::new(),
            flagged: Vec::new(),
            held: Vec::new(),
            report: RunReport::default(),
        }
    }

    /// Where the run stands.
    pub fn phase(&self) -> (r: Phase)
        ensures
            r == self@.phase,
    {
        self.phase
    }

    /// The solver the run goes through.
    pub fn engine(&self) -> (r: &Engine<S>)
        ensures
            *r == self@.engine,
    {
        &self.engine
    }

    /// The number of bodies.
    pub fn bodies(&self) -> (r: usize)
        ensures
            r == self@.n,
    {
        self.n
    }

    /// The number of outputs.
    pub fn outputs(&self) -> (r: usize)
        ensures
            r == self@.nout,
    {
        self.nout
    }

    /// The time at which the run begins.
    pub fn start(&self) -> (r: S)
        ensures
            r == self@.t0,
    {
        self.t0
    }

    /// The time at which the run is to end.
    pub fn end(&self) -> (r: S)
        ensures
            r == self@.t_end,
    {
        self.t_end
    }

    /// The time reached.
    pub fn time(&self) -> (r: S)
        ensures
            r == self@.t,
    {
        self.t
    }

    /// The number of events in the present burst.
    pub fn burst(&self) -> (r: usize)
        ensures
            r == self@.burst,
    {
        self.burst
    }

    /// Whether collisions are watched for at this moment.
    pub fn roots_armed(&self) -> (r: bool)
        ensures
            r == self@.roots_armed,
    {
        self.roots_armed
    }

    /// The pairs that are watched.
    pub fn pairs(&self) -> (r: &Vec<(usize, usize)>)
        ensures
            r@ == self@.pairs,
    {
        &self.pairs
    }

    /// What the run has to report so far.
    pub fn report(&self) -> (r: &RunReport<S>)
        ensures
            r@ == self@.report,
    {
        &self.report
    }

    /// The report of the run.
    pub fn into_report(self) -> (r: RunReport<S>)
        ensures
            r@ == self@.report,
    {
        self.report
    }
}

/// What one answer leads to: the run and the system afterwards, and what is
/// asked next or why the run fails.
#[verifier::ext_equal]
pub struct Outcome<S> {
    pub run: DriveView<S>,
    pub system: SystemView<S>,
    pub reply: Result<ActionView<S>, Seq<char>>,
}

/// A reply, as mathematical values.
pub open spec fn reply_view<S: Scalar>(r: Result<Action<S>, String>) -> Result<
    ActionView<S>,
    Seq<char>,
> {
    match r {
        Ok(a) => Ok(a@),
        Err(e) => Err(e@),
    }
}

/// The answers a run can be given.
pub enum Answer<S> {
    Context { code: i32, present: bool },
    Made(bool),
    Stored(bool),
    Read(Option<Seq<S>>),
    Code(i32),
    Pairs(Seq<(usize, usize)>),
    Surveyed(SurveyView<S>),
    Evolved { code: i32, rooted: bool, t: S },
    Roots { code: i32, roots: Seq<i32> },
    Burst(bool),
    Resolved(Result<usize, Seq<char>>),
    Stats(SolverStats),
    Overlaps(Seq<Option<S>>),
    Conserved(Conserved<S>),
}

/// The message of a state vector whose components cannot be reached.
pub open spec fn no_array_text(what: Seq<char>) -> Seq<char> {
    "N_VGetArrayPointer returned NULL for "@ + what + " (not a serial N_Vector)"@
}

pub fn no_array(what: &str) -> (r: String)
    ensures
        r@ == no_array_text(what@),
{
    let mut r = String::from_str("N_VGetArrayPointer returned NULL for ");
    r.append(what);
    r.append(" (not a serial N_Vector)");
    r
}

/// The message of a call that answered with a failure code.
pub open spec fn failed_text(call: Seq<char>, code: int) -> Seq<char> {
    call + " failed: "@ + signed_numeral(code)
}

fn failed(call: &str, code: i32) -> (r: String)
    ensures
        r@ == failed_text(call@, code as int),
{
    let mut r = String::from_str(call);
    r.append(" failed: ");
    append_signed(&mut r, code as i64);
    r
}

/// Whether some pair overlaps deeper than the slop allows. A pair whose boxes
/// do not overlap has no separation to compare.
pub open spec fn needs_sweep<S: Scalar>(overlaps: Seq<Option<S>>, slop: S) -> bool {
    exists|k: int|
        0 <= k < overlaps.len() && (#[trigger] overlaps[k] matches Some(separation)
            && separation.spec_less(slop.spec_neg()))
}

fn sweep_needed<S: Scalar>(overlaps: &Vec<Option<S>>, slop: S) -> (r: bool)
    ensures
        r == needs_sweep(overlaps@, slop),
{
    let mut k: usize = 0;
    while k < overlaps.len()
        invariant
            k <= overlaps@.len(),
            forall|l: int|
                0 <= l < k ==> !(#[trigger] overlaps@[l] matches Some(separation)
                    && separation.spec_less(slop.spec_neg())),
        decreases overlaps@.len() - k,
    {
        if let Some(separation) = overlaps[k] {
            if separation.less(slop.neg()) {
                assert(overlaps@[k as int] matches Some(deep) && deep.spec_less(slop.spec_neg()));
                return true;
            }
        }
        k += 1;
    }
    false
}

/// Whether the time `t` is, to rounding, the output time `tout`.
pub open spec fn reaches<S: Scalar>(t: S, tout: S) -> bool {
    tout.spec_sub(t).spec_abs().spec_at_most(
        S::of_decimal(1, -12i32).spec_mul(tout.spec_abs().spec_larger(one())),
    )
}

/// The step limit of a fixed-step run: twice the steps it needs with some to
/// spare, and never less than two thousand.
pub open spec fn fixed_step_limit<S: Scalar>(t0: S, t_end: S, dt: S) -> int {
    let needed = t_end.spec_sub(t0).spec_div(dt).spec_ceil() + 16;
    2 * if needed < 1000 {
        1000
    } else {
        needed
    }
}

/// The message of a coefficient table that the solver does not know, where
/// `shown` is the table's name in quotes.
pub open spec fn method_name_failed_text(shown: Seq<char>, code: int) -> Seq<char> {
    "SPRKStepSetMethodName("@ + shown + ") failed: "@ + signed_numeral(code)
}

pub fn method_name_failed(shown: &str, code: i32) -> (r: String)
    ensures
        r@ == method_name_failed_text(shown@, code as int),
{
    let mut r = String::from_str("SPRKStepSetMethodName(");
    r.append(shown);
    r.append(") failed: ");
    append_signed(&mut r, code as i64);
    r
}

/// The direction of an approaching contact, once for each pair.
pub open spec fn downward(count: nat) -> Seq<i32> {
    Seq::new(count, |k: int| -1i32)
}

fn downwards(count: usize) -> (r: Vec<i32>)
    ensures
        r@ == downward(count as nat),
{
    let mut r: Vec<i32> = Vec::new();
    let mut k: usize = 0;
    while k < count
        invariant
            k <= count,
            r@ =~= downward(k as nat),
        decreases count - k,
    {
        r.push(-1);
        k += 1;
    }
    r
}

/// Which roots were found, from the solver's root flags.
pub open spec fn found(roots: Seq<i32>) -> Seq<bool> {
    roots.map_values(|r: i32| r != 0)
}

fn roots_found(roots: &Vec<i32>) -> (r: Vec<bool>)
    ensures
        r@ == found(roots@),
{
    let mut r: Vec<bool> = Vec::new();
    let mut k: usize = 0;
    while k < roots.len()
        invariant
            k <= roots@.len(),
            r@ =~= found(roots@.take(k as int)),
        decreases roots@.len() - k,
    {
        r.push(roots[k] != 0);
        proof {
            assert(roots@.take(k + 1) =~= roots@.take(k as int).push(roots@[k as int]));
        }
        k += 1;
    }
    assert(roots@.take(k as int) =~= roots@);
    r
}

impl<S: Scalar> RunReportView<S> {
    /// The report with the solver's counters added.
    pub open spec fn with_stats(self, st: SolverStats) -> Self {
        RunReportView {
            nst: (self.nst + st.nst) as i64,
            nfe: (self.nfe + st.nfe) as i64,
            nni: (self.nni + st.nni) as i64,
            netf: (self.netf + st.netf) as i64,
            nge: (self.nge + st.nge) as i64,
            ..self
        }
    }

    /// Whether the report can count these on top of what it holds.
    pub open spec fn has_room(self, st: SolverStats) -> bool {
        &&& i64::MIN <= self.nst + st.nst <= i64::MAX
        &&& i64::MIN <= self.nfe + st.nfe <= i64::MAX
        &&& i64::MIN <= self.nni + st.nni <= i64::MAX
        &&& i64::MIN <= self.netf + st.netf <= i64::MAX
        &&& i64::MIN <= self.nge + st.nge <= i64::MAX
    }
}

/// What a call of a run's methods leads to.
pub open spec fn told<S: Scalar>(
    run: DriveView<S>,
    system: SystemView<S>,
    r: Result<Action<S>, String>,
) -> Outcome<S> {
    Outcome { run, system, reply: reply_view(r) }
}

/// The components that were read, as a sequence.
pub open spec fn seq_of<S>(read: Option<Vec<S>>) -> Option<Seq<S>> {
    match read {
        Some(d) => Some(d@),
        None => None,
    }
}

/// A count or a message, the message as a sequence of characters.
pub open spec fn text_of(resolved: Result<usize, String>) -> Result<usize, Seq<char>> {
    match resolved {
        Ok(count) => Ok(count),
        Err(why) => Err(why@),
    }
}

} // verus!
