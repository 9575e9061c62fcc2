//! What holds of every run, whatever the answers.

use crate::integrate::bounds::SurveyView;
use crate::integrate::driver::steps::{step_follows, step_keeps_order};
use crate::integrate::driver::{
    needs_sweep, reaches, ActionView, Answer, DriveView, Engine, Phase, SolverStats,
};
use crate::integrate::{fresh, outputs, snapshot_at, Conserved};
use crate::linalg::Vec3;
use crate::scalar::{zero, Scalar};
use crate::system::{
    packing_undoes_unpacking, packing_undoes_unpacking_translation, PhysicalObject, SystemView,
};
use vstd::prelude::*;

verus! {

/// What the question `action` is answered by.
pub open spec fn answered_by<S>(action: ActionView<S>, answer: Answer<S>) -> bool {
    match action {
        ActionView::CreateContext => answer is Context,
        ActionView::NewVector(_) | ActionView::CreateSolver | ActionView::NewMatrix(_)
        | ActionView::NewLinearSolver => answer is Made,
        ActionView::StoreState(_) => answer is Stored,
        ActionView::ReadState => answer is Read,
        ActionView::FindPairs => answer is Pairs,
        ActionView::Survey => answer is Surveyed,
        ActionView::Evolve(_) => answer is Evolved,
        ActionView::RootInfo(_) => answer is Roots,
        ActionView::CompareEvents { .. } => answer is Burst,
        ActionView::ResolveImpulses { .. } | ActionView::ResolvePenetrations { .. } => {
            answer is Resolved
        },
        ActionView::GetStats => answer is Stats,
        ActionView::MeasureOverlaps => answer is Overlaps,
        ActionView::MeasureConserved => answer is Conserved,
        ActionView::Free => false,
        _ => answer is Code,
    }
}

/// Whether the question belongs to the detection of collisions.
pub open spec fn about_collisions<S>(action: ActionView<S>) -> bool {
    match action {
        ActionView::RootInit(_) | ActionView::SetRootDirection(_)
        | ActionView::SetNoInactiveRootWarn | ActionView::Survey | ActionView::SetMaxStep(_)
        | ActionView::RootInfo(_) | ActionView::CompareEvents { .. }
        | ActionView::ResolveImpulses { .. } | ActionView::ResolvePenetrations { .. }
        | ActionView::DisarmRoots | ActionView::MeasureOverlaps => true,
        _ => false,
    }
}

impl<S: Scalar> DriveView<S> {
    /// Whether the first interval has not begun yet.
    pub open spec fn in_setup(self) -> bool {
        match self.phase {
            Phase::Context | Phase::Vector | Phase::Load | Phase::Solver | Phase::Init
            | Phase::Tolerances | Phase::Matrix | Phase::LinearSolver | Phase::Attach
            | Phase::MethodName | Phase::FixedStep | Phase::MaxNumSteps | Phase::Pairs
            | Phase::UserData | Phase::ArmInit | Phase::ArmDirection | Phase::ArmQuiet
            | Phase::ArmSurvey | Phase::ArmMaxStep => true,
            _ => false,
        }
    }

    /// Whether the run has recorded the outputs before the present one, which
    /// lies at its even place, and all of them once it only counts up.
    pub open spec fn on_schedule(self) -> bool {
        if self.in_setup() {
            self.k == 0 && self.report.snapshots.len() == 0
        } else if self.phase is FinalStats {
            self.report.snapshots.len() == self.nout
        } else if self.phase is Finished {
            self.report.snapshots.len() <= self.nout
        } else {
            &&& 1 <= self.k <= self.nout
            &&& self.report.snapshots.len() == self.k - 1
            &&& self.tout == self.output_time(self.k)
        }
    }

    /// Whether the clock of the system shows the time the run has reached,
    /// as it does from when the state was read until the solver goes on.
    pub open spec fn in_time(self, s: SystemView<S>) -> bool {
        match self.phase {
            Phase::Burst | Phase::Impulses | Phase::Projection | Phase::Disarm | Phase::EventStore
            | Phase::EventStats | Phase::EventReInit | Phase::EventSurvey | Phase::EventMaxStep
            | Phase::Overlaps | Phase::Sweep | Phase::SweepStore | Phase::SweepStats
            | Phase::SweepReInit | Phase::Measure | Phase::FinalStats => s.time == self.t,
            _ => true,
        }
    }

    /// Whether an interval is being brought to its end: its last state has been
    /// read, and its snapshot is not recorded yet.
    pub open spec fn ending(self) -> bool {
        match self.phase {
            Phase::RenormStore | Phase::RenormStats | Phase::RenormReInit | Phase::Overlaps
            | Phase::Sweep | Phase::SweepStore | Phase::SweepStats | Phase::SweepReInit
            | Phase::Measure => true,
            _ => false,
        }
    }

    /// Whether an event that the solver reported is being dealt with.
    pub open spec fn in_event(self) -> bool {
        match self.phase {
            Phase::RootInfo | Phase::EventRead | Phase::Burst | Phase::Impulses
            | Phase::Projection | Phase::Disarm | Phase::EventStore | Phase::EventStats
            | Phase::EventReInit | Phase::EventSurvey | Phase::EventMaxStep => true,
            _ => false,
        }
    }

    /// How many phases can at most follow within the present interval, unless
    /// the solver reports a root.
    pub open spec fn phases_left(self) -> nat {
        match self.phase {
            Phase::Context => 47,
            Phase::Vector => 46,
            Phase::Load => 45,
            Phase::Solver => 44,
            Phase::Init => 43,
            Phase::Tolerances => 42,
            Phase::Matrix => 41,
            Phase::LinearSolver => 40,
            Phase::Attach => 39,
            Phase::MethodName => 38,
            Phase::FixedStep => 37,
            Phase::MaxNumSteps => 36,
            Phase::Pairs => 35,
            Phase::UserData => 34,
            Phase::ArmInit => 33,
            Phase::ArmDirection => 32,
            Phase::ArmQuiet => 31,
            Phase::ArmSurvey => 30,
            Phase::ArmMaxStep => 29,
            Phase::RearmInit => 28,
            Phase::RearmDirection => 27,
            Phase::RearmQuiet => 26,
            Phase::IntervalSurvey => 25,
            Phase::IntervalMaxStep => 24,
            Phase::RootInfo => 23,
            Phase::EventRead => 22,
            Phase::Burst => 21,
            Phase::Impulses => 20,
            Phase::Projection => 19,
            Phase::Disarm => 18,
            Phase::EventStore => 17,
            Phase::EventStats => 16,
            Phase::EventReInit => 15,
            Phase::EventSurvey => 14,
            Phase::EventMaxStep => 13,
            Phase::Evolve => 12,
            Phase::EndRead => 11,
            Phase::RenormStore => 10,
            Phase::RenormStats => 9,
            Phase::RenormReInit => 8,
            Phase::Overlaps => 7,
            Phase::Sweep => 6,
            Phase::SweepStore => 5,
            Phase::SweepStats => 4,
            Phase::SweepReInit => 3,
            Phase::Measure => 2,
            Phase::FinalStats => 1,
            Phase::Finished => 0,
        }
    }

    /// Whether the run is nearer to its end than another: in a later interval,
    /// or further on in the same.
    pub open spec fn is_past(self, other: Self) -> bool {
        self.k > other.k || (self.k == other.k && self.phases_left() < other.phases_left())
    }

    /// Whether nothing is left that could involve a collision: none is
    /// watched for, and none is being dealt with.
    pub open spec fn undisturbed(self) -> bool {
        &&& !self.armed
        &&& match self.phase {
            Phase::UserData | Phase::Evolve | Phase::EndRead | Phase::RenormStore
            | Phase::RenormStats | Phase::RenormReInit | Phase::Measure | Phase::FinalStats
            | Phase::Finished => true,
            _ => false,
        }
    }
}

/// Whether the body `b` is the body `a` with another position and momentum, and
/// the same in everything else.
pub open spec fn only_moved<S: Scalar>(a: PhysicalObject<S>, b: PhysicalObject<S>) -> bool {
    b == PhysicalObject { position: b.position, momentum: b.momentum, ..a }
}

/// Whether the body `b` is the body `a` in another state of motion: the same in
/// mass, charge, tensors and boundary.
pub open spec fn same_make<S: Scalar>(a: PhysicalObject<S>, b: PhysicalObject<S>) -> bool {
    b == PhysicalObject {
        position: b.position,
        momentum: b.momentum,
        orientation: b.orientation,
        angular_momentum: b.angular_momentum,
        ..a
    }
}

/// The contacts that an answer reports.
pub open spec fn contacts_in<S>(answer: Answer<S>) -> nat {
    match answer {
        Answer::Resolved(Ok(count)) => count as nat,
        _ => 0,
    }
}

/// The solver counters that an answer reports.
pub open spec fn counters_in<S>(answer: Answer<S>) -> SolverStats {
    match answer {
        Answer::Stats(st) => st,
        _ => SolverStats { nst: 0, nfe: 0, nni: 0, netf: 0, nge: 0 },
    }
}

/// An answer to the question a run has put: that all went well, and that
/// nothing happened.
pub open spec fn plain_answer<S: Scalar>(run: DriveView<S>) -> Answer<S> {
    match run.phase {
        Phase::Context => Answer::Context { code: 0, present: true },
        Phase::Vector | Phase::Solver | Phase::Matrix | Phase::LinearSolver => Answer::Made(true),
        Phase::Load | Phase::EventStore | Phase::RenormStore | Phase::SweepStore => {
            Answer::Stored(true)
        },
        Phase::EventRead | Phase::EndRead => Answer::Read(
            Some(Seq::new(run.state_len(), |i: int| zero())),
        ),
        Phase::Pairs => Answer::Pairs(Seq::empty()),
        Phase::ArmSurvey | Phase::IntervalSurvey | Phase::EventSurvey => Answer::Surveyed(
            SurveyView {
                accelerations: Seq::new(run.n, |i: int| Vec3::spec_zeros()),
                bounding_radii: Seq::new(run.n, |i: int| zero()),
            },
        ),
        Phase::Evolve => Answer::Evolved { code: 0, rooted: false, t: run.tout },
        Phase::RootInfo => Answer::Roots { code: 0, roots: Seq::new(run.pairs.len(), |i: int| 0) },
        Phase::Burst => Answer::Burst(false),
        Phase::Impulses | Phase::Projection | Phase::Sweep => Answer::Resolved(Ok(0)),
        Phase::EventStats | Phase::RenormStats | Phase::SweepStats
        | Phase::FinalStats => Answer::Stats(
            SolverStats { nst: 0, nfe: 0, nni: 0, netf: 0, nge: 0 },
        ),
        Phase::Overlaps => Answer::Overlaps(Seq::new(run.pairs.len(), |i: int| None)),
        Phase::Measure => Answer::Conserved(
            Conserved {
                energy: zero(),
                total_momentum: Vec3::spec_zeros(),
                total_angular_momentum: Vec3::spec_zeros(),
                center_of_mass: Vec3::spec_zeros(),
            },
        ),
        _ => Answer::Code(0),
    }
}

/// A run that is given an answer it waits for still belongs to its system
/// afterwards, and waits in a state in which it can be answered again.
pub proof fn an_answer_keeps_the_run_in_order<S: Scalar>(
    run: DriveView<S>,
    s: SystemView<S>,
    answer: Answer<S>,
)
    requires
        run.drives(s),
        run.awaits(s, answer),
    ensures
        run.step(s, answer).in_order(),
{
    step_keeps_order(run, s, answer);
}

/// What a run asks for is what it waits for: whatever it can be answered next
/// is an answer to the question it has just put.
pub proof fn a_run_waits_for_what_it_asks<S: Scalar>(
    run: DriveView<S>,
    s: SystemView<S>,
    answer: Answer<S>,
)
    requires
        run.drives(s),
        run.awaits(s, answer),
    ensures
        run.step(s, answer).reply matches Ok(action) ==> forall|next: Answer<S>|
            #![trigger answered_by(action, next)]
            run.step(s, answer).run.awaits(run.step(s, answer).system, next) ==> answered_by(
                action,
                next,
            ),
{
    step_follows(run, s, answer);
}

/// A run is never stuck: until it is finished it can be answered, if only that
/// nothing happened, as long as the events of its burst can be counted.
pub proof fn a_run_is_never_stuck<S: Scalar>(
    run: DriveView<S>,
    s: SystemView<S>,
    answer: Answer<S>,
)
    requires
        run.drives(s),
        run.awaits(s, answer),
        run.step(s, answer).run.burst < usize::MAX,
    ensures
        run.step(s, answer).run.phase is Finished || run.step(s, answer).run.awaits(
            run.step(s, answer).system,
            plain_answer(run.step(s, answer).run),
        ),
{
    step_follows(run, s, answer);
}

/// A run comes to its end: every answer brings it nearer to the last phase of
/// the last interval, except the report of a root, which may keep it longer.
pub proof fn every_answer_but_a_root_brings_the_end_nearer<S: Scalar>(
    run: DriveView<S>,
    s: SystemView<S>,
    answer: Answer<S>,
)
    requires
        run.drives(s),
        run.awaits(s, answer),
        run.on_schedule(),
        !(answer matches Answer::Evolved { rooted: true, .. }),
    ensures
        run.step(s, answer).run.is_past(run),
        run.step(s, answer).run.k <= run.nout,
{
    step_follows(run, s, answer);
    step_keeps_order(run, s, answer);
}

/// A run that fails is over.
pub proof fn a_failed_run_is_finished<S: Scalar>(
    run: DriveView<S>,
    s: SystemView<S>,
    answer: Answer<S>,
)
    requires
        run.drives(s),
        run.awaits(s, answer),
    ensures
        run.step(s, answer).reply is Err ==> run.step(s, answer).run.phase is Finished,
{
    step_follows(run, s, answer);
}

/// A finished run takes no more answers.
pub proof fn a_finished_run_takes_no_answer<S: Scalar>(
    run: DriveView<S>,
    s: SystemView<S>,
    answer: Answer<S>,
)
    requires
        run.phase is Finished,
    ensures
        !run.awaits(s, answer),
{
}

/// A run never changes its own terms: the solver, the number of bodies and of
/// outputs, the beginning and the end.
pub proof fn a_run_keeps_its_terms<S: Scalar>(
    run: DriveView<S>,
    s: SystemView<S>,
    answer: Answer<S>,
)
    requires
        run.drives(s),
        run.awaits(s, answer),
    ensures
        run.step(s, answer).run.engine == run.engine,
        run.step(s, answer).run.n == run.n,
        run.step(s, answer).run.nout == run.nout,
        run.step(s, answer).run.t0 == run.t0,
        run.step(s, answer).run.t_end == run.t_end,
{
    step_follows(run, s, answer);
}

/// Of the system a run changes the state of the bodies, the clock and the count
/// of collisions, and nothing else.
pub proof fn a_run_changes_only_state_clock_and_count<S: Scalar>(
    run: DriveView<S>,
    s: SystemView<S>,
    answer: Answer<S>,
)
    requires
        run.drives(s),
        run.awaits(s, answer),
    ensures
        run.step(s, answer).system == (SystemView {
            objects: run.step(s, answer).system.objects,
            time: run.step(s, answer).system.time,
            collision_count: run.step(s, answer).system.collision_count,
            ..s
        }),
{
    step_follows(run, s, answer);
}

/// A run moves and turns the bodies and changes nothing else of them: their
/// number, their masses, charges, tensors and boundaries stay as they were.
pub proof fn a_run_keeps_what_the_bodies_are<S: Scalar>(
    run: DriveView<S>,
    s: SystemView<S>,
    answer: Answer<S>,
)
    requires
        run.drives(s),
        run.awaits(s, answer),
    ensures
        run.step(s, answer).system.objects.len() == s.objects.len(),
        forall|i: int|
            0 <= i < s.objects.len() ==> same_make(
                s.objects[i],
                #[trigger] run.step(s, answer).system.objects[i],
            ),
{
    step_follows(run, s, answer);
}

/// A separable run changes nothing of a body but its position and its momentum:
/// it turns none, and what a body is stays as it was.
pub proof fn a_separable_run_only_moves_bodies<S: Scalar>(
    run: DriveView<S>,
    s: SystemView<S>,
    answer: Answer<S>,
)
    requires
        run.drives(s),
        run.awaits(s, answer),
        run.separable(),
    ensures
        run.step(s, answer).system.objects.len() == s.objects.len(),
        forall|i: int|
            0 <= i < s.objects.len() ==> only_moved(
                s.objects[i],
                #[trigger] run.step(s, answer).system.objects[i],
            ),
{
    step_follows(run, s, answer);
}

/// The clock of the system keeps up with the run: it shows the time reached
/// whenever the bodies are in the state that belongs to that time.
pub proof fn the_clock_keeps_up<S: Scalar>(
    run: DriveView<S>,
    s: SystemView<S>,
    answer: Answer<S>,
)
    requires
        run.drives(s),
        run.awaits(s, answer),
        run.in_time(s),
    ensures
        run.step(s, answer).run.in_time(run.step(s, answer).system),
{
    step_follows(run, s, answer);
}

/// A snapshot is recorded when the conserved quantities were measured, at the
/// time the run has reached, and never otherwise.
pub proof fn a_snapshot_is_recorded_for_each_measurement<S: Scalar>(
    run: DriveView<S>,
    s: SystemView<S>,
    answer: Answer<S>,
)
    requires
        run.drives(s),
        run.awaits(s, answer),
    ensures
        run.step(s, answer).run.report.snapshots == match answer {
            Answer::Conserved(measured) => run.report.snapshots.push(
                snapshot_at(measured, run.t),
            ),
            _ => run.report.snapshots,
        },
{
    step_follows(run, s, answer);
}

/// A run in which no collision is watched for asks nothing about collisions,
/// unless the solver reports a root that it was not asked to find.
pub proof fn what_is_not_watched_is_not_asked_about<S: Scalar>(
    run: DriveView<S>,
    s: SystemView<S>,
    answer: Answer<S>,
)
    requires
        run.drives(s),
        run.awaits(s, answer),
        run.undisturbed(),
        !(answer matches Answer::Evolved { rooted: true, .. }),
    ensures
        run.step(s, answer).run.undisturbed(),
        run.step(s, answer).reply matches Ok(action) ==> !about_collisions(action),
{
    step_follows(run, s, answer);
}

/// The contacts that an answer reports are counted once in the report and once
/// in the system.
pub proof fn contacts_are_counted_in_both_places<S: Scalar>(
    run: DriveView<S>,
    s: SystemView<S>,
    answer: Answer<S>,
)
    requires
        run.drives(s),
        run.awaits(s, answer),
    ensures
        run.step(s, answer).run.report.ncollisions == run.report.ncollisions + contacts_in(answer),
        run.step(s, answer).system.collision_count == s.collision_count + contacts_in(answer),
{
    step_follows(run, s, answer);
}

/// The burst of contact events outlives the outputs: nothing but the next event
/// continues it or begins another.
pub proof fn a_burst_outlives_the_outputs<S: Scalar>(
    run: DriveView<S>,
    s: SystemView<S>,
    answer: Answer<S>,
)
    requires
        run.drives(s),
        run.awaits(s, answer),
        !(answer is Burst),
    ensures
        run.step(s, answer).run.burst == run.burst,
        run.step(s, answer).run.last_event_t == run.last_event_t,
{
    step_follows(run, s, answer);
}

/// Impacts turn plastic exactly when their burst is past the limit.
pub proof fn impacts_turn_plastic_past_the_limit<S: Scalar>(
    run: DriveView<S>,
    s: SystemView<S>,
    answer: Answer<S>,
)
    requires
        run.drives(s),
        run.awaits(s, answer),
    ensures
        run.step(s, answer).reply matches Ok(
            ActionView::ResolveImpulses { force_plastic, .. },
        ) ==> force_plastic == (run.step(s, answer).run.burst > s.max_events_in_burst),
{
    step_follows(run, s, answer);
}

/// Penetration is projected out plastically only past twice the burst limit
/// while roots are watched for, and otherwise only where some pair was measured
/// to overlap deeper than the slop.
pub proof fn penetration_is_projected_out_for_cause<S: Scalar>(
    run: DriveView<S>,
    s: SystemView<S>,
    answer: Answer<S>,
)
    requires
        run.drives(s),
        run.awaits(s, answer),
    ensures
        run.step(s, answer).reply matches Ok(ActionView::ResolvePenetrations { force_plastic })
            ==> if force_plastic {
            run.roots_armed && run.step(s, answer).run.burst > 2 * s.max_events_in_burst
        } else {
            answer matches Answer::Overlaps(overlaps) && needs_sweep(overlaps, s.contact_slop)
        },
{
    step_follows(run, s, answer);
}

/// Rootfinding is disarmed only after penetration was projected out.
pub proof fn roots_are_disarmed_after_projection<S: Scalar>(
    run: DriveView<S>,
    s: SystemView<S>,
    answer: Answer<S>,
)
    requires
        run.drives(s),
        run.awaits(s, answer),
    ensures
        run.step(s, answer).reply == Ok::<ActionView<S>, Seq<char>>(ActionView::DisarmRoots)
            ==> run.phase is Projection,
        run.roots_armed && !run.step(s, answer).run.roots_armed && !(answer is Pairs)
            ==> run.phase is Disarm,
{
    step_follows(run, s, answer);
}

/// Every interval begins with rootfinding as it was first armed: where it was
/// disarmed, it is armed again before the solver goes on.
pub proof fn roots_are_armed_again_for_every_output<S: Scalar>(
    run: DriveView<S>,
    s: SystemView<S>,
    answer: Answer<S>,
)
    requires
        run.drives(s),
        run.awaits(s, answer),
    ensures
        ({
            let o = run.step(s, answer);
            o.run.k != run.k ==> o.run.roots_armed == o.run.armed || o.reply == Ok::<
                ActionView<S>,
                Seq<char>,
            >(ActionView::RootInit(o.run.pairs.len()))
        }),
        ({
            let o = run.step(s, answer);
            (run.phase is RearmInit || run.phase is RearmDirection || run.phase is RearmQuiet)
                && o.reply is Ok ==> o.run.roots_armed || o.run.phase is RearmDirection
                || o.run.phase is RearmQuiet
        }),
{
    step_follows(run, s, answer);
}

/// After an event the solver is never asked to integrate over no time at all.
pub proof fn no_empty_interval_follows_an_event<S: Scalar>(
    run: DriveView<S>,
    s: SystemView<S>,
    answer: Answer<S>,
)
    requires
        run.drives(s),
        run.awaits(s, answer),
        run.phase is EventReInit || run.phase is EventMaxStep,
    ensures
        run.step(s, answer).reply matches Ok(ActionView::Evolve(tout)) ==> !reaches(
            run.step(s, answer).run.t,
            tout,
        ),
{
    step_follows(run, s, answer);
}

/// The multistep solver is restarted only when its counters, which a restart
/// zeroes, have just been added to the report.
pub proof fn counters_are_read_before_a_restart<S: Scalar>(
    run: DriveView<S>,
    s: SystemView<S>,
    answer: Answer<S>,
)
    requires
        run.drives(s),
        run.awaits(s, answer),
        !run.separable(),
    ensures
        run.step(s, answer).reply matches Ok(ActionView::ReInit(_)) ==> answer is Stats,
{
    step_follows(run, s, answer);
}

/// A state that was read into the system is, as long as no body is moved, the
/// state that would be stored again.
pub proof fn a_state_read_is_the_state_stored<S: Scalar>(
    run: DriveView<S>,
    s: SystemView<S>,
    d: Seq<S>,
)
    requires
        run.drives(s),
        d.len() == run.state_len(),
    ensures
        run.state_of(run.system_at(s, d)) == d,
{
    if run.separable() {
        packing_undoes_unpacking_translation(s.objects, d);
    } else {
        packing_undoes_unpacking(s.objects, d);
    }
}

/// One exchange of a run: an answer, and the system as it then stands. Between
/// two exchanges the bodies may have been moved to resolve contacts.
pub struct Turn<S> {
    pub system: SystemView<S>,
    pub answer: Answer<S>,
}

/// The run after a number of exchanges.
pub open spec fn after<S: Scalar>(run: DriveView<S>, turns: Seq<Turn<S>>) -> DriveView<S>
    decreases turns.len(),
{
    if turns.len() == 0 {
        run
    } else {
        after(run, turns.drop_last()).step(turns.last().system, turns.last().answer).run
    }
}

/// Whether every answer was one that the run waited for.
pub open spec fn a_course<S: Scalar>(run: DriveView<S>, turns: Seq<Turn<S>>) -> bool
    decreases turns.len(),
{
    turns.len() > 0 ==> {
        &&& a_course(run, turns.drop_last())
        &&& after(run, turns.drop_last()).drives(turns.last().system)
        &&& after(run, turns.drop_last()).awaits(turns.last().system, turns.last().answer)
    }
}

/// The contacts reported in the course of a run.
pub open spec fn contacts_of<S>(turns: Seq<Turn<S>>) -> nat
    decreases turns.len(),
{
    if turns.len() == 0 {
        0
    } else {
        contacts_of(turns.drop_last()) + contacts_in(turns.last().answer)
    }
}

/// The sums of the solver's counters.
pub struct Tally {
    pub nst: int,
    pub nfe: int,
    pub nni: int,
    pub netf: int,
    pub nge: int,
}

/// The sums of the solver's counters reported in the course of a run.
pub open spec fn tally_of<S>(turns: Seq<Turn<S>>) -> Tally
    decreases turns.len(),
{
    if turns.len() == 0 {
        Tally { nst: 0, nfe: 0, nni: 0, netf: 0, nge: 0 }
    } else {
        let before = tally_of(turns.drop_last());
        let st = counters_in(turns.last().answer);
        Tally {
            nst: before.nst + st.nst,
            nfe: before.nfe + st.nfe,
            nni: before.nni + st.nni,
            netf: before.netf + st.netf,
            nge: before.nge + st.nge,
        }
    }
}

/// Whether the solver never reports a root.
pub open spec fn rootless<S>(turns: Seq<Turn<S>>) -> bool {
    forall|i: int|
        0 <= i < turns.len() ==> !((#[trigger] turns[i]).answer matches Answer::Evolved {
            rooted: true,
            ..
        })
}

/// A run that begins well stays in order and on schedule to its end: each
/// interval ends at its even place, and leaves one snapshot behind.
pub proof fn a_run_stays_on_schedule<S: Scalar>(
    s: SystemView<S>,
    engine: Engine<S>,
    t_end: S,
    nout: nat,
    turns: Seq<Turn<S>>,
)
    requires
        fresh(s, engine, t_end, nout).drives(s),
        a_course(fresh(s, engine, t_end, nout), turns),
    ensures
        after(fresh(s, engine, t_end, nout), turns).wf(),
        after(fresh(s, engine, t_end, nout), turns).on_schedule(),
        after(fresh(s, engine, t_end, nout), turns).nout == outputs(nout),
    decreases turns.len(),
{
    if turns.len() > 0 {
        let run = after(fresh(s, engine, t_end, nout), turns.drop_last());
        a_run_stays_on_schedule(s, engine, t_end, nout, turns.drop_last());
        step_follows(run, turns.last().system, turns.last().answer);
        step_keeps_order(run, turns.last().system, turns.last().answer);
    }
}

/// A run that is completed has recorded exactly one snapshot for each output.
pub proof fn a_completed_run_has_a_snapshot_for_each_output<S: Scalar>(
    s: SystemView<S>,
    engine: Engine<S>,
    t_end: S,
    nout: nat,
    turns: Seq<Turn<S>>,
    last: Turn<S>,
)
    requires
        fresh(s, engine, t_end, nout).drives(s),
        a_course(fresh(s, engine, t_end, nout), turns.push(last)),
        after(fresh(s, engine, t_end, nout), turns).step(last.system, last.answer).reply == Ok::<
            ActionView<S>,
            Seq<char>,
        >(ActionView::Free),
    ensures
        after(fresh(s, engine, t_end, nout), turns.push(last)).report.snapshots.len() == outputs(
            nout,
        ),
{
    assert(turns.push(last).drop_last() =~= turns);
    a_run_stays_on_schedule(s, engine, t_end, nout, turns);
    step_follows(after(fresh(s, engine, t_end, nout), turns), last.system, last.answer);
}

/// The report adds up what was reported in the course of the run: every
/// contact and every counter, except that a fixed-step run computes the
/// number of its steps. No restart loses any of it.
pub proof fn a_report_adds_up<S: Scalar>(run: DriveView<S>, turns: Seq<Turn<S>>)
    requires
        a_course(run, turns),
    ensures
        after(run, turns).engine == run.engine,
        after(run, turns).report.ncollisions == run.report.ncollisions + contacts_of(turns),
        !run.separable() ==> after(run, turns).report.nst == run.report.nst + tally_of(turns).nst,
        after(run, turns).report.nfe == run.report.nfe + tally_of(turns).nfe,
        after(run, turns).report.nni == run.report.nni + tally_of(turns).nni,
        after(run, turns).report.netf == run.report.netf + tally_of(turns).netf,
        after(run, turns).report.nge == run.report.nge + tally_of(turns).nge,
    decreases turns.len(),
{
    if turns.len() > 0 {
        a_report_adds_up(run, turns.drop_last());
        step_follows(after(run, turns.drop_last()), turns.last().system, turns.last().answer);
    }
}

/// A run that watches for no collisions and whose solver reports no root goes
/// its whole course without a question about collisions.
pub proof fn an_undisturbed_run_stays_undisturbed<S: Scalar>(
    run: DriveView<S>,
    turns: Seq<Turn<S>>,
    last: Turn<S>,
)
    requires
        run.undisturbed(),
        a_course(run, turns.push(last)),
        rootless(turns.push(last)),
    ensures
        after(run, turns.push(last)).undisturbed(),
        after(run, turns).step(last.system, last.answer).reply matches Ok(action)
            ==> !about_collisions(action),
    decreases turns.len(),
{
    assert(turns.push(last).drop_last() =~= turns);
    assert(turns.push(last)[turns.len() as int] == last);
    if turns.len() > 0 {
        assert(turns.drop_last().push(turns.last()) =~= turns);
        assert forall|i: int| 0 <= i < turns.len() implies !((#[trigger] turns[i]).answer matches
        Answer::Evolved { rooted: true, .. }) by {
            assert(turns.push(last)[i] == turns[i]);
        }
        an_undisturbed_run_stays_undisturbed(run, turns.drop_last(), turns.last());
    }
    step_follows(after(run, turns), last.system, last.answer);
}

/// A run whose solver reports no root ends: it takes at most so many answers
/// for each output.
pub proof fn a_run_without_roots_ends<S: Scalar>(
    s: SystemView<S>,
    engine: Engine<S>,
    t_end: S,
    nout: nat,
    turns: Seq<Turn<S>>,
)
    requires
        fresh(s, engine, t_end, nout).drives(s),
        a_course(fresh(s, engine, t_end, nout), turns),
        rootless(turns),
    ensures
        turns.len() + 48 * (outputs(nout) - after(fresh(s, engine, t_end, nout), turns).k)
            + after(fresh(s, engine, t_end, nout), turns).phases_left() <= 48 * outputs(nout) + 47,
        turns.len() <= 48 * outputs(nout) + 47,
    decreases turns.len(),
{
    a_run_stays_on_schedule(s, engine, t_end, nout, turns);
    if turns.len() > 0 {
        let fewer = turns.drop_last();
        let run = after(fresh(s, engine, t_end, nout), fewer);
        assert(rootless(fewer)) by {
            assert(forall|i: int| 0 <= i < fewer.len() ==> #[trigger] fewer[i] == turns[i]);
        }
        assert(turns[turns.len() - 1] == turns.last());
        a_run_without_roots_ends(s, engine, t_end, nout, fewer);
        a_run_stays_on_schedule(s, engine, t_end, nout, fewer);
        step_follows(run, turns.last().system, turns.last().answer);
    }
}

/// The system as the last exchange leaves it.
pub open spec fn left_by<S: Scalar>(run: DriveView<S>, turns: Seq<Turn<S>>) -> SystemView<S> {
    after(run, turns.drop_last()).step(turns.last().system, turns.last().answer).system
}

/// Whether nobody but the run counts collisions: every exchange finds the count
/// as the one before left it.
pub open spec fn count_is_kept<S: Scalar>(run: DriveView<S>, turns: Seq<Turn<S>>) -> bool
    decreases turns.len(),
{
    turns.len() > 1 ==> {
        &&& count_is_kept(run, turns.drop_last())
        &&& turns.last().system.collision_count == left_by(run, turns.drop_last()).collision_count
    }
}

/// Over a whole course the collisions that the system counts grow by those that
/// the report counts.
pub proof fn the_counts_of_collisions_agree<S: Scalar>(run: DriveView<S>, turns: Seq<Turn<S>>)
    requires
        turns.len() > 0,
        a_course(run, turns),
        count_is_kept(run, turns),
    ensures
        left_by(run, turns).collision_count - turns[0].system.collision_count == after(
            run,
            turns,
        ).report.ncollisions - run.report.ncollisions,
    decreases turns.len(),
{
    step_follows(after(run, turns.drop_last()), turns.last().system, turns.last().answer);
    if turns.len() > 1 {
        the_counts_of_collisions_agree(run, turns.drop_last());
    }
}

/// Whether nobody else changes what the bodies are: every exchange finds them of
/// the make that the one before left.
pub open spec fn makes_are_kept<S: Scalar>(run: DriveView<S>, turns: Seq<Turn<S>>) -> bool
    decreases turns.len(),
{
    turns.len() > 1 ==> {
        &&& makes_are_kept(run, turns.drop_last())
        &&& turns.last().system.objects.len() == left_by(run, turns.drop_last()).objects.len()
        &&& forall|i: int|
            0 <= i < turns.last().system.objects.len() ==> same_make(
                left_by(run, turns.drop_last()).objects[i],
                #[trigger] turns.last().system.objects[i],
            )
    }
}

/// Over a whole course the bodies stay what they are.
pub proof fn a_course_keeps_what_the_bodies_are<S: Scalar>(
    run: DriveView<S>,
    turns: Seq<Turn<S>>,
)
    requires
        turns.len() > 0,
        a_course(run, turns),
        makes_are_kept(run, turns),
    ensures
        left_by(run, turns).objects.len() == turns[0].system.objects.len(),
        forall|i: int|
            0 <= i < turns[0].system.objects.len() ==> same_make(
                turns[0].system.objects[i],
                #[trigger] left_by(run, turns).objects[i],
            ),
    decreases turns.len(),
{
    step_follows(after(run, turns.drop_last()), turns.last().system, turns.last().answer);
    if turns.len() > 1 {
        let fewer = turns.drop_last();
        a_course_keeps_what_the_bodies_are(run, fewer);
        assert forall|i: int| 0 <= i < turns[0].system.objects.len() implies same_make(
            turns[0].system.objects[i],
            #[trigger] left_by(run, turns).objects[i],
        ) by {
            let between = left_by(run, fewer).objects[i];
            let found = turns.last().system.objects[i];
            assert(same_make(turns[0].system.objects[i], between));
            assert(same_make(between, found));
        }
    }
}

/// Whether an integration that reports no root ends at its output.
pub open spec fn ends_at_output<S: Scalar>(run: DriveView<S>, answer: Answer<S>) -> bool {
    answer matches Answer::Evolved { code, rooted: false, t } ==> code < 0 || t == run.tout
}

/// Whether all integrations that report no root end at their outputs.
pub open spec fn punctual<S: Scalar>(run: DriveView<S>, turns: Seq<Turn<S>>) -> bool
    decreases turns.len(),
{
    turns.len() > 0 ==> {
        &&& punctual(run, turns.drop_last())
        &&& ends_at_output(after(run, turns.drop_last()), turns.last().answer)
    }
}

/// Each snapshot has the time of its output, or one that is taken to reach it:
/// that of an event which came so near that the interval ended with it.
pub proof fn snapshots_lie_at_the_outputs<S: Scalar>(
    s: SystemView<S>,
    engine: Engine<S>,
    t_end: S,
    nout: nat,
    turns: Seq<Turn<S>>,
)
    requires
        fresh(s, engine, t_end, nout).drives(s),
        a_course(fresh(s, engine, t_end, nout), turns),
        punctual(fresh(s, engine, t_end, nout), turns),
    ensures
        forall|j: int|
            0 <= j < after(fresh(s, engine, t_end, nout), turns).report.snapshots.len() ==> is_due(
                (#[trigger] after(fresh(s, engine, t_end, nout), turns).report.snapshots[j]).t,
                fresh(s, engine, t_end, nout).output_time((j + 1) as nat),
            ),
    decreases turns.len(),
{
    if turns.len() > 0 {
        let first = fresh(s, engine, t_end, nout);
        let fewer = turns.drop_last();
        snapshots_lie_at_the_outputs(s, engine, t_end, nout, fewer);
        a_run_stays_on_schedule(s, engine, t_end, nout, fewer);
        a_course_keeps_its_terms(first, fewer);
        an_interval_ends_at_its_output(first, fewer);
        step_follows(after(first, fewer), turns.last().system, turns.last().answer);
    }
}

/// Whether the time `t` is the output time `tout`, exactly or to rounding.
pub open spec fn is_due<S: Scalar>(t: S, tout: S) -> bool {
    t == tout || reaches(t, tout)
}

proof fn an_interval_ends_at_its_output<S: Scalar>(run: DriveView<S>, turns: Seq<Turn<S>>)
    requires
        !run.ending(),
        !(run.phase is EndRead),
        a_course(run, turns),
        punctual(run, turns),
    ensures
        after(run, turns).ending() || after(run, turns).phase is EndRead ==> is_due(
            after(run, turns).t,
            after(run, turns).tout,
        ),
    decreases turns.len(),
{
    if turns.len() > 0 {
        let fewer = turns.drop_last();
        an_interval_ends_at_its_output(run, fewer);
        step_follows(after(run, fewer), turns.last().system, turns.last().answer);
    }
}

/// Where no root is reported, each snapshot has the time of its output exactly.
pub proof fn without_roots_snapshots_lie_exactly_at_the_outputs<S: Scalar>(
    s: SystemView<S>,
    engine: Engine<S>,
    t_end: S,
    nout: nat,
    turns: Seq<Turn<S>>,
)
    requires
        fresh(s, engine, t_end, nout).drives(s),
        a_course(fresh(s, engine, t_end, nout), turns),
        punctual(fresh(s, engine, t_end, nout), turns),
        rootless(turns),
    ensures
        forall|j: int|
            0 <= j < after(fresh(s, engine, t_end, nout), turns).report.snapshots.len()
                ==> (#[trigger] after(fresh(s, engine, t_end, nout), turns).report.snapshots[j]).t
                == fresh(s, engine, t_end, nout).output_time((j + 1) as nat),
    decreases turns.len(),
{
    if turns.len() > 0 {
        let first = fresh(s, engine, t_end, nout);
        let fewer = turns.drop_last();
        fewer_turns_are_rootless(turns);
        without_roots_snapshots_lie_exactly_at_the_outputs(s, engine, t_end, nout, fewer);
        a_run_stays_on_schedule(s, engine, t_end, nout, fewer);
        a_course_keeps_its_terms(first, fewer);
        without_roots_an_interval_ends_exactly(first, fewer);
        step_follows(after(first, fewer), turns.last().system, turns.last().answer);
    }
}

proof fn fewer_turns_are_rootless<S: Scalar>(turns: Seq<Turn<S>>)
    requires
        turns.len() > 0,
        rootless(turns),
    ensures
        rootless(turns.drop_last()),
        !(turns.last().answer matches Answer::Evolved { rooted: true, .. }),
{
    let fewer = turns.drop_last();
    assert(forall|i: int| 0 <= i < fewer.len() ==> #[trigger] fewer[i] == turns[i]);
    assert(turns[turns.len() - 1] == turns.last());
}

proof fn without_roots_an_interval_ends_exactly<S: Scalar>(
    run: DriveView<S>,
    turns: Seq<Turn<S>>,
)
    requires
        !run.ending(),
        !run.in_event(),
        !(run.phase is EndRead),
        a_course(run, turns),
        punctual(run, turns),
        rootless(turns),
    ensures
        !after(run, turns).in_event(),
        after(run, turns).ending() || after(run, turns).phase is EndRead ==> after(run, turns).t
            == after(run, turns).tout,
    decreases turns.len(),
{
    if turns.len() > 0 {
        let fewer = turns.drop_last();
        fewer_turns_are_rootless(turns);
        without_roots_an_interval_ends_exactly(run, fewer);
        step_follows(after(run, fewer), turns.last().system, turns.last().answer);
    }
}

proof fn a_course_keeps_its_terms<S: Scalar>(run: DriveView<S>, turns: Seq<Turn<S>>)
    requires
        a_course(run, turns),
    ensures
        after(run, turns).nout == run.nout,
        after(run, turns).t0 == run.t0,
        after(run, turns).t_end == run.t_end,
    decreases turns.len(),
{
    if turns.len() > 0 {
        a_course_keeps_its_terms(run, turns.drop_last());
        step_follows(after(run, turns.drop_last()), turns.last().system, turns.last().answer);
    }
}

} // verus!
