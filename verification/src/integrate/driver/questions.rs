//! What a run asks of the solver and of the world: that each question carries
//! what it is meant to carry.

use crate::integrate::bounds::{
    renormalized, renormalizing_keeps_the_length, renormalizing_makes_every_quaternion_unit,
    renormalizing_touches_only_quaternions, step_cap, worst_norm_error, SurveyView,
};
use crate::integrate::driver::laws::{a_course, after, Turn};
use crate::integrate::driver::steps::{step_follows, step_keeps_order};
use crate::integrate::driver::{
    reaches, ActionView, Answer, DriveView, Engine, Outcome, Phase, SolverStats,
};
use crate::integrate::Conserved;
use crate::linalg::quat_at;
use crate::scalar::Scalar;
use crate::system::{
    a_packed_state_is_in_order, an_unpacked_state_is_in_order, holds_full_state,
    holds_translational_state, PhysicalObject, SystemView,
};
use crate::text::{a_text_mentions_its_parts, mentions, quoted_text, signed_numeral};
use vstd::prelude::*;

verus! {

/// What relates the question that an answer leads to, and the run, to the run
/// and the system before.
pub open spec fn asks<S: Scalar>(
    run: DriveView<S>,
    s: SystemView<S>,
    answer: Answer<S>,
    o: Outcome<S>,
) -> bool {
    &&& o.reply is Err <==> match answer {
        Answer::Context { code, present } => code != 0 || !present,
        Answer::Made(made) => !made,
        Answer::Stored(stored) => !stored,
        Answer::Read(read) => read is None,
        Answer::Code(code) | Answer::Roots { code, .. } => if run.engine is Sprk {
            code < 0
        } else {
            code != 0
        },
        Answer::Evolved { code, .. } => code < 0,
        Answer::Resolved(resolved) => resolved is Err,
        _ => false,
    }
    &&& o.reply is Ok && o.run.phase is Finished <==> o.reply == Ok::<ActionView<S>, Seq<char>>(
        ActionView::Free,
    )
    &&& run.phase is FinalStats ==> o.reply == Ok::<ActionView<S>, Seq<char>>(ActionView::Free)
    &&& !(answer is Roots) ==> o.run.flagged == run.flagged
    &&& (run.phase is ArmInit || run.phase is RearmInit) && o.reply is Ok ==> o.reply->Ok_0
        is SetRootDirection
    &&& o.reply matches Ok(action) ==> match action {
        ActionView::ReInit(t) => {
            &&& t == run.t && t == o.run.t
            &&& run.in_time(s) && !(run.phase is RenormStats) ==> o.system.time == t
        },
        ActionView::Evolve(t) => {
            &&& t == o.run.tout && o.run.phase is Evolve
            &&& run.engine is Cvode && o.run.roots_armed ==> run.phase is IntervalMaxStep
                || run.phase is EventMaxStep
        },
        ActionView::SetRootDirection(d) => {
            &&& d.len() == run.pairs.len() && d.len() == o.run.pairs.len()
            &&& forall|k: int| 0 <= k < d.len() ==> #[trigger] d[k] == -1
        },
        ActionView::RootInit(n) => {
            &&& n == run.pairs.len()
            &&& o.run.phase is ArmInit || o.run.phase is RearmInit
        },
        ActionView::RootInfo(n) => n == run.pairs.len(),
        ActionView::NewVector(n) => n == s.objects.len() * if run.engine is Sprk {
            6int
        } else {
            13int
        },
        ActionView::NewMatrix(n) => n == 13 * s.objects.len() && run.engine is Cvode,
        ActionView::Init(t) => t == run.t0 && run.engine is Cvode,
        ActionView::SetTolerances { rtol, atol } => rtol == s.rtol && atol == s.atol,
        ActionView::SetMethodName(name) => run.engine matches Engine::Sprk { table, .. }
            && name == table@,
        ActionView::SetFixedStep(h) => run.engine matches Engine::Sprk { dt, .. } && h == dt,
        ActionView::SetMaxNumSteps(limit) => match run.engine {
            Engine::Cvode { .. } => limit == 500000,
            Engine::Sprk { dt, .. } => {
                let steps = run.t_end.spec_sub(run.t0).spec_div(dt).spec_ceil();
                &&& limit >= 2 * steps + 32
                &&& limit >= 2000
                &&& limit == 2000 || limit == 2 * steps + 32
            },
        },
        ActionView::SetMaxStep(h) => {
            &&& answer matches Answer::Surveyed(survey) && h == if run.phase is ArmSurvey {
                step_cap(
                    s,
                    survey,
                    run.pairs,
                    run.t_end.spec_sub(run.t0),
                    run.t_end.spec_sub(run.t0).spec_div(S::of_count(run.nout as usize)),
                )
            } else {
                step_cap(
                    s,
                    survey,
                    run.pairs,
                    run.t_end.spec_sub(run.t),
                    run.tout.spec_sub(run.t),
                )
            }
            &&& run.engine is Cvode && run.roots_armed
        },
        ActionView::StoreState(d) => !(answer is Read) ==> {
            &&& d == run.state_of(s)
            &&& o.system.objects == s.objects
        },
        ActionView::ResolveImpulses { flagged, .. } => flagged == run.flagged,
        _ => true,
    }
}

proof fn context_asks<S: Scalar>(
    run: DriveView<S>,
    s: SystemView<S>,
    code: i32,
    present: bool,
)
    requires
        run.drives(s),
        run.awaits(s, Answer::Context { code, present }),
    ensures
        asks(run, s, Answer::Context { code, present }, run.after_context(s, code, present)),
{
}

proof fn context_is_a_step<S: Scalar>(
    run: DriveView<S>,
    s: SystemView<S>,
    code: i32,
    present: bool,
)
    ensures
        run.step(s, Answer::Context { code, present }) == run.after_context(s, code, present),
{
    reveal(DriveView::step);
}

proof fn made_asks<S: Scalar>(
    run: DriveView<S>,
    s: SystemView<S>,
    made: bool,
)
    requires
        run.drives(s),
        run.awaits(s, Answer::Made(made)),
    ensures
        asks(run, s, Answer::Made(made), run.after_made(s, made)),
{
}

proof fn made_is_a_step<S: Scalar>(
    run: DriveView<S>,
    s: SystemView<S>,
    made: bool,
)
    ensures
        run.step(s, Answer::Made(made)) == run.after_made(s, made),
{
    reveal(DriveView::step);
}

proof fn stored_asks<S: Scalar>(
    run: DriveView<S>,
    s: SystemView<S>,
    stored: bool,
)
    requires
        run.drives(s),
        run.awaits(s, Answer::Stored(stored)),
    ensures
        asks(run, s, Answer::Stored(stored), run.after_stored(s, stored)),
{
}

proof fn stored_is_a_step<S: Scalar>(
    run: DriveView<S>,
    s: SystemView<S>,
    stored: bool,
)
    ensures
        run.step(s, Answer::Stored(stored)) == run.after_stored(s, stored),
{
    reveal(DriveView::step);
}

proof fn read_asks<S: Scalar>(
    run: DriveView<S>,
    s: SystemView<S>,
    read: Option<Seq<S>>,
)
    requires
        run.drives(s),
        run.awaits(s, Answer::Read(read)),
    ensures
        asks(run, s, Answer::Read(read), run.after_read(s, read)),
{
}

proof fn read_is_a_step<S: Scalar>(
    run: DriveView<S>,
    s: SystemView<S>,
    read: Option<Seq<S>>,
)
    ensures
        run.step(s, Answer::Read(read)) == run.after_read(s, read),
{
    reveal(DriveView::step);
}

proof fn code_asks<S: Scalar>(
    run: DriveView<S>,
    s: SystemView<S>,
    code: i32,
)
    requires
        run.drives(s),
        run.awaits(s, Answer::Code(code)),
    ensures
        asks(run, s, Answer::Code(code), run.after_code(s, code)),
{
}

proof fn code_is_a_step<S: Scalar>(
    run: DriveView<S>,
    s: SystemView<S>,
    code: i32,
)
    ensures
        run.step(s, Answer::Code(code)) == run.after_code(s, code),
{
    reveal(DriveView::step);
}

proof fn pairs_asks<S: Scalar>(
    run: DriveView<S>,
    s: SystemView<S>,
    pairs: Seq<(usize, usize)>,
)
    requires
        run.drives(s),
        run.awaits(s, Answer::Pairs(pairs)),
    ensures
        asks(run, s, Answer::Pairs(pairs), run.after_pairs(s, pairs)),
{
}

proof fn pairs_is_a_step<S: Scalar>(
    run: DriveView<S>,
    s: SystemView<S>,
    pairs: Seq<(usize, usize)>,
)
    ensures
        run.step(s, Answer::Pairs(pairs)) == run.after_pairs(s, pairs),
{
    reveal(DriveView::step);
}

proof fn survey_asks<S: Scalar>(
    run: DriveView<S>,
    s: SystemView<S>,
    survey: SurveyView<S>,
)
    requires
        run.drives(s),
        run.awaits(s, Answer::Surveyed(survey)),
    ensures
        asks(run, s, Answer::Surveyed(survey), run.after_survey(s, survey)),
{
}

proof fn survey_is_a_step<S: Scalar>(
    run: DriveView<S>,
    s: SystemView<S>,
    survey: SurveyView<S>,
)
    ensures
        run.step(s, Answer::Surveyed(survey)) == run.after_survey(s, survey),
{
    reveal(DriveView::step);
}

proof fn evolved_asks<S: Scalar>(
    run: DriveView<S>,
    s: SystemView<S>,
    code: i32,
    rooted: bool,
    t: S,
)
    requires
        run.drives(s),
        run.awaits(s, Answer::Evolved { code, rooted, t }),
    ensures
        asks(run, s, Answer::Evolved { code, rooted, t }, run.after_evolved(s, code, rooted, t)),
{
}

proof fn evolved_is_a_step<S: Scalar>(
    run: DriveView<S>,
    s: SystemView<S>,
    code: i32,
    rooted: bool,
    t: S,
)
    ensures
        run.step(s, Answer::Evolved { code, rooted, t }) == run.after_evolved(s, code, rooted, t),
{
    reveal(DriveView::step);
}

proof fn roots_asks<S: Scalar>(
    run: DriveView<S>,
    s: SystemView<S>,
    code: i32,
    roots: Seq<i32>,
)
    requires
        run.drives(s),
        run.awaits(s, Answer::Roots { code, roots }),
    ensures
        asks(run, s, Answer::Roots { code, roots }, run.after_roots(s, code, roots)),
{
}

proof fn roots_is_a_step<S: Scalar>(
    run: DriveView<S>,
    s: SystemView<S>,
    code: i32,
    roots: Seq<i32>,
)
    ensures
        run.step(s, Answer::Roots { code, roots }) == run.after_roots(s, code, roots),
{
    reveal(DriveView::step);
}

proof fn burst_asks<S: Scalar>(
    run: DriveView<S>,
    s: SystemView<S>,
    same: bool,
)
    requires
        run.drives(s),
        run.awaits(s, Answer::Burst(same)),
    ensures
        asks(run, s, Answer::Burst(same), run.after_burst(s, same)),
{
}

proof fn burst_is_a_step<S: Scalar>(
    run: DriveView<S>,
    s: SystemView<S>,
    same: bool,
)
    ensures
        run.step(s, Answer::Burst(same)) == run.after_burst(s, same),
{
    reveal(DriveView::step);
}

proof fn resolved_asks<S: Scalar>(
    run: DriveView<S>,
    s: SystemView<S>,
    resolved: Result<usize, Seq<char>>,
)
    requires
        run.drives(s),
        run.awaits(s, Answer::Resolved(resolved)),
    ensures
        asks(run, s, Answer::Resolved(resolved), run.after_resolved(s, resolved)),
{
}

proof fn resolved_is_a_step<S: Scalar>(
    run: DriveView<S>,
    s: SystemView<S>,
    resolved: Result<usize, Seq<char>>,
)
    ensures
        run.step(s, Answer::Resolved(resolved)) == run.after_resolved(s, resolved),
{
    reveal(DriveView::step);
}

proof fn stats_asks<S: Scalar>(
    run: DriveView<S>,
    s: SystemView<S>,
    st: SolverStats,
)
    requires
        run.drives(s),
        run.awaits(s, Answer::Stats(st)),
    ensures
        asks(run, s, Answer::Stats(st), run.after_stats(s, st)),
{
}

proof fn stats_is_a_step<S: Scalar>(
    run: DriveView<S>,
    s: SystemView<S>,
    st: SolverStats,
)
    ensures
        run.step(s, Answer::Stats(st)) == run.after_stats(s, st),
{
    reveal(DriveView::step);
}

proof fn overlaps_asks<S: Scalar>(
    run: DriveView<S>,
    s: SystemView<S>,
    overlaps: Seq<Option<S>>,
)
    requires
        run.drives(s),
        run.awaits(s, Answer::Overlaps(overlaps)),
    ensures
        asks(run, s, Answer::Overlaps(overlaps), run.after_overlaps(s, overlaps)),
{
}

proof fn overlaps_is_a_step<S: Scalar>(
    run: DriveView<S>,
    s: SystemView<S>,
    overlaps: Seq<Option<S>>,
)
    ensures
        run.step(s, Answer::Overlaps(overlaps)) == run.after_overlaps(s, overlaps),
{
    reveal(DriveView::step);
}

proof fn conserved_asks<S: Scalar>(
    run: DriveView<S>,
    s: SystemView<S>,
    measured: Conserved<S>,
)
    requires
        run.drives(s),
        run.awaits(s, Answer::Conserved(measured)),
    ensures
        asks(run, s, Answer::Conserved(measured), run.after_conserved(s, measured)),
{
}

proof fn conserved_is_a_step<S: Scalar>(
    run: DriveView<S>,
    s: SystemView<S>,
    measured: Conserved<S>,
)
    ensures
        run.step(s, Answer::Conserved(measured)) == run.after_conserved(s, measured),
{
    reveal(DriveView::step);
}

proof fn step_asks<S: Scalar>(run: DriveView<S>, s: SystemView<S>, answer: Answer<S>)
    requires
        run.drives(s),
        run.awaits(s, answer),
    ensures
        asks(run, s, answer, run.step(s, answer)),
{
    match answer {
        Answer::Context { code, present } => {
            context_is_a_step(run, s, code, present);
            context_asks(run, s, code, present);
        },
        Answer::Made(made) => {
            made_is_a_step(run, s, made);
            made_asks(run, s, made);
        },
        Answer::Stored(stored) => {
            stored_is_a_step(run, s, stored);
            stored_asks(run, s, stored);
        },
        Answer::Read(read) => {
            read_is_a_step(run, s, read);
            read_asks(run, s, read);
        },
        Answer::Code(code) => {
            code_is_a_step(run, s, code);
            code_asks(run, s, code);
        },
        Answer::Pairs(pairs) => {
            pairs_is_a_step(run, s, pairs);
            pairs_asks(run, s, pairs);
        },
        Answer::Surveyed(survey) => {
            survey_is_a_step(run, s, survey);
            survey_asks(run, s, survey);
        },
        Answer::Evolved { code, rooted, t } => {
            evolved_is_a_step(run, s, code, rooted, t);
            evolved_asks(run, s, code, rooted, t);
        },
        Answer::Roots { code, roots } => {
            roots_is_a_step(run, s, code, roots);
            roots_asks(run, s, code, roots);
        },
        Answer::Burst(same) => {
            burst_is_a_step(run, s, same);
            burst_asks(run, s, same);
        },
        Answer::Resolved(resolved) => {
            resolved_is_a_step(run, s, resolved);
            resolved_asks(run, s, resolved);
        },
        Answer::Stats(st) => {
            stats_is_a_step(run, s, st);
            stats_asks(run, s, st);
        },
        Answer::Overlaps(overlaps) => {
            overlaps_is_a_step(run, s, overlaps);
            overlaps_asks(run, s, overlaps);
        },
        Answer::Conserved(measured) => {
            conserved_is_a_step(run, s, measured);
            conserved_asks(run, s, measured);
        },
    }
}

/// Every restart of the solver is at the time that the run has reached, which
/// is also what the clock of the system shows when its state was stored.
pub proof fn a_restart_is_at_the_time_reached<S: Scalar>(
    run: DriveView<S>,
    s: SystemView<S>,
    answer: Answer<S>,
)
    requires
        run.drives(s),
        run.awaits(s, answer),
    ensures
        run.step(s, answer).reply matches Ok(ActionView::ReInit(t)) ==> {
            &&& t == run.t
            &&& t == run.step(s, answer).run.t
            &&& run.in_time(s) && !(run.phase is RenormStats) ==> run.step(s, answer).system.time
                == t
        },
{
    step_asks(run, s, answer);
}

/// The time at which the last integration ended, or the run began.
pub open spec fn time_reached<S: Scalar>(run: DriveView<S>, turns: Seq<Turn<S>>) -> S
    decreases turns.len(),
{
    if turns.len() == 0 {
        run.t
    } else {
        match turns.last().answer {
            Answer::Evolved { t, .. } => t,
            _ => time_reached(run, turns.drop_last()),
        }
    }
}

/// In every course the solver is restarted where its last integration ended.
pub proof fn a_restart_is_where_the_last_integration_ended<S: Scalar>(
    run: DriveView<S>,
    turns: Seq<Turn<S>>,
    last: Turn<S>,
)
    requires
        a_course(run, turns.push(last)),
    ensures
        after(run, turns).t == time_reached(run, turns),
        after(run, turns).step(last.system, last.answer).reply matches Ok(ActionView::ReInit(t))
            ==> t == time_reached(run, turns),
{
    assert(turns.push(last).drop_last() =~= turns);
    the_time_is_where_the_last_integration_ended(run, turns);
    a_restart_is_at_the_time_reached(after(run, turns), last.system, last.answer);
}

proof fn the_time_is_where_the_last_integration_ended<S: Scalar>(
    run: DriveView<S>,
    turns: Seq<Turn<S>>,
)
    requires
        a_course(run, turns),
    ensures
        after(run, turns).t == time_reached(run, turns),
    decreases turns.len(),
{
    if turns.len() > 0 {
        the_time_is_where_the_last_integration_ended(run, turns.drop_last());
        step_follows(after(run, turns.drop_last()), turns.last().system, turns.last().answer);
    }
}

/// The solver is always asked to integrate to the present output, which lies
/// its share of the way from the beginning to the end.
pub proof fn an_integration_goes_to_the_output<S: Scalar>(
    run: DriveView<S>,
    s: SystemView<S>,
    answer: Answer<S>,
)
    requires
        run.drives(s),
        run.awaits(s, answer),
        run.on_schedule(),
    ensures
        ({
            let o = run.step(s, answer);
            o.reply matches Ok(ActionView::Evolve(t)) ==> {
                &&& t == o.run.tout
                &&& 1 <= o.run.k <= run.nout
                &&& o.run.k == run.report.snapshots.len() + if answer is Conserved {
                    2int
                } else {
                    1int
                }
                &&& t == run.t0.spec_add(
                    run.t_end.spec_sub(run.t0).spec_mul(S::of_count(o.run.k as usize)).spec_div(
                        S::of_count(run.nout as usize),
                    ),
                )
            }
        }),
{
    step_follows(run, s, answer);
    step_keeps_order(run, s, answer);
    step_asks(run, s, answer);
}

/// Only approaches are contacts: whenever the directions of the roots are set,
/// there is one for each watched pair, and every one is downward.
pub proof fn only_approaches_are_watched<S: Scalar>(
    run: DriveView<S>,
    s: SystemView<S>,
    answer: Answer<S>,
)
    requires
        run.drives(s),
        run.awaits(s, answer),
    ensures
        run.step(s, answer).reply matches Ok(ActionView::SetRootDirection(d)) ==> {
            &&& d.len() == run.pairs.len()
            &&& d.len() == run.step(s, answer).run.pairs.len()
            &&& forall|k: int| 0 <= k < d.len() ==> #[trigger] d[k] == -1
        },
{
    step_asks(run, s, answer);
}

/// Once rootfinding has been armed, its directions are set before anything else
/// is asked.
pub proof fn directions_follow_arming<S: Scalar>(
    run: DriveView<S>,
    s: SystemView<S>,
    answer: Answer<S>,
    now: SystemView<S>,
    next: Answer<S>,
)
    requires
        run.drives(s),
        run.awaits(s, answer),
        run.step(s, answer).reply matches Ok(ActionView::RootInit(_)),
        run.step(s, answer).run.drives(now),
        run.step(s, answer).run.awaits(now, next),
    ensures
        run.step(s, answer).run.step(now, next).reply matches Ok(action) ==> action
            is SetRootDirection,
{
    step_asks(run, s, answer);
    step_asks(run.step(s, answer).run, now, next);
}

/// The roots that are watched for, and asked about, are those of all pairs.
pub proof fn every_pair_has_its_root<S: Scalar>(
    run: DriveView<S>,
    s: SystemView<S>,
    answer: Answer<S>,
)
    requires
        run.drives(s),
        run.awaits(s, answer),
    ensures
        run.step(s, answer).reply matches Ok(ActionView::RootInit(n)) ==> n == run.pairs.len(),
        run.step(s, answer).reply matches Ok(ActionView::RootInfo(n)) ==> n == run.pairs.len(),
{
    step_asks(run, s, answer);
}

/// The solver is set up for the state and on the terms of the run: a full or a
/// translational vector of all bodies, the time at which the run begins, the
/// tolerances of the system, the table and the step of the method.
pub proof fn a_solver_is_set_up_on_the_terms_of_the_run<S: Scalar>(
    run: DriveView<S>,
    s: SystemView<S>,
    answer: Answer<S>,
)
    requires
        run.drives(s),
        run.awaits(s, answer),
    ensures
        run.step(s, answer).reply matches Ok(action) ==> match action {
            ActionView::NewVector(n) => n == s.objects.len() * if run.engine is Sprk {
                6int
            } else {
                13int
            },
            ActionView::NewMatrix(n) => n == 13 * s.objects.len() && run.engine is Cvode,
            ActionView::Init(t) => t == run.t0 && run.engine is Cvode,
            ActionView::SetTolerances { rtol, atol } => rtol == s.rtol && atol == s.atol,
            ActionView::SetMethodName(name) => run.engine matches Engine::Sprk { table, .. }
                && name == table@,
            ActionView::SetFixedStep(h) => run.engine matches Engine::Sprk { dt, .. } && h == dt,
            _ => true,
        },
{
    step_asks(run, s, answer);
}

/// The limit on internal steps leaves room for every run: half a million for a
/// solver that chooses its steps, and for a fixed step twice the steps to the
/// end with sixteen to spare, but never fewer than two thousand.
pub proof fn there_is_room_for_the_steps<S: Scalar>(
    run: DriveView<S>,
    s: SystemView<S>,
    answer: Answer<S>,
)
    requires
        run.drives(s),
        run.awaits(s, answer),
    ensures
        run.step(s, answer).reply matches Ok(ActionView::SetMaxNumSteps(limit))
            ==> match run.engine {
            Engine::Cvode { .. } => limit == 500000,
            Engine::Sprk { dt, .. } => {
                let steps = run.t_end.spec_sub(run.t0).spec_div(dt).spec_ceil();
                &&& limit >= 2 * steps + 32
                &&& limit >= 2000
                &&& limit == 2000 || limit == 2 * steps + 32
            },
        },
{
    step_asks(run, s, answer);
}

impl<S: Scalar> DriveView<S> {
    /// Whether `d` holds the state of these bodies in the layout of the solver.
    pub open spec fn is_state(self, d: Seq<S>, objects: Seq<PhysicalObject<S>>) -> bool {
        match self.engine {
            Engine::Cvode { .. } => holds_full_state(d, objects),
            Engine::Sprk { .. } => holds_translational_state(d, objects),
        }
    }
}

proof fn only_quaternions_are_renormalized<S: Scalar>(y: Seq<S>, n: nat)
    requires
        y.len() == 13 * n,
    ensures
        renormalized(y, n).len() == y.len(),
        forall|k: int|
            0 <= k < y.len() && (k % 13 < 6 || k % 13 >= 10) ==> #[trigger] renormalized(y, n)[k]
                == y[k],
        forall|i: int|
            0 <= i < n ==> #[trigger] quat_at(renormalized(y, n), 13 * i + 6) == quat_at(
                y,
                13 * i + 6,
            ).spec_normalize(),
{
    renormalizing_keeps_the_length(y, n);
    assert forall|k: int| 0 <= k < y.len() && (k % 13 < 6 || k % 13 >= 10) implies
        #[trigger] renormalized(y, n)[k] == y[k] by {
        renormalizing_touches_only_quaternions(y, n, k);
    }
    assert forall|i: int| 0 <= i < n implies #[trigger] quat_at(renormalized(y, n), 13 * i + 6)
        == quat_at(y, 13 * i + 6).spec_normalize() by {
        renormalizing_makes_every_quaternion_unit(y, n, i);
    }
}

/// What is stored in the solver is the state of the bodies as they stand,
/// except where quaternions have drifted: then it is the state just read, with
/// its quaternions made unit and nothing else changed.
pub proof fn what_is_stored_is_the_state_of_the_bodies<S: Scalar>(
    run: DriveView<S>,
    s: SystemView<S>,
    answer: Answer<S>,
)
    requires
        run.drives(s),
        run.awaits(s, answer),
    ensures
        ({
            let o = run.step(s, answer);
            o.reply matches Ok(ActionView::StoreState(d)) ==> match answer {
                Answer::Read(Some(y)) => {
                    &&& run.phase is EndRead && run.engine is Cvode
                    &&& o.run.held == d && d.len() == y.len()
                    &&& forall|k: int|
                        0 <= k < y.len() && (k % 13 < 6 || k % 13 >= 10) ==> #[trigger] d[k]
                            == y[k]
                    &&& forall|i: int|
                        0 <= i < run.n ==> #[trigger] quat_at(d, 13 * i + 6) == quat_at(
                            y,
                            13 * i + 6,
                        ).spec_normalize()
                },
                _ => run.is_state(d, o.system.objects) && o.system.objects == s.objects,
            }
        }),
{
    step_asks(run, s, answer);
    a_packed_state_is_in_order(s.objects);
    if let Answer::Read(read) = answer {
        read_is_a_step(run, s, read);
        if let Some(y) = read {
            if !run.separable() {
                only_quaternions_are_renormalized(y, run.n);
            }
        }
    }
}

/// A state that was read becomes the state of the bodies, at the time reached:
/// at an event at once, at the end of an interval at once or, where quaternions
/// have drifted by more than a part in ten thousand million, once the unit ones
/// are stored.
pub proof fn what_is_read_becomes_the_state_of_the_bodies<S: Scalar>(
    run: DriveView<S>,
    s: SystemView<S>,
    y: Seq<S>,
)
    requires
        run.drives(s),
        run.awaits(s, Answer::Read(Some(y))),
    ensures
        ({
            let o = run.step(s, Answer::Read(Some(y)));
            if run.phase is EventRead || run.engine is Sprk || !S::of_decimal(
                1,
                -10i32,
            ).spec_less(worst_norm_error(y, run.n)) {
                &&& run.is_state(y, o.system.objects)
                &&& o.system.time == run.t
                &&& o.reply == Ok::<ActionView<S>, Seq<char>>(
                    if run.phase is EventRead {
                        ActionView::CompareEvents { t: run.t, last: run.last_event_t }
                    } else if run.armed {
                        ActionView::MeasureOverlaps
                    } else {
                        ActionView::MeasureConserved
                    },
                )
            } else {
                &&& o.system == s
                &&& o.reply matches Ok(ActionView::StoreState(_))
            }
        }),
{
    read_is_a_step(run, s, Some(y));
    an_unpacked_state_is_in_order(s.objects, y);
}

/// Once the unit quaternions are in the solver, the bodies take the state that
/// was stored, at the time reached.
pub proof fn unit_quaternions_reach_the_bodies<S: Scalar>(
    run: DriveView<S>,
    s: SystemView<S>,
)
    requires
        run.drives(s),
        run.phase is RenormReInit,
        run.awaits(s, Answer::Code(0)),
    ensures
        run.is_state(run.held, run.step(s, Answer::Code(0)).system.objects),
        run.step(s, Answer::Code(0)).system.time == run.t,
{
    code_is_a_step(run, s, 0);
    an_unpacked_state_is_in_order(s.objects, run.held);
}

/// The callbacks are handed the fields of the system, the quantities of each of
/// its bodies, and the pairs to watch: those that were found, where collisions
/// count at all, and otherwise none.
pub proof fn the_callbacks_know_the_system<S: Scalar>(
    run: DriveView<S>,
    s: SystemView<S>,
    pairs: Seq<(usize, usize)>,
)
    requires
        run.drives(s),
        run.awaits(s, Answer::Pairs(pairs)),
    ensures
        ({
            let o = run.step(s, Answer::Pairs(pairs));
            &&& o.system == s
            &&& o.run.pairs == pairs
            &&& o.run.armed == (s.collide_enabled && pairs.len() > 0)
            &&& o.run.roots_armed == o.run.armed
            &&& match o.reply {
                Ok(ActionView::SetFullData(p)) => {
                    &&& run.engine is Cvode
                    &&& p.n == s.objects.len() && p.g == s.g_constant && p.softening == s.softening
                    &&& p.uniform_gravity == s.uniform_gravity && p.e_field == s.e_field
                    &&& p.b_field == s.b_field && p.ext_force == s.external_forces
                    &&& p.ext_torque == s.external_torques
                    &&& p.pairs == if s.collide_enabled {
                        pairs
                    } else {
                        Seq::empty()
                    }
                    &&& forall|i: int|
                        #![trigger s.objects[i]]
                        0 <= i < s.objects.len() ==> {
                            &&& p.masses[i] == s.objects[i].mass
                            &&& p.inverse_masses[i] == s.objects[i].inverse_mass
                            &&& p.charges[i] == s.objects[i].charge
                            &&& p.inverse_inertia[i] == s.objects[i].inverse_inertia
                            &&& p.magnetic[i] == s.objects[i].magnetic_moment
                            &&& p.boundaries[i] == s.objects[i].boundary
                        }
                },
                Ok(ActionView::SetSeparableData(p)) => {
                    &&& run.engine is Sprk
                    &&& p.n == s.objects.len() && p.g == s.g_constant && p.softening == s.softening
                    &&& p.uniform_gravity == s.uniform_gravity && p.e_field == s.e_field
                    &&& p.ext_force == s.external_forces
                    &&& p.pairs == if s.collide_enabled {
                        pairs
                    } else {
                        Seq::empty()
                    }
                    &&& forall|i: int|
                        #![trigger s.objects[i]]
                        0 <= i < s.objects.len() ==> {
                            &&& p.masses[i] == s.objects[i].mass
                            &&& p.inverse_masses[i] == s.objects[i].inverse_mass
                            &&& p.charges[i] == s.objects[i].charge
                            &&& p.boundaries[i] == s.objects[i].boundary
                            &&& p.orientations[i] == s.objects[i].orientation
                        }
                },
                _ => false,
            }
        }),
{
    pairs_is_a_step(run, s, pairs);
    if pairs.len() == 0 {
        assert(pairs =~= Seq::empty());
    }
}

/// The step cap is that of the watched pairs as they stand: it may last for the
/// rest of the run, and looks ahead to the next output, or over one interval
/// when rootfinding is first armed.
pub proof fn the_cap_looks_ahead_to_the_next_output<S: Scalar>(
    run: DriveView<S>,
    s: SystemView<S>,
    answer: Answer<S>,
)
    requires
        run.drives(s),
        run.awaits(s, answer),
    ensures
        run.step(s, answer).reply matches Ok(ActionView::SetMaxStep(h)) ==> {
            &&& answer matches Answer::Surveyed(survey) && h == if run.phase is ArmSurvey {
                step_cap(
                    s,
                    survey,
                    run.pairs,
                    run.t_end.spec_sub(run.t0),
                    run.t_end.spec_sub(run.t0).spec_div(S::of_count(run.nout as usize)),
                )
            } else {
                step_cap(
                    s,
                    survey,
                    run.pairs,
                    run.t_end.spec_sub(run.t),
                    run.tout.spec_sub(run.t),
                )
            }
            &&& run.engine is Cvode && run.roots_armed
        },
{
    step_asks(run, s, answer);
}

/// While roots are watched for, a solver that chooses its steps never integrates
/// without a cap set since the interval began or the last event was dealt with.
pub proof fn no_integration_without_a_cap<S: Scalar>(
    run: DriveView<S>,
    s: SystemView<S>,
    answer: Answer<S>,
)
    requires
        run.drives(s),
        run.awaits(s, answer),
        run.engine is Cvode,
    ensures
        ({
            let o = run.step(s, answer);
            (o.reply matches Ok(ActionView::Evolve(_))) && o.run.roots_armed ==> run.phase
                is IntervalMaxStep || run.phase is EventMaxStep
        }),
{
    step_asks(run, s, answer);
}

/// An integration that ends at a root leads to the question which pairs are in
/// contact, and one that does not to the end of its interval.
pub proof fn a_root_is_an_event<S: Scalar>(
    run: DriveView<S>,
    s: SystemView<S>,
    code: i32,
    rooted: bool,
    t: S,
)
    requires
        run.drives(s),
        run.awaits(s, Answer::Evolved { code, rooted, t }),
        code >= 0,
    ensures
        ({
            let o = run.step(s, Answer::Evolved { code, rooted, t });
            &&& o.run.t == t
            &&& o.reply == Ok::<ActionView<S>, Seq<char>>(
                if rooted {
                    ActionView::RootInfo(run.pairs.len())
                } else {
                    ActionView::ReadState
                },
            )
            &&& rooted || o.run.phase is EndRead
        }),
{
    evolved_is_a_step(run, s, code, rooted, t);
}

/// The pairs in contact are those whose roots the solver reports, in either
/// direction, and impulses are resolved at exactly those.
pub proof fn impulses_are_resolved_at_the_roots<S: Scalar>(
    run: DriveView<S>,
    s: SystemView<S>,
    answer: Answer<S>,
)
    requires
        run.drives(s),
        run.awaits(s, answer),
    ensures
        ({
            let o = run.step(s, answer);
            &&& answer matches Answer::Roots { roots, .. } ==> o.reply is Ok ==> {
                &&& o.run.phase is EventRead && o.run.flagged.len() == roots.len()
                &&& forall|k: int|
                    0 <= k < roots.len() ==> #[trigger] o.run.flagged[k] == (roots[k] != 0)
            }
            &&& !(answer is Roots) ==> o.run.flagged == run.flagged
            &&& o.reply matches Ok(ActionView::ResolveImpulses { flagged, .. }) ==> flagged
                == run.flagged
        }),
{
    step_asks(run, s, answer);
    if let Answer::Roots { code, roots } = answer {
        roots_is_a_step(run, s, code, roots);
    }
}

/// An event continues the burst of the one before or begins a burst of its own,
/// and is the one that the next is compared with.
pub proof fn an_event_continues_or_begins_a_burst<S: Scalar>(
    run: DriveView<S>,
    s: SystemView<S>,
    same: bool,
)
    requires
        run.drives(s),
        run.awaits(s, Answer::Burst(same)),
    ensures
        ({
            let o = run.step(s, Answer::Burst(same));
            &&& same ==> o.run.burst == run.burst + 1
            &&& !same ==> o.run.burst == 1
            &&& o.run.last_event_t == run.t
            &&& o.system == s
            &&& o.reply matches Ok(ActionView::ResolveImpulses { .. })
        }),
{
    burst_is_a_step(run, s, same);
}

/// Once impulses are resolved, penetration is projected out exactly when the
/// burst is past twice its limit and roots are still watched for; otherwise the
/// new state goes into the solver at once.
pub proof fn a_long_burst_is_projected_out<S: Scalar>(
    run: DriveView<S>,
    s: SystemView<S>,
    count: usize,
)
    requires
        run.drives(s),
        run.awaits(s, Answer::Resolved(Ok(count))),
    ensures
        ({
            let o = run.step(s, Answer::Resolved(Ok(count)));
            let past = run.burst > 2 * s.max_events_in_burst && run.roots_armed;
            &&& run.phase is Impulses && past ==> o.reply == Ok::<ActionView<S>, Seq<char>>(
                ActionView::ResolvePenetrations { force_plastic: true },
            )
            &&& run.phase is Impulses && !past ==> (o.reply matches Ok(
                ActionView::StoreState(_),
            ))
            &&& run.phase is Projection ==> o.reply == Ok::<ActionView<S>, Seq<char>>(
                ActionView::DisarmRoots,
            )
            &&& run.phase is Sweep ==> (o.reply matches Ok(ActionView::StoreState(_)))
        }),
{
    resolved_is_a_step(run, s, Ok(count));
}

/// At the end of an interval penetration is projected out exactly when some pair
/// lies deeper than the slop.
pub proof fn a_deep_overlap_is_swept<S: Scalar>(
    run: DriveView<S>,
    s: SystemView<S>,
    overlaps: Seq<Option<S>>,
)
    requires
        run.drives(s),
        run.awaits(s, Answer::Overlaps(overlaps)),
    ensures
        ({
            let deep = exists|k: int|
                0 <= k < overlaps.len() && (#[trigger] overlaps[k] matches Some(separation)
                    && separation.spec_less(s.contact_slop.spec_neg()));
            run.step(s, Answer::Overlaps(overlaps)).reply == Ok::<ActionView<S>, Seq<char>>(
                if deep {
                    ActionView::ResolvePenetrations { force_plastic: false }
                } else {
                    ActionView::MeasureConserved
                },
            )
        }),
{
    overlaps_is_a_step(run, s, overlaps);
}

/// After a restart the run goes on: with a new cap where one is in force, to the
/// end of the interval where the event lies on it, and otherwise to integrate
/// the rest of the interval.
pub proof fn a_run_carries_on_after_an_event<S: Scalar>(
    run: DriveView<S>,
    s: SystemView<S>,
)
    requires
        run.drives(s),
        run.awaits(s, Answer::Code(0)),
        run.phase is EventReInit || run.phase is EventMaxStep,
    ensures
        ({
            let o = run.step(s, Answer::Code(0));
            &&& o.system == s && o.run.tout == run.tout && o.run.t == run.t
            &&& o.reply == Ok::<ActionView<S>, Seq<char>>(
                if run.phase is EventReInit && run.engine is Cvode && run.roots_armed {
                    ActionView::Survey
                } else if reaches(run.t, run.tout) {
                    ActionView::ReadState
                } else {
                    ActionView::Evolve(run.tout)
                },
            )
        }),
{
    code_is_a_step(run, s, 0);
}

/// An event lies on the end of its interval when it is no further from it than a
/// part in a million million, of the time or of one where the time is smaller.
pub proof fn an_output_is_reached_to_rounding<S: Scalar>(t: S, tout: S)
    ensures
        reaches(t, tout) <==> {
            let size = tout.spec_abs().spec_larger(S::of_decimal(1, 0));
            tout.spec_sub(t).spec_abs().spec_at_most(S::of_decimal(1, -12i32).spec_mul(size))
        },
{
}

/// What a run fails with tells of the code that it was answered with.
pub proof fn a_failure_tells_its_code<S: Scalar>(
    run: DriveView<S>,
    s: SystemView<S>,
    answer: Answer<S>,
)
    requires
        run.drives(s),
        run.awaits(s, answer),
        run.step(s, answer).reply is Err,
    ensures
        ({
            let why = run.step(s, answer).reply->Err_0;
            match answer {
                Answer::Code(code) | Answer::Roots { code, .. } => mentions(
                    why,
                    signed_numeral(code as int),
                ),
                Answer::Context { code, .. } => code != 0 ==> mentions(
                    why,
                    signed_numeral(code as int),
                ),
                Answer::Evolved { code, t, .. } => mentions(why, signed_numeral(code as int))
                    && mentions(why, t.shown()@),
                _ => true,
            }
        }),
{
    let none = Seq::<char>::empty();
    match answer {
        Answer::Code(code) => {
            code_is_a_step(run, s, code);
            a_failed_call_tells_its_code(run, code);
        },
        Answer::Roots { code, roots } => {
            roots_is_a_step(run, s, code, roots);
            a_failed_call_tells_its_code(run, code);
        },
        Answer::Context { code, present } => {
            context_is_a_step(run, s, code, present);
            let head = "SUNContext_Create"@ + " failed: "@;
            a_text_mentions_its_parts(head, signed_numeral(code as int), none);
            assert(head + signed_numeral(code as int) + none =~= head + signed_numeral(
                code as int,
            ));
        },
        Answer::Evolved { code, rooted, t } => {
            evolved_is_a_step(run, s, code, rooted, t);
            let call = if run.separable() {
                "ARKodeEvolve"@
            } else {
                "CVode"@
            };
            let head = call + " failed with retval = "@;
            let number = signed_numeral(code as int);
            let shown = t.shown()@;
            a_text_mentions_its_parts(head, number, " at t = "@ + shown);
            a_text_mentions_its_parts(head + number + " at t = "@, shown, none);
            assert(head + number + (" at t = "@ + shown) =~= head + number + " at t = "@ + shown);
            assert(head + number + " at t = "@ + shown + none =~= head + number + " at t = "@
                + shown);
        },
        _ => {},
    }
}

proof fn a_failed_call_tells_its_code<S: Scalar>(run: DriveView<S>, code: i32)
    ensures
        mentions(run.failure_text(code), signed_numeral(code as int)),
{
    let none = Seq::<char>::empty();
    let number = signed_numeral(code as int);
    let head = match (run.phase, run.engine) {
        (Phase::MethodName, Engine::Sprk { table, .. }) => "SPRKStepSetMethodName("@
            + quoted_text(table@) + ") failed: "@,
        _ => run.call_name() + " failed: "@,
    };
    a_text_mentions_its_parts(head, number, none);
    assert(head + number + none =~= head + number);
}

/// A solver is set up in full, each step on the one before: the state before the
/// solver, tolerances and linear algebra for one that chooses its steps, table and
/// step for the other, the limit on steps, and last what the callbacks know. Only
/// then is it armed, with roots, directions and, where steps are chosen, a cap.
pub proof fn a_solver_is_set_up_step_by_step<S: Scalar>(
    run: DriveView<S>,
    s: SystemView<S>,
    answer: Answer<S>,
)
    requires
        run.drives(s),
        run.awaits(s, answer),
        run.step(s, answer).reply is Ok,
    ensures
        ({
            let action = run.step(s, answer).reply->Ok_0;
            let steps_are_chosen = run.engine is Cvode;
            &&& run.phase is Context ==> action is NewVector
            &&& run.phase is Vector ==> action is StoreState
            &&& run.phase is Load ==> action is CreateSolver
            &&& run.phase is Solver && steps_are_chosen ==> action is Init
            &&& run.phase is Init ==> action is SetTolerances
            &&& run.phase is Tolerances ==> action is NewMatrix
            &&& run.phase is Matrix ==> action is NewLinearSolver
            &&& run.phase is LinearSolver ==> action is AttachLinearSolver
            &&& run.phase is Attach ==> action is SetMaxNumSteps
            &&& run.phase is Solver && !steps_are_chosen ==> action is SetMethodName
            &&& run.phase is MethodName ==> action is SetFixedStep
            &&& run.phase is FixedStep ==> action is SetMaxNumSteps
            &&& run.phase is MaxNumSteps ==> action is FindPairs
            &&& run.phase is Pairs && steps_are_chosen ==> action is SetFullData
            &&& run.phase is Pairs && !steps_are_chosen ==> action is SetSeparableData
            &&& run.phase is UserData && run.armed ==> action is RootInit
            &&& run.phase is ArmInit || run.phase is RearmInit ==> action is SetRootDirection
            &&& run.phase is ArmDirection && steps_are_chosen ==> action is SetNoInactiveRootWarn
            &&& run.phase is ArmQuiet ==> action is Survey
            &&& run.phase is ArmSurvey ==> action is SetMaxStep
        }),
{
    step_asks_in_order(run, s, answer);
}

/// An event is dealt with step by step: which roots, what state, whether a burst,
/// the impulses, and then the new state goes into the solver, which is restarted
/// on it once its counters are read. Quaternions that are made unit and
/// penetration that is projected out at an output go the same way.
pub proof fn an_event_is_dealt_with_step_by_step<S: Scalar>(
    run: DriveView<S>,
    s: SystemView<S>,
    answer: Answer<S>,
)
    requires
        run.drives(s),
        run.awaits(s, answer),
        run.step(s, answer).reply is Ok,
    ensures
        ({
            let action = run.step(s, answer).reply->Ok_0;
            let steps_are_chosen = run.engine is Cvode;
            &&& run.phase is RootInfo ==> action is ReadState
            &&& run.phase is EventRead ==> action is CompareEvents
            &&& run.phase is Burst ==> action is ResolveImpulses
            &&& run.phase is Projection ==> action is DisarmRoots
            &&& run.phase is Disarm ==> action is StoreState
            &&& run.phase is EventStore || run.phase is SweepStore ==> if steps_are_chosen {
                action is GetStats
            } else {
                action is ReInit
            }
            &&& run.phase is RenormStore ==> action is GetStats
            &&& run.phase is EventStats || run.phase is SweepStats || run.phase
                is RenormStats ==> action is ReInit
            &&& run.phase is RenormReInit ==> if run.armed {
                action is MeasureOverlaps
            } else {
                action is MeasureConserved
            }
            &&& run.phase is Sweep ==> action is StoreState
            &&& run.phase is SweepReInit ==> action is MeasureConserved
            &&& run.phase is IntervalSurvey || run.phase is EventSurvey ==> action is SetMaxStep
            &&& run.phase is IntervalMaxStep ==> action is Evolve
        }),
{
    step_asks_in_order(run, s, answer);
}

/// What follows each phase of the setup and of an event.
spec fn in_sequence<S: Scalar>(run: DriveView<S>, action: ActionView<S>) -> bool {
    match run.phase {
        Phase::Context => action is NewVector,
        Phase::Vector | Phase::Disarm | Phase::Sweep => action is StoreState,
        Phase::Load => action is CreateSolver,
        Phase::Solver => if run.separable() {
            action is SetMethodName
        } else {
            action is Init
        },
        Phase::Init => action is SetTolerances,
        Phase::Tolerances => action is NewMatrix,
        Phase::Matrix => action is NewLinearSolver,
        Phase::LinearSolver => action is AttachLinearSolver,
        Phase::Attach | Phase::FixedStep => action is SetMaxNumSteps,
        Phase::MethodName => action is SetFixedStep,
        Phase::MaxNumSteps => action is FindPairs,
        Phase::Pairs => if run.separable() {
            action is SetSeparableData
        } else {
            action is SetFullData
        },
        Phase::UserData => run.armed ==> action is RootInit,
        Phase::ArmInit | Phase::RearmInit => action is SetRootDirection,
        Phase::ArmDirection => !run.separable() ==> action is SetNoInactiveRootWarn,
        Phase::ArmQuiet => action is Survey,
        Phase::ArmSurvey | Phase::IntervalSurvey | Phase::EventSurvey => action is SetMaxStep,
        Phase::RootInfo => action is ReadState,
        Phase::EventRead => action is CompareEvents,
        Phase::Burst => action is ResolveImpulses,
        Phase::Projection => action is DisarmRoots,
        Phase::EventStore | Phase::SweepStore => if run.separable() {
            action is ReInit
        } else {
            action is GetStats
        },
        Phase::RenormStore => action is GetStats,
        Phase::EventStats | Phase::SweepStats | Phase::RenormStats => action is ReInit,
        Phase::RenormReInit => if run.armed {
            action is MeasureOverlaps
        } else {
            action is MeasureConserved
        },
        Phase::SweepReInit => action is MeasureConserved,
        Phase::IntervalMaxStep => action is Evolve,
        _ => true,
    }
}

proof fn step_asks_in_order<S: Scalar>(run: DriveView<S>, s: SystemView<S>, answer: Answer<S>)
    requires
        run.drives(s),
        run.awaits(s, answer),
        run.step(s, answer).reply is Ok,
    ensures
        in_sequence(run, run.step(s, answer).reply->Ok_0),
{
    match answer {
        Answer::Context { code, present } => {
            context_is_a_step(run, s, code, present);
        },
        Answer::Made(made) => {
            made_is_a_step(run, s, made);
        },
        Answer::Stored(stored) => {
            stored_is_a_step(run, s, stored);
        },
        Answer::Read(read) => {
            read_is_a_step(run, s, read);
        },
        Answer::Code(code) => {
            code_is_a_step(run, s, code);
        },
        Answer::Pairs(pairs) => {
            pairs_is_a_step(run, s, pairs);
        },
        Answer::Surveyed(survey) => {
            survey_is_a_step(run, s, survey);
        },
        Answer::Evolved { code, rooted, t } => {
            evolved_is_a_step(run, s, code, rooted, t);
        },
        Answer::Roots { code, roots } => {
            roots_is_a_step(run, s, code, roots);
        },
        Answer::Burst(same) => {
            burst_is_a_step(run, s, same);
        },
        Answer::Resolved(resolved) => {
            resolved_is_a_step(run, s, resolved);
        },
        Answer::Stats(st) => {
            stats_is_a_step(run, s, st);
        },
        Answer::Overlaps(overlaps) => {
            overlaps_is_a_step(run, s, overlaps);
        },
        Answer::Conserved(measured) => {
            conserved_is_a_step(run, s, measured);
        },
    }
}

/// A report grows by what the solver counted since its last restart, each counter
/// by its own count, and by the contacts that were resolved; the system counts
/// those too.
pub proof fn a_report_grows_by_what_is_counted<S: Scalar>(
    run: DriveView<S>,
    s: SystemView<S>,
    st: SolverStats,
    count: usize,
)
    requires
        run.drives(s),
    ensures
        run.awaits(s, Answer::Stats(st)) ==> {
            let (was, new) = (run.report, run.step(s, Answer::Stats(st)).run.report);
            &&& new.nst == was.nst + st.nst && new.nfe == was.nfe + st.nfe
            &&& new.nni == was.nni + st.nni && new.netf == was.netf + st.netf
            &&& new.nge == was.nge + st.nge
            &&& new.ncollisions == was.ncollisions && new.snapshots == was.snapshots
        },
        run.awaits(s, Answer::Resolved(Ok(count))) ==> {
            let o = run.step(s, Answer::Resolved(Ok(count)));
            let (was, new) = (run.report, o.run.report);
            &&& new.ncollisions == was.ncollisions + count
            &&& o.system.collision_count == s.collision_count + count
            &&& new.nst == was.nst && new.nfe == was.nfe && new.nni == was.nni
            &&& new.netf == was.netf && new.nge == was.nge && new.snapshots == was.snapshots
        },
{
    stats_is_a_step(run, s, st);
    resolved_is_a_step(run, s, Ok(count));
}

/// A run fails exactly when it is told of a failure: a call that did not make
/// what it was to make, a vector out of reach, a contact that could not be
/// resolved, or a code. Of a solver that chooses its steps every code but zero is
/// a failure, of the fixed-step solver a negative one, and of an integration a
/// negative one.
pub proof fn a_run_fails_when_it_is_told_of_a_failure<S: Scalar>(
    run: DriveView<S>,
    s: SystemView<S>,
    answer: Answer<S>,
)
    requires
        run.drives(s),
        run.awaits(s, answer),
    ensures
        run.step(s, answer).reply is Err <==> match answer {
            Answer::Context { code, present } => code != 0 || !present,
            Answer::Made(made) => !made,
            Answer::Stored(stored) => !stored,
            Answer::Read(read) => read is None,
            Answer::Code(code) | Answer::Roots { code, .. } => if run.engine is Sprk {
                code < 0
            } else {
                code != 0
            },
            Answer::Evolved { code, .. } => code < 0,
            Answer::Resolved(resolved) => resolved is Err,
            _ => false,
        },
        answer matches Answer::Resolved(Err(why)) ==> run.step(s, answer).reply == Err::<
            ActionView<S>,
            Seq<char>,
        >(why),
{
    step_asks(run, s, answer);
    if let Answer::Resolved(resolved) = answer {
        resolved_is_a_step(run, s, resolved);
    }
}

/// A snapshot holds what was measured, at the time reached; after it comes the
/// next output, and after the last the end of the run.
pub proof fn a_snapshot_holds_what_was_measured<S: Scalar>(
    run: DriveView<S>,
    s: SystemView<S>,
    measured: Conserved<S>,
)
    requires
        run.drives(s),
        run.awaits(s, Answer::Conserved(measured)),
    ensures
        ({
            let o = run.step(s, Answer::Conserved(measured));
            let before = run.report.snapshots;
            let now = o.run.report.snapshots;
            &&& now.len() == before.len() + 1 && now.drop_last() == before
            &&& now.last().t == run.t
            &&& now.last().energy == measured.energy
            &&& now.last().total_momentum == measured.total_momentum
            &&& now.last().total_angular_momentum == measured.total_angular_momentum
            &&& now.last().center_of_mass == measured.center_of_mass
            &&& o.system == s
            &&& run.k < run.nout ==> o.run.k == run.k + 1
            &&& run.k == run.nout ==> match run.engine {
                Engine::Cvode { .. } => o.reply == Ok::<ActionView<S>, Seq<char>>(
                    ActionView::GetStats,
                ) && o.run.phase is FinalStats,
                Engine::Sprk { dt, .. } => {
                    &&& o.reply == Ok::<ActionView<S>, Seq<char>>(ActionView::Free)
                    &&& o.run.report.nst == run.t.spec_sub(run.t0).spec_div(dt).spec_round()
                },
            }
        }),
{
    conserved_is_a_step(run, s, measured);
    let o = run.step(s, Answer::Conserved(measured));
    assert(o.run.report.snapshots.drop_last() =~= run.report.snapshots);
}

/// The last question of a run is to release the solver: of a solver that counts,
/// once its counters have been read for the last time.
pub proof fn a_run_ends_by_releasing_the_solver<S: Scalar>(
    run: DriveView<S>,
    s: SystemView<S>,
    answer: Answer<S>,
)
    requires
        run.drives(s),
        run.awaits(s, answer),
    ensures
        ({
            let o = run.step(s, answer);
            &&& o.reply is Ok && o.run.phase is Finished <==> o.reply == Ok::<
                ActionView<S>,
                Seq<char>,
            >(ActionView::Free)
            &&& run.phase is FinalStats ==> o.reply == Ok::<ActionView<S>, Seq<char>>(
                ActionView::Free,
            )
        }),
{
    step_asks(run, s, answer);
}

} // verus!
