//! Facts about single answers, with a proof for each kind of answer.

use crate::integrate::bounds::{renormalizing_keeps_the_length, SurveyView};
use crate::integrate::driver::laws::{
    about_collisions, answered_by, contacts_in, counters_in, only_moved, plain_answer,
    same_make,
};
use crate::integrate::driver::{
    needs_sweep, reaches, ActionView, Answer, DriveView, Outcome, SolverStats,
};
use crate::integrate::{snapshot_at, Conserved};
use crate::scalar::Scalar;
use crate::system::SystemView;
use vstd::prelude::*;

verus! {

pub proof fn context_keeps_order<S: Scalar>(
    run: DriveView<S>,
    s: SystemView<S>,
    code: i32,
    present: bool,
)
    requires
        run.drives(s),
        run.awaits(s, Answer::Context { code, present }),
    ensures
        run.after_context(s, code, present).in_order(),
{
}

pub proof fn made_keeps_order<S: Scalar>(run: DriveView<S>, s: SystemView<S>, made: bool)
    requires
        run.drives(s),
        run.awaits(s, Answer::Made(made)),
    ensures
        run.after_made(s, made).in_order(),
{
}

pub proof fn stored_keeps_order<S: Scalar>(run: DriveView<S>, s: SystemView<S>, stored: bool)
    requires
        run.drives(s),
        run.awaits(s, Answer::Stored(stored)),
    ensures
        run.after_stored(s, stored).in_order(),
{
}

pub proof fn read_keeps_order<S: Scalar>(run: DriveView<S>, s: SystemView<S>, read: Option<Seq<S>>)
    requires
        run.drives(s),
        run.awaits(s, Answer::Read(read)),
    ensures
        run.after_read(s, read).in_order(),
{
    if let Some(d) = read {
        if !run.separable() {
            renormalizing_keeps_the_length(d, run.n);
        }
    }
}

pub proof fn code_keeps_order<S: Scalar>(run: DriveView<S>, s: SystemView<S>, code: i32)
    requires
        run.drives(s),
        run.awaits(s, Answer::Code(code)),
    ensures
        run.after_code(s, code).in_order(),
{
}

pub proof fn pairs_keeps_order<S: Scalar>(
    run: DriveView<S>,
    s: SystemView<S>,
    pairs: Seq<(usize, usize)>,
)
    requires
        run.drives(s),
        run.awaits(s, Answer::Pairs(pairs)),
    ensures
        run.after_pairs(s, pairs).in_order(),
{
}

pub proof fn survey_keeps_order<S: Scalar>(
    run: DriveView<S>,
    s: SystemView<S>,
    survey: SurveyView<S>,
)
    requires
        run.drives(s),
        run.awaits(s, Answer::Surveyed(survey)),
    ensures
        run.after_survey(s, survey).in_order(),
{
}

pub proof fn evolved_keeps_order<S: Scalar>(
    run: DriveView<S>,
    s: SystemView<S>,
    code: i32,
    rooted: bool,
    t: S,
)
    requires
        run.drives(s),
        run.awaits(s, Answer::Evolved { code, rooted, t }),
    ensures
        run.after_evolved(s, code, rooted, t).in_order(),
{
}

pub proof fn roots_keeps_order<S: Scalar>(
    run: DriveView<S>,
    s: SystemView<S>,
    code: i32,
    roots: Seq<i32>,
)
    requires
        run.drives(s),
        run.awaits(s, Answer::Roots { code, roots }),
    ensures
        run.after_roots(s, code, roots).in_order(),
{
}

pub proof fn burst_keeps_order<S: Scalar>(run: DriveView<S>, s: SystemView<S>, same: bool)
    requires
        run.drives(s),
        run.awaits(s, Answer::Burst(same)),
    ensures
        run.after_burst(s, same).in_order(),
{
}

pub proof fn resolved_keeps_order<S: Scalar>(
    run: DriveView<S>,
    s: SystemView<S>,
    resolved: Result<usize, Seq<char>>,
)
    requires
        run.drives(s),
        run.awaits(s, Answer::Resolved(resolved)),
    ensures
        run.after_resolved(s, resolved).in_order(),
{
}

pub proof fn stats_keeps_order<S: Scalar>(run: DriveView<S>, s: SystemView<S>, st: SolverStats)
    requires
        run.drives(s),
        run.awaits(s, Answer::Stats(st)),
    ensures
        run.after_stats(s, st).in_order(),
{
}

pub proof fn overlaps_keeps_order<S: Scalar>(
    run: DriveView<S>,
    s: SystemView<S>,
    overlaps: Seq<Option<S>>,
)
    requires
        run.drives(s),
        run.awaits(s, Answer::Overlaps(overlaps)),
    ensures
        run.after_overlaps(s, overlaps).in_order(),
{
}

pub proof fn conserved_keeps_order<S: Scalar>(
    run: DriveView<S>,
    s: SystemView<S>,
    measured: Conserved<S>,
)
    requires
        run.drives(s),
        run.awaits(s, Answer::Conserved(measured)),
    ensures
        run.after_conserved(s, measured).in_order(),
{
}

pub proof fn step_keeps_order<S: Scalar>(
    run: DriveView<S>,
    s: SystemView<S>,
    answer: Answer<S>,
)
    requires
        run.drives(s),
        run.awaits(s, answer),
    ensures
        run.step(s, answer).in_order(),
{
    reveal(DriveView::step);
    match answer {
        Answer::Context { code, present } => {
            context_keeps_order(run, s, code, present);
        },
        Answer::Made(made) => {
            made_keeps_order(run, s, made);
        },
        Answer::Stored(stored) => {
            stored_keeps_order(run, s, stored);
        },
        Answer::Read(read) => {
            read_keeps_order(run, s, read);
        },
        Answer::Code(code) => {
            code_keeps_order(run, s, code);
        },
        Answer::Pairs(pairs) => {
            pairs_keeps_order(run, s, pairs);
        },
        Answer::Surveyed(survey) => {
            survey_keeps_order(run, s, survey);
        },
        Answer::Evolved { code, rooted, t } => {
            evolved_keeps_order(run, s, code, rooted, t);
        },
        Answer::Roots { code, roots } => {
            roots_keeps_order(run, s, code, roots);
        },
        Answer::Burst(same) => {
            burst_keeps_order(run, s, same);
        },
        Answer::Resolved(resolved) => {
            resolved_keeps_order(run, s, resolved);
        },
        Answer::Stats(st) => {
            stats_keeps_order(run, s, st);
        },
        Answer::Overlaps(overlaps) => {
            overlaps_keeps_order(run, s, overlaps);
        },
        Answer::Conserved(measured) => {
            conserved_keeps_order(run, s, measured);
        },
    }
}

/// What relates a run to what one answer makes of it.
pub open spec fn follows<S: Scalar>(
    run: DriveView<S>,
    s: SystemView<S>,
    answer: Answer<S>,
    o: Outcome<S>,
) -> bool {
    &&& o.run.engine == run.engine && o.run.n == run.n && o.run.nout == run.nout && o.run.t0
        == run.t0 && o.run.t_end == run.t_end
    &&& o.system == SystemView {
        objects: o.system.objects,
        time: o.system.time,
        collision_count: o.system.collision_count,
        ..s
    }
    &&& run.on_schedule() ==> o.run.on_schedule()
    &&& run.on_schedule() && o.reply == Ok::<ActionView<S>, Seq<char>>(ActionView::Free)
        ==> o.run.report.snapshots.len() == o.run.nout
    &&& o.run.report.snapshots == match answer {
        Answer::Conserved(measured) => run.report.snapshots.push(snapshot_at(measured, run.t)),
        _ => run.report.snapshots,
    }
    &&& run.in_time(s) ==> o.run.in_time(o.system)
    &&& run.on_schedule() && !(answer matches Answer::Evolved { rooted: true, .. })
        ==> o.run.is_past(run)
    &&& o.reply is Err ==> o.run.phase is Finished
    &&& o.run.burst < usize::MAX ==> o.run.phase is Finished || o.run.awaits(
        o.system,
        plain_answer(o.run),
    )
    &&& o.reply matches Ok(action) ==> forall|next: Answer<S>|
        #![trigger answered_by(action, next)]
        o.run.awaits(o.system, next) ==> answered_by(action, next)
    &&& run.undisturbed() && !(answer matches Answer::Evolved { rooted: true, .. })
        ==> o.run.undisturbed() && (o.reply matches Ok(action) ==> !about_collisions(action))
    &&& !(answer is Burst) ==> o.run.burst == run.burst && o.run.last_event_t == run.last_event_t
    &&& !run.separable() && (o.reply matches Ok(ActionView::ReInit(_))) ==> answer is Stats
    &&& o.run.report.ncollisions == run.report.ncollisions + contacts_in(answer)
    &&& o.system.collision_count == s.collision_count + contacts_in(answer)
    &&& !run.separable() ==> o.run.report.nst == run.report.nst + counters_in(answer).nst
    &&& o.run.report.nfe == run.report.nfe + counters_in(answer).nfe
    &&& o.run.report.nni == run.report.nni + counters_in(answer).nni
    &&& o.run.report.netf == run.report.netf + counters_in(answer).netf
    &&& o.run.report.nge == run.report.nge + counters_in(answer).nge
    &&& (o.reply matches Ok(ActionView::ResolveImpulses { force_plastic, .. })
        ==> force_plastic == (o.run.burst > s.max_events_in_burst))
    &&& (o.reply matches Ok(ActionView::ResolvePenetrations { force_plastic })
        ==> if force_plastic {
        run.roots_armed && o.run.burst > 2 * s.max_events_in_burst
    } else {
        answer matches Answer::Overlaps(overlaps) && needs_sweep(overlaps, s.contact_slop)
    })
    &&& o.reply == Ok::<ActionView<S>, Seq<char>>(ActionView::DisarmRoots)
        ==> run.phase is Projection
    &&& run.roots_armed && !o.run.roots_armed && !(answer is Pairs) ==> run.phase is Disarm
    &&& o.run.k != run.k ==> o.run.roots_armed == o.run.armed || o.reply == Ok::<
        ActionView<S>,
        Seq<char>,
    >(ActionView::RootInit(o.run.pairs.len()))
    &&& (run.phase is RearmInit || run.phase is RearmDirection || run.phase is RearmQuiet)
        && o.reply is Ok ==> o.run.roots_armed || o.run.phase is RearmDirection || o.run.phase
        is RearmQuiet
    &&& (run.phase is EventReInit || run.phase is EventMaxStep) ==> (o.reply matches Ok(
        ActionView::Evolve(tout),
    ) ==> !reaches(o.run.t, tout))
    &&& o.system.objects.len() == s.objects.len()
    &&& forall|i: int|
        0 <= i < s.objects.len() ==> same_make(s.objects[i], #[trigger] o.system.objects[i])
    &&& run.separable() ==> forall|i: int|
        0 <= i < s.objects.len() ==> only_moved(s.objects[i], #[trigger] o.system.objects[i])
    &&& o.run.t == match answer {
        Answer::Evolved { t, .. } => t,
        _ => run.t,
    }
    &&& o.run.ending() ==> (run.ending() || run.phase is EndRead) && o.run.tout == run.tout
        && o.run.t == run.t && o.run.k == run.k
    &&& o.run.phase is EndRead ==> o.run.tout == run.tout && (answer matches Answer::Evolved {
        code,
        rooted: false,
        ..
    } && code >= 0) || run.in_event() && reaches(o.run.t, o.run.tout)
    &&& o.run.in_event() ==> run.in_event() || (answer matches Answer::Evolved {
        rooted: true,
        ..
    })
}

proof fn context_follows<S: Scalar>(run: DriveView<S>, s: SystemView<S>, code: i32, present: bool)
    requires
        run.drives(s),
        run.awaits(s, Answer::Context { code, present }),
    ensures
        follows(run, s, Answer::Context { code, present }, run.after_context(s, code, present)),
{
}

proof fn made_follows<S: Scalar>(run: DriveView<S>, s: SystemView<S>, made: bool)
    requires
        run.drives(s),
        run.awaits(s, Answer::Made(made)),
    ensures
        follows(run, s, Answer::Made(made), run.after_made(s, made)),
{
}

proof fn stored_follows<S: Scalar>(run: DriveView<S>, s: SystemView<S>, stored: bool)
    requires
        run.drives(s),
        run.awaits(s, Answer::Stored(stored)),
    ensures
        follows(run, s, Answer::Stored(stored), run.after_stored(s, stored)),
{
}

proof fn read_follows<S: Scalar>(run: DriveView<S>, s: SystemView<S>, read: Option<Seq<S>>)
    requires
        run.drives(s),
        run.awaits(s, Answer::Read(read)),
    ensures
        follows(run, s, Answer::Read(read), run.after_read(s, read)),
{
}

proof fn code_follows<S: Scalar>(run: DriveView<S>, s: SystemView<S>, code: i32)
    requires
        run.drives(s),
        run.awaits(s, Answer::Code(code)),
    ensures
        follows(run, s, Answer::Code(code), run.after_code(s, code)),
{
}

proof fn pairs_follows<S: Scalar>(run: DriveView<S>, s: SystemView<S>, pairs: Seq<(usize, usize)>)
    requires
        run.drives(s),
        run.awaits(s, Answer::Pairs(pairs)),
    ensures
        follows(run, s, Answer::Pairs(pairs), run.after_pairs(s, pairs)),
{
}

proof fn survey_follows<S: Scalar>(run: DriveView<S>, s: SystemView<S>, survey: SurveyView<S>)
    requires
        run.drives(s),
        run.awaits(s, Answer::Surveyed(survey)),
    ensures
        follows(run, s, Answer::Surveyed(survey), run.after_survey(s, survey)),
{
}

proof fn evolved_follows<S: Scalar>(
    run: DriveView<S>,
    s: SystemView<S>,
    code: i32,
    rooted: bool,
    t: S,
)
    requires
        run.drives(s),
        run.awaits(s, Answer::Evolved { code, rooted, t }),
    ensures
        follows(run, s, Answer::Evolved { code, rooted, t }, run.after_evolved(s, code, rooted, t)),
{
}

proof fn roots_follows<S: Scalar>(run: DriveView<S>, s: SystemView<S>, code: i32, roots: Seq<i32>)
    requires
        run.drives(s),
        run.awaits(s, Answer::Roots { code, roots }),
    ensures
        follows(run, s, Answer::Roots { code, roots }, run.after_roots(s, code, roots)),
{
}

proof fn burst_follows<S: Scalar>(run: DriveView<S>, s: SystemView<S>, same: bool)
    requires
        run.drives(s),
        run.awaits(s, Answer::Burst(same)),
    ensures
        follows(run, s, Answer::Burst(same), run.after_burst(s, same)),
{
}

proof fn resolved_follows<S: Scalar>(
    run: DriveView<S>,
    s: SystemView<S>,
    resolved: Result<usize, Seq<char>>,
)
    requires
        run.drives(s),
        run.awaits(s, Answer::Resolved(resolved)),
    ensures
        follows(run, s, Answer::Resolved(resolved), run.after_resolved(s, resolved)),
{
}

proof fn stats_follows<S: Scalar>(run: DriveView<S>, s: SystemView<S>, st: SolverStats)
    requires
        run.drives(s),
        run.awaits(s, Answer::Stats(st)),
    ensures
        follows(run, s, Answer::Stats(st), run.after_stats(s, st)),
{
}

proof fn overlaps_follows<S: Scalar>(run: DriveView<S>, s: SystemView<S>, overlaps: Seq<Option<S>>)
    requires
        run.drives(s),
        run.awaits(s, Answer::Overlaps(overlaps)),
    ensures
        follows(run, s, Answer::Overlaps(overlaps), run.after_overlaps(s, overlaps)),
{
}

proof fn conserved_follows<S: Scalar>(run: DriveView<S>, s: SystemView<S>, measured: Conserved<S>)
    requires
        run.drives(s),
        run.awaits(s, Answer::Conserved(measured)),
    ensures
        follows(run, s, Answer::Conserved(measured), run.after_conserved(s, measured)),
{
}

pub proof fn step_follows<S: Scalar>(run: DriveView<S>, s: SystemView<S>, answer: Answer<S>)
    requires
        run.drives(s),
        run.awaits(s, answer),
    ensures
        follows(run, s, answer, run.step(s, answer)),
{
    reveal(DriveView::step);
    match answer {
        Answer::Context { code, present } => {
            context_follows(run, s, code, present);
        },
        Answer::Made(made) => {
            made_follows(run, s, made);
        },
        Answer::Stored(stored) => {
            stored_follows(run, s, stored);
        },
        Answer::Read(read) => {
            read_follows(run, s, read);
        },
        Answer::Code(code) => {
            code_follows(run, s, code);
        },
        Answer::Pairs(pairs) => {
            pairs_follows(run, s, pairs);
        },
        Answer::Surveyed(survey) => {
            survey_follows(run, s, survey);
        },
        Answer::Evolved { code, rooted, t } => {
            evolved_follows(run, s, code, rooted, t);
        },
        Answer::Roots { code, roots } => {
            roots_follows(run, s, code, roots);
        },
        Answer::Burst(same) => {
            burst_follows(run, s, same);
        },
        Answer::Resolved(resolved) => {
            resolved_follows(run, s, resolved);
        },
        Answer::Stats(st) => {
            stats_follows(run, s, st);
        },
        Answer::Overlaps(overlaps) => {
            overlaps_follows(run, s, overlaps);
        },
        Answer::Conserved(measured) => {
            conserved_follows(run, s, measured);
        },
    }
}

} // verus!
