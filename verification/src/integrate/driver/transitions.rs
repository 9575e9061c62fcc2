//! The transitions of a run: what each answer leads to.

use crate::integrate::bounds::{renormalized, step_cap, worst_norm_error, SurveyView};
use crate::integrate::driver::{
    downward, failed_text, fixed_step_limit, found, method_name_failed_text, needs_sweep,
    no_array_text, reaches, ActionView, Answer, DriveView, Engine, Outcome, Phase, SolverStats,
};
use crate::integrate::dynamics::{pairs_within, rhs_params, sprk_params};
use crate::integrate::{snapshot_at, Conserved, RunReportView};
use crate::scalar::Scalar;
use crate::system::{
    packed, packed_translation, unpacked, unpacked_translation, SystemView,
};
use crate::text::{numeral, quoted_text, signed_numeral};
use vstd::prelude::*;

verus! {

/// The transitions of a run.
impl<S: Scalar> DriveView<S> {
    /// Whether the run goes through the separable solver.
    pub open spec fn separable(self) -> bool {
        self.engine is Sprk
    }

    /// The length of the state vector.
    pub open spec fn state_len(self) -> nat {
        if self.separable() {
            6 * self.n
        } else {
            13 * self.n
        }
    }

    /// The state vector of a system, in the layout of the run.
    pub open spec fn state_of(self, s: SystemView<S>) -> Seq<S> {
        if self.separable() {
            packed_translation(s.objects)
        } else {
            packed(s.objects)
        }
    }

    /// The system with the state vector `d`, at the time the run has reached.
    pub open spec fn system_at(self, s: SystemView<S>, d: Seq<S>) -> SystemView<S> {
        SystemView {
            objects: if self.separable() {
                unpacked_translation(s.objects, d)
            } else {
                unpacked(s.objects, d)
            },
            time: self.t,
            ..s
        }
    }

    /// Output `k` of the run: the outputs divide it evenly.
    pub open spec fn output_time(self, k: nat) -> S {
        self.t0.spec_add(
            self.t_end.spec_sub(self.t0).spec_mul(S::of_count(k as usize)).spec_div(
                S::of_count(self.nout as usize),
            ),
        )
    }

    /// The run waiting in `phase` for the answer to `action`.
    pub open spec fn ask(
        self,
        s: SystemView<S>,
        phase: Phase,
        action: ActionView<S>,
    ) -> Outcome<S> {
        Outcome { run: DriveView { phase, ..self }, system: s, reply: Ok(action) }
    }

    /// The run ended by a failure.
    pub open spec fn refuse(self, s: SystemView<S>, why: Seq<char>) -> Outcome<S> {
        Outcome { run: DriveView { phase: Phase::Finished, ..self }, system: s, reply: Err(why) }
    }

    /// Whether a code means failure: anything but zero for the multistep
    /// solver, which has no warnings here, and a negative one for the other.
    pub open spec fn is_failure(self, code: i32) -> bool {
        if self.separable() {
            code < 0
        } else {
            code != 0
        }
    }

    /// The name under which a failure of the pending call is reported.
    pub open spec fn call_name(self) -> Seq<char> {
        if self.separable() {
            match self.phase {
                Phase::FixedStep => "ARKodeSetFixedStep"@,
                Phase::MaxNumSteps => "ARKodeSetMaxNumSteps"@,
                Phase::UserData => "ARKodeSetUserData"@,
                Phase::ArmInit => "ARKodeRootInit"@,
                Phase::ArmDirection => "ARKodeSetRootDirection"@,
                Phase::RearmInit => "ARKodeRootInit (re-arm)"@,
                Phase::RearmDirection => "ARKodeSetRootDirection (re-arm)"@,
                Phase::RootInfo => "ARKodeGetRootInfo"@,
                Phase::Disarm => "ARKodeRootInit (disarm)"@,
                _ => "ARKodeReset"@,
            }
        } else {
            match self.phase {
                Phase::Init => "CVodeInit"@,
                Phase::Tolerances => "CVodeSStolerances"@,
                Phase::Attach => "CVodeSetLinearSolver"@,
                Phase::MaxNumSteps => "CVodeSetMaxNumSteps"@,
                Phase::UserData => "CVodeSetUserData"@,
                Phase::ArmInit => "CVodeRootInit"@,
                Phase::ArmDirection => "CVodeSetRootDirection"@,
                Phase::ArmQuiet => "CVodeSetNoInactiveRootWarn"@,
                Phase::ArmMaxStep => "CVodeSetMaxStep"@,
                Phase::RearmInit => "CVodeRootInit (re-arm)"@,
                Phase::RearmDirection => "CVodeSetRootDirection (re-arm)"@,
                Phase::RearmQuiet => "CVodeSetNoInactiveRootWarn (re-arm)"@,
                Phase::IntervalMaxStep => "CVodeSetMaxStep (interval)"@,
                Phase::RootInfo => "CVodeGetRootInfo"@,
                Phase::Disarm => "CVodeRootInit (disarm)"@,
                Phase::EventMaxStep => "CVodeSetMaxStep"@,
                _ => "CVodeReInit"@,
            }
        }
    }

    /// The message of the pending call, if it answers with `code`.
    pub open spec fn failure_text(self, code: i32) -> Seq<char> {
        match (self.phase, self.engine) {
            (Phase::MethodName, Engine::Sprk { table, .. }) => method_name_failed_text(
                quoted_text(table@),
                code as int,
            ),
            _ => failed_text(self.call_name(), code as int),
        }
    }

    /// Starts on output `k`: its time is fixed, and rootfinding is armed
    /// again if it was disarmed during the last interval.
    pub open spec fn begin_interval(self, s: SystemView<S>, k: nat) -> Outcome<S> {
        let m = DriveView { k, tout: self.output_time(k), ..self };
        if m.armed && !m.roots_armed {
            m.ask(s, Phase::RearmInit, ActionView::RootInit(m.pairs.len()))
        } else {
            m.enter_interval(s)
        }
    }

    /// Goes on to integrate, with a fresh step cap where one is in force.
    pub open spec fn enter_interval(self, s: SystemView<S>) -> Outcome<S> {
        if !self.separable() && self.roots_armed {
            self.ask(s, Phase::IntervalSurvey, ActionView::Survey)
        } else {
            self.ask(s, Phase::Evolve, ActionView::Evolve(self.tout))
        }
    }

    /// Puts the system's state, which an event has changed, into the solver.
    pub open spec fn store_event(self, s: SystemView<S>) -> Outcome<S> {
        self.ask(s, Phase::EventStore, ActionView::StoreState(self.state_of(s)))
    }

    /// Goes on after an event: to the end of the interval if the event lies
    /// on it, for the solver cannot integrate over no time at all.
    pub open spec fn after_event(self, s: SystemView<S>) -> Outcome<S> {
        if reaches(self.t, self.tout) {
            self.ask(s, Phase::EndRead, ActionView::ReadState)
        } else {
            self.ask(s, Phase::Evolve, ActionView::Evolve(self.tout))
        }
    }

    /// Takes the state at the end of an interval over into the system.
    pub open spec fn settle(self, s: SystemView<S>) -> Outcome<S> {
        let now = self.system_at(s, self.held);
        if self.armed {
            self.ask(now, Phase::Overlaps, ActionView::MeasureOverlaps)
        } else {
            self.ask(now, Phase::Measure, ActionView::MeasureConserved)
        }
    }

    pub open spec fn after_context(self, s: SystemView<S>, code: i32, present: bool) -> Outcome<S> {
        if code != 0 {
            self.refuse(s, failed_text("SUNContext_Create"@, code as int))
        } else if !present {
            self.refuse(s, "SUNContext_Create returned NULL"@)
        } else {
            self.ask(s, Phase::Vector, ActionView::NewVector(self.state_len()))
        }
    }

    pub open spec fn after_made(self, s: SystemView<S>, made: bool) -> Outcome<S> {
        let size = numeral(self.state_len());
        match self.phase {
            Phase::Vector => if made {
                self.ask(s, Phase::Load, ActionView::StoreState(self.state_of(s)))
            } else {
                self.refuse(s, "N_VNew_Serial("@ + size + ") returned NULL"@)
            },
            Phase::Solver => match self.engine {
                Engine::Cvode { lmm } => if made {
                    self.ask(s, Phase::Init, ActionView::Init(self.t0))
                } else {
                    self.refuse(
                        s,
                        "CVodeCreate(lmm = "@ + signed_numeral(lmm as int) + ") returned NULL"@,
                    )
                },
                Engine::Sprk { table, .. } => if made {
                    self.ask(s, Phase::MethodName, ActionView::SetMethodName(table@))
                } else {
                    self.refuse(s, "SPRKStepCreate returned NULL"@)
                },
            },
            Phase::Matrix => if made {
                self.ask(s, Phase::LinearSolver, ActionView::NewLinearSolver)
            } else {
                self.refuse(s, "SUNDenseMatrix("@ + size + ", "@ + size + ") returned NULL"@)
            },
            _ => if made {
                self.ask(s, Phase::Attach, ActionView::AttachLinearSolver)
            } else {
                self.refuse(s, "SUNLinSol_Dense returned NULL"@)
            },
        }
    }

    pub open spec fn after_stored(self, s: SystemView<S>, stored: bool) -> Outcome<S> {
        if !stored {
            self.refuse(s, no_array_text("y"@))
        } else {
            match self.phase {
                Phase::Load => self.ask(s, Phase::Solver, ActionView::CreateSolver),
                Phase::EventStore => if self.separable() {
                    self.ask(s, Phase::EventReInit, ActionView::ReInit(self.t))
                } else {
                    self.ask(s, Phase::EventStats, ActionView::GetStats)
                },
                Phase::RenormStore => self.ask(s, Phase::RenormStats, ActionView::GetStats),
                _ => if self.separable() {
                    self.ask(s, Phase::SweepReInit, ActionView::ReInit(self.t))
                } else {
                    self.ask(s, Phase::SweepStats, ActionView::GetStats)
                },
            }
        }
    }

    pub open spec fn after_read(self, s: SystemView<S>, read: Option<Seq<S>>) -> Outcome<S> {
        match read {
            None => self.refuse(s, no_array_text("y"@)),
            Some(d) => match self.phase {
                Phase::EventRead => self.ask(
                    self.system_at(s, d),
                    Phase::Burst,
                    ActionView::CompareEvents { t: self.t, last: self.last_event_t },
                ),
                _ => if self.separable() {
                    DriveView { held: d, ..self }.settle(s)
                } else {
                    let unit = renormalized(d, self.n);
                    if S::of_decimal(1, -10i32).spec_less(worst_norm_error(d, self.n)) {
                        DriveView { held: unit, ..self }.ask(
                            s,
                            Phase::RenormStore,
                            ActionView::StoreState(unit),
                        )
                    } else {
                        DriveView { held: d, ..self }.settle(s)
                    }
                },
            },
        }
    }

    pub open spec fn after_code(self, s: SystemView<S>, code: i32) -> Outcome<S> {
        if self.is_failure(code) {
            self.refuse(s, self.failure_text(code))
        } else {
            match (self.phase, self.engine) {
                (Phase::Init, _) => self.ask(
                    s,
                    Phase::Tolerances,
                    ActionView::SetTolerances { rtol: s.rtol, atol: s.atol },
                ),
                (Phase::Tolerances, _) => self.ask(
                    s,
                    Phase::Matrix,
                    ActionView::NewMatrix(self.state_len()),
                ),
                (Phase::Attach, _) => self.ask(
                    s,
                    Phase::MaxNumSteps,
                    ActionView::SetMaxNumSteps(500_000),
                ),
                (Phase::MethodName, Engine::Sprk { dt, .. }) => self.ask(
                    s,
                    Phase::FixedStep,
                    ActionView::SetFixedStep(dt),
                ),
                (Phase::FixedStep, Engine::Sprk { dt, .. }) => self.ask(
                    s,
                    Phase::MaxNumSteps,
                    ActionView::SetMaxNumSteps(fixed_step_limit(self.t0, self.t_end, dt)),
                ),
                (Phase::MaxNumSteps, _) => self.ask(s, Phase::Pairs, ActionView::FindPairs),
                (Phase::UserData, _) => if self.armed {
                    self.ask(s, Phase::ArmInit, ActionView::RootInit(self.pairs.len()))
                } else {
                    self.begin_interval(s, 1)
                },
                (Phase::ArmInit, _) => self.ask(
                    s,
                    Phase::ArmDirection,
                    ActionView::SetRootDirection(downward(self.pairs.len())),
                ),
                (Phase::ArmDirection, Engine::Sprk { .. }) => self.begin_interval(s, 1),
                (Phase::ArmDirection, _) => self.ask(
                    s,
                    Phase::ArmQuiet,
                    ActionView::SetNoInactiveRootWarn,
                ),
                (Phase::ArmQuiet, _) => self.ask(s, Phase::ArmSurvey, ActionView::Survey),
                (Phase::ArmMaxStep, _) => self.begin_interval(s, 1),
                (Phase::RearmInit, _) => self.ask(
                    s,
                    Phase::RearmDirection,
                    ActionView::SetRootDirection(downward(self.pairs.len())),
                ),
                (Phase::RearmDirection, Engine::Sprk { .. }) => DriveView {
                    roots_armed: true,
                    ..self
                }.enter_interval(s),
                (Phase::RearmDirection, _) => self.ask(
                    s,
                    Phase::RearmQuiet,
                    ActionView::SetNoInactiveRootWarn,
                ),
                (Phase::RearmQuiet, _) => DriveView {
                    roots_armed: true,
                    ..self
                }.enter_interval(s),
                (Phase::IntervalMaxStep, _) => self.ask(
                    s,
                    Phase::Evolve,
                    ActionView::Evolve(self.tout),
                ),
                (Phase::Disarm, _) => DriveView { roots_armed: false, ..self }.store_event(s),
                (Phase::EventReInit, _) => if !self.separable() && self.roots_armed {
                    self.ask(s, Phase::EventSurvey, ActionView::Survey)
                } else {
                    self.after_event(s)
                },
                (Phase::EventMaxStep, _) => self.after_event(s),
                (Phase::RenormReInit, _) => self.settle(s),
                _ => self.ask(s, Phase::Measure, ActionView::MeasureConserved),
            }
        }
    }

    pub open spec fn after_pairs(
        self,
        s: SystemView<S>,
        pairs: Seq<(usize, usize)>,
    ) -> Outcome<S> {
        let armed = s.collide_enabled && pairs.len() > 0;
        let watched = if armed {
            pairs
        } else {
            Seq::empty()
        };
        DriveView { pairs, armed, roots_armed: armed, ..self }.ask(
            s,
            Phase::UserData,
            if self.separable() {
                ActionView::SetSeparableData(sprk_params(s, watched))
            } else {
                ActionView::SetFullData(rhs_params(s, watched))
            },
        )
    }

    /// The cap looks ahead to the next time it is refreshed, and is itself
    /// bounded by the rest of the run, never by the rest of the interval,
    /// which an event can make vanish.
    pub open spec fn after_survey(self, s: SystemView<S>, survey: SurveyView<S>) -> Outcome<S> {
        match self.phase {
            Phase::ArmSurvey => {
                let span = self.t_end.spec_sub(self.t0);
                let growth = span.spec_div(S::of_count(self.nout as usize));
                self.ask(
                    s,
                    Phase::ArmMaxStep,
                    ActionView::SetMaxStep(step_cap(s, survey, self.pairs, span, growth)),
                )
            },
            _ => {
                let rest = self.t_end.spec_sub(self.t);
                let growth = self.tout.spec_sub(self.t);
                self.ask(
                    s,
                    if self.phase is IntervalSurvey {
                        Phase::IntervalMaxStep
                    } else {
                        Phase::EventMaxStep
                    },
                    ActionView::SetMaxStep(step_cap(s, survey, self.pairs, rest, growth)),
                )
            },
        }
    }

    pub open spec fn after_evolved(
        self,
        s: SystemView<S>,
        code: i32,
        rooted: bool,
        t: S,
    ) -> Outcome<S> {
        let m = DriveView { t, ..self };
        if code < 0 {
            let call = if self.separable() {
                "ARKodeEvolve"@
            } else {
                "CVode"@
            };
            m.refuse(
                s,
                call + " failed with retval = "@ + signed_numeral(code as int) + " at t = "@
                    + t.shown()@,
            )
        } else if rooted {
            m.ask(s, Phase::RootInfo, ActionView::RootInfo(m.pairs.len()))
        } else {
            m.ask(s, Phase::EndRead, ActionView::ReadState)
        }
    }

    pub open spec fn after_roots(self, s: SystemView<S>, code: i32, roots: Seq<i32>) -> Outcome<
        S,
    > {
        if self.is_failure(code) {
            self.refuse(s, self.failure_text(code))
        } else {
            DriveView { flagged: found(roots), ..self }.ask(
                s,
                Phase::EventRead,
                ActionView::ReadState,
            )
        }
    }

    pub open spec fn after_burst(self, s: SystemView<S>, same: bool) -> Outcome<S> {
        let burst = if same {
            self.burst + 1
        } else {
            1
        };
        DriveView { burst, last_event_t: self.t, ..self }.ask(
            s,
            Phase::Impulses,
            ActionView::ResolveImpulses {
                flagged: self.flagged,
                force_plastic: burst > s.max_events_in_burst,
            },
        )
    }

    pub open spec fn after_resolved(
        self,
        s: SystemView<S>,
        resolved: Result<usize, Seq<char>>,
    ) -> Outcome<S> {
        match resolved {
            Err(why) => self.refuse(s, why),
            Ok(count) => {
                let m = DriveView {
                    report: RunReportView {
                        ncollisions: (self.report.ncollisions + count) as u64,
                        ..self.report
                    },
                    ..self
                };
                let now = SystemView {
                    collision_count: (s.collision_count + count) as u64,
                    ..s
                };
                match self.phase {
                    Phase::Impulses => if m.burst > 2 * s.max_events_in_burst && m.roots_armed {
                        m.ask(
                            now,
                            Phase::Projection,
                            ActionView::ResolvePenetrations { force_plastic: true },
                        )
                    } else {
                        m.store_event(now)
                    },
                    Phase::Projection => m.ask(now, Phase::Disarm, ActionView::DisarmRoots),
                    _ => m.ask(
                        now,
                        Phase::SweepStore,
                        ActionView::StoreState(m.state_of(now)),
                    ),
                }
            },
        }
    }

    pub open spec fn after_stats(self, s: SystemView<S>, st: SolverStats) -> Outcome<S> {
        let m = DriveView { report: self.report.with_stats(st), ..self };
        match self.phase {
            Phase::EventStats => m.ask(s, Phase::EventReInit, ActionView::ReInit(m.t)),
            Phase::RenormStats => m.ask(s, Phase::RenormReInit, ActionView::ReInit(m.t)),
            Phase::SweepStats => m.ask(s, Phase::SweepReInit, ActionView::ReInit(m.t)),
            _ => m.ask(s, Phase::Finished, ActionView::Free),
        }
    }

    pub open spec fn after_overlaps(self, s: SystemView<S>, overlaps: Seq<Option<S>>) -> Outcome<
        S,
    > {
        if needs_sweep(overlaps, s.contact_slop) {
            self.ask(
                s,
                Phase::Sweep,
                ActionView::ResolvePenetrations { force_plastic: false },
            )
        } else {
            self.ask(s, Phase::Measure, ActionView::MeasureConserved)
        }
    }

    pub open spec fn after_conserved(self, s: SystemView<S>, measured: Conserved<S>) -> Outcome<
        S,
    > {
        let m = DriveView {
            report: RunReportView {
                snapshots: self.report.snapshots.push(snapshot_at(measured, self.t)),
                ..self.report
            },
            ..self
        };
        if m.k < m.nout {
            m.begin_interval(s, m.k + 1)
        } else {
            match m.engine {
                Engine::Cvode { .. } => m.ask(s, Phase::FinalStats, ActionView::GetStats),
                Engine::Sprk { dt, .. } => DriveView {
                    report: RunReportView {
                        nst: m.t.spec_sub(m.t0).spec_div(dt).spec_round(),
                        ..m.report
                    },
                    ..m
                }.ask(s, Phase::Finished, ActionView::Free),
            }
        }
    }

    /// What any answer leads to.
    #[verifier::opaque]
    pub open spec fn step(self, s: SystemView<S>, answer: Answer<S>) -> Outcome<S> {
        match answer {
            Answer::Context { code, present } => self.after_context(s, code, present),
            Answer::Made(made) => self.after_made(s, made),
            Answer::Stored(stored) => self.after_stored(s, stored),
            Answer::Read(read) => self.after_read(s, read),
            Answer::Code(code) => self.after_code(s, code),
            Answer::Pairs(pairs) => self.after_pairs(s, pairs),
            Answer::Surveyed(survey) => self.after_survey(s, survey),
            Answer::Evolved { code, rooted, t } => self.after_evolved(s, code, rooted, t),
            Answer::Roots { code, roots } => self.after_roots(s, code, roots),
            Answer::Burst(same) => self.after_burst(s, same),
            Answer::Resolved(resolved) => self.after_resolved(s, resolved),
            Answer::Stats(st) => self.after_stats(s, st),
            Answer::Overlaps(overlaps) => self.after_overlaps(s, overlaps),
            Answer::Conserved(measured) => self.after_conserved(s, measured),
        }
    }

    /// Whether the run waits for an answer of this kind, and the answer has
    /// the shape of the question: a state as long as the state vector, pairs
    /// of existing bodies, a survey of all bodies, a flag or a depth for each
    /// pair, counts that still fit.
    pub open spec fn awaits(self, s: SystemView<S>, answer: Answer<S>) -> bool {
        match answer {
            Answer::Context { .. } => self.phase is Context,
            Answer::Made(_) => match self.phase {
                Phase::Vector | Phase::Solver | Phase::Matrix | Phase::LinearSolver => true,
                _ => false,
            },
            Answer::Stored(_) => match self.phase {
                Phase::Load | Phase::EventStore | Phase::RenormStore | Phase::SweepStore => true,
                _ => false,
            },
            Answer::Read(read) => {
                &&& self.phase is EventRead || self.phase is EndRead
                &&& read matches Some(d) ==> d.len() == self.state_len()
            },
            Answer::Code(_) => self.awaits_code(),
            Answer::Pairs(pairs) => self.phase is Pairs && pairs_within(pairs, self.n),
            Answer::Surveyed(survey) => {
                &&& match self.phase {
                    Phase::ArmSurvey | Phase::IntervalSurvey | Phase::EventSurvey => true,
                    _ => false,
                }
                &&& survey.covers(self.n)
            },
            Answer::Evolved { .. } => self.phase is Evolve,
            Answer::Roots { roots, .. } => self.phase is RootInfo && roots.len()
                == self.pairs.len(),
            Answer::Burst(_) => self.phase is Burst && self.burst < usize::MAX,
            Answer::Resolved(resolved) => {
                &&& match self.phase {
                    Phase::Impulses | Phase::Projection | Phase::Sweep => true,
                    _ => false,
                }
                &&& resolved matches Ok(count) ==> self.report.ncollisions + count <= u64::MAX
                    && s.collision_count + count <= u64::MAX
            },
            Answer::Stats(st) => {
                &&& match self.phase {
                    Phase::EventStats | Phase::RenormStats | Phase::SweepStats
                    | Phase::FinalStats => true,
                    _ => false,
                }
                &&& self.report.has_room(st)
            },
            Answer::Overlaps(overlaps) => self.phase is Overlaps && overlaps.len()
                == self.pairs.len(),
            Answer::Conserved(_) => self.phase is Measure,
        }
    }

    /// Whether the pending call answers with a code.
    pub open spec fn awaits_code(self) -> bool {
        match self.phase {
            Phase::Init | Phase::Tolerances | Phase::Attach | Phase::ArmQuiet | Phase::ArmMaxStep
            | Phase::RearmQuiet | Phase::IntervalMaxStep | Phase::EventMaxStep
            | Phase::RenormReInit => !self.separable(),
            Phase::MethodName | Phase::FixedStep => self.separable(),
            Phase::MaxNumSteps | Phase::UserData | Phase::ArmInit | Phase::ArmDirection
            | Phase::RearmInit | Phase::RearmDirection | Phase::Disarm | Phase::EventReInit
            | Phase::SweepReInit => true,
            _ => false,
        }
    }

    /// What holds of every run in progress.
    pub open spec fn wf(self) -> bool {
        &&& pairs_within(self.pairs, self.n)
        &&& 1 <= self.nout <= usize::MAX
        &&& self.k <= self.nout
        &&& self.roots_armed ==> self.armed
        &&& self.engine matches Engine::Sprk { dt, .. } ==> fixed_step_limit(
            self.t0,
            self.t_end,
            dt,
        ) <= i64::MAX
        &&& match self.phase {
            Phase::RenormStore | Phase::RenormStats | Phase::RenormReInit => {
                !self.separable() && self.held.len() == self.state_len()
            },
            Phase::Init | Phase::Tolerances | Phase::Matrix | Phase::LinearSolver | Phase::Attach
            | Phase::EventStats | Phase::FinalStats => !self.separable(),
            Phase::SweepStats => !self.separable() && self.armed,
            Phase::ArmQuiet | Phase::ArmSurvey | Phase::ArmMaxStep | Phase::IntervalSurvey
            | Phase::IntervalMaxStep | Phase::EventSurvey | Phase::EventMaxStep => {
                !self.separable() && self.roots_armed
            },
            Phase::ArmInit | Phase::ArmDirection | Phase::Projection
            | Phase::Disarm => self.roots_armed,
            Phase::UserData => self.roots_armed == self.armed,
            Phase::RearmInit | Phase::RearmDirection => self.armed && !self.roots_armed,
            Phase::RearmQuiet => !self.separable() && self.armed && !self.roots_armed,
            Phase::Overlaps | Phase::Sweep | Phase::SweepStore | Phase::SweepReInit => self.armed,
            Phase::MethodName | Phase::FixedStep => self.separable(),
            _ => true,
        }
    }

    /// Whether the run belongs to the system.
    pub open spec fn drives(self, s: SystemView<S>) -> bool {
        self.wf() && s.wf() && s.objects.len() == self.n
    }
}

impl<S: Scalar> Outcome<S> {
    /// Whether what an answer led to is again a run of its system.
    pub open spec fn in_order(self) -> bool {
        self.run.drives(self.system)
    }
}

} // verus!
