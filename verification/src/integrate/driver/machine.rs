//! The methods by which a run is told the answers.

use crate::integrate::bounds::{collision_hmax, renormalize_quats, Survey};
use crate::integrate::driver::steps::{
    burst_keeps_order, code_keeps_order, conserved_keeps_order, context_keeps_order,
    evolved_keeps_order, made_keeps_order, overlaps_keeps_order, pairs_keeps_order,
    read_keeps_order, resolved_keeps_order, roots_keeps_order, stats_keeps_order,
    stored_keeps_order, survey_keeps_order,
};
use crate::integrate::driver::{
    downwards, failed, fixed_step_limit, method_name_failed, no_array, roots_found, seq_of,
    sweep_needed, text_of, told, Action, Answer, Drive, DriveView, Engine, Params, Phase,
    SolverStats,
};
use crate::integrate::dynamics::{copied, RhsParams, SprkParams};
use crate::integrate::{snapshot, Conserved};
use crate::scalar::Scalar;
use crate::system::{PhysicalObjectSystem, SystemView, VARS_PER_OBJECT};
use crate::text::{append_number, append_signed, quoted};
use vstd::prelude::*;

verus! {

impl<S: Scalar> Drive<S> {
    fn separable(&self) -> (r: bool)
        ensures
            r == self@.separable(),
    {
        match self.engine {
            Engine::Sprk { .. } => true,
            Engine::Cvode { .. } => false,
        }
    }

    fn state_len(&self) -> (r: usize)
        requires
            13 * self.n <= usize::MAX,
        ensures
            r == self@.state_len(),
    {
        if self.separable() {
            6 * self.n
        } else {
            VARS_PER_OBJECT * self.n
        }
    }

    fn state_of(&self, system: &PhysicalObjectSystem<S>) -> (r: Vec<S>)
        ensures
            r@ == self@.state_of(system@),
    {
        if self.separable() {
            system.pack_translation()
        } else {
            system.pack_state()
        }
    }

    fn write_back(&self, system: &mut PhysicalObjectSystem<S>, d: &Vec<S>)
        requires
            old(system)@.objects.len() == self.n,
            d@.len() == self@.state_len(),
        ensures
            final(system)@ == self@.system_at(old(system)@, d@),
    {
        if self.separable() {
            system.unpack_translation(d.as_slice());
        } else {
            system.unpack_state(d.as_slice());
        }
        system.time = self.t;
    }

    fn is_failure(&self, code: i32) -> (r: bool)
        ensures
            r == self@.is_failure(code),
    {
        if self.separable() {
            code < 0
        } else {
            code != 0
        }
    }

    fn call_name(&self) -> (r: &'static str)
        ensures
            r@ == self@.call_name(),
    {
        if self.separable() {
            match self.phase {
                Phase::FixedStep => "ARKodeSetFixedStep",
                Phase::MaxNumSteps => "ARKodeSetMaxNumSteps",
                Phase::UserData => "ARKodeSetUserData",
                Phase::ArmInit => "ARKodeRootInit",
                Phase::ArmDirection => "ARKodeSetRootDirection",
                Phase::RearmInit => "ARKodeRootInit (re-arm)",
                Phase::RearmDirection => "ARKodeSetRootDirection (re-arm)",
                Phase::RootInfo => "ARKodeGetRootInfo",
                Phase::Disarm => "ARKodeRootInit (disarm)",
                _ => "ARKodeReset",
            }
        } else {
            match self.phase {
                Phase::Init => "CVodeInit",
                Phase::Tolerances => "CVodeSStolerances",
                Phase::Attach => "CVodeSetLinearSolver",
                Phase::MaxNumSteps => "CVodeSetMaxNumSteps",
                Phase::UserData => "CVodeSetUserData",
                Phase::ArmInit => "CVodeRootInit",
                Phase::ArmDirection => "CVodeSetRootDirection",
                Phase::ArmQuiet => "CVodeSetNoInactiveRootWarn",
                Phase::ArmMaxStep => "CVodeSetMaxStep",
                Phase::RearmInit => "CVodeRootInit (re-arm)",
                Phase::RearmDirection => "CVodeSetRootDirection (re-arm)",
                Phase::RearmQuiet => "CVodeSetNoInactiveRootWarn (re-arm)",
                Phase::IntervalMaxStep => "CVodeSetMaxStep (interval)",
                Phase::RootInfo => "CVodeGetRootInfo",
                Phase::Disarm => "CVodeRootInit (disarm)",
                Phase::EventMaxStep => "CVodeSetMaxStep",
                _ => "CVodeReInit",
            }
        }
    }

    fn failure_text(&self, code: i32) -> (r: String)
        ensures
            r@ == self@.failure_text(code),
    {
        if let Phase::MethodName = self.phase {
            if let Engine::Sprk { table, .. } = &self.engine {
                let shown = quoted(table.as_str());
                return method_name_failed(shown.as_str(), code);
            }
        }
        failed(self.call_name(), code)
    }

    fn ask(
        &mut self,
        phase: Phase,
        action: Action<S>,
        Ghost(s): Ghost<SystemView<S>>,
    ) -> (r: Result<Action<S>, String>)
        ensures
            told(final(self)@, s, r) == old(self)@.ask(s, phase, action@),
    {
        self.phase = phase;
        Ok(action)
    }

    fn refuse(&mut self, why: String, Ghost(s): Ghost<SystemView<S>>) -> (r: Result<
        Action<S>,
        String,
    >)
        ensures
            told(final(self)@, s, r) == old(self)@.refuse(s, why@),
    {
        self.phase = Phase::Finished;
        Err(why)
    }

    fn begin_interval(&mut self, k: usize, Ghost(s): Ghost<SystemView<S>>) -> (r: Result<
        Action<S>,
        String,
    >)
        ensures
            told(final(self)@, s, r) == old(self)@.begin_interval(s, k as nat),
    {
        self.k = k;
        let span = self.t_end.sub(self.t0);
        self.tout = self.t0.add(span.mul(S::count(k)).div(S::count(self.nout)));
        if self.armed && !self.roots_armed {
            self.ask(Phase::RearmInit, Action::RootInit(self.pairs.len()), Ghost(s))
        } else {
            self.enter_interval(Ghost(s))
        }
    }

    fn enter_interval(&mut self, Ghost(s): Ghost<SystemView<S>>) -> (r: Result<Action<S>, String>)
        ensures
            told(final(self)@, s, r) == old(self)@.enter_interval(s),
    {
        if !self.separable() && self.roots_armed {
            self.ask(Phase::IntervalSurvey, Action::Survey, Ghost(s))
        } else {
            self.ask(Phase::Evolve, Action::Evolve(self.tout), Ghost(s))
        }
    }

    fn store_event(&mut self, system: &PhysicalObjectSystem<S>) -> (r: Result<Action<S>, String>)
        ensures
            told(final(self)@, system@, r) == old(self)@.store_event(system@),
    {
        let d = self.state_of(system);
        self.ask(Phase::EventStore, Action::StoreState(d), Ghost(system@))
    }

    fn after_event(&mut self, Ghost(s): Ghost<SystemView<S>>) -> (r: Result<Action<S>, String>)
        ensures
            told(final(self)@, s, r) == old(self)@.after_event(s),
    {
        let gap = self.tout.sub(self.t).abs();
        let close = S::decimal(1, -12).mul(self.tout.abs().larger(S::decimal(1, 0)));
        if gap.at_most(close) {
            self.ask(Phase::EndRead, Action::ReadState, Ghost(s))
        } else {
            self.ask(Phase::Evolve, Action::Evolve(self.tout), Ghost(s))
        }
    }

    fn settle(&mut self, system: &mut PhysicalObjectSystem<S>) -> (r: Result<Action<S>, String>)
        requires
            old(system)@.objects.len() == old(self).n,
            old(self).held@.len() == old(self)@.state_len(),
        ensures
            told(final(self)@, final(system)@, r) == old(self)@.settle(old(system)@),
    {
        self.write_back(system, &self.held);
        if self.armed {
            self.ask(Phase::Overlaps, Action::MeasureOverlaps, Ghost(system@))
        } else {
            self.ask(Phase::Measure, Action::MeasureConserved, Ghost(system@))
        }
    }

    fn add_stats(&mut self, st: SolverStats)
        requires
            old(self)@.report.has_room(st),
        ensures
            final(self)@ == (DriveView {
                report: old(self)@.report.with_stats(st),
                ..old(self)@
            }),
    {
        self.report.nst += st.nst;
        self.report.nfe += st.nfe;
        self.report.nni += st.nni;
        self.report.netf += st.netf;
        self.report.nge += st.nge;
    }

    /// Answers `CreateContext`: the code, and whether a context came back.
    pub fn on_context(
        &mut self,
        system: &PhysicalObjectSystem<S>,
        code: i32,
        present: bool,
    ) -> (r: Result<Action<S>, String>)
        requires
            old(self)@.drives(system@),
            old(self)@.awaits(system@, Answer::Context { code, present }),
        ensures
            final(self)@.drives(system@),
            told(final(self)@, system@, r) == old(self)@.after_context(system@, code, present),
    {
        proof {
            context_keeps_order(self@, system@, code, present);
        }
        if code != 0 {
            return self.refuse(failed("SUNContext_Create", code), Ghost(system@));
        }
        if !present {
            return self.refuse(String::from_str("SUNContext_Create returned NULL"), Ghost(system@));
        }
        self.ask(Phase::Vector, Action::NewVector(self.state_len()), Ghost(system@))
    }

    /// Answers a request to create something: whether it was created.
    pub fn on_made(&mut self, system: &PhysicalObjectSystem<S>, made: bool) -> (r: Result<
        Action<S>,
        String,
    >)
        requires
            old(self)@.drives(system@),
            old(self)@.awaits(system@, Answer::Made(made)),
        ensures
            final(self)@.drives(system@),
            told(final(self)@, system@, r) == old(self)@.after_made(system@, made),
    {
        proof {
            made_keeps_order(self@, system@, made);
        }
        match self.phase {
            Phase::Vector => {
                if !made {
                    let mut e = String::from_str("N_VNew_Serial(");
                    append_number(&mut e, self.state_len() as u64);
                    e.append(") returned NULL");
                    return self.refuse(e, Ghost(system@));
                }
                self.ask(Phase::Load, Action::StoreState(self.state_of(system)), Ghost(system@))
            },
            Phase::Solver => match &self.engine {
                Engine::Cvode { lmm } => {
                    if !made {
                        let mut e = String::from_str("CVodeCreate(lmm = ");
                        append_signed(&mut e, *lmm as i64);
                        e.append(") returned NULL");
                        return self.refuse(e, Ghost(system@));
                    }
                    self.ask(Phase::Init, Action::Init(self.t0), Ghost(system@))
                },
                Engine::Sprk { table, .. } => {
                    if !made {
                        return self.refuse(String::from_str("SPRKStepCreate returned NULL"), Ghost(system@));
                    }
                    let name = table.clone();
                    self.ask(Phase::MethodName, Action::SetMethodName(name), Ghost(system@))
                },
            },
            Phase::Matrix => {
                if !made {
                    let mut e = String::from_str("SUNDenseMatrix(");
                    append_number(&mut e, self.state_len() as u64);
                    e.append(", ");
                    append_number(&mut e, self.state_len() as u64);
                    e.append(") returned NULL");
                    return self.refuse(e, Ghost(system@));
                }
                self.ask(Phase::LinearSolver, Action::NewLinearSolver, Ghost(system@))
            },
            _ => {
                if !made {
                    return self.refuse(String::from_str("SUNLinSol_Dense returned NULL"), Ghost(system@));
                }
                self.ask(Phase::Attach, Action::AttachLinearSolver, Ghost(system@))
            },
        }
    }

    /// Answers `StoreState`: whether the state vector could be written.
    pub fn on_stored(&mut self, system: &PhysicalObjectSystem<S>, stored: bool) -> (r: Result<
        Action<S>,
        String,
    >)
        requires
            old(self)@.drives(system@),
            old(self)@.awaits(system@, Answer::Stored(stored)),
        ensures
            final(self)@.drives(system@),
            told(final(self)@, system@, r) == old(self)@.after_stored(system@, stored),
    {
        proof {
            stored_keeps_order(self@, system@, stored);
        }
        if !stored {
            return self.refuse(no_array("y"), Ghost(system@));
        }
        let separable = self.separable();
        match self.phase {
            Phase::Load => {
                self.ask(Phase::Solver, Action::CreateSolver, Ghost(system@))
            },
            Phase::EventStore => if separable {
                self.ask(Phase::EventReInit, Action::ReInit(self.t), Ghost(system@))
            } else {
                self.ask(Phase::EventStats, Action::GetStats, Ghost(system@))
            },
            Phase::RenormStore => {
                self.ask(Phase::RenormStats, Action::GetStats, Ghost(system@))
            },
            _ => if separable {
                self.ask(Phase::SweepReInit, Action::ReInit(self.t), Ghost(system@))
            } else {
                self.ask(Phase::SweepStats, Action::GetStats, Ghost(system@))
            },
        }
    }

    /// Answers `ReadState`: the components of the state vector, if they could
    /// be reached.
    pub fn on_read(
        &mut self,
        system: &mut PhysicalObjectSystem<S>,
        read: Option<Vec<S>>,
    ) -> (r: Result<Action<S>, String>)
        requires
            old(self)@.drives(old(system)@),
            old(self)@.awaits(old(system)@, Answer::Read(seq_of(read))),
        ensures
            final(self)@.drives(final(system)@),
            told(final(self)@, final(system)@, r) == old(self)@.after_read(
                old(system)@,
                seq_of(read),
            ),
    {
        proof {
            read_keeps_order(self@, system@, seq_of(read));
        }
        let d = match read {
            None => {
                return self.refuse(no_array("y"), Ghost(system@));
            },
            Some(d) => d,
        };
        if let Phase::EventRead = self.phase {
            self.write_back(system, &d);
            return self.ask(
                Phase::Burst,
                Action::CompareEvents { t: self.t, last: self.last_event_t },
                Ghost(system@),
            );
        }
        if !self.separable() {
            let mut unit = copied(&d);
            let drift = renormalize_quats(unit.as_mut_slice(), self.n);
            if S::decimal(1, -10).less(drift) {
                self.held = copied(&unit);
                return self.ask(Phase::RenormStore, Action::StoreState(unit), Ghost(system@));
            }
        }
        self.held = d;
        self.settle(system)
    }

    /// Answers a call that returns a code.
    pub fn on_code(&mut self, system: &mut PhysicalObjectSystem<S>, code: i32) -> (r: Result<
        Action<S>,
        String,
    >)
        requires
            old(self)@.drives(old(system)@),
            old(self)@.awaits(old(system)@, Answer::Code(code)),
        ensures
            final(self)@.drives(final(system)@),
            told(final(self)@, final(system)@, r) == old(self)@.after_code(
                old(system)@,
                code,
            ),
    {
        proof {
            code_keeps_order(self@, system@, code);
        }
        if self.is_failure(code) {
            let why = self.failure_text(code);
            return self.refuse(why, Ghost(system@));
        }
        let separable = self.separable();
        match self.phase {
            Phase::Init => {
                let (rtol, atol) = (system.rtol, system.atol);
                self.ask(
                    Phase::Tolerances,
                    Action::SetTolerances { rtol, atol },
                    Ghost(system@),
                )
            },
            Phase::Tolerances => {
                let size = self.state_len();
                self.ask(Phase::Matrix, Action::NewMatrix(size), Ghost(system@))
            },
            Phase::Attach => self.ask(
                Phase::MaxNumSteps,
                Action::SetMaxNumSteps(500_000),
                Ghost(system@),
            ),
            Phase::MethodName => {
                let dt = self.step_size();
                self.ask(Phase::FixedStep, Action::SetFixedStep(dt), Ghost(system@))
            },
            Phase::FixedStep => {
                let limit = self.step_limit();
                self.ask(Phase::MaxNumSteps, Action::SetMaxNumSteps(limit), Ghost(system@))
            },
            Phase::MaxNumSteps => self.ask(Phase::Pairs, Action::FindPairs, Ghost(system@)),
            Phase::UserData => if self.armed {
                self.ask(Phase::ArmInit, Action::RootInit(self.pairs.len()), Ghost(system@))
            } else {
                self.begin_interval(1, Ghost(system@))
            },
            Phase::ArmInit => {
                let dirs = downwards(self.pairs.len());
                self.ask(Phase::ArmDirection, Action::SetRootDirection(dirs), Ghost(system@))
            },
            Phase::ArmDirection => if separable {
                self.begin_interval(1, Ghost(system@))
            } else {
                self.ask(Phase::ArmQuiet, Action::SetNoInactiveRootWarn, Ghost(system@))
            },
            Phase::ArmQuiet => self.ask(Phase::ArmSurvey, Action::Survey, Ghost(system@)),
            Phase::ArmMaxStep => self.begin_interval(1, Ghost(system@)),
            Phase::RearmInit => {
                let dirs = downwards(self.pairs.len());
                self.ask(Phase::RearmDirection, Action::SetRootDirection(dirs), Ghost(system@))
            },
            Phase::RearmDirection => if separable {
                self.roots_armed = true;
                self.enter_interval(Ghost(system@))
            } else {
                self.ask(Phase::RearmQuiet, Action::SetNoInactiveRootWarn, Ghost(system@))
            },
            Phase::RearmQuiet => {
                self.roots_armed = true;
                self.enter_interval(Ghost(system@))
            },
            Phase::IntervalMaxStep => self.ask(
                Phase::Evolve,
                Action::Evolve(self.tout),
                Ghost(system@),
            ),
            Phase::Disarm => {
                self.roots_armed = false;
                self.store_event(system)
            },
            Phase::EventReInit => if !separable && self.roots_armed {
                self.ask(Phase::EventSurvey, Action::Survey, Ghost(system@))
            } else {
                self.after_event(Ghost(system@))
            },
            Phase::EventMaxStep => self.after_event(Ghost(system@)),
            Phase::RenormReInit => self.settle(system),
            _ => self.ask(Phase::Measure, Action::MeasureConserved, Ghost(system@)),
        }
    }

    /// The limit on the steps of a separable run.
    fn step_limit(&self) -> (r: i64)
        requires
            self@.separable(),
            self@.wf(),
        ensures
            self.engine matches Engine::Sprk { dt, .. } && r == fixed_step_limit(
                self.t0,
                self.t_end,
                dt,
            ),
    {
        let needed: i64 = self.t_end.sub(self.t0).div(self.step_size()).ceil();
        if needed < 984 {
            2000
        } else {
            (needed + 16) * 2
        }
    }

    /// The fixed step of a separable run.
    fn step_size(&self) -> (r: S)
        requires
            self@.separable(),
        ensures
            self.engine matches Engine::Sprk { dt, .. } && r == dt,
    {
        match &self.engine {
            Engine::Sprk { dt, .. } => *dt,
            Engine::Cvode { .. } => self.t,
        }
    }

    /// Answers `FindPairs`: the pairs of bodies that can collide.
    pub fn on_pairs(
        &mut self,
        system: &PhysicalObjectSystem<S>,
        pairs: Vec<(usize, usize)>,
    ) -> (r: Result<Action<S>, String>)
        requires
            old(self)@.drives(system@),
            old(self)@.awaits(system@, Answer::Pairs(pairs@)),
        ensures
            final(self)@.drives(system@),
            told(final(self)@, system@, r) == old(self)@.after_pairs(system@, pairs@),
    {
        proof {
            pairs_keeps_order(self@, system@, pairs@);
        }
        let armed = system.collide_enabled && pairs.len() > 0;
        let watched = if armed {
            copied(&pairs)
        } else {
            Vec::new()
        };
        let params = if self.separable() {
            let mut p = SprkParams::from_system(system);
            p.pairs = watched;
            Params::Separable(p)
        } else {
            let mut p = RhsParams::from_system(system);
            p.pairs = watched;
            Params::Full(p)
        };
        self.pairs = pairs;
        self.armed = armed;
        self.roots_armed = armed;
        self.ask(Phase::UserData, Action::SetUserData(params), Ghost(system@))
    }

    /// Answers `Survey`.
    pub fn on_survey(&mut self, system: &PhysicalObjectSystem<S>, survey: &Survey<S>) -> (r: Result<
        Action<S>,
        String,
    >)
        requires
            old(self)@.drives(system@),
            old(self)@.awaits(system@, Answer::Surveyed(survey@)),
        ensures
            final(self)@.drives(system@),
            told(final(self)@, system@, r) == old(self)@.after_survey(system@, survey@),
    {
        proof {
            survey_keeps_order(self@, system@, survey@);
        }
        if let Phase::ArmSurvey = self.phase {
            let span = self.t_end.sub(self.t0);
            let growth = span.div(S::count(self.nout));
            let cap = collision_hmax(system, survey, &self.pairs, span, growth);
            return self.ask(Phase::ArmMaxStep, Action::SetMaxStep(cap), Ghost(system@));
        }
        let rest = self.t_end.sub(self.t);
        let growth = self.tout.sub(self.t);
        let cap = collision_hmax(system, survey, &self.pairs, rest, growth);
        let next = match self.phase {
            Phase::IntervalSurvey => Phase::IntervalMaxStep,
            _ => Phase::EventMaxStep,
        };
        self.ask(next, Action::SetMaxStep(cap), Ghost(system@))
    }

    /// Answers `Evolve`: the code, whether it means that a root was found,
    /// and the time reached.
    pub fn on_evolved(
        &mut self,
        system: &PhysicalObjectSystem<S>,
        code: i32,
        rooted: bool,
        t: S,
    ) -> (r: Result<Action<S>, String>)
        requires
            old(self)@.drives(system@),
            old(self)@.awaits(system@, Answer::Evolved { code, rooted, t }),
        ensures
            final(self)@.drives(system@),
            told(final(self)@, system@, r) == old(self)@.after_evolved(system@, code, rooted, t),
    {
        proof {
            evolved_keeps_order(self@, system@, code, rooted, t);
        }
        self.t = t;
        if code < 0 {
            let mut e = String::from_str(
                if self.separable() {
                    "ARKodeEvolve"
                } else {
                    "CVode"
                },
            );
            e.append(" failed with retval = ");
            append_signed(&mut e, code as i64);
            e.append(" at t = ");
            e.append(t.show().as_str());
            return self.refuse(e, Ghost(system@));
        }
        if rooted {
            self.ask(Phase::RootInfo, Action::RootInfo(self.pairs.len()), Ghost(system@))
        } else {
            self.ask(Phase::EndRead, Action::ReadState, Ghost(system@))
        }
    }

    /// Answers `RootInfo`: the code, and a flag for each pair.
    pub fn on_roots(
        &mut self,
        system: &PhysicalObjectSystem<S>,
        code: i32,
        roots: &Vec<i32>,
    ) -> (r: Result<Action<S>, String>)
        requires
            old(self)@.drives(system@),
            old(self)@.awaits(system@, Answer::Roots { code, roots: roots@ }),
        ensures
            final(self)@.drives(system@),
            told(final(self)@, system@, r) == old(self)@.after_roots(system@, code, roots@),
    {
        proof {
            roots_keeps_order(self@, system@, code, roots@);
        }
        if self.is_failure(code) {
            let why = self.failure_text(code);
            return self.refuse(why, Ghost(system@));
        }
        self.flagged = roots_found(roots);
        self.ask(Phase::EventRead, Action::ReadState, Ghost(system@))
    }

    /// Answers `CompareEvents`: whether the event belongs to the same burst
    /// as the last one.
    pub fn on_burst(&mut self, system: &PhysicalObjectSystem<S>, same: bool) -> (r: Result<
        Action<S>,
        String,
    >)
        requires
            old(self)@.drives(system@),
            old(self)@.awaits(system@, Answer::Burst(same)),
        ensures
            final(self)@.drives(system@),
            told(final(self)@, system@, r) == old(self)@.after_burst(system@, same),
    {
        proof {
            burst_keeps_order(self@, system@, same);
        }
        self.burst = if same {
            self.burst + 1
        } else {
            1
        };
        self.last_event_t = self.t;
        let flagged = copied(&self.flagged);
        let force_plastic = self.burst > system.max_events_in_burst;
        self.ask(
            Phase::Impulses,
            Action::ResolveImpulses { flagged, force_plastic },
            Ghost(system@),
        )
    }

    /// Answers a request to resolve contacts: how many there were, or why it
    /// failed.
    pub fn on_resolved(
        &mut self,
        system: &mut PhysicalObjectSystem<S>,
        resolved: Result<usize, String>,
    ) -> (r: Result<Action<S>, String>)
        requires
            old(self)@.drives(old(system)@),
            old(self)@.awaits(old(system)@, Answer::Resolved(text_of(resolved))),
        ensures
            final(self)@.drives(final(system)@),
            told(final(self)@, final(system)@, r) == old(self)@.after_resolved(
                old(system)@,
                text_of(resolved),
            ),
    {
        proof {
            resolved_keeps_order(self@, system@, text_of(resolved));
        }
        let count = match resolved {
            Err(why) => {
                return self.refuse(why, Ghost(system@));
            },
            Ok(count) => count,
        };
        self.report.ncollisions += count as u64;
        system.collision_count += count as u64;
        match self.phase {
            Phase::Impulses => if self.burst > 2 * system.max_events_in_burst && self.roots_armed {
                self.ask(
                    Phase::Projection,
                    Action::ResolvePenetrations { force_plastic: true },
                    Ghost(system@),
                )
            } else {
                self.store_event(system)
            },
            Phase::Projection => {
                self.ask(Phase::Disarm, Action::DisarmRoots, Ghost(system@))
            },
            _ => {
                self.ask(
                    Phase::SweepStore,
                    Action::StoreState(self.state_of(system)),
                    Ghost(system@),
                )
            },
        }
    }

    /// Answers `GetStats`.
    pub fn on_stats(&mut self, system: &PhysicalObjectSystem<S>, st: SolverStats) -> (r: Result<
        Action<S>,
        String,
    >)
        requires
            old(self)@.drives(system@),
            old(self)@.awaits(system@, Answer::Stats(st)),
        ensures
            final(self)@.drives(system@),
            told(final(self)@, system@, r) == old(self)@.after_stats(system@, st),
    {
        proof {
            stats_keeps_order(self@, system@, st);
        }
        self.add_stats(st);
        match self.phase {
            Phase::EventStats => {
                self.ask(Phase::EventReInit, Action::ReInit(self.t), Ghost(system@))
            },
            Phase::RenormStats => {
                self.ask(Phase::RenormReInit, Action::ReInit(self.t), Ghost(system@))
            },
            Phase::SweepStats => {
                self.ask(Phase::SweepReInit, Action::ReInit(self.t), Ghost(system@))
            },
            _ => {
                self.ask(Phase::Finished, Action::Free, Ghost(system@))
            },
        }
    }

    /// Answers `MeasureOverlaps`: for each pair its signed separation, or
    /// nothing where not even the boxes overlap.
    pub fn on_overlaps(
        &mut self,
        system: &PhysicalObjectSystem<S>,
        overlaps: &Vec<Option<S>>,
    ) -> (r: Result<Action<S>, String>)
        requires
            old(self)@.drives(system@),
            old(self)@.awaits(system@, Answer::Overlaps(overlaps@)),
        ensures
            final(self)@.drives(system@),
            told(final(self)@, system@, r) == old(self)@.after_overlaps(system@, overlaps@),
    {
        proof {
            overlaps_keeps_order(self@, system@, overlaps@);
        }
        if sweep_needed(overlaps, system.contact_slop) {
            self.ask(
                Phase::Sweep,
                Action::ResolvePenetrations { force_plastic: false },
                Ghost(system@),
            )
        } else {
            self.ask(Phase::Measure, Action::MeasureConserved, Ghost(system@))
        }
    }

    /// Answers `MeasureConserved`.
    pub fn on_conserved(
        &mut self,
        system: &PhysicalObjectSystem<S>,
        measured: Conserved<S>,
    ) -> (r: Result<Action<S>, String>)
        requires
            old(self)@.drives(system@),
            old(self)@.awaits(system@, Answer::Conserved(measured)),
        ensures
            final(self)@.drives(system@),
            told(final(self)@, system@, r) == old(self)@.after_conserved(system@, measured),
    {
        proof {
            conserved_keeps_order(self@, system@, measured);
        }
        self.report.snapshots.push(snapshot(measured, self.t));
        if self.k < self.nout {
            let next = self.k + 1;
            return self.begin_interval(next, Ghost(system@));
        }
        if self.separable() {
            self.report.nst = self.t.sub(self.t0).div(self.step_size()).round();
            self.ask(Phase::Finished, Action::Free, Ghost(system@))
        } else {
            self.ask(Phase::FinalStats, Action::GetStats, Ghost(system@))
        }
    }
}

} // verus!
