//! What a run does to the angular momenta of the bodies.

use crate::integrate::bounds::{
    renormalized, renormalizing_keeps_the_length, renormalizing_touches_only_quaternions,
};
use crate::integrate::driver::laws::{a_course, after, left_by, Turn};
use crate::integrate::driver::steps::step_follows;
use crate::integrate::driver::{Answer, DriveView, Phase};
use crate::linalg::{vec3_at, Vec3};
use crate::scalar::Scalar;
use crate::system::SystemView;
use vstd::prelude::*;

verus! {

/// Whether the bodies of a system have the angular momenta `l`.
pub open spec fn has_spins<S: Scalar>(s: SystemView<S>, l: Seq<Vec3<S>>) -> bool {
    &&& s.objects.len() == l.len()
    &&& forall|i: int|
        0 <= i < l.len() ==> (#[trigger] s.objects[i]).angular_momentum == l[i]
}

/// Whether a full state vector holds the angular momenta `l`.
pub open spec fn holds_spins<S: Scalar>(d: Seq<S>, l: Seq<Vec3<S>>) -> bool {
    forall|i: int| 0 <= i < l.len() ==> #[trigger] vec3_at(d, 13 * i + 10) == l[i]
}

/// Whether an answer brings no other angular momenta than `l`.
pub open spec fn brings_spins<S: Scalar>(answer: Answer<S>, l: Seq<Vec3<S>>) -> bool {
    answer matches Answer::Read(Some(d)) ==> holds_spins(d, l)
}

impl<S: Scalar> DriveView<S> {
    /// Whether the state that a run keeps while it stores unit quaternions, if
    /// it keeps one, holds the angular momenta `l`.
    pub open spec fn keeps_spins(self, l: Seq<Vec3<S>>) -> bool {
        match self.phase {
            Phase::RenormStore | Phase::RenormStats | Phase::RenormReInit => holds_spins(
                self.held,
                l,
            ),
            _ => true,
        }
    }
}

proof fn renormalizing_keeps_the_spins<S: Scalar>(d: Seq<S>, n: nat, l: Seq<Vec3<S>>)
    requires
        d.len() == 13 * n,
        l.len() == n,
        holds_spins(d, l),
    ensures
        holds_spins(renormalized(d, n), l),
{
    renormalizing_keeps_the_length(d, n);
    assert forall|i: int| 0 <= i < l.len() implies #[trigger] vec3_at(
        renormalized(d, n),
        13 * i + 10,
    ) == l[i] by {
        assert(vec3_at(d, 13 * i + 10) == l[i]);
        let k = 13 * i + 10;
        assert(k % 13 == 10 && (k + 1) % 13 == 11 && (k + 2) % 13 == 12);
        renormalizing_touches_only_quaternions(d, n, k);
        renormalizing_touches_only_quaternions(d, n, k + 1);
        renormalizing_touches_only_quaternions(d, n, k + 2);
    }
}

/// An answer that brings no other angular momenta leaves those of the bodies
/// alone.
pub proof fn an_answer_keeps_the_spins<S: Scalar>(
    run: DriveView<S>,
    s: SystemView<S>,
    answer: Answer<S>,
    l: Seq<Vec3<S>>,
)
    requires
        run.drives(s),
        run.awaits(s, answer),
        !run.separable(),
        run.keeps_spins(l),
        has_spins(s, l),
        brings_spins(answer, l),
    ensures
        run.step(s, answer).run.keeps_spins(l),
        has_spins(run.step(s, answer).system, l),
{
    reveal(DriveView::step);
    if let Answer::Read(Some(d)) = answer {
        renormalizing_keeps_the_spins(d, run.n, l);
    }
}

/// Whether nobody but the run changes the bodies: every exchange finds them as
/// the one before left them.
pub open spec fn bodies_are_kept<S: Scalar>(run: DriveView<S>, turns: Seq<Turn<S>>) -> bool
    decreases turns.len(),
{
    turns.len() > 1 ==> {
        &&& bodies_are_kept(run, turns.drop_last())
        &&& turns.last().system.objects == left_by(run, turns.drop_last()).objects
    }
}

/// A run keeps the angular momenta that the solver keeps: where every state
/// that the solver hands back holds those that the bodies had at first, as it
/// does where their rates are zero and are integrated exactly, the bodies have
/// them to the end, however they turn.
pub proof fn a_run_keeps_the_angular_momenta_that_the_solver_keeps<S: Scalar>(
    run: DriveView<S>,
    turns: Seq<Turn<S>>,
    l: Seq<Vec3<S>>,
)
    requires
        turns.len() > 0,
        a_course(run, turns),
        bodies_are_kept(run, turns),
        !run.separable(),
        run.keeps_spins(l),
        has_spins(turns[0].system, l),
        forall|i: int| 0 <= i < turns.len() ==> brings_spins((#[trigger] turns[i]).answer, l),
    ensures
        has_spins(left_by(run, turns), l),
        after(run, turns).keeps_spins(l),
        !after(run, turns).separable(),
    decreases turns.len(),
{
    let last = turns[turns.len() - 1];
    let fewer = turns.drop_last();
    if turns.len() > 1 {
        assert forall|i: int| 0 <= i < fewer.len() implies brings_spins(
            (#[trigger] fewer[i]).answer,
            l,
        ) by {
            assert(fewer[i] == turns[i]);
        }
        a_run_keeps_the_angular_momenta_that_the_solver_keeps(run, fewer, l);
        assert(last.system.objects == left_by(run, fewer).objects);
    }
    an_answer_keeps_the_spins(after(run, fewer), last.system, last.answer, l);
    step_follows(after(run, fewer), last.system, last.answer);
}

} // verus!
