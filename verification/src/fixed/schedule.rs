//! Where the outputs of a run lie, in fixed-point numbers.

use crate::fixed::rods::is_held;
use crate::fixed::rounding::{
    rounding_grows, rounding_is_near, rounding_is_the_nearest, small_numbers, zero_times_a_number,
};
use crate::fixed::{nearest, pow10, Fixed, ONE};
use crate::integrate::driver::{reaches, DriveView};
use crate::scalar::{one, zero, Scalar};
use vstd::prelude::*;

verus! {

/// Whether the outputs of a run can be computed without going beyond the largest
/// number.
pub open spec fn outputs_are_held(run: DriveView<Fixed>, k: nat) -> bool {
    let way = run.t_end.raw - run.t0.raw;
    &&& 1 <= run.nout < 2147483648 && k <= run.nout
    &&& is_held(way) && is_held(way * k) && way >= 0
    &&& run.t0.is_proper() && run.t_end.is_proper()
}

/// The fraction of the way at which output `k` lies, rounded.
spec fn share(run: DriveView<Fixed>, k: nat) -> int {
    nearest((run.t_end.raw - run.t0.raw) * k, run.nout)
}

proof fn an_output_is_a_share(run: DriveView<Fixed>, k: nat)
    requires
        outputs_are_held(run, k),
    ensures
        run.output_time(k).raw == run.t0.raw + share(run, k),
        0 <= share(run, k) <= run.t_end.raw - run.t0.raw,
{
    let way = run.t_end.raw - run.t0.raw;
    let (x, n) = (way * k, run.nout as int);
    assert(Fixed::of_count(k as usize).raw == k * ONE);
    assert(Fixed::of_count(run.nout as usize).raw == n * ONE);
    assert(way * (k * ONE) == x * ONE) by (nonlinear_arith)
        requires
            x == way * k,
    ;
    rounding_is_the_nearest(x * ONE, ONE as nat, x);
    let p = run.t_end.spec_sub(run.t0).spec_mul(Fixed::of_count(k as usize));
    assert(p.raw == x);
    let q = share(run, k);
    rounding_is_near(x, n as nat);
    a_common_factor(x, n, q);
    assert(0 <= x <= way * n) by (nonlinear_arith)
        requires
            x == way * k,
            0 <= k <= n,
            way >= 0,
    ;
    rounding_grows(0, x, n as nat);
    rounding_grows(x, way * n, n as nat);
    rounding_is_the_nearest(0, n as nat, 0);
    rounding_is_the_nearest(way * n, n as nat, way);
    assert(n * ONE > 0);
    assert(p.spec_div(Fixed::of_count(run.nout as usize)).raw == q);
}

/// A common factor does not change what a quotient is rounded to.
proof fn a_common_factor(x: int, n: int, q: int)
    requires
        n > 0,
        x >= 0,
        q == nearest(x, n as nat),
    ensures
        nearest(x * ONE, (n * ONE) as nat) == q,
{
    let m = 2 * x + n;
    vstd::arithmetic::div_mod::lemma_fundamental_div_mod(m, 2 * n);
    let r = m % (2 * n);
    let (a, b) = (2 * (x * ONE) + n * ONE, 2 * (n * ONE));
    assert(a == m * ONE) by (nonlinear_arith)
        requires
            m == 2 * x + n,
            a == 2 * (x * ONE) + n * ONE,
    ;
    assert(a == q * b + r * ONE) by (nonlinear_arith)
        requires
            a == m * ONE,
            m == (2 * n) * q + r,
            b == 2 * (n * ONE),
    ;
    assert(0 <= r * ONE < b) by (nonlinear_arith)
        requires
            0 <= r < 2 * n,
            b == 2 * (n * ONE),
            ONE == 4294967296,
    ;
    vstd::arithmetic::div_mod::lemma_fundamental_div_mod_converse(a, b, q, r * ONE);
    assert(x * ONE >= 0) by (nonlinear_arith)
        requires
            x >= 0,
            ONE == 4294967296,
    ;
}

/// The outputs divide a run evenly: output `k` lies `k` shares from the
/// beginning, up to half a fraction, and the last lies at the end exactly.
pub proof fn outputs_divide_a_run_evenly(run: DriveView<Fixed>, k: nat)
    requires
        outputs_are_held(run, k),
    ensures
        ({
            let way = run.t_end.raw - run.t0.raw;
            let gone = run.output_time(k).raw - run.t0.raw;
            &&& -run.nout <= 2 * (gone * run.nout - way * k) <= run.nout
            &&& run.t0.raw <= run.output_time(k).raw <= run.t_end.raw
            &&& k == run.nout ==> run.output_time(k) == run.t_end
            &&& k == 0 ==> run.output_time(k) == run.t0
        }),
{
    an_output_is_a_share(run, k);
    let way = run.t_end.raw - run.t0.raw;
    rounding_is_near(way * k, run.nout);
    if k == run.nout {
        rounding_is_the_nearest(way * k, run.nout, way);
    }
    if k == 0 {
        assert(way * 0 == 0);
        rounding_is_the_nearest(0, run.nout, 0);
    }
}

/// Outputs come in their order.
pub proof fn outputs_come_in_order(run: DriveView<Fixed>, j: nat, k: nat)
    requires
        outputs_are_held(run, j),
        outputs_are_held(run, k),
        j <= k,
    ensures
        run.output_time(j).raw <= run.output_time(k).raw,
{
    an_output_is_a_share(run, j);
    an_output_is_a_share(run, k);
    let way = run.t_end.raw - run.t0.raw;
    assert(way * j <= way * k) by (nonlinear_arith)
        requires
            way >= 0,
            j <= k,
    ;
    rounding_grows(way * j, way * k, run.nout);
}

/// To rounding, a time is an output time only where it is that time: the
/// tolerance is finer than a fraction.
pub proof fn only_the_output_itself_is_reached(t: Fixed, tout: Fixed)
    ensures
        reaches(t, tout) <==> t == tout,
{
    small_numbers();
    assert(pow10(12) == 1000000000000) by {
        reveal_with_fuel(pow10, 13);
    }
    rounding_is_the_nearest(1 * ONE, 1000000000000, 0);
    assert(Fixed::of_decimal(1, -12i32) == zero::<Fixed>());
    zero_times_a_number(tout.spec_abs().spec_larger(one()));
}

} // verus!
