//! Fixed-point numbers: the same result on every machine.

use crate::scalar::Scalar;
use crate::text::{append_number, digit_char, numeral};
use vstd::prelude::*;

pub mod algebra;
pub mod caps;
pub mod gradients;
pub mod laws;
pub mod lengths;
pub mod motion;
pub mod pulls;
pub mod rods;
pub mod rounding;
pub mod schedule;
pub mod shown;
pub mod turning;

verus! {

/// The fractions in one: a number is a whole number of them.
pub const ONE: i64 = 4294967296;

/// A number in steps of `2^-32`. What lies beyond the largest number becomes
/// the largest, which stands for infinity.
#[derive(Clone, Copy, Debug, PartialEq, Eq, Structural)]
pub struct Fixed {
    pub raw: i64,
}

/// The whole number closest to `x` that a machine holds, without the least
/// one, which has no opposite.
pub open spec fn saturated(x: int) -> i64 {
    if x > i64::MAX {
        i64::MAX
    } else if x < -i64::MAX {
        (-i64::MAX) as i64
    } else {
        x as i64
    }
}

/// The absolute value of a whole number.
pub open spec fn magnitude(x: int) -> nat {
    if x < 0 {
        (-x) as nat
    } else {
        x as nat
    }
}

/// The whole number nearest to `x / y` for a positive `y`, halves away from
/// zero.
pub open spec fn nearest(x: int, y: nat) -> int {
    let q = (2 * magnitude(x) + y) / (2 * y);
    if x < 0 {
        -(q as int)
    } else {
        q as int
    }
}

/// Ten to the power `k`.
pub open spec fn pow10(k: nat) -> nat
    decreases k,
{
    if k == 0 {
        1
    } else {
        10 * pow10((k - 1) as nat)
    }
}

/// The largest whole number whose square is not above `x`.
pub open spec fn root(x: nat) -> nat {
    choose|r: nat| is_root(r, x)
}

/// Whether `r` is the largest whole number whose square is not above `x`.
pub open spec fn is_root(r: nat, x: nat) -> bool {
    r * r <= x < (r + 1) * (r + 1)
}

fn saturate(x: i128) -> (r: i64)
    ensures
        r == saturated(x as int),
{
    if x > i64::MAX as i128 {
        i64::MAX
    } else if x < -(i64::MAX as i128) {
        -i64::MAX
    } else {
        x as i64
    }
}

/// The numerator and the denominator stay below what the doubled sum needs.
fn nearest_quotient(x: i128, y: u128) -> (r: i128)
    requires
        -0x4000_0000_0000_0000_0000_0000_0000_0000 <= x <= 0x4000_0000_0000_0000_0000_0000_0000_0000,
        0 < y <= 100_000_000_000_000_000_000_000_000_000_000_000_000,
    ensures
        r == nearest(x as int, y as nat),
        -0x4000_0000_0000_0000_0000_0000_0000_0000 <= r <= 0x4000_0000_0000_0000_0000_0000_0000_0000,
{
    let size: u128 = if x < 0 {
        (-x) as u128
    } else {
        x as u128
    };
    let q: u128 = (2 * size + y) / (2 * y);
    proof {
        assert((2 * size + y) / (2 * y as int) <= size + 1) by (nonlinear_arith)
            requires
                y > 0,
        ;
        assert(size > 0 ==> (2 * size + y) / (2 * y as int) <= size) by (nonlinear_arith)
            requires
                y > 0,
        ;
        assert(size == 0 ==> (2 * size + y) / (2 * y as int) == 0) by (nonlinear_arith)
            requires
                y > 0,
        ;
    }
    if x < 0 {
        -(q as i128)
    } else {
        q as i128
    }
}

/// There is only one largest whole number whose square is not above `x`.
proof fn roots_are_unique(a: nat, b: nat, x: nat)
    requires
        is_root(a, x),
        is_root(b, x),
    ensures
        a == b,
{
    assert(a == b) by (nonlinear_arith)
        requires
            a * a <= x < (a + 1) * (a + 1),
            b * b <= x < (b + 1) * (b + 1),
    ;
}

fn whole_root(x: u128) -> (r: u64)
    requires
        x < 0x1_0000_0000_0000_0000_0000_0000,
    ensures
        r == root(x as nat),
        r < 0x1_0000_0000_0000,
{
    let mut low: u64 = 0;
    let mut high: u64 = 0x1_0000_0000_0000;
    while high - low > 1
        invariant
            low < high <= 0x1_0000_0000_0000,
            low * low <= x < high * high,
        decreases high - low,
    {
        let mid: u64 = low + (high - low) / 2;
        assert(mid * mid <= 0x1_0000_0000_0000 * 0x1_0000_0000_0000) by (nonlinear_arith)
            requires
                mid <= 0x1_0000_0000_0000,
        ;
        if (mid as u128) * (mid as u128) <= x {
            low = mid;
        } else {
            high = mid;
        }
    }
    proof {
        assert(high == low + 1);
        assert(is_root(low as nat, x as nat));
        roots_are_unique(low as nat, root(x as nat), x as nat);
    }
    low
}

proof fn powers_of_ten_grow(j: nat, k: nat)
    requires
        j <= k,
    ensures
        1 <= pow10(j) <= pow10(k),
    decreases k,
{
    if j < k {
        powers_of_ten_grow(j, (k - 1) as nat);
    } else if k > 0 {
        powers_of_ten_grow((j - 1) as nat, (k - 1) as nat);
    }
}

/// The largest power of ten that a divisor can be.
proof fn the_largest_power_of_ten()
    ensures
        pow10(38) == 100_000_000_000_000_000_000_000_000_000_000_000_000,
{
    reveal_with_fuel(pow10, 39);
}

/// A product that is beyond the largest number stays beyond it.
proof fn saturation_lasts(x: int, j: nat)
    requires
        x > i64::MAX || x < -i64::MAX || x == 0,
    ensures
        saturated(x * pow10(j)) == saturated(x),
{
    powers_of_ten_grow(0, j);
    let f = pow10(j) as int;
    assert(x > 0 ==> x * f >= x) by (nonlinear_arith)
        requires
            f >= 1,
    ;
    assert(x < 0 ==> x * f <= x) by (nonlinear_arith)
        requires
            f >= 1,
    ;
    assert(x == 0 ==> x * f == 0) by (nonlinear_arith);
}

proof fn powers_of_ten_add(j: nat, k: nat)
    ensures
        pow10(j) * pow10(k) == pow10(j + k),
    decreases j,
{
    if j > 0 {
        powers_of_ten_add((j - 1) as nat, k);
        let (a, b) = (pow10((j - 1) as nat), pow10(k));
        assert((10 * a) * b == 10 * (a * b)) by (nonlinear_arith);
        assert(((j - 1) as nat) + k == (j + k - 1) as nat);
    } else {
        assert(1 * pow10(k) == pow10(k));
    }
}

fn scaled_up(x: i128, e: u32) -> (r: i64)
    requires
        -0x8000_0000_0000_0000_0000_0000 <= x <= 0x8000_0000_0000_0000_0000_0000,
    ensures
        r == saturated(x * pow10(e as nat)),
{
    let mut y: i128 = x;
    let mut k: u32 = 0;
    assert(x * pow10(0) == x) by {
        assert(pow10(0) == 1);
    }
    while k < e
        invariant
            k <= e,
            -0x8000_0000_0000_0000_0000_0000 <= y <= 0x8000_0000_0000_0000_0000_0000,
            y == x * pow10(k as nat),
        decreases e - k,
    {
        if y > i64::MAX as i128 || y < -(i64::MAX as i128) || y == 0 {
            proof {
                let rest = (e - k) as nat;
                saturation_lasts(y as int, rest);
                powers_of_ten_add(k as nat, rest);
                let (a, b, c) = (x as int, pow10(k as nat) as int, pow10(rest) as int);
                assert((a * b) * c == a * (b * c)) by (nonlinear_arith);
            }
            return saturate(y);
        }
        proof {
            let (a, b) = (x as int, pow10(k as nat) as int);
            assert(10 * (a * b) == a * (10 * b)) by (nonlinear_arith);
            assert(pow10((k + 1) as nat) == 10 * pow10(k as nat));
        }
        y = 10 * y;
        k += 1;
    }
    saturate(y)
}

fn scaled_down(x: i128, e: u32) -> (r: i64)
    requires
        -0x8000_0000_0000_0000_0000_0000 <= x <= 0x8000_0000_0000_0000_0000_0000,
    ensures
        r == saturated(nearest(x as int, pow10(e as nat))),
{
    proof {
        the_largest_power_of_ten();
        powers_of_ten_grow(0, 38);
    }
    if e > 38 {
        proof {
            powers_of_ten_grow(38, e as nat);
            let (a, y) = (magnitude(x as int) as int, pow10(e as nat) as int);
            assert((2 * a + y) / (2 * y) == 0) by (nonlinear_arith)
                requires
                    0 <= 2 * a < y,
            ;
        }
        return 0;
    }
    let mut y: u128 = 1;
    let mut k: u32 = 0;
    while k < e
        invariant
            k <= e <= 38,
            0 < y == pow10(k as nat) <= pow10(38),
            pow10(38) == 100_000_000_000_000_000_000_000_000_000_000_000_000,
        decreases e - k,
    {
        proof {
            powers_of_ten_grow((k + 1) as nat, 38);
        }
        y = 10 * y;
        k += 1;
    }
    saturate(nearest_quotient(x, y))
}

/// Two to the power `k`.
pub open spec fn two_to(k: nat) -> nat
    decreases k,
{
    if k == 0 {
        1
    } else {
        2 * two_to((k - 1) as nat)
    }
}

/// The decimal digits of `f / 2^k` behind the point, up to the last that is not
/// zero.
pub open spec fn fraction_digits(f: nat, k: nat) -> Seq<nat>
    decreases k,
{
    if f == 0 || k == 0 {
        Seq::empty()
    } else {
        let half = two_to((k - 1) as nat);
        seq![5 * f / half] + fraction_digits((5 * f) % half, (k - 1) as nat)
    }
}

/// A number as a decimal, which for a fraction over a power of two is finite;
/// without a point where it is whole.
pub open spec fn decimal_text(x: Fixed) -> Seq<char> {
    let size = magnitude(x.raw as int);
    let sign = if x.raw < 0 {
        "-"@
    } else {
        ""@
    };
    if !x.spec_is_finite() {
        sign + "inf"@
    } else if size % (ONE as nat) == 0 {
        sign + numeral(size / (ONE as nat))
    } else {
        sign + numeral(size / (ONE as nat)) + "."@ + fraction_digits(
            size % (ONE as nat),
            32,
        ).map_values(|d: nat| digit_char(d))
    }
}

/// Appends the decimal digits of `f / whole`, where `whole` is `2^k`.
fn append_fraction(s: &mut String, f: u64, k: u32, whole: u64)
    requires
        f < whole == two_to(k as nat),
        whole <= 4294967296,
    ensures
        final(s)@ == old(s)@ + fraction_digits(f as nat, k as nat).map_values(
            |d: nat| digit_char(d),
        ),
    decreases k,
{
    if f == 0 {
        assert(final(s)@ =~= old(s)@ + fraction_digits(0, k as nat).map_values(
            |d: nat| digit_char(d),
        ));
        return;
    }
    let half: u64 = whole / 2;
    let d: u64 = 5 * f / half;
    let rest: u64 = (5 * f) % half;
    proof {
        assert(half == two_to((k - 1) as nat));
        assert(5 * f / (half as int) < 10) by (nonlinear_arith)
            requires
                f < 2 * half,
                half > 0,
        ;
    }
    append_number(s, d);
    append_fraction(s, rest, k - 1, half);
    proof {
        let tail = fraction_digits(rest as nat, (k - 1) as nat);
        assert((seq![d as nat] + tail).map_values(|d: nat| digit_char(d)) =~= seq![
            digit_char(d as nat),
        ] + tail.map_values(|d: nat| digit_char(d)));
        assert(numeral(d as nat) == seq![digit_char(d as nat)]);
        assert(s@ =~= old(s)@ + fraction_digits(f as nat, k as nat).map_values(
            |d: nat| digit_char(d),
        ));
    }
}

impl Scalar for Fixed {
    open spec fn of_decimal(mantissa: i64, exponent: i32) -> Self {
        Fixed {
            raw: if exponent >= 0 {
                saturated(mantissa * ONE * pow10(exponent as nat))
            } else {
                saturated(nearest(mantissa * ONE, pow10((-exponent) as nat)))
            },
        }
    }

    fn decimal(mantissa: i64, exponent: i32) -> Self {
        let x: i128 = (mantissa as i128) * 4294967296;
        if exponent >= 0 {
            Fixed { raw: scaled_up(x, exponent as u32) }
        } else {
            Fixed { raw: scaled_down(x, (-(exponent as i64)) as u32) }
        }
    }

    open spec fn of_count(n: usize) -> Self {
        Fixed { raw: saturated(n * ONE) }
    }

    fn count(n: usize) -> Self {
        Fixed { raw: saturate((n as i128) * 4294967296) }
    }

    open spec fn spec_infinity() -> Self {
        Fixed { raw: i64::MAX }
    }

    fn infinity() -> Self {
        Fixed { raw: i64::MAX }
    }

    open spec fn spec_tiny() -> Self {
        Fixed { raw: 1 }
    }

    fn tiny() -> Self {
        Fixed { raw: 1 }
    }

    open spec fn spec_add(self, other: Self) -> Self {
        Fixed { raw: saturated(self.raw + other.raw) }
    }

    fn add(self, other: Self) -> Self {
        Fixed { raw: saturate((self.raw as i128) + (other.raw as i128)) }
    }

    open spec fn spec_sub(self, other: Self) -> Self {
        Fixed { raw: saturated(self.raw - other.raw) }
    }

    fn sub(self, other: Self) -> Self {
        Fixed { raw: saturate((self.raw as i128) - (other.raw as i128)) }
    }

    open spec fn spec_mul(self, other: Self) -> Self {
        Fixed { raw: saturated(nearest(self.raw * other.raw, ONE as nat)) }
    }

    fn mul(self, other: Self) -> Self {
        let (a, b) = (self.raw as i128, other.raw as i128);
        assert(-0x4000_0000_0000_0000_0000_0000_0000_0000 <= a * b
            <= 0x4000_0000_0000_0000_0000_0000_0000_0000) by (nonlinear_arith)
            requires
                -0x8000_0000_0000_0000 <= a <= 0x8000_0000_0000_0000,
                -0x8000_0000_0000_0000 <= b <= 0x8000_0000_0000_0000,
        ;
        Fixed { raw: saturate(nearest_quotient(a * b, ONE as u128)) }
    }

    /// By zero, a number goes beyond all others of its sign, and zero stays.
    open spec fn spec_div(self, other: Self) -> Self {
        Fixed {
            raw: if other.raw == 0 {
                saturated(self.raw * ONE * ONE)
            } else if other.raw < 0 {
                saturated(nearest(-self.raw * ONE, (-other.raw) as nat))
            } else {
                saturated(nearest(self.raw * ONE, other.raw as nat))
            },
        }
    }

    fn div(self, other: Self) -> Self {
        let x: i128 = (self.raw as i128) * 4294967296;
        if other.raw == 0 {
            if self.raw > 0 {
                Fixed { raw: i64::MAX }
            } else if self.raw < 0 {
                Fixed { raw: -i64::MAX }
            } else {
                Fixed { raw: 0 }
            }
        } else if other.raw < 0 {
            Fixed { raw: saturate(nearest_quotient(-x, (-(other.raw as i128)) as u128)) }
        } else {
            Fixed { raw: saturate(nearest_quotient(x, other.raw as u128)) }
        }
    }

    open spec fn spec_neg(self) -> Self {
        Fixed { raw: saturated(-self.raw) }
    }

    fn neg(self) -> Self {
        Fixed { raw: saturate(-(self.raw as i128)) }
    }

    /// Rounded down; a negative number has none, and gives zero.
    open spec fn spec_sqrt(self) -> Self {
        Fixed {
            raw: if self.raw < 0 {
                0
            } else {
                root((self.raw * ONE) as nat) as i64
            },
        }
    }

    fn sqrt(self) -> Self {
        if self.raw < 0 {
            return Fixed { raw: 0 };
        }
        Fixed { raw: whole_root((self.raw as u128) * 4294967296) as i64 }
    }

    open spec fn spec_abs(self) -> Self {
        Fixed { raw: saturated(magnitude(self.raw as int) as int) }
    }

    fn abs(self) -> Self {
        if self.raw < 0 {
            self.neg()
        } else {
            self
        }
    }

    open spec fn spec_larger(self, other: Self) -> Self {
        if self.raw < other.raw {
            other
        } else {
            self
        }
    }

    fn larger(self, other: Self) -> Self {
        if self.raw < other.raw {
            other
        } else {
            self
        }
    }

    open spec fn spec_smaller(self, other: Self) -> Self {
        if other.raw < self.raw {
            other
        } else {
            self
        }
    }

    fn smaller(self, other: Self) -> Self {
        if other.raw < self.raw {
            other
        } else {
            self
        }
    }

    open spec fn spec_less(self, other: Self) -> bool {
        self.raw < other.raw
    }

    fn less(self, other: Self) -> bool {
        self.raw < other.raw
    }

    open spec fn spec_at_most(self, other: Self) -> bool {
        self.raw <= other.raw
    }

    fn at_most(self, other: Self) -> bool {
        self.raw <= other.raw
    }

    open spec fn spec_same(self, other: Self) -> bool {
        self.raw == other.raw
    }

    fn same(self, other: Self) -> bool {
        self.raw == other.raw
    }

    open spec fn spec_is_finite(self) -> bool {
        -i64::MAX < self.raw < i64::MAX
    }

    fn is_finite(self) -> bool {
        -i64::MAX < self.raw && self.raw < i64::MAX
    }

    open spec fn spec_is_nan(self) -> bool {
        false
    }

    fn is_nan(self) -> bool {
        false
    }

    open spec fn spec_ceil(self) -> i64 {
        (-((-self.raw) / (ONE as int))) as i64
    }

    fn ceil(self) -> i64 {
        if self.raw > 0 {
            ((self.raw as u64 + 4294967295) / 4294967296) as i64
        } else {
            -(((-(self.raw as i128)) as u64 / 4294967296) as i64)
        }
    }

    open spec fn spec_round(self) -> i64 {
        nearest(self.raw as int, ONE as nat) as i64
    }

    fn round(self) -> i64 {
        nearest_quotient(self.raw as i128, ONE as u128) as i64
    }

    open spec fn shown(self) -> String {
        choose|r: String| #[trigger] r@ == decimal_text(self)
    }

    fn show(self) -> String {
        let mut r = String::from_str(
            if self.raw < 0 {
                "-"
            } else {
                ""
            },
        );
        if !self.is_finite() {
            r.append("inf");
            assert(r@ =~= decimal_text(self));
            return r;
        }
        let size: u64 = if self.raw < 0 {
            (-self.raw) as u64
        } else {
            self.raw as u64
        };
        append_number(&mut r, size / 4294967296);
        let f: u64 = size % 4294967296;
        if f > 0 {
            r.append(".");
            assert(two_to(32) == 4294967296) by {
                reveal_with_fuel(two_to, 33);
            }
            append_fraction(&mut r, f, 32, 4294967296);
        }
        assert(r@ =~= decimal_text(self));
        r
    }
}

/// Every whole number has a whole root.
pub proof fn every_number_has_a_root(x: nat)
    ensures
        is_root(root(x), x),
    decreases x,
{
    if x == 0 {
        assert(0 * 0 <= 0nat < (0 + 1) * (0 + 1)) by (nonlinear_arith);
        assert(is_root(0, 0));
    } else {
        every_number_has_a_root((x - 1) as nat);
        let r = root((x - 1) as nat);
        if (r + 1) * (r + 1) <= x {
            assert((r + 1) * (r + 1) < (r + 2) * (r + 2)) by (nonlinear_arith);
            assert(is_root(r + 1, x));
        } else {
            assert(is_root(r, x));
        }
    }
}

/// The whole number that a sequence of decimal digits writes.
pub open spec fn digits_value(ds: Seq<nat>) -> nat
    decreases ds.len(),
{
    if ds.len() == 0 {
        0
    } else {
        ds[0] * pow10((ds.len() - 1) as nat) + digits_value(ds.drop_first())
    }
}

/// The decimal digits of a fraction are exact: nothing is rounded away.
pub proof fn a_decimal_is_exact(f: nat, k: nat)
    requires
        f < two_to(k),
    ensures
        digits_value(fraction_digits(f, k)) * two_to(k) == f * pow10(fraction_digits(f, k).len()),
    decreases k,
{
    let ds = fraction_digits(f, k);
    if f == 0 || k == 0 {
        assert(0 * two_to(k) == 0) by (nonlinear_arith);
        assert(0 * pow10(0) == 0) by (nonlinear_arith);
    } else {
        let half = two_to((k - 1) as nat);
        powers_of_two_are_positive((k - 1) as nat);
        let d = 5 * f / half;
        let g = (5 * f) % half;
        let tail = fraction_digits(g, (k - 1) as nat);
        a_decimal_is_exact(g, (k - 1) as nat);
        assert(ds.drop_first() =~= tail);
        let m = pow10(tail.len()) as int;
        let v = digits_value(tail) as int;
        assert(pow10(ds.len()) == 10 * pow10(tail.len()));
        vstd::arithmetic::div_mod::lemma_fundamental_div_mod(5 * f as int, half as int);
        let h = half as int;
        assert((d * m + v) * (2 * h) == 2 * ((h * d) * m) + 2 * (v * h)) by (nonlinear_arith);
        assert((h * d) * m + g * m == (h * d + g) * m) by (nonlinear_arith);
        assert(2 * ((5 * f) * m) == f * (10 * m)) by (nonlinear_arith);
    }
}

proof fn powers_of_two_are_positive(k: nat)
    ensures
        two_to(k) > 0,
    decreases k,
{
    if k > 0 {
        powers_of_two_are_positive((k - 1) as nat);
    }
}

} // verus!
