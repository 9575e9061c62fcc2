//! Gravity between bodies in fixed-point numbers, and what it does to the total
//! momentum.

use crate::fixed::laws::{
    opposite_vectors_have_one_length, opposite_vectors_scale_alike, products_with_the_zero_vector,
};
use crate::fixed::rods::{is_held, multiplies};
use crate::fixed::rounding::{
    rounding_is_near, rounding_is_odd, small_numbers, zero_added_to_a_number, zero_times_a_number,
};
use crate::fixed::{magnitude, nearest, Fixed, ONE};
use crate::integrate::dynamics::{
    force_in, full_places, gravity_on, pull, rates, velocity_in, RhsParamsView,
};
use crate::linalg::Vec3;
use crate::scalar::Scalar;
use crate::system::component;
use vstd::prelude::*;

verus! {

/// The pull along the opposite way is the opposite pull.
pub proof fn a_pull_turns_with_its_direction(
    g: Fixed,
    softening: Fixed,
    m1: Fixed,
    m2: Fixed,
    r: Vec3<Fixed>,
)
    requires
        r.is_proper(),
    ensures
        pull(g, softening, m1, m2, r.opposite()) == pull(g, softening, m1, m2, r).opposite(),
{
    opposite_vectors_have_one_length(r);
    let dist_sq = r.spec_norm_squared().spec_add(softening.spec_mul(softening));
    opposite_vectors_scale_alike(
        r,
        g.spec_mul(m1).spec_mul(m2).spec_div(dist_sq.spec_mul(dist_sq.spec_sqrt())),
    );
}

/// Whether the strength of a pull is rounded alike whichever of the two masses
/// comes first.
pub open spec fn rounded_alike(g: Fixed, m1: Fixed, m2: Fixed) -> bool {
    g.spec_mul(m1).spec_mul(m2) == g.spec_mul(m2).spec_mul(m1)
}

/// The pulls of two bodies on each other are equal and opposite, where their
/// strength is rounded alike.
pub proof fn pulls_are_equal_and_opposite(
    g: Fixed,
    softening: Fixed,
    m1: Fixed,
    m2: Fixed,
    r: Vec3<Fixed>,
)
    requires
        r.is_proper(),
        rounded_alike(g, m1, m2),
    ensures
        pull(g, softening, m2, m1, r.opposite()) == pull(g, softening, m1, m2, r).opposite(),
{
    a_pull_turns_with_its_direction(g, softening, m1, m2, r);
}

/// The pull of body `j` on body `i`, and nothing where they are one.
pub open spec fn pull_on(
    g: Fixed,
    softening: Fixed,
    masses: Seq<Fixed>,
    places: Seq<Vec3<Fixed>>,
    i: int,
    j: int,
) -> Vec3<Fixed> {
    if i == j {
        Vec3::spec_zeros()
    } else {
        pull(g, softening, masses[i], masses[j], places[j].spec_sub(places[i]))
    }
}

/// Component `c` of the gravity on the first `m` bodies of `n`, added up as
/// whole numbers.
pub open spec fn total_gravity(
    g: Fixed,
    softening: Fixed,
    masses: Seq<Fixed>,
    places: Seq<Vec3<Fixed>>,
    c: int,
    m: int,
    n: int,
) -> int
    decreases m,
{
    if m <= 0 {
        0
    } else {
        total_gravity(g, softening, masses, places, c, m - 1, n) + component(
            gravity_on(g, softening, masses, places, m - 1, n),
            c,
        ).raw
    }
}

/// The sum of the first `m` entries of row `i` of a table.
pub open spec fn row(table: spec_fn(int, int) -> int, i: int, m: int) -> int
    decreases m,
{
    if m <= 0 {
        0
    } else {
        row(table, i, m - 1) + table(i, m - 1)
    }
}

/// The sum of the first `m` entries of the first `n` rows of a table.
spec fn rows(table: spec_fn(int, int) -> int, n: int, m: int) -> int
    decreases n,
{
    if n <= 0 {
        0
    } else {
        rows(table, n - 1, m) + row(table, n - 1, m)
    }
}

proof fn one_more_column(table: spec_fn(int, int) -> int, n: int, m: int)
    requires
        m >= 0,
    ensures
        rows(table, n, m + 1) == rows(table, n, m) + row(|j: int, i: int| table(i, j), m, n),
    decreases n,
{
    if n > 0 {
        one_more_column(table, n - 1, m);
    }
}

proof fn opposite_rows_and_columns(table: spec_fn(int, int) -> int, i: int, m: int, n: int)
    requires
        0 <= m <= i < n,
        forall|a: int, b: int|
            0 <= a < n && 0 <= b < n ==> #[trigger] table(a, b) == -table(b, a),
    ensures
        row(|j: int, k: int| table(k, j), i, m) == -row(table, i, m),
    decreases m,
{
    if m > 0 {
        opposite_rows_and_columns(table, i, m - 1, n);
    }
}

proof fn an_antisymmetric_table_adds_up_to_nothing(
    table: spec_fn(int, int) -> int,
    m: int,
    n: int,
)
    requires
        0 <= m <= n,
        forall|a: int, b: int|
            0 <= a < n && 0 <= b < n ==> #[trigger] table(a, b) == -table(b, a),
    ensures
        rows(table, m, m) == 0,
    decreases m,
{
    if m > 0 {
        an_antisymmetric_table_adds_up_to_nothing(table, m - 1, n);
        one_more_column(table, m - 1, m - 1);
        opposite_rows_and_columns(table, m - 1, m - 1, n);
        assert(table(m - 1, m - 1) == -table(m - 1, m - 1));
    }
}

/// Whether all strengths among the first `n` bodies are rounded alike.
pub open spec fn all_rounded_alike(g: Fixed, masses: Seq<Fixed>, n: int) -> bool {
    forall|i: int, j: int|
        #![trigger masses[i], masses[j]]
        0 <= i < n && 0 <= j < n ==> rounded_alike(g, masses[i], masses[j])
}

/// Whether the pulls among the first `n` bodies are so small that they can be
/// added up.
pub open spec fn pulls_add_up(
    g: Fixed,
    softening: Fixed,
    masses: Seq<Fixed>,
    places: Seq<Vec3<Fixed>>,
    n: int,
) -> bool {
    forall|i: int, j: int, c: int|
        #![trigger component(pull_on(g, softening, masses, places, i, j), c)]
        0 <= i < n && 0 <= j < n ==> -i64::MAX <= n * component(
            pull_on(g, softening, masses, places, i, j),
            c,
        ).raw <= i64::MAX
}

proof fn gravity_is_a_sum(
    g: Fixed,
    softening: Fixed,
    masses: Seq<Fixed>,
    places: Seq<Vec3<Fixed>>,
    i: int,
    upto: int,
    n: int,
    c: int,
)
    requires
        0 <= i < n,
        0 <= upto <= n,
        pulls_add_up(g, softening, masses, places, n),
    ensures
        component(gravity_on(g, softening, masses, places, i, upto), c).raw == row(
            |a: int, b: int| component(pull_on(g, softening, masses, places, a, b), c).raw as int,
            i,
            upto,
        ),
        -upto * i64::MAX <= n * component(
            gravity_on(g, softening, masses, places, i, upto),
            c,
        ).raw <= upto * i64::MAX,
    decreases upto,
{
    small_numbers();
    let table = |a: int, b: int|
        component(pull_on(g, softening, masses, places, a, b), c).raw as int;
    if upto > 0 {
        gravity_is_a_sum(g, softening, masses, places, i, upto - 1, n, c);
        let sum = component(gravity_on(g, softening, masses, places, i, upto - 1), c).raw as int;
        let p = component(pull_on(g, softening, masses, places, i, upto - 1), c).raw as int;
        assert(table(i, upto - 1) == p);
        assert(n * (sum + p) == n * sum + n * p) by (nonlinear_arith);
        assert(-upto * i64::MAX == -(upto - 1) * i64::MAX - i64::MAX) by (nonlinear_arith);
        assert(-i64::MAX <= sum + p <= i64::MAX) by (nonlinear_arith)
            requires
                -upto * i64::MAX <= n * (sum + p) <= upto * i64::MAX,
                0 < upto <= n,
        ;
    } else {
        assert(n * 0 == 0) by (nonlinear_arith);
    }
}

proof fn total_gravity_is_a_table(
    g: Fixed,
    softening: Fixed,
    masses: Seq<Fixed>,
    places: Seq<Vec3<Fixed>>,
    c: int,
    m: int,
    n: int,
)
    requires
        0 <= m <= n,
        pulls_add_up(g, softening, masses, places, n),
    ensures
        total_gravity(g, softening, masses, places, c, m, n) == rows(
            |a: int, b: int| component(pull_on(g, softening, masses, places, a, b), c).raw as int,
            m,
            n,
        ),
    decreases m,
{
    if m > 0 {
        total_gravity_is_a_table(g, softening, masses, places, c, m - 1, n);
        gravity_is_a_sum(g, softening, masses, places, m - 1, n, n, c);
    }
}

/// The bodies' gravity adds up to nothing in every component: pulls are equal
/// and opposite, so total momentum is kept. This is where all strengths are
/// rounded alike.
pub proof fn gravity_keeps_total_momentum(
    g: Fixed,
    softening: Fixed,
    masses: Seq<Fixed>,
    places: Seq<Vec3<Fixed>>,
    c: int,
    n: int,
)
    requires
        n >= 0,
        all_rounded_alike(g, masses, n),
        pulls_add_up(g, softening, masses, places, n),
    ensures
        total_gravity(g, softening, masses, places, c, n, n) == 0,
{
    let table = |a: int, b: int|
        component(pull_on(g, softening, masses, places, a, b), c).raw as int;
    assert forall|a: int, b: int| 0 <= a < n && 0 <= b < n implies #[trigger] table(a, b)
        == -table(b, a) by {
        small_numbers();
        if a != b {
            let r = places[b].spec_sub(places[a]);
            assert(r.opposite() == places[a].spec_sub(places[b]));
            assert(rounded_alike(g, masses[a], masses[b]));
            pulls_are_equal_and_opposite(g, softening, masses[a], masses[b], r);
        }
    }
    total_gravity_is_a_table(g, softening, masses, places, c, n, n);
    an_antisymmetric_table_adds_up_to_nothing(table, n, n);
}

/// The cube of the softened distance over which two bodies pull each other.
pub open spec fn cubed_distance(softening: Fixed, r: Vec3<Fixed>) -> Fixed {
    let dist_sq = r.spec_norm_squared().spec_add(softening.spec_mul(softening));
    dist_sq.spec_mul(dist_sq.spec_sqrt())
}

/// Whether a pull is computed without going beyond the largest number, over a
/// distance whose cube is not zero.
pub open spec fn pull_is_held(
    g: Fixed,
    softening: Fixed,
    m1: Fixed,
    m2: Fixed,
    r: Vec3<Fixed>,
) -> bool {
    let cube = cubed_distance(softening, r);
    let product = g.spec_mul(m1).spec_mul(m2);
    let strength = product.spec_div(cube);
    &&& r.is_proper()
    &&& cube.raw > 0
    &&& multiplies(g, m1) && multiplies(g.spec_mul(m1), m2)
    &&& is_held(nearest(product.raw * ONE, cube.raw as nat))
    &&& multiplies(r.x, strength) && multiplies(r.y, strength) && multiplies(r.z, strength)
}

/// What rounding can leave of the sum of two opposite pulls, where `cube` is the
/// cube of the distance, `r` the component of the way and `m1` and `m2` are the
/// masses.
pub open spec fn pull_slack(cube: int, r: int, m1: int, m2: int) -> int {
    2 * (cube * 4294967296) + magnitude(r) * (2 * cube + magnitude(m1) + magnitude(m2)
        + 8589934592)
}

/// Whether two opposite components add up to nothing but what rounding leaves.
pub open spec fn cancels(a: int, b: int, cube: int, r: int, m1: int, m2: int) -> bool {
    let slack = pull_slack(cube, r, m1, m2);
    -slack <= 2 * (cube * 4294967296) * (a + b) <= slack
}

/// A product of three factors that is rounded twice.
pub proof fn a_product_of_three(g: int, m1: int, m2: int, a: int, p: int)
    requires
        -4294967296 <= 2 * (a * 4294967296 - g * m1) <= 4294967296,
        -4294967296 <= 2 * (p * 4294967296 - a * m2) <= 4294967296,
    ensures
        -(4294967296 * magnitude(m2) + 18446744073709551616) <= 2 * (18446744073709551616 * p - (g
            * m1) * m2) <= 4294967296 * magnitude(m2) + 18446744073709551616,
{
    let e = a * 4294967296 - g * m1;
    let m = magnitude(m2) as int;
    assert(-(4294967296 * m) <= 2 * (e * m2) <= 4294967296 * m) by (nonlinear_arith)
        requires
            -4294967296 <= 2 * e <= 4294967296,
            m == m2 || m == -m2,
            m >= 0,
    ;
    assert(e * m2 == 4294967296 * (a * m2) - (g * m1) * m2) by (nonlinear_arith)
        requires
            e == a * 4294967296 - g * m1,
    ;
}

/// One component of two pulls whose strengths differ by what rounding leaves.
proof fn strengths_tell_little(
    cube: int,
    r: int,
    sizes: int,
    p: (int, int),
    s: (int, int),
    f: (int, int),
)
    requires
        cube > 0,
        -sizes <= 2 * (4294967296 * (p.0 - p.1)) <= sizes,
        -cube <= 2 * (s.0 * cube - p.0 * 4294967296) <= cube,
        -cube <= 2 * (s.1 * cube - p.1 * 4294967296) <= cube,
        -4294967296 <= 2 * (f.0 * 4294967296 - r * s.0) <= 4294967296,
        -4294967296 <= 2 * (f.1 * 4294967296 - r * s.1) <= 4294967296,
    ensures
        ({
            let slack = 2 * (cube * 4294967296) + magnitude(r) * (2 * cube + sizes);
            -slack <= 2 * (cube * 4294967296) * (f.0 - f.1) <= slack
        }),
{
    let d = s.0 - s.1;
    let t = 2 * cube + sizes;
    assert(d * cube == s.0 * cube - s.1 * cube) by (nonlinear_arith)
        requires
            d == s.0 - s.1,
    ;
    assert(-t <= 2 * (d * cube) <= t);
    let m = magnitude(r) as int;
    let x = d * cube;
    assert(-(m * t) <= 2 * (r * x) <= m * t) by (nonlinear_arith)
        requires
            -t <= 2 * x <= t,
            m == r || m == -r,
            m >= 0,
    ;
    let h = f.0 - f.1;
    let w = h * 4294967296 - r * d;
    assert(r * d == r * s.0 - r * s.1) by (nonlinear_arith)
        requires
            d == s.0 - s.1,
    ;
    assert(-4294967296 <= w <= 4294967296);
    assert(-(cube * 4294967296) <= cube * w <= cube * 4294967296) by (nonlinear_arith)
        requires
            cube > 0,
            -4294967296 <= w <= 4294967296,
    ;
    assert(cube * w == (cube * 4294967296) * h - r * x) by (nonlinear_arith)
        requires
            w == h * 4294967296 - r * d,
            x == d * cube,
    ;
    assert(2 * (cube * 4294967296) * h == 2 * ((cube * 4294967296) * h)) by (nonlinear_arith);
}

/// The pulls of two bodies on each other add up to nothing, up to what rounding
/// leaves.
pub proof fn pulls_cancel(g: Fixed, softening: Fixed, m1: Fixed, m2: Fixed, r: Vec3<Fixed>)
    requires
        pull_is_held(g, softening, m1, m2, r),
        pull_is_held(g, softening, m2, m1, r),
    ensures
        ({
            let cube = cubed_distance(softening, r).raw as int;
            let there = pull(g, softening, m1, m2, r);
            let back = pull(g, softening, m2, m1, r.opposite());
            let (k1, k2) = (m1.raw as int, m2.raw as int);
            &&& cancels(there.x.raw as int, back.x.raw as int, cube, r.x.raw as int, k1, k2)
            &&& cancels(there.y.raw as int, back.y.raw as int, cube, r.y.raw as int, k1, k2)
            &&& cancels(there.z.raw as int, back.z.raw as int, cube, r.z.raw as int, k1, k2)
        }),
{
    let o = ONE as nat;
    let cube = cubed_distance(softening, r);
    let (a1, a2) = (g.spec_mul(m1), g.spec_mul(m2));
    let (p1, p2) = (a1.spec_mul(m2), a2.spec_mul(m1));
    let (s1, s2) = (p1.spec_div(cube), p2.spec_div(cube));
    rounding_is_near(g.raw * m1.raw, o);
    rounding_is_near(g.raw * m2.raw, o);
    rounding_is_near(a1.raw * m2.raw, o);
    rounding_is_near(a2.raw * m1.raw, o);
    let (gi, k1, k2) = (g.raw as int, m1.raw as int, m2.raw as int);
    a_product_of_three(gi, k1, k2, a1.raw as int, p1.raw as int);
    a_product_of_three(gi, k2, k1, a2.raw as int, p2.raw as int);
    assert((gi * k1) * k2 == (gi * k2) * k1) by (nonlinear_arith);
    let sizes = (magnitude(k1) + magnitude(k2) + 8589934592) as int;
    rounding_is_near(p1.raw * ONE, cube.raw as nat);
    rounding_is_near(p2.raw * ONE, cube.raw as nat);
    let there = pull(g, softening, m1, m2, r);
    let other = pull(g, softening, m2, m1, r);
    a_pull_turns_with_its_direction(g, softening, m2, m1, r);
    rounding_is_near(r.x.raw * s1.raw, o);
    rounding_is_near(r.y.raw * s1.raw, o);
    rounding_is_near(r.z.raw * s1.raw, o);
    rounding_is_near(r.x.raw * s2.raw, o);
    rounding_is_near(r.y.raw * s2.raw, o);
    rounding_is_near(r.z.raw * s2.raw, o);
    let c = cube.raw as int;
    let p = (p1.raw as int, p2.raw as int);
    let s = (s1.raw as int, s2.raw as int);
    strengths_tell_little(
        c,
        r.x.raw as int,
        sizes,
        p,
        s,
        (there.x.raw as int, other.x.raw as int),
    );
    strengths_tell_little(
        c,
        r.y.raw as int,
        sizes,
        p,
        s,
        (there.y.raw as int, other.y.raw as int),
    );
    strengths_tell_little(
        c,
        r.z.raw as int,
        sizes,
        p,
        s,
        (there.z.raw as int, other.z.raw as int),
    );
}

/// Whether the pulls among the first `n` bodies are all computed without going
/// beyond the largest number.
pub open spec fn pulls_are_held(
    g: Fixed,
    softening: Fixed,
    masses: Seq<Fixed>,
    places: Seq<Vec3<Fixed>>,
    n: int,
) -> bool {
    forall|i: int, j: int|
        #![trigger places[j].spec_sub(places[i])]
        0 <= i < n && 0 <= j < n && i != j ==> pull_is_held(
            g,
            softening,
            masses[i],
            masses[j],
            places[j].spec_sub(places[i]),
        )
}

/// The most fractions that rounding can leave of component `c` of the pulls of
/// two bodies on each other.
pub open spec fn pull_excess(
    softening: Fixed,
    masses: Seq<Fixed>,
    places: Seq<Vec3<Fixed>>,
    i: int,
    j: int,
    c: int,
) -> int {
    let r = places[j].spec_sub(places[i]);
    let cube = cubed_distance(softening, r).raw as int;
    pull_slack(cube, component(r, c).raw as int, masses[i].raw as int, masses[j].raw as int) / (2
        * (cube * 4294967296))
}

/// The most fractions that rounding can leave of component `c` of all pulls
/// among the first `m` bodies.
pub open spec fn total_excess(
    softening: Fixed,
    masses: Seq<Fixed>,
    places: Seq<Vec3<Fixed>>,
    c: int,
    m: int,
) -> int
    decreases m,
{
    if m <= 0 {
        0
    } else {
        total_excess(softening, masses, places, c, m - 1) + row(
            |i: int, j: int| pull_excess(softening, masses, places, i, j, c),
            m - 1,
            m - 1,
        )
    }
}

proof fn a_bound_is_divided(x: int, y: int, slack: int)
    requires
        y > 0,
        -slack <= y * x <= slack,
    ensures
        -(slack / y) <= x <= slack / y,
{
    assert(x <= slack / y) by (nonlinear_arith)
        requires
            y > 0,
            y * x <= slack,
    ;
    assert(y * (-x) == -(y * x)) by (nonlinear_arith);
    assert(-x <= slack / y) by (nonlinear_arith)
        requires
            y > 0,
            y * (-x) <= slack,
    ;
}

proof fn two_pulls_are_within_the_excess(
    g: Fixed,
    softening: Fixed,
    masses: Seq<Fixed>,
    places: Seq<Vec3<Fixed>>,
    i: int,
    j: int,
    c: int,
    n: int,
)
    requires
        pulls_are_held(g, softening, masses, places, n),
        0 <= i < n,
        0 <= j < n,
        i != j,
    ensures
        ({
            let there = component(pull_on(g, softening, masses, places, i, j), c).raw;
            let back = component(pull_on(g, softening, masses, places, j, i), c).raw;
            let excess = pull_excess(softening, masses, places, i, j, c);
            -excess <= there + back <= excess
        }),
{
    let r = places[j].spec_sub(places[i]);
    let back = places[i].spec_sub(places[j]);
    assert(r.opposite() == back);
    let (m1, m2) = (masses[i], masses[j]);
    assert(pull_is_held(g, softening, m1, m2, r));
    assert(pull_is_held(g, softening, m2, m1, back));
    opposite_pulls_are_held(g, softening, m2, m1, r);
    pulls_cancel(g, softening, m1, m2, r);
    let cube = cubed_distance(softening, r).raw as int;
    let x = component(pull_on(g, softening, masses, places, i, j), c).raw + component(
        pull_on(g, softening, masses, places, j, i),
        c,
    ).raw;
    a_bound_is_divided(
        x,
        2 * (cube * 4294967296),
        pull_slack(cube, component(r, c).raw as int, m1.raw as int, m2.raw as int),
    );
}

/// A pull that is held one way is held the other.
proof fn opposite_pulls_are_held(
    g: Fixed,
    softening: Fixed,
    m1: Fixed,
    m2: Fixed,
    r: Vec3<Fixed>,
)
    requires
        r.is_proper(),
        pull_is_held(g, softening, m1, m2, r.opposite()),
    ensures
        pull_is_held(g, softening, m1, m2, r),
{
    opposite_vectors_have_one_length(r);
    let cube = cubed_distance(softening, r);
    let strength = g.spec_mul(m1).spec_mul(m2).spec_div(cube);
    opposite_products_are_held(r.x, strength);
    opposite_products_are_held(r.y, strength);
    opposite_products_are_held(r.z, strength);
}

proof fn opposite_products_are_held(a: Fixed, b: Fixed)
    requires
        a.is_proper(),
        multiplies(a.spec_neg(), b),
    ensures
        multiplies(a, b),
{
    assert((-a.raw) * b.raw == -(a.raw * b.raw)) by (nonlinear_arith);
    rounding_is_odd(a.raw * b.raw, ONE as nat);
}

proof fn a_row_and_a_column_are_within_the_excess(
    table: spec_fn(int, int) -> int,
    excess: spec_fn(int, int) -> int,
    i: int,
    m: int,
    n: int,
)
    requires
        0 <= m <= i < n,
        forall|a: int, b: int|
            0 <= a < n && 0 <= b < n && a != b ==> -excess(a, b) <= #[trigger] table(a, b) + table(
                b,
                a,
            ) <= excess(a, b),
    ensures
        -row(excess, i, m) <= row(table, i, m) + row(|j: int, k: int| table(k, j), i, m) <= row(
            excess,
            i,
            m,
        ),
    decreases m,
{
    if m > 0 {
        a_row_and_a_column_are_within_the_excess(table, excess, i, m - 1, n);
        assert(-excess(i, m - 1) <= table(i, m - 1) + table(m - 1, i) <= excess(i, m - 1));
    }
}

proof fn total_gravity_is_within_the_excess(
    g: Fixed,
    softening: Fixed,
    masses: Seq<Fixed>,
    places: Seq<Vec3<Fixed>>,
    c: int,
    m: int,
    n: int,
)
    requires
        0 <= m <= n,
        pulls_are_held(g, softening, masses, places, n),
    ensures
        ({
            let total = rows(
                |a: int, b: int|
                    component(pull_on(g, softening, masses, places, a, b), c).raw as int,
                m,
                m,
            );
            let excess = total_excess(softening, masses, places, c, m);
            -excess <= total <= excess
        }),
    decreases m,
{
    let table = |a: int, b: int|
        component(pull_on(g, softening, masses, places, a, b), c).raw as int;
    let excess = |i: int, j: int| pull_excess(softening, masses, places, i, j, c);
    if m > 0 {
        total_gravity_is_within_the_excess(g, softening, masses, places, c, m - 1, n);
        one_more_column(table, m - 1, m - 1);
        assert forall|a: int, b: int| 0 <= a < n && 0 <= b < n && a != b implies -excess(a, b)
            <= #[trigger] table(a, b) + table(b, a) <= excess(a, b) by {
            two_pulls_are_within_the_excess(g, softening, masses, places, a, b, c, n);
        }
        a_row_and_a_column_are_within_the_excess(table, excess, m - 1, m - 1, n);
        small_numbers();
        assert(table(m - 1, m - 1) == 0);
    }
}

/// The bodies' gravity adds up to nothing in every component, up to what
/// rounding leaves: total momentum is kept.
pub proof fn gravity_keeps_total_momentum_up_to_rounding(
    g: Fixed,
    softening: Fixed,
    masses: Seq<Fixed>,
    places: Seq<Vec3<Fixed>>,
    c: int,
    n: int,
)
    requires
        n >= 0,
        pulls_are_held(g, softening, masses, places, n),
        pulls_add_up(g, softening, masses, places, n),
    ensures
        -total_excess(softening, masses, places, c, n) <= total_gravity(
            g,
            softening,
            masses,
            places,
            c,
            n,
            n,
        ) <= total_excess(softening, masses, places, c, n),
{
    total_gravity_is_a_table(g, softening, masses, places, c, n, n);
    total_gravity_is_within_the_excess(g, softening, masses, places, c, n, n);
}

/// Component `c` of the forces on the first `m` bodies, added up as whole
/// numbers.
pub open spec fn total_force(p: RhsParamsView<Fixed>, y: Seq<Fixed>, c: int, m: int) -> int
    decreases m,
{
    if m <= 0 {
        0
    } else {
        total_force(p, y, c, m - 1) + component(rates(p, y, m - 1).momentum, c).raw
    }
}

/// Whether nothing acts on the bodies from outside.
pub open spec fn is_isolated(p: RhsParamsView<Fixed>) -> bool {
    &&& p.uniform_gravity.spec_is_zero()
    &&& p.e_field.spec_is_zero()
    &&& p.b_field.spec_is_zero()
    &&& forall|i: int| 0 <= i < p.n ==> (#[trigger] p.ext_force[i]).spec_is_zero()
}

/// The pull on a body is a proper number in every component.
pub proof fn gravity_is_proper(
    g: Fixed,
    softening: Fixed,
    masses: Seq<Fixed>,
    places: Seq<Vec3<Fixed>>,
    i: int,
    j: int,
)
    ensures
        gravity_on(g, softening, masses, places, i, j).is_proper(),
    decreases j,
{
    small_numbers();
    if j > 0 {
        gravity_is_proper(g, softening, masses, places, i, j - 1);
    }
}

proof fn without_fields_force_is_gravity(p: RhsParamsView<Fixed>, y: Seq<Fixed>, i: int)
    requires
        p.uniform_gravity.spec_is_zero(),
        p.e_field.spec_is_zero(),
        p.b_field.spec_is_zero(),
        p.ext_force[i].spec_is_zero(),
    ensures
        force_in(p, y, i) == gravity_on(
            p.g,
            p.softening,
            p.masses,
            full_places(y, p.n),
            i,
            p.n as int,
        ),
{
    small_numbers();
    let nothing = Vec3::<Fixed>::spec_zeros();
    assert(p.b_field == nothing && p.e_field == nothing && p.uniform_gravity == nothing);
    assert(p.ext_force[i] == nothing);
    products_with_the_zero_vector(velocity_in(p, y, i));
    zero_times_a_number(p.masses[i]);
    zero_times_a_number(p.charges[i]);
    let pull = gravity_on(p.g, p.softening, p.masses, full_places(y, p.n), i, p.n as int);
    gravity_is_proper(p.g, p.softening, p.masses, full_places(y, p.n), i, p.n as int);
    zero_added_to_a_number(pull.x);
    zero_added_to_a_number(pull.y);
    zero_added_to_a_number(pull.z);
}

proof fn without_fields_forces_are_gravity(p: RhsParamsView<Fixed>, y: Seq<Fixed>, c: int, m: int)
    requires
        is_isolated(p),
        m <= p.n,
    ensures
        total_force(p, y, c, m) == total_gravity(
            p.g,
            p.softening,
            p.masses,
            full_places(y, p.n),
            c,
            m,
            p.n as int,
        ),
    decreases m,
{
    if m > 0 {
        without_fields_forces_are_gravity(p, y, c, m - 1);
        assert(p.ext_force[m - 1].spec_is_zero());
        without_fields_force_is_gravity(p, y, m - 1);
    }
}

/// Where nothing acts from outside, the rates of the momenta add up to nothing,
/// up to what rounding leaves of the pulls, and exactly where all strengths are
/// rounded alike: total momentum is kept.
pub proof fn an_isolated_system_keeps_total_momentum(
    p: RhsParamsView<Fixed>,
    y: Seq<Fixed>,
    c: int,
)
    requires
        is_isolated(p),
        pulls_are_held(p.g, p.softening, p.masses, full_places(y, p.n), p.n as int),
        pulls_add_up(p.g, p.softening, p.masses, full_places(y, p.n), p.n as int),
    ensures
        ({
            let excess = total_excess(
                p.softening,
                p.masses,
                full_places(y, p.n),
                c,
                p.n as int,
            );
            -excess <= total_force(p, y, c, p.n as int) <= excess
        }),
        all_rounded_alike(p.g, p.masses, p.n as int) ==> total_force(p, y, c, p.n as int) == 0,
{
    let (n, places) = (p.n as int, full_places(y, p.n));
    without_fields_forces_are_gravity(p, y, c, n);
    gravity_keeps_total_momentum_up_to_rounding(p.g, p.softening, p.masses, places, c, n);
    if all_rounded_alike(p.g, p.masses, n) {
        gravity_keeps_total_momentum(p.g, p.softening, p.masses, places, c, n);
    }
}

} // verus!
