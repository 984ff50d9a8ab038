//! Round-to-nearest arithmetic on non-negative rationals, in the precision of an IEEE 754
//! double (53 significant bits, ties to even), carried out on integers alone.
use vstd::arithmetic::power2;
use vstd::prelude::*;

verus! {

/// 2^52, the smallest significand of a normalised double.
pub const HALF_PRECISION: u128 = 0x10_0000_0000_0000;

/// 2^53, one above the largest significand of a double.
pub const PRECISION: u128 = 0x20_0000_0000_0000;

/// The integer nearest to `n / d`, a tie going to the even one.
pub open spec fn round_half_even(n: nat, d: nat) -> nat {
    let q = n / d;
    let r = n % d;
    if 2 * r < d || (2 * r == d && q % 2 == 0) {
        q
    } else {
        q + 1
    }
}

/// The spacing of the doubles around `n / d`, where that is 1 or more:
/// the least power of two `u` with `n / d < 2^53 * u`.
pub open spec fn spacing(n: nat, d: nat) -> nat
    decreases n - d,
{
    if d == 0 || n < PRECISION * d {
        1
    } else {
        2 * spacing(n, 2 * d)
    }
}

/// How many doubles there are per unit around `n / d`, where that is 1 or more:
/// the least power of two `t` with `2^52 <= t * n / d`.
pub open spec fn density(n: nat, d: nat) -> nat
    decreases PRECISION * d - n,
{
    if n == 0 || n >= HALF_PRECISION * d {
        1
    } else {
        2 * density(2 * n, d)
    }
}

/// The integer part of the double nearest to `n / d`.
pub open spec fn double_trunc(n: nat, d: nat) -> nat {
    if n >= PRECISION * d {
        let u = spacing(n, d);
        round_half_even(n, d * u) * u
    } else {
        let t = density(n, d);
        round_half_even(n * t, d) / t
    }
}

proof fn lemma_zero(d: nat)
    requires
        d > 0,
    ensures
        double_trunc(0, d) == 0,
{
    let t = density(0, d);
    assert(0 * t == 0) by (nonlinear_arith);
    assert(0nat / d == 0 && 0nat % d == 0) by (nonlinear_arith)
        requires
            d > 0,
    ;
}

/// A rounded quotient stays on the side of an integer that the quotient is on.
proof fn lemma_round_side(n: nat, d: nat, k: nat)
    requires
        d > 0,
    ensures
        n <= k * d ==> round_half_even(n, d) <= k,
        k * d <= n ==> k <= round_half_even(n, d),
{
    let q = n / d;
    let r = n % d;
    assert(n == q * d + r && r < d) by (nonlinear_arith)
        requires
            d > 0,
            q == n / d,
            r == n % d,
    ;
    if n <= k * d {
        assert(q <= k && (q == k ==> r == 0)) by (nonlinear_arith)
            requires
                n == q * d + r,
                n <= k * d,
                d > 0,
        ;
    }
    if k * d <= n {
        assert(k <= q) by (nonlinear_arith)
            requires
                n == q * d + r,
                r < d,
                k * d <= n,
                d > 0,
        ;
    }
}

/// Rounding moves a quotient by at most one half.
proof fn lemma_round_error(n: nat, d: nat)
    requires
        d > 0,
    ensures
        2 * (round_half_even(n, d) * d) <= 2 * n + d,
        2 * n <= 2 * (round_half_even(n, d) * d) + d,
{
    let q = n / d;
    let r = n % d;
    assert(n == q * d + r && r < d) by (nonlinear_arith)
        requires
            d > 0,
            q == n / d,
            r == n % d,
    ;
    assert((q + 1) * d == q * d + d) by (nonlinear_arith);
}

/// Rounding keeps the order of two quotients over one divisor.
proof fn lemma_round_monotone(n1: nat, n2: nat, d: nat)
    requires
        d > 0,
        n1 <= n2,
    ensures
        round_half_even(n1, d) <= round_half_even(n2, d),
{
    let q1 = n1 / d;
    let r1 = n1 % d;
    let q2 = n2 / d;
    let r2 = n2 % d;
    assert(n1 == q1 * d + r1 && r1 < d) by (nonlinear_arith)
        requires
            d > 0,
            q1 == n1 / d,
            r1 == n1 % d,
    ;
    assert(n2 == q2 * d + r2 && r2 < d) by (nonlinear_arith)
        requires
            d > 0,
            q2 == n2 / d,
            r2 == n2 % d,
    ;
    assert(q1 < q2 || (q1 == q2 && r1 <= r2)) by (nonlinear_arith)
        requires
            n1 == q1 * d + r1,
            n2 == q2 * d + r2,
            n1 <= n2,
            r2 < d,
            d > 0,
    ;
}

/// What `spacing` is: it scales the quotient below 2^53, and no further than below 2^52.
proof fn lemma_spacing(n: nat, d: nat)
    requires
        d > 0,
    ensures
        spacing(n, d) >= 1,
        n < PRECISION * (d * spacing(n, d)),
        n >= PRECISION * d ==> spacing(n, d) >= 2 && HALF_PRECISION * (d * spacing(n, d)) <= n,
    decreases n - d,
{
    if n < PRECISION * d {
        assert(d * 1 == d) by (nonlinear_arith);
    } else {
        lemma_spacing(n, 2 * d);
        let s = spacing(n, 2 * d);
        assert((2 * d) * s == d * (2 * s)) by (nonlinear_arith);
        if n < PRECISION * (2 * d) {
            assert(d * 2 == 2 * d);
        }
    }
}

/// Of two quotients over one divisor the larger has the larger spacing, or the same.
proof fn lemma_spacing_monotone(n1: nat, n2: nat, d: nat)
    requires
        d > 0,
        n1 <= n2,
    ensures
        spacing(n1, d) == spacing(n2, d) || 2 * spacing(n1, d) <= spacing(n2, d),
    decreases n2 - d,
{
    if n2 < PRECISION * d {
    } else if n1 < PRECISION * d {
        lemma_spacing(n2, d);
    } else {
        lemma_spacing_monotone(n1, n2, 2 * d);
    }
}

/// What `density` is: it scales the quotient to 2^52 or more, and stays below 2^53.
proof fn lemma_density(n: nat, d: nat)
    requires
        d > 0,
        0 < n < PRECISION * d,
    ensures
        density(n, d) >= 1,
        HALF_PRECISION * d <= n * density(n, d) < PRECISION * d,
    decreases PRECISION * d - n,
{
    if n >= HALF_PRECISION * d {
        assert(n * 1 == n) by (nonlinear_arith);
    } else {
        lemma_density(2 * n, d);
        let s = density(2 * n, d);
        assert((2 * n) * s == n * (2 * s)) by (nonlinear_arith);
    }
}

/// Of two quotients over one divisor the larger has the smaller density, or the same.
proof fn lemma_density_monotone(n1: nat, n2: nat, d: nat)
    requires
        d > 0,
        0 < n1 <= n2,
    ensures
        density(n1, d) == density(n2, d) || 2 * density(n2, d) <= density(n1, d),
        density(n2, d) >= 1,
    decreases PRECISION * d - n1,
{
    if n1 < HALF_PRECISION * d {
        lemma_density_monotone(2 * n1, 2 * n2, d);
    }
}

/// A larger quotient over the same divisor has the larger truncated double, or the same.
pub proof fn lemma_double_trunc_monotone(n1: nat, n2: nat, d: nat)
    requires
        d > 0,
        n1 <= n2,
    ensures
        double_trunc(n1, d) <= double_trunc(n2, d),
{
    if n1 == 0 {
        lemma_zero(d);
    } else if n1 >= PRECISION * d {
        let u1 = spacing(n1, d);
        let u2 = spacing(n2, d);
        lemma_spacing(n1, d);
        lemma_spacing(n2, d);
        lemma_spacing_monotone(n1, n2, d);
        assert(d * u1 > 0 && d * u2 > 0) by (nonlinear_arith)
            requires
                d > 0,
                u1 >= 1,
                u2 >= 1,
        ;
        let m1 = round_half_even(n1, d * u1);
        let m2 = round_half_even(n2, d * u2);
        if u1 == u2 {
            lemma_round_monotone(n1, n2, d * u1);
            assert(m1 * u1 <= m2 * u1) by (nonlinear_arith)
                requires
                    m1 <= m2,
            ;
        } else {
            lemma_round_side(n1, d * u1, PRECISION as nat);
            lemma_round_side(n2, d * u2, HALF_PRECISION as nat);
            assert(m1 * u1 <= m2 * u2) by (nonlinear_arith)
                requires
                    m1 <= PRECISION,
                    m2 >= HALF_PRECISION,
                    2 * u1 <= u2,
                    2 * HALF_PRECISION == PRECISION,
            ;
        }
    } else {
        let t1 = density(n1, d);
        lemma_density(n1, d);
        let m1 = round_half_even(n1 * t1, d);
        lemma_round_side(n1 * t1, d, PRECISION as nat);
        if n2 >= PRECISION * d {
            let u2 = spacing(n2, d);
            lemma_spacing(n2, d);
            assert(d * u2 > 0) by (nonlinear_arith)
                requires
                    d > 0,
                    u2 >= 1,
            ;
            let m2 = round_half_even(n2, d * u2);
            lemma_round_side(n2, d * u2, HALF_PRECISION as nat);
            assert(m1 / t1 <= m1) by (nonlinear_arith)
                requires
                    t1 >= 1,
            ;
            assert(m1 <= m2 * u2) by (nonlinear_arith)
                requires
                    m1 <= PRECISION,
                    m2 >= HALF_PRECISION,
                    u2 >= 2,
                    2 * HALF_PRECISION == PRECISION,
            ;
        } else {
            let t2 = density(n2, d);
            lemma_density(n2, d);
            lemma_density_monotone(n1, n2, d);
            let m2 = round_half_even(n2 * t2, d);
            if t1 == t2 {
                assert(n1 * t1 <= n2 * t1) by (nonlinear_arith)
                    requires
                        n1 <= n2,
                ;
                lemma_round_monotone(n1 * t1, n2 * t2, d);
                vstd::arithmetic::div_mod::lemma_div_is_ordered(m1 as int, m2 as int, t1 as int);
            } else {
                lemma_round_side(n2 * t2, d, HALF_PRECISION as nat);
                let f = m1 / t1;
                assert(f * t1 <= m1) by (nonlinear_arith)
                    requires
                        t1 >= 1,
                        f == m1 / t1,
                ;
                assert(f * t2 <= m2) by (nonlinear_arith)
                    requires
                        f * t1 <= m1,
                        2 * t2 <= t1,
                        m1 <= PRECISION,
                        m2 >= HALF_PRECISION,
                        2 * HALF_PRECISION == PRECISION,
                ;
                assert(f <= m2 / t2) by (nonlinear_arith)
                    requires
                        f * t2 <= m2,
                        t2 >= 1,
                ;
            }
        }
    }
}

/// The truncated double exceeds the quotient by at most one part in 2^53.
pub proof fn lemma_double_trunc_upper(n: nat, d: nat)
    requires
        d > 0,
    ensures
        PRECISION * (double_trunc(n, d) * d) <= (PRECISION + 1) * n,
{
    if n == 0 {
        lemma_zero(d);
        assert(0 * d == 0) by (nonlinear_arith);
    } else if n >= PRECISION * d {
        let u = spacing(n, d);
        lemma_spacing(n, d);
        assert(d * u > 0) by (nonlinear_arith)
            requires
                d > 0,
                u >= 1,
        ;
        let m = round_half_even(n, d * u);
        lemma_round_error(n, d * u);
        assert((m * u) * d == m * (d * u)) by (nonlinear_arith);
    } else {
        let t = density(n, d);
        lemma_density(n, d);
        let m = round_half_even(n * t, d);
        lemma_round_error(n * t, d);
        let f = m / t;
        assert(f * t <= m) by (nonlinear_arith)
            requires
                t >= 1,
                f == m / t,
        ;
        assert((f * t) * d <= m * d) by (nonlinear_arith)
            requires
                f * t <= m,
        ;
        assert((f * d) * t == (f * t) * d) by (nonlinear_arith);
        let p = PRECISION as nat;
        assert(p * ((f * d) * t) <= (p + 1) * (n * t)) by (nonlinear_arith)
            requires
                (f * d) * t <= m * d,
                2 * (m * d) <= 2 * (n * t) + d,
                2 * HALF_PRECISION == p,
                HALF_PRECISION * d <= n * t,
        ;
        assert(p * (f * d) <= (p + 1) * n) by (nonlinear_arith)
            requires
                p * ((f * d) * t) <= (p + 1) * (n * t),
                t >= 1,
        ;
    }
}

/// An integer of 2^53 at most is a double.
pub proof fn lemma_double_trunc_integer(n: nat)
    requires
        n <= PRECISION,
    ensures
        double_trunc(n, 1) == n,
{
    if n == 0 {
        lemma_zero(1);
    } else if n == PRECISION {
        assert(spacing(n, 2) == 1);
        assert(spacing(n, 1) == 2);
        assert(round_half_even(n, 1 * 2) == HALF_PRECISION);
    } else {
        let t = density(n, 1);
        lemma_density(n, 1);
        assert(n * t / 1 == n * t && n * t % 1 == 0);
        assert(n * t / t == n) by (nonlinear_arith)
            requires
                t >= 1,
        ;
    }
}

/// Below 2^49 the double nearest to a quotient with a divisor of at most 30 has the
/// quotient's own integer part.
pub proof fn lemma_double_trunc_quotient(n: nat, d: nat)
    requires
        0 < d <= 30,
        16 * n < PRECISION * d,
    ensures
        double_trunc(n, d) == n / d,
{
    if n == 0 {
        lemma_zero(d);
        assert(0nat / d == 0) by (nonlinear_arith)
            requires
                d > 0,
        ;
    } else {
        let t = density(n, d);
        lemma_density(n, d);
        assert(t >= 16) by {
            reveal_with_fuel(density, 5);
            assert(density(2 * (2 * (2 * (2 * n))), d) >= 1) by {
                lemma_density(16 * n, d);
            }
        }
        let m = round_half_even(n * t, d);
        lemma_round_error(n * t, d);
        let q = n / d;
        let r = n % d;
        assert(n == q * d + r && r < d) by (nonlinear_arith)
            requires
                d > 0,
                q == n / d,
                r == n % d,
        ;
        assert(q * t * d <= n * t) by (nonlinear_arith)
            requires
                n == q * d + r,
        ;
        lemma_round_side(n * t, d, q * t);
        assert((q + 1) * d == q * d + d) by (nonlinear_arith);
        assert(m < (q + 1) * t) by (nonlinear_arith)
            requires
                2 * (m * d) <= 2 * (n * t) + d,
                n + 1 <= (q + 1) * d,
                t >= 16,
                0 < d <= 30,
        {
            assert((n + 1) * t <= ((q + 1) * d) * t);
            assert((n + 1) * t == n * t + t);
            assert(2 * (m * d) < 2 * (((q + 1) * t) * d)) by {
                assert(((q + 1) * d) * t == ((q + 1) * t) * d);
            }
            assert(m * d < ((q + 1) * t) * d);
        }
        assert(m / t == q) by (nonlinear_arith)
            requires
                q * t <= m,
                m < (q + 1) * t,
                t >= 1,
        ;
    }
}

/// Of two integers equally near, the even one is taken.
proof fn lemma_round_tie(n: nat, d: nat)
    requires
        d > 0,
    ensures
        ({
            let m = round_half_even(n, d) as int;
            (2 * (m * d) == 2 * n + d || 2 * (m * d) + d == 2 * n) ==> m % 2 == 0
        }),
{
    let q = n / d;
    let r = n % d;
    assert(n == q * d + r && r < d) by (nonlinear_arith)
        requires
            d > 0,
            q == n / d,
            r == n % d,
    ;
    assert((q + 1) * d == q * d + d) by (nonlinear_arith);
}

/// The spacing is a power of two.
proof fn lemma_spacing_power(n: nat, d: nat) -> (k: nat)
    requires
        d > 0,
    ensures
        spacing(n, d) == power2::pow2(k),
    decreases n - d,
{
    power2::lemma2_to64();
    if n < PRECISION * d {
        0
    } else {
        let k = lemma_spacing_power(n, 2 * d);
        power2::lemma_pow2_unfold(k + 1);
        k + 1
    }
}

/// The density is a power of two.
proof fn lemma_density_power(n: nat, d: nat) -> (k: nat)
    requires
        d > 0,
        0 < n < PRECISION * d,
    ensures
        density(n, d) == power2::pow2(k),
    decreases PRECISION * d - n,
{
    power2::lemma2_to64();
    if n >= HALF_PRECISION * d {
        0
    } else {
        let k = lemma_density_power(2 * n, d);
        power2::lemma_pow2_unfold(k + 1);
        k + 1
    }
}

/// The double nearest to a quotient of 2^53 or more: a multiple `m` of the power of two that brings
/// the quotient between 2^52 and 2^53, off by half of that power at most, and even on a tie.
pub proof fn law_nearest_large(n: nat, d: nat) -> (r: (nat, nat))
    requires
        d > 0,
        n >= 0x20_0000_0000_0000 * d,
    ensures
        ({
            let (m, k) = r;
            let u = power2::pow2(k);
            &&& 0x10_0000_0000_0000 * (d * u) <= n < 0x20_0000_0000_0000 * (d * u)
            &&& 2 * n - d * u <= 2 * (m * (d * u)) <= 2 * n + d * u
            &&& (2 * (m * (d * u)) == 2 * n + d * u || 2 * (m * (d * u)) + d * u == 2 * n) ==> m % 2
                == 0
            &&& double_trunc(n, d) == m * u
        }),
{
    let k = lemma_spacing_power(n, d);
    let u = power2::pow2(k);
    lemma_spacing(n, d);
    assert(d * u > 0) by (nonlinear_arith)
        requires
            d > 0,
            u >= 1,
    ;
    lemma_round_error(n, d * u);
    lemma_round_tie(n, d * u);
    (round_half_even(n, d * u), k)
}

/// The integer part of the double nearest to a quotient below 2^53: that of a fraction `m` over the
/// power of two that brings the quotient between 2^52 and 2^53, where `m` is off by one half at
/// most, and even on a tie.
pub proof fn law_nearest_small(n: nat, d: nat) -> (r: (nat, nat))
    requires
        d > 0,
        0 < n < 0x20_0000_0000_0000 * d,
    ensures
        ({
            let (m, k) = r;
            let t = power2::pow2(k);
            &&& 0x10_0000_0000_0000 * d <= n * t < 0x20_0000_0000_0000 * d
            &&& 2 * (n * t) - d <= 2 * (m * d) <= 2 * (n * t) + d
            &&& (2 * (m * d) == 2 * (n * t) + d || 2 * (m * d) + d == 2 * (n * t)) ==> m % 2 == 0
            &&& double_trunc(n, d) == m / t
        }),
{
    let k = lemma_density_power(n, d);
    let t = power2::pow2(k);
    lemma_density(n, d);
    lemma_round_error(n * t, d);
    lemma_round_tie(n * t, d);
    (round_half_even(n * t, d), k)
}

/// The largest numerator that `nearest_double_trunc` takes.
pub const MAX_NUMERATOR: u128 = 0x1_0000_0000_0000_0000_0000_0000_0000;

/// The largest denominator that `nearest_double_trunc` takes.
pub const MAX_DENOMINATOR: u128 = 0x100;

/// Rounds `n / d` to the nearest integer, ties to even.
fn nearest(n: u128, d: u128) -> (r: u128)
    requires
        0 < d <= MAX_NUMERATOR * 4,
        n <= MAX_NUMERATOR * 4,
    ensures
        r == round_half_even(n as nat, d as nat),
{
    let q: u128 = n / d;
    let rest: u128 = n % d;
    if 2 * rest < d || (2 * rest == d && q % 2 == 0) {
        q
    } else {
        proof {
            assert(q <= n) by (nonlinear_arith)
                requires
                    q == n / d,
                    0 < d,
            ;
        }
        q + 1
    }
}

/// The integer part of the double nearest to `n / d`.
pub fn nearest_double_trunc(n: u128, d: u128) -> (r: u128)
    requires
        0 < d <= MAX_DENOMINATOR,
        n <= MAX_NUMERATOR,
    ensures
        r == double_trunc(n as nat, d as nat),
{
    if n >= PRECISION * d {
        let mut u: u128 = 1;
        let mut step: u128 = d;
        while n >= PRECISION * step
            invariant
                0 < d <= MAX_DENOMINATOR,
                n <= MAX_NUMERATOR,
                u >= 1,
                step == d * u,
                u <= step,
                PRECISION * step <= 2 * n,
                spacing(n as nat, d as nat) == u * spacing(n as nat, step as nat),
            decreases n - step,
        {
            proof {
                assert(d * (2 * u) == 2 * (d * u)) by (nonlinear_arith);
                let s = spacing(n as nat, (2 * step) as nat);
                assert(u * (2 * s) == (2 * u) * s) by (nonlinear_arith);
                assert(2 * u <= d * (2 * u)) by (nonlinear_arith)
                    requires
                        d >= 1,
                        u >= 1,
                ;
            }
            u = 2 * u;
            step = 2 * step;
        }
        proof {
            assert(u * 1 == u) by (nonlinear_arith);
        }
        let m: u128 = nearest(n, step);
        proof {
            lemma_round_side(n as nat, step as nat, PRECISION as nat);
            assert(m * u <= PRECISION * step) by (nonlinear_arith)
                requires
                    m <= PRECISION,
                    u <= step,
            ;
        }
        m * u
    } else if n == 0 {
        proof {
            lemma_zero(d as nat);
        }
        0
    } else {
        let mut t: u128 = 1;
        let mut top: u128 = n;
        while top < HALF_PRECISION * d
            invariant
                0 < d <= MAX_DENOMINATOR,
                n >= 1,
                t >= 1,
                t <= top,
                top == n * t,
                top < PRECISION * d,
                density(n as nat, d as nat) == t * density(top as nat, d as nat),
            decreases PRECISION * d - top,
        {
            proof {
                assert(n * (2 * t) == 2 * (n * t)) by (nonlinear_arith);
                let s = density((2 * top) as nat, d as nat);
                assert(t * (2 * s) == (2 * t) * s) by (nonlinear_arith);
            }
            t = 2 * t;
            top = 2 * top;
        }
        proof {
            assert(t * 1 == t) by (nonlinear_arith);
        }
        nearest(top, d) / t
    }
}

} // verus!
