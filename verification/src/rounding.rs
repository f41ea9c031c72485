//! Rounding of integers the way binary64 arithmetic and decimal output do it.
//!
//! Byte counts are turned into binary64 numbers before they are divided. Up to
//! `2^53` that conversion is exact; above, it keeps 53 significant bits. The
//! functions here do the same on integers.
use vstd::prelude::*;

verus! {

/// `2^53`: from here on not every integer is a binary64 number.
pub const EXACT_LIMIT: u64 = 9_007_199_254_740_992;

/// `num / den` rounded to the nearest integer, halves to the even one.
pub open spec fn round_half_even(num: nat, den: nat) -> nat
    recommends
        den > 0,
{
    let q = num / den;
    let r = num % den;
    if 2 * r < den || (2 * r == den && q % 2 == 0) {
        q
    } else {
        q + 1
    }
}

/// Distance between neighbouring binary64 numbers in the binade of `n`, for an
/// integer `n` (1 where all integers are binary64 numbers).
pub open spec fn spacing(n: nat) -> nat
    decreases n,
{
    if n < EXACT_LIMIT {
        1
    } else {
        2 * spacing(n / 2)
    }
}

/// The binary64 number nearest to the integer `n`, halves to the even significand.
pub open spec fn nearest_binary64(n: nat) -> nat {
    round_half_even(n, spacing(n)) * spacing(n)
}

/// The significand of `n` has 53 bits once `n` does not fit into fewer.
proof fn lemma_spacing_bounds(n: nat)
    ensures
        spacing(n) >= 1,
        n < EXACT_LIMIT * spacing(n),
        n >= EXACT_LIMIT ==> n >= 4_503_599_627_370_496 * spacing(n) && spacing(n) >= 2,
    decreases n,
{
    if n >= EXACT_LIMIT {
        lemma_spacing_bounds(n / 2);
        if n / 2 < EXACT_LIMIT {
            assert(spacing(n / 2) == 1);
        }
    }
}

/// The spacing never shrinks, and where it grows it at least doubles.
proof fn lemma_spacing_grows(a: nat, b: nat)
    requires
        a <= b,
    ensures
        spacing(a) == spacing(b) || 2 * spacing(a) <= spacing(b),
    decreases b,
{
    if a >= EXACT_LIMIT {
        lemma_spacing_grows(a / 2, b / 2);
    } else if b >= EXACT_LIMIT {
        lemma_spacing_bounds(b / 2);
    }
}

/// Rounding is monotone.
proof fn lemma_round_half_even_monotone(a: nat, b: nat, den: nat)
    requires
        a <= b,
        den > 0,
    ensures
        round_half_even(a, den) <= round_half_even(b, den),
{
    vstd::arithmetic::div_mod::lemma_div_is_ordered(a as int, b as int, den as int);
    vstd::arithmetic::div_mod::lemma_fundamental_div_mod(a as int, den as int);
    vstd::arithmetic::div_mod::lemma_fundamental_div_mod(b as int, den as int);
    if a / den == b / den {
        assert(a % den <= b % den);
    }
}

/// Rounding moves by at most one.
proof fn lemma_round_half_even_bounds(num: nat, den: nat)
    requires
        den > 0,
    ensures
        num / den <= round_half_even(num, den) <= num / den + 1,
        num % den == 0 ==> round_half_even(num, den) == num / den,
{
}

/// Integers up to `2^53` are binary64 numbers.
pub proof fn law_small_integers_are_exact(n: nat)
    requires
        n <= EXACT_LIMIT,
    ensures
        nearest_binary64(n) == n,
{
    if n == EXACT_LIMIT {
        reveal_with_fuel(spacing, 2);
        assert(spacing(n) == 2);
    } else {
        assert(n / 1 == n && n % 1 == 0);
        assert(round_half_even(n, 1) == n);
        assert(n * 1 == n);
    }
}

/// The conversion to binary64 keeps the order.
pub proof fn law_nearest_binary64_monotone(a: nat, b: nat)
    requires
        a <= b,
    ensures
        nearest_binary64(a) <= nearest_binary64(b),
{
    let sa = spacing(a);
    let sb = spacing(b);
    lemma_spacing_bounds(a);
    lemma_spacing_bounds(b);
    lemma_spacing_grows(a, b);
    if sa == sb {
        lemma_round_half_even_monotone(a, b, sa);
        vstd::arithmetic::mul::lemma_mul_inequality(
            round_half_even(a, sa) as int,
            round_half_even(b, sa) as int,
            sa as int,
        );
    } else {
        let half: nat = 4_503_599_627_370_496;
        // `a` stays below the top of its binade, which is no more than the bottom of `b`'s.
        lemma_round_half_even_bounds(a, sa);
        vstd::arithmetic::div_mod::lemma_multiply_divide_lt(
            a as int,
            sa as int,
            EXACT_LIMIT as int,
        );
        assert(round_half_even(a, sa) <= EXACT_LIMIT);
        vstd::arithmetic::mul::lemma_mul_inequality(
            round_half_even(a, sa) as int,
            EXACT_LIMIT as int,
            sa as int,
        );
        if b < EXACT_LIMIT {
            assert(sb == 1);
        }
        lemma_round_half_even_bounds(b, sb);
        assert(b as int >= half * sb);
        assert(b / sb >= half) by (nonlinear_arith)
            requires
                b >= half * sb,
                sb > 0,
        ;
        vstd::arithmetic::mul::lemma_mul_inequality(
            half as int,
            round_half_even(b, sb) as int,
            sb as int,
        );
        assert(EXACT_LIMIT * sa <= half * sb) by (nonlinear_arith)
            requires
                2 * sa <= sb,
                half == 4_503_599_627_370_496,
                EXACT_LIMIT == 9_007_199_254_740_992,
        ;
    }
}

/// `num / den` rounded to the nearest integer, halves to the even one.
pub fn divide_half_even(num: u128, den: u128) -> (q: u128)
    requires
        den > 0,
        num < u128::MAX,
    ensures
        q == round_half_even(num as nat, den as nat),
{
    let q: u128 = num / den;
    let r: u128 = num % den;
    proof {
        vstd::arithmetic::div_mod::lemma_div_is_ordered_by_denominator(num as int, 1, den as int);
        assert(num as int / 1 == num);
    }
    if r < den - r || (r == den - r && q % 2 == 0) {
        q
    } else {
        q + 1
    }
}

/// The binary64 number nearest to `n`.
pub fn to_binary64(n: u64) -> (v: u128)
    ensures
        v == nearest_binary64(n as nat),
        v <= 2 * n,
{
    let mut unit: u128 = 1;
    let mut m: u64 = n;
    proof {
        vstd::arithmetic::div_mod::lemma_div_basics(n as int);
    }
    while m >= EXACT_LIMIT
        invariant
            unit >= 1,
            unit * m <= n,
            spacing(n as nat) == unit * spacing(m as nat),
        decreases m,
    {
        let ghost before: u64 = m;
        assert(unit * 2 <= u64::MAX) by (nonlinear_arith)
            requires
                unit * m <= n,
                m >= 2,
                n <= u64::MAX,
        ;
        assert(spacing(m as nat) == 2 * spacing((m / 2) as nat));
        assert(unit * (2 * spacing((m / 2) as nat)) == (unit * 2) * spacing((m / 2) as nat))
            by (nonlinear_arith);
        assert((unit * 2) * (m / 2) <= n) by (nonlinear_arith)
            requires
                unit * m <= n,
                2 * (m / 2) <= m,
                unit >= 1,
        ;
        unit = unit * 2;
        m = m / 2;
    }
    assert(spacing(m as nat) == 1);
    proof {
        vstd::arithmetic::mul::lemma_mul_basics(unit as int);
        lemma_spacing_bounds(n as nat);
        lemma_round_half_even_bounds(n as nat, unit as nat);
        vstd::arithmetic::div_mod::lemma_fundamental_div_mod(n as int, unit as int);
        if n < EXACT_LIMIT {
            assert(n as int / 1 == n && n as int % 1 == 0);
        }
    }
    let q: u128 = divide_half_even(n as u128, unit);
    assert(q * unit <= 2 * n) by (nonlinear_arith)
        requires
            n < EXACT_LIMIT ==> q == n && unit == 1,
            n >= EXACT_LIMIT ==> unit <= n,
            q <= (n as int) / (unit as int) + 1,
            n == unit * ((n as int) / (unit as int)) + (n as int) % (unit as int),
            (n as int) % (unit as int) >= 0,
            unit >= 1,
            EXACT_LIMIT == 9_007_199_254_740_992,
    ;
    q * unit
}

/// Rounding gives an integer that is nearest, and of two that are equally near the
/// even one.
pub proof fn law_round_half_even(num: nat, den: nat)
    requires
        den > 0,
    ensures
        2 * (round_half_even(num, den) * den - num) <= den,
        2 * (num - round_half_even(num, den) * den) <= den,
        2 * (round_half_even(num, den) * den - num) == den || 2 * (num - round_half_even(num, den) * den) == den
            ==> round_half_even(num, den) % 2 == 0,
{
    let q = num / den;
    let r = num % den;
    vstd::arithmetic::div_mod::lemma_fundamental_div_mod(num as int, den as int);
    assert(q * den == den * q) by (nonlinear_arith);
    assert((q + 1) * den == den * q + den) by (nonlinear_arith);
}

/// What a binary64 number keeps of an integer: up to `2^53` all of it; above, 53
/// bits, that is a multiple of a power of two, nearest to the integer.
pub proof fn law_nearest_binary64(n: nat)
    ensures
        n <= 9_007_199_254_740_992 ==> nearest_binary64(n) == n,
        n < 9_007_199_254_740_992 ==> spacing(n) == 1,
        n >= 9_007_199_254_740_992 ==> spacing(n) == 2 * spacing(n / 2),
        n >= 9_007_199_254_740_992 ==> 4_503_599_627_370_496 * spacing(n) <= n < 9_007_199_254_740_992 * spacing(n),
        nearest_binary64(n) % spacing(n) == 0,
        2 * (nearest_binary64(n) - n) <= spacing(n),
        2 * (n - nearest_binary64(n)) <= spacing(n),
        2 * (nearest_binary64(n) - n) == spacing(n) || 2 * (n - nearest_binary64(n)) == spacing(n)
            ==> (nearest_binary64(n) / spacing(n)) % 2 == 0,
{
    if n <= EXACT_LIMIT {
        law_small_integers_are_exact(n);
    }
    lemma_spacing_bounds(n);
    law_round_half_even(n, spacing(n));
    vstd::arithmetic::div_mod::lemma_mod_multiples_basic(round_half_even(n, spacing(n)) as int, spacing(n) as int);
    vstd::arithmetic::div_mod::lemma_div_by_multiple(round_half_even(n, spacing(n)) as int, spacing(n) as int);
}

} // verus!
