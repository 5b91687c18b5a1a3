//! Fixed-point constants derived from the golden ratio, the Fibonacci
//! dimension progression, and the resonance rule for stage transitions.

use vstd::prelude::*;

verus! {

/// The fixed-point scale: a scalar `x` stands for the real number `x / SCALE`,
/// so one unit is 10^-9.
pub const SCALE: u64 = 1_000_000_000;

/// The golden ratio phi = (1 + sqrt 5) / 2, rounded to the nearest fixed-point
/// unit (1.618033988749894... scaled by `SCALE`).
pub const PHI_FP: u64 = 1_618_033_989;

/// The golden ratio conjugate psi = phi - 1 = 1 / phi, rounded to the nearest
/// fixed-point unit.  Chosen so that `PHI_FP == SCALE + PSI_FP` holds exactly.
pub const PSI_FP: u64 = 618_033_989;

/// Units of progress that make one group: phi.
pub const UNITS_PER_GROUP: u64 = PHI_FP;

/// Units of progress that make one cluster: phi^2.  Defined through the
/// identity phi^2 = phi + 1 so that the fixed-point constants keep the
/// identity exactly.
pub const UNITS_PER_CLUSTER: u64 = PHI_FP + SCALE;

/// Units of progress that make one stage step: phi^3, through the identity
/// phi^3 = phi^2 + phi.
pub const UNITS_PER_STAGE_STEP: u64 = UNITS_PER_CLUSTER + PHI_FP;

/// The saturation dimension: the largest dimension the simulation treats as
/// representable.  Consumed only as a constant.
pub const SATURATION_DIM: u64 = 196_884;

/// The default initial progress value, (SATURATION_DIM - 1) / SATURATION_DIM
/// in fixed point.
pub const Z0: u64 = (SATURATION_DIM - 1) * SCALE / SATURATION_DIM;

/// The Fibonacci numbers: fib(0) = 0, fib(1) = 1, fib(n) = fib(n-1) + fib(n-2).
pub open spec fn fib(n: nat) -> nat
    decreases n,
{
    if n == 0 {
        0
    } else if n == 1 {
        1
    } else {
        fib((n - 1) as nat) + fib((n - 2) as nat)
    }
}

/// The Fibonacci numbers are non-decreasing.
pub proof fn lemma_fib_monotonic(i: nat, j: nat)
    requires
        i <= j,
    ensures
        fib(i) <= fib(j),
    decreases j,
{
    if i < j {
        if j >= 2 {
            lemma_fib_monotonic(i, (j - 1) as nat);
        }
    }
}

/// The concrete value of fib at the last catalogued stage dimension.
pub proof fn lemma_fib_27()
    ensures
        fib(27) == 196418,
{
    assert(fib(0) == 0);
    assert(fib(1) == 1);
    assert(fib(2) == 1);
    assert(fib(3) == 2);
    assert(fib(4) == 3);
    assert(fib(5) == 5);
    assert(fib(6) == 8);
    assert(fib(7) == 13);
    assert(fib(8) == 21);
    assert(fib(9) == 34);
    assert(fib(10) == 55);
    assert(fib(11) == 89);
    assert(fib(12) == 144);
    assert(fib(13) == 233);
    assert(fib(14) == 377);
    assert(fib(15) == 610);
    assert(fib(16) == 987);
    assert(fib(17) == 1597);
    assert(fib(18) == 2584);
    assert(fib(19) == 4181);
    assert(fib(20) == 6765);
    assert(fib(21) == 10946);
    assert(fib(22) == 17711);
    assert(fib(23) == 28657);
    assert(fib(24) == 46368);
    assert(fib(25) == 75025);
    assert(fib(26) == 121393);
    assert(fib(27) == 196418);
}

/// Computes fib(n) for n up to the last catalogued index.
pub fn fibonacci_number(n: usize) -> (r: u64)
    requires
        n <= 27,
    ensures
        r == fib(n as nat),
{
    if n == 0 {
        return 0;
    }
    let mut a: u64 = 0;
    let mut b: u64 = 1;
    let mut i: usize = 1;
    while i < n
        invariant
            1 <= i <= n <= 27,
            a == fib((i - 1) as nat),
            b == fib(i as nat),
        decreases n - i,
    {
        proof {
            lemma_fib_monotonic((i + 1) as nat, 27);
            lemma_fib_27();
        }
        let c = a + b;
        a = b;
        b = c;
        i = i + 1;
    }
    b
}

/// The fixed-point power psi^n: each factor multiplies by `PSI_FP` and
/// divides by `SCALE`, truncating.
pub open spec fn psi_pow_fp(n: nat) -> int
    decreases n,
{
    if n == 0 {
        SCALE as int
    } else {
        psi_pow_fp((n - 1) as nat) * PSI_FP / (SCALE as int)
    }
}

/// psi^n in fixed point always lies in [0, SCALE].
pub proof fn lemma_psi_pow_fp_bounds(n: nat)
    ensures
        0 <= psi_pow_fp(n) <= SCALE,
    decreases n,
{
    if n > 0 {
        lemma_psi_pow_fp_bounds((n - 1) as nat);
        let p = psi_pow_fp((n - 1) as nat);
        assert(p * PSI_FP <= SCALE * PSI_FP) by (nonlinear_arith)
            requires 0 <= p <= SCALE,
        {}
        assert(p * PSI_FP >= 0) by (nonlinear_arith)
            requires p >= 0,
        {}
        assert(p * PSI_FP / (SCALE as int) <= SCALE * PSI_FP / (SCALE as int)) by {
            vstd::arithmetic::div_mod::lemma_div_is_ordered(
                p * PSI_FP, SCALE * PSI_FP, SCALE as int);
        }
        assert(SCALE * PSI_FP / (SCALE as int) == PSI_FP) by (nonlinear_arith) {}
        assert(p * PSI_FP / (SCALE as int) >= 0) by {
            vstd::arithmetic::div_mod::lemma_div_pos_is_pos(p * PSI_FP, SCALE as int);
        }
    }
}

/// Computes psi^n in fixed point.
pub fn psi_power(n: usize) -> (r: u64)
    ensures
        r == psi_pow_fp(n as nat),
{
    let mut w: u64 = SCALE;
    let mut i: usize = 0;
    while i < n
        invariant
            0 <= i <= n,
            w == psi_pow_fp(i as nat),
            w <= SCALE,
        decreases n - i,
    {
        proof {
            lemma_psi_pow_fp_bounds((i + 1) as nat);
        }
        w = (w * PSI_FP) / SCALE;
        i = i + 1;
    }
    w
}

/// Truncating division, as machine integers divide: the magnitude quotient,
/// negated when the operands' signs differ.  Unspecified for b == 0.
pub open spec fn tdiv(a: int, b: int) -> int {
    let q = vstd::math::abs(a) / vstd::math::abs(b);
    if (a >= 0) == (b >= 0) {
        q as int
    } else {
        -(q as int)
    }
}

/// A truncating quotient is no larger in magnitude than any bound that the
/// numerator keeps against the denominator.
pub proof fn lemma_tdiv_bound(a: int, b: int, bound: int)
    requires
        b != 0,
        0 <= bound,
        vstd::math::abs(a) <= bound * vstd::math::abs(b),
    ensures
        -bound <= tdiv(a, b) <= bound,
{
    let na = vstd::math::abs(a) as int;
    let nb = vstd::math::abs(b) as int;
    vstd::arithmetic::mul::lemma_mul_is_commutative(bound, nb);
    vstd::arithmetic::div_mod::lemma_multiply_divide_le(na, nb, bound);
    vstd::arithmetic::div_mod::lemma_div_pos_is_pos(na, nb);
}

/// Whether two positive fixed-point values stand in the golden ratio, to
/// within `tolerance` fixed-point units: the larger over the smaller stays
/// within `tolerance` of phi.  Zero values are never in the ratio.
pub fn is_golden_ratio(a: u64, b: u64, tolerance: u64) -> (r: bool)
    requires
        a <= 1_000_000_000_000,
        b <= 1_000_000_000_000,
    ensures
        (a == 0 || b == 0) ==> !r,
        a != 0 && b != 0 ==> ({
            let ratio = (if a > b { a as int } else { b as int }) * SCALE
                / (if a > b { b as int } else { a as int });
            r == (-(tolerance as int) < ratio - PHI_FP < tolerance)
        }),
{
    if a == 0 || b == 0 {
        return false;
    }
    let (hi, lo) = if a > b { (a, b) } else { (b, a) };
    let ratio = ((hi as u128) * (SCALE as u128)) / (lo as u128);
    proof {
        vstd::arithmetic::div_mod::lemma_div_pos_is_pos((hi as int) * (SCALE as int), lo as int);
    }
    if ratio >= (PHI_FP as u128) {
        ratio - (PHI_FP as u128) < tolerance as u128
    } else {
        (PHI_FP as u128) - ratio < tolerance as u128
    }
}

/// A transition between two stages resonates exactly when the stages are
/// adjacent: their indices differ by one.
pub fn check_transition_resonance(from_field: usize, to_field: usize) -> (r: bool)
    ensures
        r == (from_field - to_field == 1 || to_field - from_field == 1),
{
    (from_field > to_field && from_field - to_field == 1)
        || (to_field > from_field && to_field - from_field == 1)
}

/// The resonance factor of a stage transition: psi^max(from, to) in fixed
/// point for adjacent stages, zero otherwise.
pub fn transition_resonance_factor(from_field: usize, to_field: usize) -> (r: u64)
    ensures
        (from_field - to_field == 1 || to_field - from_field == 1)
            ==> r == psi_pow_fp(if from_field >= to_field { from_field as nat } else { to_field as nat }),
        !(from_field - to_field == 1 || to_field - from_field == 1) ==> r == 0,
{
    if !check_transition_resonance(from_field, to_field) {
        return 0;
    }
    let n = if from_field >= to_field { from_field } else { to_field };
    psi_power(n)
}

} // verus!
