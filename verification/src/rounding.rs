//! Rounded integer division: the nearest integer to a quotient, ties away
//! from zero. Every place the library leaves the six-decimal grid — unit
//! conversion, one-decimal display, the A1c formulas — rounds with `rdiv`.

use vstd::prelude::*;

verus! {

/// The nearest integer to `n / d` for `d > 0`, ties rounded away from zero.
pub open spec fn rdiv(n: int, d: int) -> int
    recommends
        d > 0,
{
    if n >= 0 {
        (2 * n + d) / (2 * d)
    } else {
        -((2 * (-n) + d) / (2 * d))
    }
}

/// `rdiv` is an odd function of the numerator.
pub proof fn lemma_rdiv_neg(n: int, d: int)
    requires
        d > 0,
    ensures
        rdiv(-n, d) == -rdiv(n, d),
{
    if n == 0 {
        assert(rdiv(0, d) == d / (2 * d));
        assert(0 <= d < 2 * d);
        vstd::arithmetic::div_mod::lemma_basic_div(d, 2 * d);
    }
}

/// Twice the error of rounded division is at most the divisor:
/// `rdiv(n, d) * d` is within `d / 2` of `n`.
pub proof fn lemma_rdiv_error(n: int, d: int)
    requires
        d > 0,
    ensures
        -d <= 2 * (rdiv(n, d) * d - n) <= d,
{
    if n >= 0 {
        lemma_rdiv_error_nonneg(n, d);
    } else {
        lemma_rdiv_error_nonneg(-n, d);
        assert(-d < 2 * (rdiv(-n, d) * d - (-n)) <= d);
        lemma_rdiv_neg(n, d);
        assert(rdiv(-n, d) == -rdiv(n, d));
        assert(2 * (rdiv(-n, d) * d - (-n)) == -(2 * (rdiv(n, d) * d - n))) by (nonlinear_arith)
            requires
                rdiv(-n, d) == -rdiv(n, d),
        ;
    }
}

proof fn lemma_rdiv_error_nonneg(n: int, d: int)
    requires
        d > 0,
        n >= 0,
    ensures
        -d < 2 * (rdiv(n, d) * d - n) <= d,
{
    let q = (2 * n + d) / (2 * d);
    vstd::arithmetic::div_mod::lemma_fundamental_div_mod(2 * n + d, 2 * d);
    vstd::arithmetic::div_mod::lemma_mod_bound(2 * n + d, 2 * d);
    let r = (2 * n + d) % (2 * d);
    assert(2 * n + d == 2 * d * q + r);
    assert(0 <= r < 2 * d);
    assert(2 * (q * d - n) == d - r) by (nonlinear_arith)
        requires
            2 * n + d == 2 * d * q + r,
    ;
}

/// If `m * d` is strictly within `d / 2` of `n`, then `m` is the rounded
/// quotient: rounded division is the unique answer off ties.
pub proof fn lemma_rdiv_unique(n: int, d: int, m: int)
    requires
        d > 0,
        -d < 2 * (m * d - n) < d,
    ensures
        rdiv(n, d) == m,
{
    if n >= 0 {
        lemma_rdiv_unique_nonneg(n, d, m);
    } else {
        assert(-d < 2 * ((-m) * d - (-n)) < d) by (nonlinear_arith)
            requires
                -d < 2 * (m * d - n) < d,
        ;
        lemma_rdiv_unique_nonneg(-n, d, -m);
        lemma_rdiv_neg(n, d);
    }
}

proof fn lemma_rdiv_unique_nonneg(n: int, d: int, m: int)
    requires
        d > 0,
        n >= 0,
        -d < 2 * (m * d - n) < d,
    ensures
        rdiv(n, d) == m,
{
    let q = (2 * n + d) / (2 * d);
    vstd::arithmetic::div_mod::lemma_fundamental_div_mod(2 * n + d, 2 * d);
    vstd::arithmetic::div_mod::lemma_mod_bound(2 * n + d, 2 * d);
    let r = (2 * n + d) % (2 * d);
    assert(2 * n + d == 2 * d * q + r);
    assert(0 <= r < 2 * d);
    assert(q == m) by (nonlinear_arith)
        requires
            d > 0,
            2 * n + d == 2 * d * q + r,
            0 <= r < 2 * d,
            -d < 2 * (m * d - n) < d,
    ;
}

/// A non-negative numerator has a non-negative rounded quotient.
pub proof fn lemma_rdiv_nonneg(n: int, d: int)
    requires
        d > 0,
        n >= 0,
    ensures
        rdiv(n, d) >= 0,
{
    lemma_rdiv_error(n, d);
    assert(rdiv(n, d) >= 0) by (nonlinear_arith)
        requires
            d > 0,
            n >= 0,
            -d <= 2 * (rdiv(n, d) * d - n),
    ;
}

/// Rounded division is monotone in the numerator.
pub proof fn lemma_rdiv_monotone(n1: int, n2: int, d: int)
    requires
        d > 0,
        n1 <= n2,
    ensures
        rdiv(n1, d) <= rdiv(n2, d),
{
    lemma_rdiv_error(n1, d);
    lemma_rdiv_error(n2, d);
    assert(rdiv(n1, d) <= rdiv(n2, d)) by (nonlinear_arith)
        requires
            d > 0,
            n1 <= n2,
            -d <= 2 * (rdiv(n1, d) * d - n1) <= d,
            -d <= 2 * (rdiv(n2, d) * d - n2) <= d,
    ;
}

/// Executable rounded division on magnitudes comfortably inside `u128`.
fn rdiv_mag(n: u128, d: u128) -> (r: u128)
    requires
        0 < d,
        n <= 0x1000_0000_0000_0000_0000_0000_0000,
        d <= 0x1000_0000_0000_0000_0000_0000_0000,
    ensures
        r == rdiv(n as int, d as int),
{
    (2 * n + d) / (2 * d)
}

/// Executable rounded division: the nearest integer to `n / d`, ties away
/// from zero, computed exactly in `i128`.
pub fn rdiv_i128(n: i128, d: i128) -> (r: i128)
    requires
        0 < d,
        -0x1000_0000_0000_0000_0000_0000_0000 <= n <= 0x1000_0000_0000_0000_0000_0000_0000,
        d <= 0x1000_0000_0000_0000_0000_0000_0000,
    ensures
        r == rdiv(n as int, d as int),
{
    if n >= 0 {
        let q = rdiv_mag(n as u128, d as u128);
        proof {
            lemma_rdiv_error(n as int, d as int);
            assert(2 * (rdiv(n as int, d as int) * d - n) <= d) by {
                lemma_rdiv_error(n as int, d as int);
            }
            assert(rdiv(n as int, d as int) * d <= n + d) by (nonlinear_arith)
                requires
                    2 * (rdiv(n as int, d as int) * d - n) <= d,
                    d > 0,
            ;
            assert(rdiv(n as int, d as int) <= n) by (nonlinear_arith)
                requires
                    rdiv(n as int, d as int) * d <= n + d,
                    d > 0,
                    n >= 0,
            ;
        }
        q as i128
    } else {
        let q = rdiv_mag((-n) as u128, d as u128);
        proof {
            lemma_rdiv_neg(n as int, d as int);
            lemma_rdiv_error((-n) as int, d as int);
            assert(rdiv((-n) as int, d as int) * d <= (-n) + d) by (nonlinear_arith)
                requires
                    2 * (rdiv((-n) as int, d as int) * d - (-n)) <= d,
                    d > 0,
            ;
            assert(0 <= rdiv((-n) as int, d as int) <= -n) by (nonlinear_arith)
                requires
                    rdiv((-n) as int, d as int) * d <= (-n) + d,
                    -d <= 2 * (rdiv((-n) as int, d as int) * d - (-n)),
                    d > 0,
                    -n > 0,
            ;
        }
        -(q as i128)
    }
}

} // verus!
