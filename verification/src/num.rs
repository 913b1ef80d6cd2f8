//! Facts about flooring and ceiling division that the calendar arithmetic
//! leans on.
use vstd::prelude::*;

verus! {

use vstd::arithmetic::div_mod::{
    lemma_fundamental_div_mod,
    lemma_fundamental_div_mod_converse_div,
    lemma_fundamental_div_mod_converse_mod,
};

/// Quotient of division rounded towards positive infinity, for a positive divisor.
pub open spec fn ceil_div(a: int, d: int) -> int
    recommends
        d > 0,
{
    -((-a) / d)
}

/// Shifting the dividend by a multiple of the divisor shifts the quotient by
/// that multiple and keeps the remainder.
pub proof fn lemma_div_shift_multiple(a: int, d: int, k: int)
    requires
        d > 0,
    ensures
        (a + d * k) / d == a / d + k,
        (a + d * k) % d == a % d,
{
    lemma_fundamental_div_mod(a, d);
    let q = a / d;
    let r = a % d;
    assert(a + d * k == (q + k) * d + r && a == q * d + r) by (nonlinear_arith)
        requires
            a == d * q + r,
    ;
    lemma_fundamental_div_mod_converse_div(a + d * k, d, q + k, r);
    lemma_fundamental_div_mod_converse_mod(a + d * k, d, q + k, r);
}

/// How the quotient changes when the dividend grows by one.
pub proof fn lemma_div_step(a: int, d: int)
    requires
        d > 0,
    ensures
        a % d == 0 ==> a / d == (a - 1) / d + 1,
        a % d != 0 ==> a / d == (a - 1) / d,
{
    lemma_fundamental_div_mod(a - 1, d);
    let q = (a - 1) / d;
    let r = (a - 1) % d;
    if r == d - 1 {
        assert(a == (q + 1) * d + 0) by (nonlinear_arith)
            requires
                a - 1 == d * q + r && r == d - 1,
        ;
        lemma_fundamental_div_mod_converse_div(a, d, q + 1, 0);
        lemma_fundamental_div_mod_converse_mod(a, d, q + 1, 0);
    } else {
        assert(a == q * d + (r + 1)) by (nonlinear_arith)
            requires
                a - 1 == d * q + r,
        ;
        lemma_fundamental_div_mod_converse_div(a, d, q, r + 1);
        lemma_fundamental_div_mod_converse_mod(a, d, q, r + 1);
    }
}

/// The ceiling quotient in terms of the floor quotient: they agree on exact
/// multiples and otherwise the ceiling is one more.
pub proof fn lemma_ceil_div_from_floor(a: int, d: int)
    requires
        d > 0,
    ensures
        a % d == 0 ==> ceil_div(a, d) == a / d,
        a % d != 0 ==> ceil_div(a, d) == a / d + 1,
{
    lemma_fundamental_div_mod(a, d);
    let q = a / d;
    let r = a % d;
    if r == 0 {
        assert(-a == (-q) * d + 0) by (nonlinear_arith)
            requires
                a == d * q + r && r == 0,
        ;
        lemma_fundamental_div_mod_converse_div(-a, d, -q, 0);
    } else {
        assert(-a == (-q - 1) * d + (d - r)) by (nonlinear_arith)
            requires
                a == d * q + r && 0 <= r < d,
        ;
        lemma_fundamental_div_mod_converse_div(-a, d, -q - 1, d - r);
    }
}

/// The ceiling quotient as a flooring division of a shifted dividend.
pub proof fn lemma_ceil_as_floor(a: int, d: int)
    requires
        d > 0,
    ensures
        ceil_div(a, d) == (a + d - 1) / d,
{
    lemma_fundamental_div_mod(a, d);
    lemma_ceil_div_from_floor(a, d);
    let q = a / d;
    let r = a % d;
    if r == 0 {
        assert(a + d - 1 == q * d + (d - 1)) by (nonlinear_arith)
            requires
                a == d * q + r && r == 0,
        ;
        lemma_fundamental_div_mod_converse_div(a + d - 1, d, q, d - 1);
    } else {
        assert(a + d - 1 == (q + 1) * d + (r - 1)) by (nonlinear_arith)
            requires
                a == d * q + r,
        ;
        lemma_fundamental_div_mod_converse_div(a + d - 1, d, q + 1, r - 1);
    }
}

/// The ceiling quotient brackets the dividend between two adjacent multiples.
pub proof fn lemma_ceil_div_bounds(a: int, d: int)
    requires
        d > 0,
    ensures
        d * (ceil_div(a, d) - 1) < a <= d * ceil_div(a, d),
{
    lemma_fundamental_div_mod(a, d);
    lemma_ceil_div_from_floor(a, d);
    let q = a / d;
    let r = a % d;
    if r == 0 {
        assert(d * q == a && d * (q - 1) == a - d) by (nonlinear_arith)
            requires
                a == d * q + r && r == 0,
        ;
    } else {
        assert(d * q < a <= d * (q + 1)) by (nonlinear_arith)
            requires
                a == d * q + r && 0 < r < d,
        ;
    }
}

} // verus!
