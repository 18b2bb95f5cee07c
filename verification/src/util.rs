//! Small arithmetic helpers.

use vstd::prelude::*;

verus! {

/// Quotient and remainder of an unsigned division.
pub fn div_rem(x: u32, y: u32) -> (r: (u32, u32))
    requires
        y != 0,
    ensures
        r.0 == x / y,
        r.1 == x % y,
{
    (x / y, x % y)
}

/// A floored quotient by a positive divisor is no larger in magnitude than
/// the dividend.
pub proof fn lemma_floor_div_bounds(x: int, y: int)
    requires
        y > 0,
    ensures
        x >= 0 ==> 0 <= x / y <= x,
        x < 0 ==> x <= x / y < 0,
        0 <= x % y < y,
        x == y * (x / y) + x % y,
{
    vstd::arithmetic::div_mod::lemma_fundamental_div_mod(x, y);
    vstd::arithmetic::div_mod::lemma_mod_bound(x, y);
    let q = x / y;
    let r = x % y;
    if x >= 0 {
        assert(0 <= q <= x) by (nonlinear_arith)
            requires
                x == y * q + r,
                0 <= r < y,
                y > 0,
                x >= 0,
        ;
    } else {
        assert(x <= q < 0) by (nonlinear_arith)
            requires
                x == y * q + r,
                0 <= r < y,
                y > 0,
                x < 0,
        ;
    }
}

/// Floored quotient and non-negative remainder of a signed division by a
/// positive divisor. Unlike the truncating `/` and `%`, the pair satisfies
/// `0 <= remainder < y` for negative `x` too.
pub fn div_rem_floor(x: i64, y: i64) -> (r: (i64, i64))
    requires
        y > 0,
    ensures
        r.0 == x as int / y as int,
        r.1 == x as int % y as int,
        0 <= r.1 < y,
{
    proof {
        lemma_floor_div_bounds(x as int, y as int);
    }
    let q = x.checked_div_euclid(y);
    let m = x.checked_rem_euclid(y);
    match (q, m) {
        (Some(q), Some(m)) => (q, m),
        _ => vstd::pervasive::unreached(),
    }
}

/// Non-negative remainder of a signed division by a positive divisor.
pub fn rem_floor(x: i128, y: i128) -> (r: i128)
    requires
        y > 0,
    ensures
        r == x as int % y as int,
        0 <= r < y,
{
    proof {
        lemma_floor_div_bounds(x as int, y as int);
    }
    match x.checked_rem_euclid(y) {
        Some(m) => m,
        None => vstd::pervasive::unreached(),
    }
}

} // verus!
