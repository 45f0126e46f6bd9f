//! Integer division rounded toward negative infinity.

use vstd::arithmetic::div_mod::{
    lemma_div_is_ordered_by_denominator, lemma_fundamental_div_mod,
    lemma_fundamental_div_mod_converse,
};
use vstd::prelude::*;

verus! {

/// Bound on the magnitude of numerators handed to `floor_div`.
pub open spec fn numerator_bound() -> int {
    0x1_0000_0000_0000_0000_0000_0000
}

/// `n / d` rounded down, for a positive divisor. (For `d > 0`, `/` on `int`
/// already rounds toward negative infinity.)
pub open spec fn div_down(n: int, d: int) -> int
    recommends
        d > 0,
{
    n / d
}

/// Computes `n / d` rounded toward negative infinity.
pub fn floor_div(n: i128, d: u128) -> (q: i128)
    requires
        d > 0,
        -numerator_bound() <= n <= numerator_bound(),
    ensures
        q as int == div_down(n as int, d as int),
        -numerator_bound() - 1 <= q <= numerator_bound(),
{
    if n >= 0 {
        let q = (n as u128) / d;
        proof {
            lemma_div_is_ordered_by_denominator(n as int, 1, d as int);
        }
        q as i128
    } else {
        let m: u128 = (-n) as u128;
        let q0: u128 = m / d;
        let r: u128 = m % d;
        proof {
            lemma_div_is_ordered_by_denominator(m as int, 1, d as int);
            lemma_fundamental_div_mod(m as int, d as int);
        }
        if r == 0 {
            proof {
                assert(n as int == (-(q0 as int)) * d as int + 0) by (nonlinear_arith)
                    requires
                        m as int == d as int * q0 as int + 0,
                        n as int == -(m as int),
                ;
                lemma_fundamental_div_mod_converse(n as int, d as int, -(q0 as int), 0);
            }
            -(q0 as i128)
        } else {
            proof {
                assert(n as int == (-(q0 as int) - 1) * d as int + (d as int - r as int))
                    by (nonlinear_arith)
                    requires
                        m as int == d as int * q0 as int + r as int,
                        n as int == -(m as int),
                ;
                lemma_fundamental_div_mod_converse(
                    n as int,
                    d as int,
                    -(q0 as int) - 1,
                    d as int - r as int,
                );
            }
            -(q0 as i128) - 1
        }
    }
}

/// `(n * d) / d == n` for a positive `d`, whatever the sign of `n`.
pub proof fn lemma_div_of_multiple(n: int, d: int)
    requires
        d > 0,
    ensures
        (n * d) / d == n,
        (d * n) / d == n,
{
    lemma_fundamental_div_mod_converse(n * d, d, n, 0);
    assert(n * d == d * n) by (nonlinear_arith);
}

} // verus!
