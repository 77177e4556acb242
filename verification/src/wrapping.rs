//! An exact element type: 64-bit integers with arithmetic modulo 2^64.
//!
//! On this type no operation rounds, so the three strategies return the same
//! product; it also shows that the contracts of the kernels, which speak of
//! every model that describes the element type, speak of at least one.

use crate::scalar::{Arithmetic, Scalar};
use vstd::prelude::*;

verus! {

impl Scalar for i64 {
    fn zero() -> (r: i64)
        ensures
            r == 0,
    {
        0
    }

    fn plus(self, rhs: i64) -> (r: i64)
        ensures
            r == self.wrapping_add(rhs),
    {
        self.wrapping_add(rhs)
    }

    fn times(self, rhs: i64) -> (r: i64)
        ensures
            r == self.wrapping_mul(rhs),
    {
        self.wrapping_mul(rhs)
    }

    fn fused_lanes(acc: [i64; 4], x: [i64; 4], y: [i64; 4]) -> (r: [i64; 4])
        ensures
            forall|lane: int|
                0 <= lane < 4 ==> #[trigger] r[lane] == acc[lane].wrapping_add(
                    x[lane].wrapping_mul(y[lane]),
                ),
    {
        [
            acc[0].wrapping_add(x[0].wrapping_mul(y[0])),
            acc[1].wrapping_add(x[1].wrapping_mul(y[1])),
            acc[2].wrapping_add(x[2].wrapping_mul(y[2])),
            acc[3].wrapping_add(x[3].wrapping_mul(y[3])),
        ]
    }
}

/// Addition and multiplication of 64-bit integers modulo 2^64.
pub open spec fn wrapping_arithmetic() -> Arithmetic<i64> {
    Arithmetic {
        zero: 0,
        add: |x: i64, y: i64| x.wrapping_add(y),
        mul: |x: i64, y: i64| x.wrapping_mul(y),
    }
}

/// The wrapping arithmetic is what the operations of `i64` compute.
pub proof fn lemma_wrapping_arithmetic_describes_i64()
    ensures
        wrapping_arithmetic().describes_scalar(),
{
}

/// The wrapping arithmetic has every property that the laws of the products
/// ask for: zero is neutral and annihilates, one is the unit, and sums may be
/// regrouped and reordered.
pub proof fn lemma_wrapping_arithmetic_is_exact()
    ensures
        wrapping_arithmetic().zero_is_neutral(),
        wrapping_arithmetic().zero_annihilates(),
        wrapping_arithmetic().is_unit(1),
        wrapping_arithmetic().add_is_associative(),
        wrapping_arithmetic().add_is_commutative(),
{
    let ar = wrapping_arithmetic();
    assert forall|x: i64| #[trigger] (ar.mul)(x, 0) == 0 && #[trigger] (ar.mul)(0, x) == 0 by {
        assert(x * 0 == 0 && 0 * x == 0) by (nonlinear_arith);
    }
    assert forall|x: i64| #[trigger] (ar.mul)(x, 1) == x && #[trigger] (ar.mul)(1, x) == x by {
        assert(x * 1 == x && 1 * x == x) by (nonlinear_arith);
        let range: int = 0x1_0000_0000_0000_0000int;
        if x < 0 {
            vstd::arithmetic::div_mod::lemma_fundamental_div_mod_converse(
                x as int,
                range,
                -1,
                x + range,
            );
        } else {
            vstd::arithmetic::div_mod::lemma_small_mod(x as nat, range as nat);
        }
    }
}

} // verus!
