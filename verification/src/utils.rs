//! Casting the iteration counter to a number.

use crate::scalar::{Scalar, FRACTION_UNIT};
use vstd::arithmetic::power2::{
    lemma2_to64, lemma2_to64_rest, lemma_pow2_adds, lemma_pow2_pos,
    lemma_pow2_strictly_increases, lemma_pow2_unfold, pow2,
};
use vstd::prelude::*;

verus! {

/// What is left of `k` when every factor of two is taken out; 0 for 0.
pub open spec fn odd_part(k: nat) -> nat
    decreases k,
{
    if k == 0 {
        0
    } else if k % 2 == 0 {
        odd_part(k / 2)
    } else {
        k
    }
}

/// Whether `k` can be represented: a number has 53 significant bits, so `k`
/// can be one exactly if its odd part is below 2^53.
pub open spec fn fits(k: nat) -> bool {
    odd_part(k) < 2 * FRACTION_UNIT
}

/// Doubling `q` `up` times and then `1074 + z - up` times more is doubling
/// it `z` times and then 1074 times.
proof fn lemma_scaled_product(q: nat, up: nat, z: nat)
    requires
        up <= 52,
    ensures
        (q * pow2(up)) * pow2((1074 + z - up) as nat) == (q * pow2(z)) * pow2(1074),
{
    let a = pow2(up);
    let b = pow2((1074 + z - up) as nat);
    let c = pow2(z);
    let d = pow2(1074);
    lemma_pow2_adds(up, (1074 + z - up) as nat);
    lemma_pow2_adds(z, 1074);
    assert(a * b == c * d);
    assert((q * a) * b == q * (a * b)) by (nonlinear_arith);
    assert((q * c) * d == q * (c * d)) by (nonlinear_arith);
}

/// The odd part of a counter is not above the counter.
proof fn lemma_odd_part_is_below(x: nat)
    ensures
        odd_part(x) <= x,
    decreases x,
{
    if x != 0 && x % 2 == 0 {
        lemma_odd_part_is_below(x / 2);
    }
}

/// Doubling a counter leaves its odd part as it is.
proof fn lemma_odd_part_of_multiple(x: nat, j: nat)
    ensures
        odd_part(x * pow2(j)) == odd_part(x),
    decreases j,
{
    if j == 0 {
        lemma2_to64();
        assert(x * pow2(0) == x) by (nonlinear_arith)
            requires
                pow2(0) == 1,
        ;
    } else {
        let y = x * pow2((j - 1) as nat);
        lemma_pow2_unfold(j);
        assert(x * (2 * pow2((j - 1) as nat)) == 2 * y) by (nonlinear_arith)
            requires
                y == x * pow2((j - 1) as nat),
        ;
        lemma_odd_part_of_multiple(x, (j - 1) as nat);
        if y > 0 {
            assert((2 * y) % 2 == 0 && (2 * y) / 2 == y);
        } else {
            assert(2 * y == 0);
            lemma_pow2_pos((j - 1) as nat);
            assert(x == 0) by (nonlinear_arith)
                requires
                    x * pow2((j - 1) as nat) == 0,
                    pow2((j - 1) as nat) > 0,
            ;
        }
    }
}

/// Only a counter that fits is exactly a number: where `cast` gives nothing,
/// there is no number to give.
pub proof fn lemma_integer_fits(s: Scalar, k: nat)
    requires
        s.spec_is_integer(k),
    ensures
        fits(k),
{
    let e = s.exponent();
    let m = s.fraction();
    let unit = pow2(1074);
    lemma_pow2_pos(1074);
    lemma2_to64_rest();
    if e == 0 {
        lemma_pow2_strictly_increases(52, 1074);
        assert(k == 0) by (nonlinear_arith)
            requires
                m == k * unit,
                m < unit,
        ;
    } else {
        let a = (FRACTION_UNIT + m) as nat;
        let p = pow2((e - 1) as nat);
        lemma_pow2_pos((e - 1) as nat);
        if e - 1 >= 1074 {
            let j = (e - 1 - 1074) as nat;
            lemma_pow2_adds(j, 1074);
            assert(k == a * pow2(j)) by (nonlinear_arith)
                requires
                    a * p == k * unit,
                    p == pow2(j) * unit,
                    unit > 0,
            ;
            lemma_odd_part_of_multiple(a, j);
            lemma_odd_part_is_below(a);
        } else {
            let j = (1074 - (e - 1)) as nat;
            lemma_pow2_adds(j, (e - 1) as nat);
            lemma_pow2_pos(j);
            assert(k <= a) by (nonlinear_arith)
                requires
                    a * p == k * unit,
                    unit == pow2(j) * p,
                    p > 0,
                    pow2(j) > 0,
            ;
            lemma_odd_part_is_below(k);
        }
    }
}

/// Try to cast the counter to a number.
///
/// Gives the number that is exactly `k`, and nothing where there is none:
/// a counter of more than 53 significant bits is not rounded.
pub fn cast(k: usize) -> (r: Option<Scalar>)
    ensures
        r.is_some() <==> fits(k as nat),
        r.is_some() ==> r.unwrap().spec_is_integer(k as nat),
        r.is_none() ==> forall|s: Scalar| !s.spec_is_integer(k as nat),
{
    if k == 0 {
        proof {
            assert(Scalar { bits: 0 }.scaled() == 0);
            assert(0 * pow2(1074) == 0);
        }
        return Some(Scalar::zero());
    }
    proof {
        lemma2_to64();
        lemma2_to64_rest();
    }
    // Take the factors of two out.
    let mut q: u64 = k as u64;
    let mut z: u64 = 0;
    while q % 2 == 0
        invariant
            q > 0,
            q * pow2(z as nat) == k,
            pow2(z as nat) <= k,
            odd_part(q as nat) == odd_part(k as nat),
            z < 64,
        decreases q,
    {
        proof {
            lemma2_to64();
            lemma_pow2_unfold((z + 1) as nat);
            assert((q / 2) * (2 * pow2(z as nat)) == q * pow2(z as nat)) by (nonlinear_arith)
                requires
                    q % 2 == 0,
            ;
            assert(2 * pow2(z as nat) <= q * pow2(z as nat)) by (nonlinear_arith)
                requires
                    q >= 2,
            ;
            if z + 1 >= 64 {
                if z + 1 > 64 {
                    lemma_pow2_strictly_increases(64, (z + 1) as nat);
                }
                assert(pow2((z + 1) as nat) >= pow2(64));
            }
        }
        q = q / 2;
        z = z + 1;
    }
    if q >= 2 * FRACTION_UNIT {
        proof {
            assert forall|s: Scalar| !s.spec_is_integer(k as nat) by {
                if s.spec_is_integer(k as nat) {
                    lemma_integer_fits(s, k as nat);
                }
            }
        }
        return None;
    }
    // Bring the leading bit of the odd part to the place of the 53rd.
    let mut mant: u64 = q;
    let mut up: u64 = 0;
    while mant < FRACTION_UNIT
        invariant
            0 < mant < 2 * FRACTION_UNIT,
            mant == q * pow2(up as nat),
            pow2(up as nat) <= mant,
            up <= 52,
        decreases 2 * FRACTION_UNIT - mant,
    {
        proof {
            lemma2_to64_rest();
            lemma_pow2_unfold((up + 1) as nat);
            assert(2 * (q * pow2(up as nat)) == q * (2 * pow2(up as nat))) by (nonlinear_arith);
            if up >= 52 {
                if up > 52 {
                    lemma_pow2_strictly_increases(52, up as nat);
                }
                assert(pow2(up as nat) >= pow2(52));
            }
        }
        mant = mant * 2;
        up = up + 1;
    }
    let e: u64 = 1075 + z - up;
    let bits: u64 = e * FRACTION_UNIT + (mant - FRACTION_UNIT);
    let r = Scalar { bits };
    proof {
        assert(r.magnitude() == bits);
        assert(r.exponent() == e);
        assert(r.fraction() == mant - FRACTION_UNIT);
        lemma_scaled_product(q as nat, up as nat, z as nat);
        assert(r.scaled() == mant * pow2((e - 1) as nat));
    }
    Some(r)
}

} // verus!
