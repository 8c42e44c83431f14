use vstd::prelude::*;

verus! {

use vstd::arithmetic::div_mod::{
    lemma_fundamental_div_mod,
    lemma_fundamental_div_mod_converse,
    lemma_div_is_ordered,
    lemma_div_multiples_vanish,
};
use vstd::arithmetic::mul::{lemma_mul_upper_bound, lemma_mul_strict_inequality};
use vstd::arithmetic::power2::{
    pow2,
    lemma2_to64,
    lemma2_to64_rest,
    lemma_pow2_adds,
    lemma_pow2_strictly_increases,
};

/// Two to the sixty-fourth power: the limb base of the wide multiply.
pub const LIMB: u128 = 0x1_0000_0000_0000_0000;

/// Two to the one-hundred-twenty-seventh power: the top bit of a `u128`.
pub const TOP_BIT: u128 = 0x8000_0000_0000_0000_0000_0000_0000_0000;

/// `floor(a * b / c)` over the unbounded integers, saturated to zero when
/// the divisor is zero or when the quotient does not fit in a `u128`.
pub open spec fn spec_mul_div(a: u128, b: u128, c: u128) -> u128 {
    if c == 0 {
        0u128
    } else if a * b / (c as int) > u128::MAX {
        0u128
    } else {
        (a * b / (c as int)) as u128
    }
}

proof fn lemma_expand_product(a1: int, a0: int, b1: int, b0: int, s: int)
    ensures
        (a1 * s + a0) * (b1 * s + b0) == (a1 * b1) * (s * s) + (a1 * b0) * s + (a0 * b1) * s + a0
            * b0,
{
    broadcast use vstd::arithmetic::mul::group_mul_is_commutative_and_distributive;
    broadcast use vstd::arithmetic::mul::lemma_mul_is_associative;

}

proof fn lemma_pow2_128()
    ensures
        pow2(64) == LIMB,
        pow2(127) == TOP_BIT,
        pow2(128) == 0x1_0000_0000_0000_0000_0000_0000_0000_0000,
        pow2(128) == u128::MAX + 1,
{
    lemma2_to64();
    lemma2_to64_rest();
    lemma_pow2_adds(64, 63);
    lemma_pow2_adds(64, 64);
}

/// The double-width product of two `u128` values as a high and a low limb.
pub fn mul_wide(a: u128, b: u128) -> (r: (u128, u128))
    ensures
        r.0 * pow2(128) + r.1 == a * b,
        r.0 * 0x1_0000_0000_0000_0000_0000_0000_0000_0000 + r.1 == a * b,
{
    let a1 = a / LIMB;
    let a0 = a % LIMB;
    let b1 = b / LIMB;
    let b0 = b % LIMB;
    proof {
        lemma_fundamental_div_mod(a as int, LIMB as int);
        lemma_fundamental_div_mod(b as int, LIMB as int);
        assert(a1 < LIMB && a0 < LIMB && b1 < LIMB && b0 < LIMB);
        lemma_mul_upper_bound(a1 as int, (LIMB - 1) as int, b1 as int, (LIMB - 1) as int);
        lemma_mul_upper_bound(a1 as int, (LIMB - 1) as int, b0 as int, (LIMB - 1) as int);
        lemma_mul_upper_bound(a0 as int, (LIMB - 1) as int, b1 as int, (LIMB - 1) as int);
        lemma_mul_upper_bound(a0 as int, (LIMB - 1) as int, b0 as int, (LIMB - 1) as int);
        assert((LIMB - 1) * (LIMB - 1) == LIMB * LIMB - 2 * LIMB + 1) by (nonlinear_arith);
    }
    let p11 = a1 * b1;
    let p10 = a1 * b0;
    let p01 = a0 * b1;
    let p00 = a0 * b0;
    proof {
        lemma_fundamental_div_mod(p00 as int, LIMB as int);
        lemma_fundamental_div_mod(p01 as int, LIMB as int);
        lemma_fundamental_div_mod(p10 as int, LIMB as int);
        // The quotient of each partial product by the limb base is at most
        // LIMB - 2, because the product is at most (LIMB - 1) * (LIMB - 1).
        lemma_fundamental_div_mod_converse(
            ((LIMB - 1) * (LIMB - 1)) as int,
            LIMB as int,
            (LIMB - 2) as int,
            1int,
        );
        lemma_div_is_ordered(p01 as int, ((LIMB - 1) * (LIMB - 1)) as int, LIMB as int);
        lemma_div_is_ordered(p10 as int, ((LIMB - 1) * (LIMB - 1)) as int, LIMB as int);
    }
    let low_limb = p00 % LIMB;
    let carry0 = p00 / LIMB;
    let mid = carry0 + p01 % LIMB + p10 % LIMB;
    proof {
        lemma_fundamental_div_mod(mid as int, LIMB as int);
    }
    let lo = (mid % LIMB) * LIMB + low_limb;
    let hi = p11 + p01 / LIMB + p10 / LIMB + mid / LIMB;
    proof {
        let la1 = a1 as int;
        let la0 = a0 as int;
        let lb1 = b1 as int;
        let lb0 = b0 as int;
        let base = LIMB as int;
        lemma_expand_product(la1, la0, lb1, lb0, base);
        assert((p10 / LIMB) * (base * base) + ((p10 % LIMB) as int) * base == (la1 * lb0) * base
            + 0) by (nonlinear_arith)
            requires
                p10 == la1 * lb0,
                p10 == (p10 / LIMB) * base + (p10 % LIMB),
                base == LIMB as int,
        ;
        assert((p01 / LIMB) * (base * base) + ((p01 % LIMB) as int) * base == (la0 * lb1)
            * base) by (nonlinear_arith)
            requires
                p01 == la0 * lb1,
                p01 == (p01 / LIMB) * base + (p01 % LIMB),
                base == LIMB as int,
        ;
        assert((mid / LIMB) * (base * base) + ((mid % LIMB) as int) * base == (carry0 + p01 % LIMB
            + p10 % LIMB) * base) by (nonlinear_arith)
            requires
                mid == carry0 + p01 % LIMB + p10 % LIMB,
                mid == (mid / LIMB) * base + (mid % LIMB),
                base == LIMB as int,
        ;
        assert(carry0 * base + low_limb == p00) by (nonlinear_arith)
            requires
                carry0 == p00 / LIMB,
                low_limb == p00 % LIMB,
                p00 == (p00 / LIMB) * (LIMB as int) + (p00 % LIMB),
                base == LIMB as int,
        ;
        assert((carry0 + p01 % LIMB + p10 % LIMB) * base == carry0 * base + (p01 % LIMB) * base + (
        p10 % LIMB) * base) by (nonlinear_arith);
        lemma_pow2_128();
        assert(base * base == pow2(128)) by {
            lemma_pow2_128();
            assert(pow2(64) * pow2(64) == pow2(128)) by {
                lemma_pow2_adds(64, 64);
            }
        }
        assert(hi * pow2(128) + lo == a * b) by (nonlinear_arith)
            requires
                hi == p11 + p01 / LIMB + p10 / LIMB + mid / LIMB,
                lo == (mid % LIMB) * (LIMB as int) + low_limb,
                a == a1 * (LIMB as int) + a0,
                b == b1 * (LIMB as int) + b0,
                p11 == a1 * b1,
                p10 == a1 * b0,
                p01 == a0 * b1,
                p00 == a0 * b0,
                carry0 == p00 / LIMB,
                low_limb == p00 % LIMB,
                mid == carry0 + p01 % LIMB + p10 % LIMB,
                p00 == (p00 / LIMB) * (LIMB as int) + (p00 % LIMB),
                p01 == (p01 / LIMB) * (LIMB as int) + (p01 % LIMB),
                p10 == (p10 / LIMB) * (LIMB as int) + (p10 % LIMB),
                mid == (mid / LIMB) * (LIMB as int) + (mid % LIMB),
                pow2(128) == (LIMB as int) * (LIMB as int),
        ;
    }
    (hi, lo)
}

/// Long division of the double-width value `hi * 2^128 + lo` by `c`,
/// processing the low limb one binary digit at a time. The quotient fits
/// in a `u128` because the high limb is below the divisor.
#[verifier::rlimit(30)]
pub fn div_wide(hi: u128, lo: u128, c: u128) -> (q: u128)
    requires
        c > 0,
        hi < c,
    ensures
        q == (hi * pow2(128) + lo) / (c as int),
{
    let mut rem: u128 = hi;
    let mut quot: u128 = 0;
    let mut cur: u128 = lo;
    let mut k: usize = 0;
    let ghost mut rest: int = lo as int;
    proof {
        lemma_pow2_128();
        assert(pow2(0) == 1) by {
            lemma2_to64();
        }
    }
    while k < 128
        invariant
            c > 0,
            hi < c,
            0 <= k <= 128,
            rem < c,
            0 <= rest < pow2((128 - k) as nat),
            cur == rest * pow2(k as nat),
            hi * pow2(128) + lo == (quot * c + rem) * pow2((128 - k) as nat) + rest,
            quot < pow2(k as nat),
            pow2(128) == u128::MAX + 1,
        decreases 128 - k,
    {
        proof {
            lemma2_to64();
            lemma_pow2_adds((127 - k) as nat, 1);
            lemma_pow2_adds(k as nat, 1);
            lemma_pow2_adds(k as nat, (127 - k) as nat);
            lemma_pow2_adds(k as nat, (128 - k) as nat);
            lemma_pow2_128();
            assert(pow2((128 - k) as nat) == 2 * pow2((127 - k) as nat));
            assert(pow2((k + 1) as nat) == 2 * pow2(k as nat));
        }
        let bit = cur / TOP_BIT;
        let ghost pk: int = pow2(k as nat) as int;
        let ghost pr: int = pow2((127 - k) as nat) as int;
        let ghost digit: int = rest / pr;
        let ghost low_rest: int = rest % pr;
        proof {
            lemma_fundamental_div_mod(rest, pr);
            assert(digit < 2) by (nonlinear_arith)
                requires
                    0 <= rest < 2 * pr,
                    digit == rest / pr,
                    pr > 0,
            ;
            assert(0 <= digit);
            // cur == rest * pow2(k) splits as digit * 2^127 + low_rest * 2^k.
            assert(cur == digit * (pk * pr) + low_rest * pk) by (nonlinear_arith)
                requires
                    cur == rest * pk,
                    rest == pr * digit + low_rest,
            ;
            assert(low_rest * pk < pr * pk) by {
                lemma_mul_strict_inequality(low_rest, pr, pk);
            }
            assert(0 <= low_rest * pk) by (nonlinear_arith)
                requires
                    low_rest >= 0,
                    pk > 0,
            ;
            lemma_fundamental_div_mod_converse(cur as int, TOP_BIT as int, digit, low_rest * pk);
            assert(bit == digit);
            assert(cur % TOP_BIT == low_rest * pk);
        }
        let next_cur = (cur % TOP_BIT) * 2;
        proof {
            assert(next_cur == low_rest * (pow2((k + 1) as nat) as int)) by (nonlinear_arith)
                requires
                    next_cur == 2 * (low_rest * pk),
                    pow2((k + 1) as nat) == 2 * pk,
            ;
        }
        // Fold the digit into the running remainder without overflowing:
        // the mathematical value is 2 * rem + bit, which may exceed the
        // divisor at most once.
        let gap = c - rem;
        let old_quot = quot;
        let ghost old_rem: int = rem as int;
        proof {
            if k < 127 {
                lemma_pow2_strictly_increases(k as nat, 127);
            }
            assert(quot < TOP_BIT);
        }
        if rem + bit >= gap {
            quot = quot * 2 + 1;
            rem = (rem + bit) - gap;
        } else {
            quot = quot * 2;
            rem = rem + rem + bit;
        }
        proof {
            let pk = pow2(k as nat) as int;
            let pr = pow2((127 - k) as nat) as int;
            let prr = pow2((128 - k) as nat) as int;
            assert(prr == 2 * pr);
            assert(quot * c + rem == 2 * (old_quot * c + old_rem) + bit) by (nonlinear_arith)
                requires
                    (old_rem + bit >= c - old_rem && quot == 2 * old_quot + 1 && rem == old_rem
                        + bit - (c - old_rem)) || (old_rem + bit < c - old_rem && quot == 2
                        * old_quot && rem == 2 * old_rem + bit),
            ;
            assert((quot * c + rem) * pr + low_rest == (old_quot * c + old_rem) * prr + rest)
                by (nonlinear_arith)
                requires
                    quot * c + rem == 2 * (old_quot * c + old_rem) + bit,
                    prr == 2 * pr,
                    rest == bit * pr + low_rest,
            ;
            assert(quot < pow2((k + 1) as nat)) by (nonlinear_arith)
                requires
                    quot <= 2 * old_quot + 1,
                    old_quot < pk,
                    pow2((k + 1) as nat) == 2 * pk,
            ;
            rest = low_rest;
        }
        cur = next_cur;
        k = k + 1;
    }
    proof {
        assert(pow2(0) == 1) by {
            lemma2_to64();
        }
        assert(rest == 0);
        assert((quot * c + rem) * (pow2(0) as int) == quot * c + rem) by (nonlinear_arith)
            requires
                pow2(0) == 1,
        ;
        assert(hi * pow2(128) + lo == quot * c + rem);
        lemma_fundamental_div_mod_converse(hi * pow2(128) + lo, c as int, quot as int, rem as int);
    }
    quot
}

/// `floor(a * b / c)` with a double-width intermediate product, saturating
/// to zero when the divisor is zero or the quotient overflows.
pub fn mul_div(a: u128, b: u128, c: u128) -> (r: u128)
    ensures
        r == spec_mul_div(a, b, c),
{
    if c == 0 {
        return 0;
    }
    let (hi, lo) = mul_wide(a, b);
    proof {
        lemma_pow2_128();
    }
    if hi >= c {
        // The product is at least c * 2^128, so the true quotient exceeds
        // the largest u128 and the result saturates to zero.
        proof {
            let n = pow2(128) as int;
            let prod = a as int * b as int;
            assert(prod >= c * n) by (nonlinear_arith)
                requires
                    prod == hi * n + lo,
                    hi >= c,
                    lo >= 0,
                    n > 0,
            ;
            lemma_div_is_ordered(c * n, prod, c as int);
            lemma_div_multiples_vanish(n, c as int);
            assert(prod / (c as int) >= n);
        }
        return 0;
    }
    let q = div_wide(hi, lo, c);
    proof {
        let n = pow2(128) as int;
        let prod = a as int * b as int;
        assert(prod < c * n) by (nonlinear_arith)
            requires
                prod == hi * n + lo,
                hi < c,
                0 <= lo < n,
                n > 0,
        ;
        assert(q <= u128::MAX);
    }
    q
}

} // verus!
