//! IEEE 754 binary64 values, held as their 64 bits, and the order between them.
//!
//! The highest bit is the sign; the eleven bits below it are the exponent and
//! the lowest fifty-two the fraction. An exponent of all ones marks an
//! infinity where the fraction is zero, and otherwise what is not a number.

use vstd::arithmetic::div_mod::lemma_fundamental_div_mod;
use vstd::arithmetic::power2::{
    lemma2_to64, lemma_pow2_pos, lemma_pow2_strictly_increases, lemma_pow2_unfold, pow2,
};
use vstd::prelude::*;

verus! {

/// The bit that holds the sign.
pub const SIGN: u64 = 0x8000_0000_0000_0000;

/// The lowest bit of the exponent: two to the power of 52.
pub const HIDDEN: u64 = 0x0010_0000_0000_0000;

/// Positive zero.
pub const ZERO: u64 = 0;

/// Positive infinity.
pub const INFINITY: u64 = 0x7FF0_0000_0000_0000;

/// Whether the sign bit of `x` is set.
pub open spec fn negative(x: u64) -> bool {
    x >= SIGN
}

/// The bits of `x` below the sign bit: exponent and fraction, read as one number.
pub open spec fn magnitude(x: u64) -> nat {
    if x >= SIGN {
        (x - SIGN) as nat
    } else {
        x as nat
    }
}

/// Whether `x` is not a number: its exponent is all ones and its fraction is not zero.
pub open spec fn nan(x: u64) -> bool {
    magnitude(x) > INFINITY
}

/// Whether `x` is positive or negative zero.
pub open spec fn zero(x: u64) -> bool {
    magnitude(x) == 0
}

/// The absolute value that the magnitude `m` stands for, in units of
/// 2^-1074, the smallest value above zero. With the exponent `e` and the
/// fraction `f` it is `f` where `e` is zero, and `(2^52 + f) * 2^(e - 1)`
/// otherwise. An infinity takes the place of 2^1024.
pub open spec fn absolute(m: nat) -> nat {
    let e = m / (HIDDEN as nat);
    let f = m % (HIDDEN as nat);
    if e == 0 {
        f
    } else {
        ((HIDDEN + f) * pow2((e - 1) as nat)) as nat
    }
}

/// The value of the number `x`, in units of 2^-1074.
pub open spec fn value(x: u64) -> int {
    if negative(x) {
        -(absolute(magnitude(x)) as int)
    } else {
        absolute(magnitude(x)) as int
    }
}

/// `a > b` as IEEE 754 defines it: both are numbers, and the value of `a` is
/// the larger. The two zeros are equal.
pub open spec fn greater(a: u64, b: u64) -> bool {
    !nan(a) && !nan(b) && value(a) > value(b)
}

/// Whether `x` is a number above zero (positive infinity included).
pub open spec fn positive(x: u64) -> bool {
    greater(x, ZERO)
}

/// `x`, brought down to `cutoff` where it exceeds it.
pub open spec fn capped(x: u64, cutoff: u64) -> u64 {
    if greater(x, cutoff) {
        cutoff
    } else {
        x
    }
}

/// Of two magnitudes the larger stands for the larger absolute value.
pub proof fn lemma_absolute_increases(m: nat, n: nat)
    requires
        m < n,
    ensures
        absolute(m) < absolute(n),
{
    let h = HIDDEN as nat;
    let (e, f) = (m / h, m % h);
    let (d, g) = (n / h, n % h);
    assert(m == h * e + f && n == h * d + g) by {
        lemma_fundamental_div_mod(m as int, h as int);
        lemma_fundamental_div_mod(n as int, h as int);
    }
    assert(e <= d) by (nonlinear_arith)
        requires
            h * e + f < h * d + g,
            g < h,
            h > 0,
    ;
    if e == d {
        if e > 0 {
            let p = pow2((e - 1) as nat);
            lemma_pow2_pos((e - 1) as nat);
            assert((h + f) * p < (h + g) * p) by (nonlinear_arith)
                requires
                    f < g,
                    p > 0,
            ;
        }
    } else {
        // below the first value of the next exponent, which is at most the
        // first value of the exponent of `n`
        let q = pow2((d - 1) as nat);
        assert(absolute(m) < h * pow2(e)) by {
            if e == 0 {
                lemma2_to64();
            } else {
                let p = pow2((e - 1) as nat);
                lemma_pow2_pos((e - 1) as nat);
                lemma_pow2_unfold(e);
                assert((h + f) * p < h * (2 * p)) by (nonlinear_arith)
                    requires
                        f < h,
                        p > 0,
                ;
            }
        }
        if e < d - 1 {
            lemma_pow2_strictly_increases(e, (d - 1) as nat);
        }
        assert(h * pow2(e) <= (h + g) * q) by (nonlinear_arith)
            requires
                pow2(e) <= q,
                h > 0,
        ;
    }
}

/// Only the magnitude zero stands for the value zero.
pub proof fn lemma_absolute_zero(m: nat)
    ensures
        absolute(m) == 0 <==> m == 0,
{
    if m > 0 {
        lemma_absolute_increases(0, m);
    }
}

/// Tells whether `x` is not a number.
pub fn is_nan(x: u64) -> (r: bool)
    ensures
        r == nan(x),
{
    if x >= SIGN {
        x - SIGN > INFINITY
    } else {
        x > INFINITY
    }
}

/// Tells whether `x` is positive or negative zero.
pub fn is_zero(x: u64) -> (r: bool)
    ensures
        r == zero(x),
        r == (value(x) == 0),
{
    proof {
        lemma_absolute_zero(magnitude(x));
    }
    x == ZERO || x == SIGN
}

/// Tells whether `a > b`.
pub fn exceeds(a: u64, b: u64) -> (r: bool)
    ensures
        r == greater(a, b),
{
    proof {
        let (m, n) = (magnitude(a), magnitude(b));
        lemma_absolute_zero(m);
        lemma_absolute_zero(n);
        if m < n {
            lemma_absolute_increases(m, n);
        }
        if n < m {
            lemma_absolute_increases(n, m);
        }
    }
    if is_nan(a) || is_nan(b) {
        false
    } else if a >= SIGN {
        // a is at most zero: it exceeds only a negative number of larger magnitude
        b >= SIGN && a - SIGN < b - SIGN
    } else if b >= SIGN {
        // a is at least zero and b at most zero: equal only where both are zero
        a > 0 || b > SIGN
    } else {
        a > b
    }
}

/// Tells whether `x` is a number above zero.
pub fn is_positive(x: u64) -> (r: bool)
    ensures
        r == positive(x),
{
    exceeds(x, ZERO)
}

/// Brings `x` down to `cutoff` where it exceeds it. What is not a number stays as it is.
pub fn cap(x: u64, cutoff: u64) -> (r: u64)
    ensures
        r == capped(x, cutoff),
        !greater(r, cutoff),
{
    if exceeds(x, cutoff) {
        cutoff
    } else {
        x
    }
}

/// A capped value never exceeds the cutoff, whatever the two are; and where
/// both are numbers, its value is at most that of the cutoff.
pub proof fn lemma_capped_never_exceeds(x: u64, cutoff: u64)
    ensures
        !greater(capped(x, cutoff), cutoff),
        !nan(x) && !nan(cutoff) ==> value(capped(x, cutoff)) <= value(cutoff),
{
}

/// An infinite value is capped to every cutoff that is a finite number.
pub proof fn lemma_infinity_is_capped(cutoff: u64)
    requires
        magnitude(cutoff) < INFINITY,
    ensures
        capped(INFINITY, cutoff) == cutoff,
{
    lemma_absolute_increases(magnitude(cutoff), magnitude(INFINITY));
}

} // verus!
