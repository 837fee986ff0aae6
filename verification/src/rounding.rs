//! Halving and doubling a binary64 value, and rounding it to a whole number.
//!
//! The result is the number that IEEE 754 asks for, found from the bits
//! alone. A pore needs the three where it decides: half the width of a slit
//! is where its wall stands, twice the largest diameter is how far its axis
//! reaches behind the wall, and a displacement in box lengths, rounded, tells
//! which image of a solid site is the nearest.

use crate::binary64::{
    absolute, lemma_absolute_increases, magnitude, negative, value, HIDDEN, INFINITY, SIGN,
};
use vstd::arithmetic::div_mod::{
    lemma_fundamental_div_mod, lemma_fundamental_div_mod_converse, lemma_mod_bound,
};
use vstd::arithmetic::power2::{
    lemma2_to64, lemma2_to64_rest, lemma_pow2_adds, lemma_pow2_pos,
    lemma_pow2_strictly_increases, lemma_pow2_unfold, pow2,
};
use vstd::prelude::*;

verus! {

/// One.
pub const ONE: u64 = 0x3FF0_0000_0000_0000;

/// The exponent of one half.
pub const EXPONENT_HALF: u64 = 1022;

/// The lowest exponent from which on every number is whole.
pub const EXPONENT_WHOLE: u64 = 1075;

/// The value of one, in units of 2^-1074.
pub open spec fn one() -> nat {
    pow2(1074)
}

/// The multiple of `unit` nearest to `v`, and the larger one where two are as near.
pub open spec fn nearest(v: nat, unit: nat) -> nat {
    (((2 * v + unit) / (2 * unit)) * unit) as nat
}

/// The value of the whole number nearest to the value `v`, and of the one
/// further from zero where two are as near.
pub open spec fn whole(v: int) -> int {
    if v >= 0 {
        nearest(v as nat, one()) as int
    } else {
        -(nearest((-v) as nat, one()) as int)
    }
}

/// How far two values are apart.
pub open spec fn apart(a: int, b: int) -> nat {
    if a >= b {
        (a - b) as nat
    } else {
        (b - a) as nat
    }
}

/// How far `v` is from the nearest multiple of `unit`: the remainder of `v`,
/// or what is missing to the next multiple, whichever is less.
pub open spec fn off(v: int, unit: int) -> nat {
    let r = v % unit;
    if 2 * r < unit {
        r as nat
    } else {
        (unit - r) as nat
    }
}

/// Half of `v`, rounded to the nearest whole number, and to the even one
/// where two are as near.
pub open spec fn half_even(v: nat) -> nat {
    let q = v / 2;
    if v % 2 == 1 && q % 2 == 1 {
        q + 1
    } else {
        q
    }
}

/// Half of `x`, as IEEE 754 defines the product with one half: the exponent
/// is lowered by one where that leaves a normal number, the magnitude is
/// halved and rounded to even where it does not, and an infinity and what is
/// not a number stay as they are.
pub open spec fn halved(x: u64) -> u64 {
    let m = magnitude(x);
    if m >= INFINITY {
        x
    } else if m >= 2 * HIDDEN {
        (x - HIDDEN) as u64
    } else {
        (x - m + half_even(m)) as u64
    }
}

/// Twice `x`, as IEEE 754 defines the product with two: the exponent is
/// raised by one where `x` is a normal number, the magnitude is doubled where
/// `x` is below the normal numbers, an infinity takes the place of what
/// would be above all numbers, and an infinity and what is not a number stay
/// as they are.
pub open spec fn doubled(x: u64) -> u64 {
    let m = magnitude(x);
    if m >= INFINITY {
        x
    } else if m < HIDDEN {
        (x + m) as u64
    } else if m < INFINITY - HIDDEN {
        (x + HIDDEN) as u64
    } else {
        (x - m + INFINITY) as u64
    }
}

/// The value of one, by its factors.
pub proof fn lemma_one()
    ensures
        pow2(52) == HIDDEN,
        one() == HIDDEN * pow2(1022),
        one() == 2 * (HIDDEN * pow2(1021)),
        one() > 0,
{
    lemma2_to64_rest();
    lemma_pow2_adds(52, 1022);
    lemma_pow2_unfold(1022);
    lemma_pow2_pos(1074);
    let p = pow2(1021);
    assert(HIDDEN * (2 * p) == 2 * (HIDDEN * p)) by (nonlinear_arith);
}

/// The first magnitude of the exponent `e` stands for 2^52 * 2^(e - 1).
pub proof fn lemma_absolute_first(e: nat)
    requires
        e >= 1,
    ensures
        absolute(e * (HIDDEN as nat)) == HIDDEN * pow2((e - 1) as nat),
{
    let h = HIDDEN as nat;
    lemma_fundamental_div_mod_converse((e * h) as int, h as int, e as int, 0);
}

/// A magnitude below the second exponent stands for itself.
pub proof fn lemma_absolute_small(m: nat)
    requires
        m < 2 * HIDDEN,
    ensures
        absolute(m) == m,
{
    let h = HIDDEN as nat;
    if m >= h {
        assert(m / h == 1 && m % h == m - h) by {
            lemma_fundamental_div_mod_converse(
                m as int,
                h as int,
                1,
                m - h,
            );
        }
        lemma2_to64();
        assert((h + (m - h)) * 1 == m);
    } else {
        assert(m / h == 0 && m % h == m) by {
            lemma_fundamental_div_mod_converse(
                m as int,
                h as int,
                0,
                m as int,
            );
        }
    }
}

/// One exponent less stands for half the absolute value.
pub proof fn lemma_absolute_halves(m: nat)
    requires
        m >= 2 * HIDDEN,
    ensures
        absolute(m) == 2 * absolute((m - HIDDEN) as nat),
{
    let h = HIDDEN as nat;
    let (e, f) = (m / h, m % h);
    lemma_fundamental_div_mod(m as int, h as int);
    assert(e >= 2) by (nonlinear_arith)
        requires
            m == h * e + f,
            f < h,
            m >= 2 * h,
    ;
    assert((m - h) / (h as int) == e - 1 && (m - h) % (h as int) == f) by {
        assert(m - h == (e - 1) * h + f) by (nonlinear_arith)
            requires
                m == h * e + f,
        ;
        lemma_fundamental_div_mod_converse(
            m - h,
            h as int,
            e - 1,
            f as int,
        );
    }
    let p = pow2((e - 2) as nat);
    lemma_pow2_unfold((e - 1) as nat);
    assert((h + f) * (2 * p) == 2 * ((h + f) * p)) by (nonlinear_arith);
}

/// The nearest multiple of a scaled unit is the scaled nearest multiple of the unit.
pub proof fn lemma_nearest_scales(a: nat, u: nat, p: nat)
    requires
        u > 0,
        p > 0,
    ensures
        nearest(a * p, u * p) == nearest(a, u) * p,
{
    let q = (2 * a + u) / (2 * u);
    let r = (2 * a + u) % (2 * u);
    lemma_fundamental_div_mod((2 * a + u) as int, (2 * u) as int);
    assert(2 * (a * p) + u * p == q * (2 * (u * p)) + r * p && 0 <= r * p < 2 * (u * p)
        && 2 * (u * p) > 0) by (nonlinear_arith)
        requires
            2 * a + u == (2 * u) * q + r,
            0 <= r < 2 * u,
            p > 0,
            u > 0,
    ;
    lemma_fundamental_div_mod_converse(
        (2 * (a * p) + u * p) as int,
        (2 * (u * p)) as int,
        q as int,
        (r * p) as int,
    );
    assert(q * (u * p) == (q * u) * p) by (nonlinear_arith);
}

/// The nearest multiple of an even unit: add half the unit and leave out the remainder.
pub proof fn lemma_nearest_even(a: nat, w: nat)
    requires
        w > 0,
    ensures
        nearest(a, 2 * w) == ((a + w) / (2 * w)) * (2 * w),
{
    let q = (a + w) / (2 * w);
    let r = (a + w) % (2 * w);
    lemma_fundamental_div_mod((a + w) as int, (2 * w) as int);
    assert(2 * a + 2 * w == q * (2 * (2 * w)) + 2 * r) by (nonlinear_arith)
        requires
            a + w == (2 * w) * q + r,
    ;
    lemma_fundamental_div_mod_converse(
        (2 * a + 2 * w) as int,
        (2 * (2 * w)) as int,
        q as int,
        (2 * r) as int,
    );
}

/// A whole multiple of the unit is its own nearest multiple.
pub proof fn lemma_nearest_whole(c: nat, unit: nat)
    requires
        unit > 0,
    ensures
        nearest(c * unit, unit) == c * unit,
{
    assert(2 * (c * unit) + unit == c * (2 * unit) + unit) by (nonlinear_arith);
    lemma_fundamental_div_mod_converse(
        (2 * (c * unit) + unit) as int,
        (2 * unit) as int,
        c as int,
        unit as int,
    );
}

/// Between the exponents of one and of the whole numbers, rounding adds half
/// of the weight `2^k` of the lowest whole bit to the magnitude and leaves
/// out the `k` bits below it.
pub proof fn lemma_round_between(m: nat, k: nat)
    requires
        1 <= k <= 52,
        m / (HIDDEN as nat) == EXPONENT_WHOLE - k,
    ensures
        absolute((((m + pow2((k - 1) as nat)) / pow2(k)) * pow2(k)) as nat) == nearest(
            absolute(m),
            one(),
        ),
{
    let h = HIDDEN as nat;
    let e = (EXPONENT_WHOLE - k) as nat;
    let f = m % h;
    let u = pow2(k);
    let w = pow2((k - 1) as nat);
    let c = pow2((52 - k) as nat);
    let p = pow2((e - 1) as nat);
    lemma_one();
    lemma_pow2_unfold(k);
    lemma_pow2_pos((k - 1) as nat);
    lemma_pow2_pos((e - 1) as nat);
    lemma_pow2_adds(k, (52 - k) as nat);
    lemma_pow2_adds(k, (e - 1) as nat);
    assert(u == 2 * w && w > 0 && p > 0 && h == u * c && one() == u * p);
    lemma_fundamental_div_mod(m as int, h as int);
    assert(m == h * e + f && f < h);

    // the magnitude, rounded
    let t = (f + w) / u;
    let rest = (f + w) % u;
    lemma_fundamental_div_mod((f + w) as int, u as int);
    assert(m + w == (e * c + t) * u + rest) by (nonlinear_arith)
        requires
            m == h * e + f,
            h == u * c,
            f + w == u * t + rest,
    ;
    lemma_fundamental_div_mod_converse((m + w) as int, u as int, (e * c + t) as int, rest as int);
    let g = t * u;
    let r = ((m + w) / u) * u;
    assert(r == e * h + g) by (nonlinear_arith)
        requires
            r == (e * c + t) * u,
            h == u * c,
            g == t * u,
    ;
    assert(t <= c) by (nonlinear_arith)
        requires
            f + w == u * t + rest,
            f < u * c,
            u == 2 * w,
            w > 0,
            rest >= 0,
    ;
    assert(absolute(r) == (h + g) * p) by {
        if t < c {
            assert(g < h) by (nonlinear_arith)
                requires
                    g == t * u,
                    h == u * c,
                    t < c,
                    u > 0,
            ;
            lemma_fundamental_div_mod_converse(r as int, h as int, e as int, g as int);
        } else {
            assert(g == h) by (nonlinear_arith)
                requires
                    g == t * u,
                    h == u * c,
                    t == c,
            ;
            assert(r == (e + 1) * h) by (nonlinear_arith)
                requires
                    r == e * h + g,
                    g == h,
            ;
            lemma_absolute_first(e + 1);
            lemma_pow2_unfold(e);
            assert(h * (2 * p) == (h + h) * p) by (nonlinear_arith);
        }
    }

    // the value, rounded
    assert(absolute(m) == (h + f) * p);
    lemma_nearest_scales(h + f, u, p);
    lemma_nearest_even(h + f, w);
    assert(h + f + w == (c + t) * u + rest) by (nonlinear_arith)
        requires
            h == u * c,
            f + w == u * t + rest,
    ;
    lemma_fundamental_div_mod_converse(
        (h + f + w) as int,
        u as int,
        (c + t) as int,
        rest as int,
    );
    assert(((c + t) * u) * p == (h + g) * p) by (nonlinear_arith)
        requires
            h == u * c,
            g == t * u,
    ;
}

/// Halves `x`. The result is a number of the sign of `x` wherever `x` is a
/// finite number, and stands for half its value, rounded to even where that
/// half is no value of a number: that is so only below twice the smallest
/// normal number.
pub fn half(x: u64) -> (r: u64)
    ensures
        r == halved(x),
        magnitude(x) >= INFINITY ==> r == x,
        magnitude(x) < INFINITY ==> magnitude(r) < INFINITY && negative(r) == negative(x)
            && absolute(magnitude(r)) == half_even(absolute(magnitude(x))),
        2 * HIDDEN <= magnitude(x) < INFINITY ==> 2 * value(r) == value(x),
{
    let m: u64 = if x >= SIGN {
        x - SIGN
    } else {
        x
    };
    if m >= INFINITY {
        x
    } else if m >= 2 * HIDDEN {
        proof {
            lemma_absolute_halves(m as nat);
        }
        x - HIDDEN
    } else {
        let q: u64 = m / 2;
        let r: u64 = if m % 2 == 1 && q % 2 == 1 {
            q + 1
        } else {
            q
        };
        proof {
            lemma_absolute_small(m as nat);
            lemma_absolute_small(r as nat);
        }
        x - m + r
    }
}

/// Doubles `x`. The result has the sign of `x` wherever `x` is a number, and
/// stands for twice its value, or is an infinity where twice its value is
/// above all numbers.
pub fn double(x: u64) -> (r: u64)
    ensures
        r == doubled(x),
        magnitude(x) >= INFINITY ==> r == x,
        magnitude(x) < INFINITY - HIDDEN ==> magnitude(r) < INFINITY && negative(r) == negative(x)
            && value(r) == 2 * value(x),
        INFINITY - HIDDEN <= magnitude(x) < INFINITY ==> magnitude(r) == INFINITY && negative(r)
            == negative(x),
{
    let m: u64 = if x >= SIGN {
        x - SIGN
    } else {
        x
    };
    if m >= INFINITY {
        x
    } else if m < HIDDEN {
        proof {
            lemma_absolute_small(m as nat);
            lemma_absolute_small((2 * m) as nat);
        }
        x + m
    } else if m < INFINITY - HIDDEN {
        proof {
            lemma_absolute_halves((m + HIDDEN) as nat);
        }
        x + HIDDEN
    } else {
        x - m + INFINITY
    }
}

/// The magnitude of the rounded number, for the magnitude `m` of a finite
/// number: `m` itself from the exponent on where every number is whole, zero
/// below one half, one from one half to below one, and in between `m` with
/// half of the weight of its lowest whole bit added and the bits below that
/// bit left out.
pub open spec fn rounded(m: nat) -> nat {
    let e = m / (HIDDEN as nat);
    if e >= EXPONENT_WHOLE {
        m
    } else if e < EXPONENT_HALF {
        0
    } else if e == EXPONENT_HALF {
        ONE as nat
    } else {
        let k = (EXPONENT_WHOLE - e) as nat;
        (((m + pow2((k - 1) as nat)) / pow2(k)) * pow2(k)) as nat
    }
}

/// From the exponent on where every number is whole, a number is its own
/// nearest whole number.
pub proof fn lemma_round_whole(m: nat)
    requires
        m / (HIDDEN as nat) >= EXPONENT_WHOLE,
    ensures
        absolute(m) == nearest(absolute(m), one()),
{
    let h = HIDDEN as nat;
    let e = m / h;
    let f = m % h;
    let up = pow2((e - EXPONENT_WHOLE) as nat);
    lemma_one();
    lemma_pow2_adds((e - EXPONENT_WHOLE) as nat, 1074);
    assert(pow2((e - 1) as nat) == up * one());
    let c = (h + f) * up;
    assert(absolute(m) == c * one()) by (nonlinear_arith)
        requires
            absolute(m) == (h + f) * pow2((e - 1) as nat),
            pow2((e - 1) as nat) == up * one(),
            c == (h + f) * up,
    ;
    lemma_nearest_whole(c, one());
}

/// Below one half, the nearest whole number is zero.
pub proof fn lemma_round_below_half(m: nat)
    requires
        m / (HIDDEN as nat) < EXPONENT_HALF,
    ensures
        nearest(absolute(m), one()) == 0,
{
    let h = HIDDEN as nat;
    lemma_one();
    lemma_fundamental_div_mod(m as int, h as int);
    assert(m < 1022 * h) by (nonlinear_arith)
        requires
            m == h * (m / h) + m % h,
            m % h < h,
            m / h < 1022,
            h > 0,
    ;
    lemma_absolute_increases(m, EXPONENT_HALF as nat * h);
    lemma_absolute_first(EXPONENT_HALF as nat);
    let v = absolute(m);
    assert(2 * v < one());
    lemma_fundamental_div_mod_converse(
        (2 * v + one()) as int,
        (2 * one()) as int,
        0,
        (2 * v + one()) as int,
    );
}

/// From one half to below one, the nearest whole number is one.
pub proof fn lemma_round_from_half(m: nat)
    requires
        m / (HIDDEN as nat) == EXPONENT_HALF,
    ensures
        nearest(absolute(m), one()) == one(),
        absolute(ONE as nat) == one(),
{
    let h = HIDDEN as nat;
    lemma_one();
    lemma_fundamental_div_mod(m as int, h as int);
    assert(1022 * h <= m < 1023 * h) by (nonlinear_arith)
        requires
            m == h * (m / h) + m % h,
            0 <= m % h < h,
            m / h == 1022,
    ;
    if m > EXPONENT_HALF * h {
        lemma_absolute_increases(EXPONENT_HALF as nat * h, m);
    }
    lemma_absolute_increases(m, 1023 * h);
    lemma_absolute_first(EXPONENT_HALF as nat);
    lemma_absolute_first(1023);
    let v = absolute(m);
    assert(one() <= 2 * v < 2 * one());
    lemma_fundamental_div_mod_converse(
        (2 * v + one()) as int,
        (2 * one()) as int,
        1,
        (2 * v - one()) as int,
    );
    assert(1 * one() == one());
}

/// The rounded magnitude is that of a finite number and stands for the
/// nearest whole number.
pub proof fn lemma_rounded(m: nat)
    requires
        m < INFINITY,
    ensures
        rounded(m) < INFINITY,
        absolute(rounded(m)) == nearest(absolute(m), one()),
{
    let h = HIDDEN as nat;
    let e = m / h;
    lemma_fundamental_div_mod(m as int, h as int);
    if e >= EXPONENT_WHOLE {
        lemma_round_whole(m);
    } else if e < EXPONENT_HALF {
        lemma_round_below_half(m);
        lemma_absolute_small(0);
    } else if e == EXPONENT_HALF {
        lemma_round_from_half(m);
    } else {
        let k = (EXPONENT_WHOLE - e) as nat;
        lemma_round_between(m, k);
        // at most half a unit above the magnitude, which has an exponent below that of the whole numbers
        let u = pow2(k);
        let w = pow2((k - 1) as nat);
        lemma_pow2_unfold(k);
        lemma_pow2_pos((k - 1) as nat);
        lemma_pow2_strictly_increases((k - 1) as nat, 52);
        lemma2_to64_rest();
        lemma_fundamental_div_mod((m + w) as int, u as int);
        lemma_mod_bound((m + w) as int, u as int);
        assert(((m + w) / u) * u <= m + w) by (nonlinear_arith)
            requires
                m + w == u * ((m + w) / u) + (m + w) % u,
                (m + w) % u >= 0,
        ;
        assert(m < 1075 * h) by (nonlinear_arith)
            requires
                m == h * e + m % h,
                m % h < h,
                e < 1075,
                h > 0,
        ;
    }
}

/// A number of the sign of `x` whose magnitude stands for the whole number
/// nearest to the absolute value of `x` has the value of the whole number
/// nearest to `x`.
pub proof fn lemma_whole_value(x: u64, r: u64)
    requires
        negative(r) == negative(x),
        absolute(magnitude(r)) == nearest(absolute(magnitude(x)), one()),
    ensures
        value(r) == whole(value(x)),
{
    lemma_one();
    lemma_nearest_whole(0, one());
}

/// Rounds `x` to the nearest whole number, and away from zero where two are
/// as near. The result has the sign of `x`; an infinity and what is not a
/// number stay as they are.
pub fn round(x: u64) -> (r: u64)
    ensures
        magnitude(x) >= INFINITY ==> r == x,
        magnitude(x) < INFINITY ==> magnitude(r) == rounded(magnitude(x)) && magnitude(r)
            < INFINITY && negative(r) == negative(x),
        magnitude(x) < INFINITY ==> value(r) == whole(value(x)),
{
    let m: u64 = if x >= SIGN {
        x - SIGN
    } else {
        x
    };
    if m >= INFINITY {
        return x;
    }
    let e: u64 = m / HIDDEN;
    let whole: u64 = if e >= EXPONENT_WHOLE {
        m
    } else if e < EXPONENT_HALF {
        0
    } else if e == EXPONENT_HALF {
        ONE
    } else {
        round_between(m, EXPONENT_WHOLE - e)
    };
    proof {
        lemma_rounded(m as nat);
    }
    let r: u64 = x - m + whole;
    proof {
        lemma_whole_value(x, r);
    }
    r
}

/// Adds half of `2^k` to `m` and leaves out the `k` lowest bits of the sum.
fn round_between(m: u64, k: u64) -> (r: u64)
    requires
        1 <= k <= 52,
        m < INFINITY,
    ensures
        r == ((m as nat + pow2((k - 1) as nat)) / pow2(k as nat)) * pow2(k as nat),
{
    proof {
        vstd::bits::lemma_u64_pow2_no_overflow(k as nat);
        vstd::bits::lemma_u64_shl_is_mul(1, k);
        lemma_pow2_unfold(k as nat);
        lemma_pow2_pos((k - 1) as nat);
        lemma_pow2_strictly_increases(k as nat, 53);
        lemma2_to64_rest();
    }
    let unit: u64 = 1u64 << k;
    assert(unit == pow2(k as nat) && unit / 2 == pow2((k - 1) as nat) && unit < 0x20_0000_0000_0000);
    let whole: u64 = (m + unit / 2) / unit;
    proof {
        lemma_fundamental_div_mod((m + unit / 2) as int, unit as int);
        lemma_mod_bound((m + unit / 2) as int, unit as int);
        assert(whole * unit <= m + unit / 2) by (nonlinear_arith)
            requires
                m + unit / 2 == unit * whole + (m + unit / 2) % (unit as int),
                (m + unit / 2) % (unit as int) >= 0,
        ;
    }
    whole * unit
}

/// A value is as far from its nearest multiple as `off` says.
pub proof fn lemma_nearest_off(v: nat, unit: nat)
    requires
        unit > 0,
    ensures
        apart(v as int, nearest(v, unit) as int) == off(v as int, unit as int),
{
    let q = v / unit;
    let r = v % unit;
    lemma_fundamental_div_mod(v as int, unit as int);
    if 2 * r < unit {
        assert(2 * v + unit == q * (2 * unit) + (2 * r + unit)) by (nonlinear_arith)
            requires
                v == unit * q + r,
        ;
        lemma_fundamental_div_mod_converse(
            (2 * v + unit) as int,
            (2 * unit) as int,
            q as int,
            (2 * r + unit) as int,
        );
        assert(q * unit + r == v) by (nonlinear_arith)
            requires
                v == unit * q + r,
        ;
    } else {
        assert(2 * v + unit == (q + 1) * (2 * unit) + (2 * r - unit)) by (nonlinear_arith)
            requires
                v == unit * q + r,
        ;
        lemma_fundamental_div_mod_converse(
            (2 * v + unit) as int,
            (2 * unit) as int,
            (q + 1) as int,
            (2 * r - unit) as int,
        );
        assert((q + 1) * unit - (unit - r) == v) by (nonlinear_arith)
            requires
                v == unit * q + r,
        ;
    }
}

/// A value and its opposite are as far from their nearest multiples.
pub proof fn lemma_off_mirrors(v: int, unit: int)
    requires
        unit > 0,
    ensures
        off(-v, unit) == off(v, unit),
{
    let q = v / unit;
    let r = v % unit;
    lemma_fundamental_div_mod(v, unit);
    lemma_mod_bound(v, unit);
    if r == 0 {
        assert(-v == (-q) * unit + 0) by (nonlinear_arith)
            requires
                v == unit * q + r,
                r == 0,
        ;
        lemma_fundamental_div_mod_converse(-v, unit, -q, 0);
    } else {
        assert(-v == (-q - 1) * unit + (unit - r)) by (nonlinear_arith)
            requires
                v == unit * q + r,
        ;
        lemma_fundamental_div_mod_converse(-v, unit, -q - 1, unit - r);
    }
}

/// A value moved by a multiple of the unit is as far from its nearest multiple as before.
pub proof fn lemma_off_repeats(v: int, n: int, unit: int)
    requires
        unit > 0,
    ensures
        off(v + n * unit, unit) == off(v, unit),
{
    let q = v / unit;
    let r = v % unit;
    lemma_fundamental_div_mod(v, unit);
    lemma_mod_bound(v, unit);
    assert(v + n * unit == (q + n) * unit + r) by (nonlinear_arith)
        requires
            v == unit * q + r,
    ;
    lemma_fundamental_div_mod_converse(v + n * unit, unit, q + n, r);
}

/// A value is as far from its nearest whole number as `off` says, and never
/// further than one half.
pub proof fn lemma_whole_off(v: int)
    ensures
        apart(v, whole(v)) == off(v, one() as int),
        2 * apart(v, whole(v)) <= one(),
{
    lemma_one();
    lemma_mod_bound(v, one() as int);
    if v >= 0 {
        lemma_nearest_off(v as nat, one());
    } else {
        lemma_nearest_off((-v) as nat, one());
        lemma_off_mirrors(v, one() as int);
    }
}

/// The nearest whole number moves with the value: a value moved by a whole
/// number `n` is as far from its nearest whole number as before. For a
/// displacement in box lengths this is the periodicity of the nearest image,
/// in exact values.
pub proof fn lemma_whole_is_periodic(v: int, n: int)
    ensures
        apart(v + n * one(), whole(v + n * one())) == apart(v, whole(v)),
{
    lemma_one();
    lemma_whole_off(v);
    lemma_whole_off(v + n * one());
    lemma_off_repeats(v, n, one() as int);
}

} // verus!
