//! Binary64 numbers by their bit patterns: equality, order, and integers among them.
use crate::value::Float;
use vstd::prelude::*;

verus! {

/// The weight of the sign bit.
pub const SIGN: u64 = 0x8000_0000_0000_0000;

/// The bit pattern of infinity.
pub const INFINITY: u64 = 0x7ff0_0000_0000_0000;

/// The weight of the exponent's last bit.
pub const UNIT: u64 = 0x0010_0000_0000_0000;

/// The bits without the sign.
pub open spec fn magnitude(x: Float) -> int {
    if x.bits >= SIGN {
        x.bits - SIGN
    } else {
        x.bits as int
    }
}

/// Not a number.
pub open spec fn is_nan(x: Float) -> bool {
    magnitude(x) > INFINITY
}

/// Where a number stands among all numbers; both zeros stand at zero.
pub open spec fn rank(x: Float) -> int {
    if x.bits >= SIGN {
        -magnitude(x)
    } else {
        magnitude(x)
    }
}

/// Equality of numbers: the zeros are equal, and what is not a number equals nothing.
pub open spec fn same(x: Float, y: Float) -> bool {
    !is_nan(x) && !is_nan(y) && rank(x) == rank(y)
}

/// The bits without the sign.
fn magnitude_of(x: Float) -> (r: u64)
    ensures
        r == magnitude(x),
{
    if x.bits >= SIGN {
        x.bits - SIGN
    } else {
        x.bits
    }
}

/// True of what is not a number.
pub fn nan(x: Float) -> (r: bool)
    ensures
        r == is_nan(x),
{
    magnitude_of(x) > INFINITY
}

/// Where a number stands among all numbers.
pub fn rank_of(x: Float) -> (r: i128)
    ensures
        r == rank(x),
{
    let m: i128 = magnitude_of(x) as i128;
    if x.bits >= SIGN {
        -m
    } else {
        m
    }
}

/// True when the numbers are equal.
pub fn equal(x: Float, y: Float) -> (r: bool)
    ensures
        r == same(x, y),
{
    !nan(x) && !nan(y) && rank_of(x) == rank_of(y)
}

/// The largest power of two up to `m`.
pub open spec fn leading(m: nat) -> nat
    decreases m,
{
    if m < 2 {
        1
    } else {
        2 * leading(m / 2)
    }
}

/// The position of the leading bit of `m`.
pub open spec fn exponent(m: nat) -> nat
    decreases m,
{
    if m < 2 {
        0
    } else {
        1 + exponent(m / 2)
    }
}

/// `m` divided by `d`, to the nearest integer; a tie goes to the even one.
pub open spec fn nearest(m: nat, d: nat) -> nat {
    let q = m / d;
    let r = m % d;
    if 2 * r > d || (2 * r == d && q % 2 == 1) {
        q + 1
    } else {
        q
    }
}

/// The significand of `m`, scaled to 53 bits and rounded to the nearest; a carry makes it 2^53.
pub open spec fn significand(m: nat) -> nat {
    let p = leading(m);
    if p <= UNIT {
        m * (UNIT as nat / p)
    } else {
        nearest(m, p / UNIT as nat)
    }
}

/// The bits of the number nearest to the positive integer `m`.
pub open spec fn bits_of(m: nat) -> int {
    (1023 + exponent(m)) * UNIT + (significand(m) - UNIT)
}

/// The number nearest to an integer.
pub open spec fn of_int(n: int) -> int {
    if n == 0 {
        0
    } else if n > 0 {
        bits_of(n as nat)
    } else {
        SIGN + bits_of((-n) as nat)
    }
}

/// The power of two with the given exponent.
pub open spec fn power(e: nat) -> nat
    decreases e,
{
    if e == 0 {
        1
    } else {
        2 * power((e - 1) as nat)
    }
}

/// The leading power of two of a number bounds it.
proof fn lemma_leading(m: nat)
    requires
        1 <= m,
    ensures
        leading(m) <= m < 2 * leading(m),
        leading(m) == power(exponent(m)),
    decreases m,
{
    if m >= 2 {
        lemma_leading(m / 2);
    }
}

/// Powers are positive and grow.
proof fn lemma_power_grows(a: nat, b: nat)
    ensures
        power(a) >= 1,
        a < b ==> 2 * power(a) <= power(b),
    decreases a + b,
{
    if a > 0 {
        lemma_power_grows((a - 1) as nat, 0);
    }
    if a < b {
        if a + 1 < b {
            lemma_power_grows(a, (b - 1) as nat);
        }
    }
}

/// Exponents add up.
proof fn lemma_power_adds(a: nat, b: nat)
    ensures
        power(a + b) == power(a) * power(b),
    decreases a,
{
    if a > 0 {
        lemma_power_adds((a - 1) as nat, b);
        assert(power(a + b) == 2 * power((a - 1) as nat + b));
        assert(2 * (power((a - 1) as nat) * power(b)) == (2 * power((a - 1) as nat)) * power(b))
            by (nonlinear_arith);
    } else {
        assert(power(a) * power(b) == power(b)) by (nonlinear_arith)
            requires
                power(a) == 1,
        ;
    }
}

/// A power of two is the leading one of every number from it up to its double.
proof fn lemma_leading_is(m: nat, e: nat)
    requires
        power(e) <= m < 2 * power(e),
    ensures
        leading(m) == power(e),
        exponent(m) == e,
{
    lemma_power_grows(e, e);
    lemma_leading(m);
    let f = exponent(m);
    lemma_power_grows(e, f);
    lemma_power_grows(f, e);
}

/// What the scaling of a significand comes to.
proof fn lemma_scale(m: nat, e: nat)
    requires
        power(e) <= m < 2 * power(e),
        e <= 63,
    ensures
        power(52) == UNIT,
        e <= 52 ==> power(e) <= UNIT && UNIT as nat / power(e) == power((52 - e) as nat)
            && UNIT <= m * power((52 - e) as nat) < 2 * UNIT,
        e > 52 ==> power(e) > UNIT && power(e) / UNIT as nat == power((e - 52) as nat) && power(
            (e - 52) as nat,
        ) >= 2 && UNIT <= m / power((e - 52) as nat) < 2 * UNIT,
{
    assert(power(52) == UNIT) by {
        reveal_with_fuel(power, 53);
    }
    if e <= 52 {
        let d = power((52 - e) as nat);
        let p = power(e);
        lemma_power_adds((52 - e) as nat, e);
        lemma_power_grows((52 - e) as nat, 0);
        lemma_power_grows(e, 52);
        assert(UNIT as nat / p == d) by (nonlinear_arith)
            requires
                d * p == UNIT as nat,
                p >= 1,
        ;
        assert(UNIT <= m * d < 2 * UNIT) by (nonlinear_arith)
            requires
                d * p == UNIT as nat,
                p <= m < 2 * p,
                d >= 1,
        ;
    } else {
        let d = power((e - 52) as nat);
        let p = power(e);
        lemma_power_adds((e - 52) as nat, 52);
        lemma_power_grows(0, (e - 52) as nat);
        lemma_power_grows(52, e);
        assert(p / UNIT as nat == d) by (nonlinear_arith)
            requires
                d * UNIT as nat == p,
        ;
        assert(UNIT <= m / d < 2 * UNIT) by (nonlinear_arith)
            requires
                d * UNIT as nat == p,
                p <= m < 2 * p,
                d >= 1,
        ;
    }
}

/// The weight of the sign bit.
proof fn lemma_power_sign()
    ensures
        power(63) == SIGN,
{
    assert(power(7) == 128) by {
        reveal_with_fuel(power, 8);
    }
    lemma_power_adds(7, 7);
    assert(power(7) * power(7) == 16384) by (nonlinear_arith)
        requires
            power(7) == 128,
            power(7) == 128,
    ;
    lemma_power_adds(14, 14);
    assert(power(14) * power(14) == 268435456) by (nonlinear_arith)
        requires
            power(14) == 16384,
            power(14) == 16384,
    ;
    lemma_power_adds(28, 28);
    assert(power(28) * power(28) == 72057594037927936) by (nonlinear_arith)
        requires
            power(28) == 268435456,
            power(28) == 268435456,
    ;
    lemma_power_adds(56, 7);
    assert(power(56) * power(7) == 9223372036854775808) by (nonlinear_arith)
        requires
            power(56) == 72057594037927936,
            power(7) == 128,
    ;
}

/// The bits of the number nearest to a positive integer up to 2^63.
fn positive(m: u64) -> (r: u64)
    requires
        1 <= m <= SIGN,
    ensures
        r == bits_of(m as nat),
        r < INFINITY,
{
    let mut p: u64 = 1;
    let mut e: u64 = 0;
    proof {
        reveal_with_fuel(power, 1);
    }
    while m / 2 >= p
        invariant
            p == power(e as nat),
            1 <= p <= m <= SIGN,
            e < 64,
        decreases m - p,
    {
        p = p * 2;
        e = e + 1;
        proof {
            lemma_power_grows(63, e as nat);
            lemma_power_sign();
        }
    }
    proof {
        lemma_leading_is(m as nat, e as nat);
        lemma_scale(m as nat, e as nat);
    }
    let s: u64 = if e <= 52 {
        m * (UNIT / p)
    } else {
        let d = p / UNIT;
        let q = m / d;
        let rest = m % d;
        if rest > d - rest || (rest == d - rest && q % 2 == 1) {
            q + 1
        } else {
            q
        }
    };
    (1023 + e) * UNIT + (s - UNIT)
}

/// The number nearest to an integer; a tie goes to the even significand.
pub fn from_int(n: i64) -> (r: Float)
    ensures
        r.bits == of_int(n as int),
        !is_nan(r),
{
    if n == 0 {
        Float { bits: 0 }
    } else if n > 0 {
        Float { bits: positive(n as u64) }
    } else if n == i64::MIN {
        Float { bits: SIGN + positive(SIGN) }
    } else {
        Float { bits: SIGN + positive((-n) as u64) }
    }
}

/// The number with the other sign.
pub open spec fn opposite(x: Float) -> Float {
    Float { bits: (if x.bits >= SIGN { x.bits - SIGN } else { x.bits + SIGN }) as u64 }
}

/// The number with the other sign.
pub fn negate(x: Float) -> (r: Float)
    ensures
        r == opposite(x),
{
    Float {
        bits: if x.bits >= SIGN {
            x.bits - SIGN
        } else {
            x.bits + SIGN
        },
    }
}

/// The nearest integer to a quotient grows with what is divided.
proof fn lemma_nearest_grows(a: nat, b: nat, d: nat)
    requires
        a <= b,
        d >= 1,
    ensures
        nearest(a, d) <= nearest(b, d),
{
    let p = a / d;
    let q = b / d;
    assert(p <= q) by (nonlinear_arith)
        requires
            a <= b,
            d >= 1,
            p == a / d,
            q == b / d,
    ;
    if p == q {
        assert(a == d * p + a % d && b == d * q + b % d) by (nonlinear_arith)
            requires
                d >= 1,
                p == a / d,
                q == b / d,
        ;
        assert(d * p == d * q);
    }
}

/// The bits of the nearest number grow with a positive integer.
proof fn lemma_bits_grow(a: nat, b: nat)
    requires
        1 <= a <= b <= SIGN,
    ensures
        0 < bits_of(a) <= bits_of(b) < INFINITY,
{
    let e = exponent(a);
    let f = exponent(b);
    lemma_leading(a);
    lemma_leading(b);
    lemma_power_sign();
    lemma_power_grows(63, f);
    lemma_power_grows(63, e);
    lemma_power_grows(f, e);
    assert(f <= 63);
    assert(e <= f);
    lemma_scale(a, e);
    lemma_scale(b, f);
    lemma_significand(a, e);
    lemma_significand(b, f);
    if e == f {
        if e <= 52 {
            let d = power((52 - e) as nat);
            assert(a * d <= b * d) by (nonlinear_arith)
                requires
                    a <= b,
            ;
        } else {
            lemma_nearest_grows(a, b, power((e - 52) as nat));
        }
    }
}

/// A significand has 53 bits, or is the power of two behind them.
proof fn lemma_significand(m: nat, e: nat)
    requires
        power(e) <= m < 2 * power(e),
        e <= 63,
        leading(m) == power(e),
    ensures
        UNIT <= significand(m) <= 2 * UNIT,
        e <= 52 ==> significand(m) == m * power((52 - e) as nat),
        e > 52 ==> significand(m) == nearest(m, power((e - 52) as nat)),
{
    lemma_scale(m, e);
}

/// A larger integer has no smaller nearest number, and none is what is not a number.
pub proof fn nearest_numbers_stand_as_their_integers(a: i64, b: i64)
    requires
        a <= b,
    ensures
        0 <= of_int(a as int) <= 0xffff_ffff_ffff_ffff,
        0 <= of_int(b as int) <= 0xffff_ffff_ffff_ffff,
        !is_nan(Float { bits: of_int(a as int) as u64 }),
        !is_nan(Float { bits: of_int(b as int) as u64 }),
        rank(Float { bits: of_int(a as int) as u64 }) <= rank(
            Float { bits: of_int(b as int) as u64 },
        ),
{
    if a > 0 {
        lemma_bits_grow(a as nat, b as nat);
    } else if b < 0 {
        lemma_bits_grow((-b) as nat, (-a) as nat);
    } else {
        if a < 0 {
            lemma_bits_grow((-a) as nat, (-a) as nat);
        }
        if b > 0 {
            lemma_bits_grow(b as nat, b as nat);
        }
    }
}

} // verus!
