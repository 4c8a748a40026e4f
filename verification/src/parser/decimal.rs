//! Decimal numbers: what their digits, point and exponent stand for, and how that lies in the
//! range of binary64.
use crate::order;
use crate::order::Place;
use crate::parser::literal;
use crate::text;
use vstd::prelude::*;

verus! {

/// The text of a number without its sign.
pub open spec fn unsigned(t: Seq<char>) -> Seq<char> {
    if t.len() > 0 && t[0] == '-' {
        t.drop_first()
    } else {
        t
    }
}

/// Where one of two characters first stands from `from` on, or the end of the text.
pub open spec fn first_at(t: Seq<char>, from: int, a: char, b: char) -> int
    decreases t.len() - from,
{
    if from >= t.len() || t[from] == a || t[from] == b {
        from
    } else {
        first_at(t, from + 1, a, b)
    }
}

/// The number that the digits in a text stand for, whatever stands between them.
pub open spec fn worth(s: Seq<char>) -> nat
    decreases s.len(),
{
    if s.len() == 0 {
        0
    } else {
        match literal::digit_of(s.last(), 10) {
            Some(d) => worth(s.drop_last()) * 10 + d,
            None => worth(s.drop_last()),
        }
    }
}

/// A number in front of its exponent.
pub open spec fn front(t: Seq<char>) -> Seq<char> {
    t.take(first_at(t, 0, 'e', 'E'))
}

/// How many characters stand behind the point.
pub open spec fn places(s: Seq<char>) -> int {
    let at = first_at(s, 0, '.', '.');
    if at < s.len() {
        s.len() - at - 1
    } else {
        0
    }
}

/// The exponent of a number, 0 where it has none.
pub open spec fn exponent(t: Seq<char>) -> int {
    let at = first_at(t, 0, 'e', 'E');
    let n = worth(t.skip(at + 1)) as int;
    if at >= t.len() {
        0
    } else if at + 1 < t.len() && t[at + 1] == '-' {
        -n
    } else {
        n
    }
}

/// The digits of a number's text as one integer.
pub open spec fn digits(t: Seq<char>) -> nat {
    worth(front(unsigned(t)))
}

/// The power of ten that the digits of a number's text are multiplied by.
pub open spec fn shift(t: Seq<char>) -> int {
    exponent(unsigned(t)) - places(front(unsigned(t)))
}

/// How `m` times the power `x` of ten stands to `c`.
pub open spec fn compared(m: nat, x: int, c: nat) -> Place {
    if x >= 0 {
        order::by_number(m * vstd::arithmetic::power::pow(10, x as nat), c as int)
    } else {
        order::by_number(m as int, c * vstd::arithmetic::power::pow(10, (-x) as nat))
    }
}

/// Half way between the largest binary64 number and the power of two behind it.
pub open spec fn limit() -> nat {
    (vstd::arithmetic::power2::pow2(1024) - vstd::arithmetic::power2::pow2(970)) as nat
}

/// The nearest binary64 number is infinite.
pub open spec fn too_large(t: Seq<char>) -> bool {
    compared(digits(t), shift(t), limit()) != Place::Before
}

/// The nearest binary64 number is zero: the number is at most half the least one above zero,
/// the power -1075 of two.
pub open spec fn rounds_to_zero(t: Seq<char>) -> bool {
    if shift(t) >= 0 {
        digits(t) == 0
    } else {
        digits(t) * vstd::arithmetic::power2::pow2(1075) <= vstd::arithmetic::power::pow(
            10,
            (-shift(t)) as nat,
        )
    }
}

/// A number's text, without the sign where the number rounds to zero.
pub open spec fn without_signed_zero(t: Seq<char>) -> Seq<char> {
    if rounds_to_zero(t) {
        unsigned(t)
    } else {
        t
    }
}

/// The number that digits stand for, the highest in front.
pub open spec fn total(v: Seq<u8>) -> nat
    decreases v.len(),
{
    if v.len() == 0 {
        0
    } else {
        total(v.drop_last()) * 10 + v.last() as nat
    }
}

/// Decimal digits.
pub open spec fn are_digits(v: Seq<u8>) -> bool {
    forall|i: int| 0 <= i < v.len() ==> #[trigger] v[i] <= 9
}

/// Decimal digits without a leading zero.
pub open spec fn is_trim(v: Seq<u8>) -> bool {
    are_digits(v) && (v.len() > 0 ==> v[0] > 0)
}

/// The power of ten.
spec fn ten(n: int) -> int {
    vstd::arithmetic::power::pow(10, n as nat)
}

proof fn lemma_ten(n: int)
    requires
        n >= 0,
    ensures
        ten(n) >= 1,
        ten(0) == 1,
        ten(n + 1) == 10 * ten(n),
{
    vstd::arithmetic::power::lemma_pow_positive(10, n as nat);
    vstd::arithmetic::power::lemma_pow0(10);
    vstd::arithmetic::power::lemma_pow1(10);
    vstd::arithmetic::power::lemma_pow_adds(10, 1, n as nat);
}

proof fn lemma_once(m: int)
    ensures
        m * ten(0) == m,
{
    lemma_ten(0);
    let p = ten(0);
    assert(m * p == m) by (nonlinear_arith)
        requires
            p == 1,
    ;
}

proof fn lemma_ten_sum(a: int, b: int)
    requires
        a >= 0,
        b >= 0,
    ensures
        ten(a + b) == ten(a) * ten(b),
{
    vstd::arithmetic::power::lemma_pow_adds(10, a as nat, b as nat);
}

proof fn lemma_ten_grows(a: int, b: int)
    requires
        0 <= a <= b,
    ensures
        ten(a) <= ten(b),
{
    vstd::arithmetic::power::lemma_pow_increases(10, a as nat, b as nat);
}

/// A larger base has no smaller power.
proof fn lemma_base(a: int, b: int, e: nat)
    requires
        0 <= a <= b,
    ensures
        0 <= vstd::arithmetic::power::pow(a, e) <= vstd::arithmetic::power::pow(b, e),
    decreases e,
{
    reveal(vstd::arithmetic::power::pow);
    if e > 0 {
        lemma_base(a, b, (e - 1) as nat);
        let p = vstd::arithmetic::power::pow(a, (e - 1) as nat);
        let q = vstd::arithmetic::power::pow(b, (e - 1) as nat);
        assert(0 <= a * p <= b * q) by (nonlinear_arith)
            requires
                0 <= a <= b,
                0 <= p <= q,
        ;
    }
}

/// Digits side by side.
proof fn lemma_total_cat(a: Seq<u8>, b: Seq<u8>)
    ensures
        total(a + b) == total(a) * ten(b.len() as int) + total(b),
    decreases b.len(),
{
    if b.len() == 0 {
        lemma_ten(0);
        lemma_once(total(a) as int);
        assert(a + b =~= a);
    } else {
        lemma_total_cat(a, b.drop_last());
        lemma_ten(b.len() - 1);
        assert((a + b).drop_last() =~= a + b.drop_last());
        let p = ten(b.len() - 1);
        let m = total(a) as int;
        assert(10 * (m * p) == m * (10 * p)) by (nonlinear_arith);
    }
}

/// How large a number with so many digits is.
proof fn lemma_total_size(v: Seq<u8>)
    requires
        are_digits(v),
    ensures
        total(v) < ten(v.len() as int),
        v.len() > 0 && v[0] > 0 ==> total(v) >= ten(v.len() - 1),
    decreases v.len(),
{
    lemma_ten(v.len() as int);
    if v.len() > 0 {
        lemma_ten(v.len() - 1);
        assert forall|i: int| 0 <= i < v.len() - 1 implies #[trigger] v.drop_last()[i] <= 9 by {
            assert(v[i] <= 9);
        }
        assert(v[v.len() - 1] <= 9);
        lemma_total_size(v.drop_last());
        if v.len() == 1 {
            assert(total(v.drop_last()) == 0);
        } else {
            lemma_ten(v.len() - 2);
            assert(v.drop_last()[0] == v[0]);
        }
    }
}

/// Fewer digits, with the shift, make a smaller number.
proof fn lemma_before(m: nat, d: int, x: int, c: nat, k: int)
    requires
        d >= 0,
        k >= 0,
        m < ten(d),
        c >= ten(k),
        d + x <= k,
    ensures
        compared(m, x, c) == Place::Before,
{
    if x >= 0 {
        lemma_ten(x);
        lemma_ten_sum(d, x);
        lemma_ten_grows(d + x, k);
        let p = ten(x);
        let q = ten(d);
        assert(m * p < q * p) by (nonlinear_arith)
            requires
                m < q,
                p >= 1,
        ;
    } else {
        lemma_ten(-x);
        lemma_ten_sum(k, -x);
        lemma_ten_grows(d, k - x);
        let p = ten(-x);
        let q = ten(k);
        assert(c * p >= q * p) by (nonlinear_arith)
            requires
                c >= q,
                p >= 1,
        ;
    }
}

/// More digits, with the shift, make a larger number.
proof fn lemma_after(m: nat, d: int, x: int, c: nat, k: int)
    requires
        d >= 0,
        k >= 0,
        m >= ten(d),
        c < ten(k),
        d + x >= k,
    ensures
        compared(m, x, c) == Place::After,
{
    if x >= 0 {
        lemma_ten(x);
        lemma_ten_sum(d, x);
        lemma_ten_grows(k, d + x);
        let p = ten(x);
        let q = ten(d);
        assert(m * p >= q * p) by (nonlinear_arith)
            requires
                m >= q,
                p >= 1,
        ;
    } else {
        lemma_ten(-x);
        lemma_ten_sum(k, -x);
        lemma_ten_grows(k - x, d);
        let p = ten(-x);
        let q = ten(k);
        assert(c * p < q * p) by (nonlinear_arith)
            requires
                c < q,
                p >= 1,
        ;
    }
}

/// Zero stands before everything else.
proof fn lemma_zero(x: int, c: nat)
    requires
        c > 0,
    ensures
        compared(0, x, c) == Place::Before,
{
    if x >= 0 {
        assert(0 * ten(x) == 0);
    } else {
        lemma_ten(-x);
        let p = ten(-x);
        assert(c * p > 0) by (nonlinear_arith)
            requires
                c > 0,
                p >= 1,
        ;
    }
}

/// The first digit in which two numbers of one length differ decides.
proof fn lemma_first_difference(a: Seq<u8>, b: Seq<u8>, i: int)
    requires
        are_digits(a),
        are_digits(b),
        a.len() == b.len(),
        0 <= i < a.len(),
        a.take(i) == b.take(i),
        a[i] < b[i],
    ensures
        total(a) < total(b),
{
    let n = a.len() - i - 1;
    let x = a.skip(i + 1);
    let y = b.skip(i + 1);
    assert(a =~= a.take(i + 1) + x);
    assert(b =~= b.take(i + 1) + y);
    lemma_total_cat(a.take(i + 1), x);
    lemma_total_cat(b.take(i + 1), y);
    assert(a.take(i + 1).drop_last() =~= a.take(i));
    assert(b.take(i + 1).drop_last() =~= b.take(i));
    assert forall|j: int| 0 <= j < x.len() implies #[trigger] x[j] <= 9 by {
        assert(a[i + 1 + j] <= 9);
    }
    lemma_total_size(x);
    let s = total(a.take(i + 1)) as int;
    let t = total(b.take(i + 1)) as int;
    let p = ten(n);
    assert(s + 1 <= t);
    lemma_ten(n);
    assert(s * p + p <= t * p) by (nonlinear_arith)
        requires
            s + 1 <= t,
            p >= 1,
    ;
}

/// How two numbers of one length stand to each other.
fn place_digits(a: &Vec<u8>, b: &Vec<u8>) -> (r: Place)
    requires
        are_digits(a@),
        are_digits(b@),
        a.len() == b.len(),
    ensures
        r == order::by_number(total(a@) as int, total(b@) as int),
{
    let mut i: usize = 0;
    while i < a.len()
        invariant
            0 <= i <= a.len(),
            a.len() == b.len(),
            are_digits(a@),
            are_digits(b@),
            a@.take(i as int) == b@.take(i as int),
        decreases a.len() - i,
    {
        if a[i] < b[i] {
            proof {
                lemma_first_difference(a@, b@, i as int);
            }
            return Place::Before;
        }
        if a[i] > b[i] {
            proof {
                lemma_first_difference(b@, a@, i as int);
            }
            return Place::After;
        }
        assert(a@.take(i + 1) =~= a@.take(i as int).push(a@[i as int]));
        assert(b@.take(i + 1) =~= b@.take(i as int).push(b@[i as int]));
        i = i + 1;
    }
    assert(a@ =~= a@.take(i as int));
    assert(b@ =~= b@.take(i as int));
    Place::Same
}

/// Puts zeros behind digits until there are `n`.
fn pad(v: &mut Vec<u8>, n: usize)
    requires
        are_digits(old(v)@),
        old(v).len() <= n,
    ensures
        are_digits(final(v)@),
        final(v).len() == n,
        total(final(v)@) == total(old(v)@) * ten(n - old(v).len()),
{
    let ghost start = v@;
    proof {
        lemma_once(total(start) as int);
    }
    while v.len() < n
        invariant
            start.len() <= v.len() <= n,
            are_digits(v@),
            total(v@) == total(start) * ten(v.len() - start.len()),
        decreases n - v.len(),
    {
        let ghost was = v@;
        proof {
            lemma_ten(v.len() - start.len());
            let m = total(start) as int;
            let p = ten(v.len() - start.len());
            assert(10 * (m * p) == m * (10 * p)) by (nonlinear_arith);
        }
        v.push(0);
        assert(v@.drop_last() =~= was);
    }
}

/// How digits times a power of ten stand to other digits.
fn compare_shifted(a: Vec<u8>, x: i128, c: Vec<u8>) -> (r: Place)
    requires
        is_trim(a@),
        is_trim(c@),
        c.len() > 0,
        -0x1_0000_0000_0000_0000_0000 <= x <= 0x1_0000_0000_0000_0000_0000,
    ensures
        r == compared(total(a@), x as int, total(c@)),
{
    let mut a = a;
    let mut c = c;
    let ghost m = total(a@);
    let ghost k = total(c@);
    proof {
        lemma_total_size(a@);
        lemma_total_size(c@);
        lemma_ten(c.len() - 1);
    }
    if a.len() == 0 {
        proof {
            lemma_zero(x as int, k);
        }
        return Place::Before;
    }
    let d: i128 = a.len() as i128;
    let n: i128 = c.len() as i128;
    if d + x < n {
        proof {
            lemma_before(m, d as int, x as int, k, n - 1);
        }
        return Place::Before;
    }
    if d + x > n {
        proof {
            lemma_after(m, d - 1, x as int, k, n as int);
        }
        return Place::After;
    }
    if a.len() < c.len() {
        pad(&mut a, c.len());
    } else {
        pad(&mut c, a.len());
        proof {
            lemma_once(m as int);
            lemma_once(k as int);
        }
    }
    place_digits(&a, &c)
}

/// One step of a multiplication from right to left.
proof fn lemma_multiply(start: Seq<u8>, was: Seq<u8>, now: Seq<u8>, i: int, k: int, c: int, n: int)
    requires
        start.len() == was.len() == now.len(),
        0 <= i < start.len(),
        now == was.update(i, (n % 10) as u8),
        n == start[i] * k + c,
        n >= 0,
        (total(start.take(i + 1)) * k + c) * ten(start.len() - i - 1) + total(was.skip(i + 1))
            == total(start) * k,
    ensures
        (total(start.take(i)) * k + n / 10) * ten(start.len() - i) + total(now.skip(i)) == total(
            start,
        ) * k,
{
    assert(start.take(i + 1).drop_last() =~= start.take(i));
    let t = total(start.take(i)) as int;
    let d = start[i] as int;
    let p = ten(start.len() - i - 1);
    let q = n / 10;
    let e = n % 10;
    lemma_ten(start.len() - i - 1);
    let one = seq![e as u8];
    assert(now.skip(i) =~= one + now.skip(i + 1));
    assert(now.skip(i + 1) =~= was.skip(i + 1));
    lemma_total_cat(one, now.skip(i + 1));
    assert(one.drop_last() =~= Seq::<u8>::empty());
    assert(total(one.drop_last()) == 0);
    assert(total(one) == e);
    assert(((t * 10 + d) * k + c) * p == (t * k + q) * (10 * p) + e * p) by (nonlinear_arith)
        requires
            d * k + c == 10 * q + e,
    ;
}

/// Multiplies digits by a small number.
fn multiply(v: &mut Vec<u8>, k: u8)
    requires
        is_trim(old(v)@),
        old(v).len() < 0x1000,
        1 <= k <= 9,
    ensures
        is_trim(final(v)@),
        old(v).len() <= final(v).len() <= old(v).len() + 1,
        total(final(v)@) == total(old(v)@) * k,
{
    let ghost start = v@;
    let mut carry: u8 = 0;
    let mut i: usize = v.len();
    proof {
        assert(start.take(i as int) =~= start);
        assert(v@.skip(i as int) =~= Seq::<u8>::empty());
        lemma_once(total(start) * k + 0);
    }
    while i > 0
        invariant
            0 <= i <= start.len() == v.len(),
            are_digits(start),
            are_digits(v@),
            forall|j: int| 0 <= j < i ==> v@[j] == start[j],
            1 <= k <= 9,
            carry < k,
            (total(start.take(i as int)) * k + carry) * ten(start.len() - i) + total(
                v@.skip(i as int),
            ) == total(start) * k,
        decreases i,
    {
        let ghost was = v@;
        let ghost c = carry as int;
        i = i - 1;
        let d: u8 = v[i];
        assert(d == start[i as int] && d <= 9);
        assert(0 <= d as int * k as int + c <= 9 * k as int + k as int - 1) by (nonlinear_arith)
            requires
                0 <= d <= 9,
                0 <= c < k,
        ;
        let n: u8 = d * k + carry;
        v.set(i, n % 10);
        carry = n / 10;
        proof {
            lemma_multiply(start, was, v@, i as int, k as int, c, n as int);
        }
    }
    proof {
        assert(start.take(0) =~= Seq::<u8>::empty());
        assert(v@.skip(0) =~= v@);
        assert((0 * k + carry) * ten(start.len() as int) == carry * ten(start.len() as int));
        lemma_total_size(start);
        lemma_total_size(v@);
        if start.len() > 0 && carry == 0 && v@[0] == 0 {
            let rest = v@.skip(1);
            let zero = v@.take(1);
            assert(v@ =~= zero + rest);
            lemma_total_cat(zero, rest);
            assert(zero.drop_last() =~= Seq::<u8>::empty());
            assert(total(zero) == 0);
            assert(0 * ten(rest.len() as int) == 0);
            assert forall|j: int| 0 <= j < rest.len() implies #[trigger] rest[j] <= 9 by {
                assert(v@[j + 1] <= 9);
            }
            lemma_total_size(rest);
            let t = total(start) as int;
            assert(t * k >= t) by (nonlinear_arith)
                requires
                    t >= 0,
                    k >= 1,
            ;
            assert(false);
        }
    }
    if carry > 0 {
        let ghost low = v@;
        v.insert(0, carry);
        proof {
            let one = seq![carry];
            assert(v@ =~= one + low);
            lemma_total_cat(one, low);
            assert(one.drop_last() =~= Seq::<u8>::empty());
            assert(total(one.drop_last()) == 0);
        }
    }
}

/// Multiplies digits by a small number, `n` times over.
fn multiply_often(v: &mut Vec<u8>, k: u8, n: usize)
    requires
        is_trim(old(v)@),
        old(v).len() + n < 0x1000,
        1 <= k <= 9,
    ensures
        is_trim(final(v)@),
        final(v).len() >= old(v).len(),
        total(final(v)@) == total(old(v)@) * vstd::arithmetic::power::pow(k as int, n as nat),
{
    let ghost start = v@;
    let mut i: usize = 0;
    proof {
        vstd::arithmetic::power::lemma_pow0(k as int);
        assert(total(start) * 1 == total(start));
    }
    while i < n
        invariant
            0 <= i <= n,
            is_trim(v@),
            start.len() <= v.len() <= start.len() + i,
            start.len() + n < 0x1000,
            1 <= k <= 9,
            total(v@) == total(start) * vstd::arithmetic::power::pow(k as int, i as nat),
        decreases n - i,
    {
        multiply(v, k);
        proof {
            let m = total(start) as int;
            let p = vstd::arithmetic::power::pow(k as int, i as nat);
            let f = k as int;
            vstd::arithmetic::power::lemma_pow1(f);
            vstd::arithmetic::power::lemma_pow_adds(f, 1, i as nat);
            assert((m * p) * f == m * (f * p)) by (nonlinear_arith);
        }
        i = i + 1;
    }
}

/// The digits of a number.
fn spell(n: u64) -> (r: Vec<u8>)
    ensures
        is_trim(r@),
        total(r@) == n,
        r.len() <= n,
        r.len() <= 20,
    decreases n,
{
    if n == 0 {
        Vec::new()
    } else {
        let mut v = spell(n / 10);
        let ghost high = v@;
        proof {
            lemma_total_size(high);
            if high.len() == 20 {
                lemma_nineteen();
            }
        }
        v.push((n % 10) as u8);
        assert(v@.drop_last() =~= high);
        v
    }
}

/// A number of twenty digits has more than a tenth of 64 bits.
proof fn lemma_nineteen()
    ensures
        ten(19) > 1844674407370955161,
{
    lemma_ten_sum(9, 10);
    lemma_ten_sum(9, 9);
    lemma_ten_sum(9, 1);
    assert(ten(9) == 1000000000) by {
        reveal_with_fuel(vstd::arithmetic::power::pow, 10);
    }
    assert(ten(1) == 10) by {
        reveal_with_fuel(vstd::arithmetic::power::pow, 2);
    }
}

/// The power 1020 of two has more than 306 digits.
proof fn lemma_thousands()
    ensures
        vstd::arithmetic::power2::pow2(1020) >= ten(306),
{
    vstd::arithmetic::power2::lemma_pow2(1020);
    vstd::arithmetic::power2::lemma_pow2(10);
    vstd::arithmetic::power2::lemma2_to64();
    vstd::arithmetic::power2::lemma2_to64_rest();
    vstd::arithmetic::power::lemma_pow_multiplies(2, 10, 102);
    vstd::arithmetic::power::lemma_pow_multiplies(10, 3, 102);
    assert(vstd::arithmetic::power::pow(10, 3) == 1000) by {
        reveal_with_fuel(vstd::arithmetic::power::pow, 4);
    }
    lemma_base(1000, 1024, 102);
}

/// The limit as a multiple of a power of two.
proof fn lemma_limit()
    ensures
        limit() == 0x3f_ffff_ffff_ffff * vstd::arithmetic::power::pow(2, 970),
        limit() >= ten(306),
{
    lemma_thousands();
    vstd::arithmetic::power2::lemma_pow2(970);
    vstd::arithmetic::power2::lemma2_to64();
    vstd::arithmetic::power2::lemma2_to64_rest();
    vstd::arithmetic::power2::lemma_pow2_adds(970, 54);
    vstd::arithmetic::power2::lemma_pow2_adds(970, 50);
    let p = vstd::arithmetic::power2::pow2(970) as int;
    vstd::arithmetic::power2::lemma_pow2_pos(970);
    assert(p * 0x40_0000_0000_0000 - p == 0x3f_ffff_ffff_ffff * p);
    assert(p * 0x4_0000_0000_0000 <= 0x3f_ffff_ffff_ffff * p);
}

/// Two powers of ten that are equal, or so far apart from anything that it makes no
/// difference.
spec fn near(x: int, y: int, far: int) -> bool {
    x == y || (x >= far && y >= far) || (x <= -far && y <= -far)
}

/// A bound on powers of ten beyond which no number that fits in memory makes a difference.
const FAR: i128 = 0x20_0000_0000_0000_0000;

/// Powers of ten that are near to each other make no difference.
proof fn lemma_near(a: Seq<u8>, x: int, y: int, c: Seq<u8>)
    requires
        is_trim(a),
        is_trim(c),
        c.len() > 0,
        a.len() <= 0xffff_ffff_ffff_ffff,
        c.len() <= 0xffff_ffff_ffff_ffff,
        near(x, y, 0x2_0000_0000_0000_0000),
    ensures
        compared(total(a), x, total(c)) == compared(total(a), y, total(c)),
{
    lemma_total_size(a);
    lemma_total_size(c);
    lemma_ten(c.len() - 1);
    let d = a.len() as int;
    let n = c.len() as int;
    if a.len() == 0 {
        lemma_zero(x, total(c));
        lemma_zero(y, total(c));
    } else if x == y {
    } else if x >= 0x2_0000_0000_0000_0000 {
        lemma_after(total(a), d - 1, x, total(c), n);
        lemma_after(total(a), d - 1, y, total(c), n);
    } else {
        lemma_before(total(a), d, x, total(c), n - 1);
        lemma_before(total(a), d, y, total(c), n - 1);
    }
}

/// Digits and the power of ten that they are multiplied by.
struct Number {
    digits: Vec<u8>,
    shift: i128,
}

impl Number {
    /// The number stands for a text.
    spec fn is_of(&self, t: Seq<char>) -> bool {
        &&& is_trim(self.digits@)
        &&& total(self.digits@) == digits(t)
        &&& near(self.shift as int, shift(t), 0x10_0000_0000_0000_0000)
        &&& -0x1_0000_0000_0000_0000_0000 < self.shift < 0x1_0000_0000_0000_0000_0000
    }
}

/// Finds the first of two characters from `from` on.
fn find_first(v: &Vec<char>, a: char, b: char) -> (r: usize)
    ensures
        r <= v.len(),
        r == first_at(v@, 0, a, b),
{
    let mut i: usize = 0;
    while i < v.len()
        invariant
            0 <= i <= v.len(),
            first_at(v@, 0, a, b) == first_at(v@, i as int, a, b),
        decreases v.len() - i,
    {
        if v[i] == a || v[i] == b {
            return i;
        }
        i = i + 1;
    }
    i
}

/// Reads the digits of a text, without leading zeros.
fn read_worth(v: &Vec<char>) -> (r: Vec<u8>)
    ensures
        is_trim(r@),
        total(r@) == worth(v@),
{
    let mut out: Vec<u8> = Vec::new();
    let mut i: usize = 0;
    while i < v.len()
        invariant
            0 <= i <= v.len(),
            is_trim(out@),
            total(out@) == worth(v@.take(i as int)),
        decreases v.len() - i,
    {
        assert(v@.take(i + 1).drop_last() =~= v@.take(i as int));
        match literal::digit_value(v[i], 10) {
            None => {},
            Some(d) => {
                let ghost was = out@;
                if out.len() > 0 || d > 0 {
                    out.push(d as u8);
                    assert(out@.drop_last() =~= was);
                }
            },
        }
        i = i + 1;
    }
    assert(v@.take(i as int) =~= v@);
    out
}

/// Reads the digits of a text as one number, up to a bound.
fn read_bounded(v: &Vec<char>) -> (r: i128)
    ensures
        0 <= r <= 10 * FAR + 9,
        r == worth(v@) || (r >= FAR && worth(v@) >= FAR),
{
    let mut acc: i128 = 0;
    let mut i: usize = 0;
    while i < v.len()
        invariant
            0 <= i <= v.len(),
            0 <= acc <= 10 * FAR + 9,
            acc == worth(v@.take(i as int)) || (acc >= FAR && worth(v@.take(i as int)) >= FAR),
        decreases v.len() - i,
    {
        assert(v@.take(i + 1).drop_last() =~= v@.take(i as int));
        match literal::digit_value(v[i], 10) {
            None => {},
            Some(d) => {
                if acc < FAR {
                    acc = acc * 10 + d as i128;
                }
            },
        }
        i = i + 1;
    }
    assert(v@.take(i as int) =~= v@);
    acc
}

/// The characters of a text from `a` to `b`.
fn part(v: &Vec<char>, a: usize, b: usize) -> (r: Vec<char>)
    requires
        a <= b <= v.len(),
    ensures
        r@ == v@.subrange(a as int, b as int),
{
    let mut out: Vec<char> = Vec::new();
    let mut i: usize = a;
    while i < b
        invariant
            a <= i <= b <= v.len(),
            out@ == v@.subrange(a as int, i as int),
        decreases b - i,
    {
        out.push(v[i]);
        assert(v@.subrange(a as int, i + 1) =~= v@.subrange(a as int, i as int).push(
            v@[i as int],
        ));
        i = i + 1;
    }
    out
}

/// The exponent of a number, up to a bound.
fn read_exponent(v: &Vec<char>) -> (r: i128)
    ensures
        -10 * FAR - 9 <= r <= 10 * FAR + 9,
        near(r as int, exponent(v@), FAR as int),
{
    let at = find_first(v, 'e', 'E');
    if at >= v.len() {
        return 0;
    }
    let tail = part(v, at + 1, v.len());
    assert(tail@ =~= v@.skip(at + 1));
    let n: i128 = read_bounded(&tail);
    if at + 1 < v.len() && v[at + 1] == '-' {
        -n
    } else {
        n
    }
}

/// Reads a number.
fn read_number(t: &str) -> (r: Number)
    ensures
        r.is_of(t@),
{
    let all = text::chars_of(t);
    let from: usize = if all.len() > 0 && all[0] == '-' {
        1
    } else {
        0
    };
    let v = part(&all, from, all.len());
    assert(v@ =~= unsigned(t@));
    let at = find_first(&v, 'e', 'E');
    let head = part(&v, 0, at);
    assert(head@ =~= front(v@));
    let point = find_first(&head, '.', '.');
    let places: usize = if point < head.len() {
        head.len() - point - 1
    } else {
        0
    };
    let digits = read_worth(&head);
    let e: i128 = read_exponent(&v);
    Number { digits, shift: e - places as i128 }
}

/// The nearest binary64 number is infinite.
pub fn is_too_large(t: &str) -> (r: bool)
    ensures
        r == too_large(t@),
{
    let n = read_number(t);
    let d: i128 = n.digits.len() as i128;
    proof {
        lemma_limit();
        lemma_total_size(n.digits@);
    }
    if d + n.shift <= 306 {
        proof {
            lemma_before(digits(t@), d as int, shift(t@), limit(), 306);
        }
        return false;
    }
    let mut c = spell(0x3f_ffff_ffff_ffff);
    assert(c.len() > 0);
    multiply_often(&mut c, 2, 970);
    proof {
        lemma_near(n.digits@, n.shift as int, shift(t@), c@);
    }
    compare_shifted(n.digits, n.shift, c) != Place::Before
}

/// The powers of two and five make one of ten.
proof fn lemma_halves(m: nat, x: int)
    requires
        x < 0,
    ensures
        (m * vstd::arithmetic::power2::pow2(1075) <= ten(-x)) == (compared(
            m,
            x + 1075,
            vstd::arithmetic::power::pow(5, 1075) as nat,
        ) != Place::After),
{
    let a = vstd::arithmetic::power::pow(2, 1075);
    let f = vstd::arithmetic::power::pow(5, 1075);
    let q = ten(-x);
    vstd::arithmetic::power2::lemma_pow2(1075);
    vstd::arithmetic::power::lemma_pow_distributes(2, 5, 1075);
    vstd::arithmetic::power::lemma_pow_positive(2, 1075);
    vstd::arithmetic::power::lemma_pow_positive(5, 1075);
    lemma_ten(-x);
    let n = m as int;
    if x + 1075 >= 0 {
        let p = ten(x + 1075);
        lemma_ten(x + 1075);
        lemma_ten_sum(x + 1075, -x);
        assert((n * p <= f) == (n * a <= q)) by (nonlinear_arith)
            requires
                p * q == a * f,
                p >= 1,
                q >= 1,
                a >= 1,
                f >= 1,
        {
            assert(n * p * q == n * a * f) by (nonlinear_arith)
                requires
                    p * q == a * f,
            ;
        }
    } else {
        let r = ten(-x - 1075);
        lemma_ten_sum(-x - 1075, 1075);
        assert((n <= f * r) == (n * a <= q)) by (nonlinear_arith)
            requires
                q == r * (a * f),
                a >= 1,
        ;
    }
}

/// A number that is not zero and not far below one does not round to zero.
proof fn lemma_above_zero(m: nat, d: int, x: int)
    requires
        d >= 1,
        m >= ten(d - 1),
        d + x >= -304,
        x < 0,
    ensures
        m * vstd::arithmetic::power2::pow2(1075) > ten(-x),
{
    lemma_thousands();
    vstd::arithmetic::power2::lemma_pow2_adds(1020, 55);
    vstd::arithmetic::power2::lemma_pow2_pos(55);
    vstd::arithmetic::power2::lemma_pow2_pos(1020);
    let a = vstd::arithmetic::power2::pow2(1075) as int;
    let b = vstd::arithmetic::power2::pow2(1020) as int;
    let c = vstd::arithmetic::power2::pow2(55) as int;
    assert(a >= b) by (nonlinear_arith)
        requires
            a == b * c,
            c >= 1,
            b >= 1,
    ;
    lemma_ten(d - 1);
    lemma_ten(306);
    lemma_ten_sum(d - 1, 306);
    lemma_ten(-x);
    lemma_ten_grows(1 - x, d + 305);
    let n = m as int;
    let p = ten(d - 1);
    let q = ten(306);
    assert(n * a >= p * q) by (nonlinear_arith)
        requires
            n >= p >= 1,
            a >= q >= 1,
    ;
}

/// The nearest binary64 number is zero.
fn does_round_to_zero(t: &str) -> (r: bool)
    ensures
        r == rounds_to_zero(t@),
{
    let n = read_number(t);
    let d: i128 = n.digits.len() as i128;
    proof {
        lemma_total_size(n.digits@);
        vstd::arithmetic::power::lemma_pow_positive(5, 1075);
        if shift(t@) < 0 {
            lemma_ten(-shift(t@));
        }
    }
    if n.digits.len() == 0 {
        assert(0 * vstd::arithmetic::power2::pow2(1075) == 0);
        return true;
    }
    proof {
        lemma_ten(d - 1);
    }
    if d + n.shift >= -304 {
        proof {
            if shift(t@) < 0 {
                lemma_above_zero(digits(t@), d as int, shift(t@));
            }
        }
        return false;
    }
    let mut c = spell(1);
    assert(c.len() > 0);
    multiply_often(&mut c, 5, 1075);
    proof {
        lemma_near(n.digits@, n.shift + 1075, shift(t@) + 1075, c@);
        lemma_halves(digits(t@), shift(t@));
    }
    compare_shifted(n.digits, n.shift + 1075, c) != Place::After
}

/// A number's text, without the sign where the number rounds to zero.
pub fn drop_signed_zero(t: String) -> (r: String)
    ensures
        r@ == without_signed_zero(t@),
{
    let all = text::chars_of(t.as_str());
    if all.len() > 0 && all[0] == '-' && does_round_to_zero(t.as_str()) {
        assert(t@.drop_first() =~= t@.subrange(1, t@.len() as int));
        text::slice_text(&all, 1, all.len())
    } else {
        t
    }
}

} // verus!
