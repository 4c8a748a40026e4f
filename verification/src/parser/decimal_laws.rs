//! What a number written with a point and an exponent stands for.
use super::decimal;
use super::literal;
use vstd::arithmetic::power::pow;
use vstd::arithmetic::power2::pow2;
use vstd::prelude::*;

verus! {

/// The characters are decimal digits.
pub open spec fn all_digits(s: Seq<char>) -> bool {
    forall|i: int| 0 <= i < s.len() ==> '0' <= #[trigger] s[i] <= '9'
}

/// A digit behind others multiplies them by ten and adds itself.
pub proof fn a_digit_adds_its_worth(s: Seq<char>, c: char)
    requires
        '0' <= c <= '9',
    ensures
        decimal::worth(s.push(c)) == decimal::worth(s) * 10 + (c as int - '0' as int),
        decimal::worth(Seq::empty()) == 0,
{
    assert(s.push(c).drop_last() =~= s);
}

/// The point does not count among the digits.
pub proof fn the_point_is_worth_nothing(a: Seq<char>, b: Seq<char>)
    ensures
        decimal::worth(a.push('.') + b) == decimal::worth(a + b),
    decreases b.len(),
{
    if b.len() == 0 {
        assert(a.push('.') + b =~= a.push('.'));
        assert(a + b =~= a);
        assert(a.push('.').drop_last() =~= a);
    } else {
        the_point_is_worth_nothing(a, b.drop_last());
        assert((a.push('.') + b).drop_last() =~= a.push('.') + b.drop_last());
        assert((a + b).drop_last() =~= a + b.drop_last());
        assert((a.push('.') + b).last() == b.last());
        assert((a + b).last() == b.last());
    }
}

/// The first place of one of two characters.
proof fn lemma_first_at(t: Seq<char>, from: int, a: char, b: char, i: int)
    requires
        0 <= from <= i <= t.len(),
        forall|j: int| from <= j < i ==> #[trigger] t[j] != a && t[j] != b,
        i < t.len() ==> t[i] == a || t[i] == b,
    ensures
        decimal::first_at(t, from, a, b) == i,
    decreases i - from,
{
    if from < i {
        assert(t[from] != a && t[from] != b);
        lemma_first_at(t, from + 1, a, b, i);
    }
}

/// Digits around a point stand for all the digits, moved by as many places as stand behind the
/// point.
pub proof fn a_fraction_moves_the_digits(a: Seq<char>, b: Seq<char>)
    requires
        all_digits(a),
        all_digits(b),
        a.len() > 0,
    ensures
        decimal::digits(a.push('.') + b) == decimal::worth(a + b),
        decimal::shift(a.push('.') + b) == -(b.len() as int),
{
    let t = a.push('.') + b;
    assert(forall|j: int| 0 <= j < a.len() ==> t[j] == a[j]);
    assert(forall|j: int| a.len() < j < t.len() ==> t[j] == b[j - a.len() - 1]);
    assert forall|j: int| 0 <= j < t.len() implies #[trigger] t[j] != 'e' && t[j] != 'E' by {
        if j < a.len() {
            assert('0' <= a[j] <= '9');
        } else if j > a.len() {
            assert('0' <= b[j - a.len() - 1] <= '9');
        }
    }
    assert('0' <= a[0] <= '9');
    assert(t[0] == a[0]);
    assert(decimal::unsigned(t) == t);
    lemma_first_at(t, 0, 'e', 'E', t.len() as int);
    assert(decimal::front(t) =~= t);
    assert forall|j: int| 0 <= j < a.len() implies #[trigger] t[j] != '.' by {
        assert('0' <= a[j] <= '9');
    }
    lemma_first_at(t, 0, '.', '.', a.len() as int);
    the_point_is_worth_nothing(a, b);
}

/// An exponent moves the digits in front of it by itself: up, or down where it has a minus.
pub proof fn an_exponent_moves_the_digits(f: Seq<char>, e: char, x: Seq<char>)
    requires
        f.len() > 0,
        f[0] != '-',
        forall|j: int| 0 <= j < f.len() ==> #[trigger] f[j] != 'e' && f[j] != 'E',
        e == 'e' || e == 'E',
        all_digits(x),
        x.len() > 0,
    ensures
        decimal::digits(f.push(e) + x) == decimal::digits(f),
        decimal::shift(f.push(e) + x) == decimal::shift(f) + decimal::worth(x),
        decimal::digits(f.push(e).push('-') + x) == decimal::digits(f),
        decimal::shift(f.push(e).push('-') + x) == decimal::shift(f) - decimal::worth(x),
{
    let up = f.push(e) + x;
    let down = f.push(e).push('-') + x;
    let n: int = f.len() as int;
    lemma_first_at(f, 0, 'e', 'E', f.len() as int);
    assert(decimal::front(f) =~= f);
    assert(decimal::unsigned(f) == f);
    assert(forall|j: int| 0 <= j < f.len() ==> up[j] == f[j]);
    assert(forall|j: int| 0 <= j < f.len() ==> down[j] == f[j]);
    assert(up[0] == f[0] && down[0] == f[0]);
    lemma_first_at(up, 0, 'e', 'E', f.len() as int);
    lemma_first_at(down, 0, 'e', 'E', f.len() as int);
    assert(decimal::front(up) =~= f);
    assert(decimal::front(down) =~= f);
    assert(up.skip(n + 1) =~= x);
    assert('0' <= x[0] <= '9');
    assert(up[n + 1] == x[0]);
    assert(down.skip(n + 1) =~= seq!['-'] + x);
    lemma_minus_is_worth_nothing(x);
}

/// A minus in front of digits does not count among them.
proof fn lemma_minus_is_worth_nothing(x: Seq<char>)
    ensures
        decimal::worth(seq!['-'] + x) == decimal::worth(x),
    decreases x.len(),
{
    let t = seq!['-'] + x;
    if x.len() == 0 {
        assert(t =~= seq!['-']);
        assert(t.drop_last() =~= Seq::empty());
        assert(literal::digit_of('-', 10) is None);
        assert(decimal::worth(t.drop_last()) == 0);
    } else {
        lemma_minus_is_worth_nothing(x.drop_last());
        assert(t.drop_last() =~= seq!['-'] + x.drop_last());
        assert(t.last() == x.last());
    }
}

/// A sign changes neither the digits nor where they stand.
pub proof fn a_sign_moves_nothing(t: Seq<char>)
    requires
        t.len() > 0,
        t[0] != '-',
    ensures
        decimal::digits(seq!['-'] + t) == decimal::digits(t),
        decimal::shift(seq!['-'] + t) == decimal::shift(t),
{
    assert((seq!['-'] + t).drop_first() =~= t);
}

/// A number is too large from half way between the largest number and the power of two behind it
/// on.
pub proof fn numbers_are_too_large_from_the_limit_on(t: Seq<char>)
    ensures
        decimal::shift(t) >= 0 ==> (decimal::too_large(t) <==> decimal::digits(t) * pow(
            10,
            decimal::shift(t) as nat,
        ) >= pow2(1024) - pow2(970)),
        decimal::shift(t) < 0 ==> (decimal::too_large(t) <==> decimal::digits(t) >= (pow2(1024)
            - pow2(970)) * pow(10, (-decimal::shift(t)) as nat)),
{
    vstd::arithmetic::power2::lemma_pow2_strictly_increases(970, 1024);
}

/// Zero has no sign, however it is written; and a number above the half of the least one keeps
/// its own.
pub proof fn only_zero_loses_its_sign(t: Seq<char>)
    ensures
        decimal::digits(t) == 0 ==> decimal::without_signed_zero(t) == decimal::unsigned(t),
        decimal::digits(t) > 0 && decimal::shift(t) >= 0 ==> decimal::without_signed_zero(t) == t,
        decimal::shift(t) < 0 && decimal::digits(t) * pow2(1075) > pow(
            10,
            (-decimal::shift(t)) as nat,
        ) ==> decimal::without_signed_zero(t) == t,
{
    if decimal::shift(t) < 0 {
        vstd::arithmetic::power::lemma_pow_positive(10, (-decimal::shift(t)) as nat);
        assert(0 * pow2(1075) == 0);
    }
}

} // verus!
