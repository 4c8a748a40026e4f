//! Literals read back as what was written.
use super::literal;
use super::literal::NumberFault;
use crate::text;
use crate::types::ErrorView;
use vstd::prelude::*;

verus! {

/// Digits stand for a number by place: with one more digit behind them they stand for as many
/// times the radix, and that digit more.
pub proof fn digits_count_by_place(s: Seq<char>, c: char, radix: nat, limit: nat, acc: nat)
    ensures
        literal::read_digits(s.push(c), radix, limit, acc) == (match literal::read_digits(
            s,
            radix,
            limit,
            acc,
        ) {
            Err(f) => Err(f),
            Ok(n) => match literal::digit_of(c, radix) {
                None => Err(NumberFault::InvalidDigit),
                Some(d) => if n * radix + d > limit {
                    Err(NumberFault::TooLarge)
                } else {
                    Ok(n * radix + d)
                },
            },
        }),
    decreases s.len(),
{
    let t = s.push(c);
    if s.len() == 0 {
        assert(t.drop_first() =~= Seq::<char>::empty());
        match literal::digit_of(c, radix) {
            Some(d) => {
                if acc * radix + d <= limit {
                    assert(literal::read_digits(t.drop_first(), radix, limit, acc * radix + d)
                        == Ok::<nat, NumberFault>(acc * radix + d));
                }
            },
            None => {},
        }
    } else {
        assert(t[0] == s[0]);
        assert(t.drop_first() =~= s.drop_first().push(c));
        match literal::digit_of(s[0], radix) {
            Some(d) => {
                if acc * radix + d <= limit {
                    digits_count_by_place(s.drop_first(), c, radix, limit, acc * radix + d);
                }
            },
            None => {},
        }
    }
}

/// The ten digits stand for nought to nine, and letters, in either case, for ten and up.
pub proof fn digits_stand_for_themselves(d: nat, radix: nat)
    requires
        d < radix <= 36,
    ensures
        d < 10 ==> literal::digit_of((48 + d) as char, radix) == Some(d),
        d >= 10 ==> literal::digit_of((87 + d) as char, radix) == Some(d),
        d >= 10 ==> literal::digit_of((55 + d) as char, radix) == Some(d),
{
}

/// Decimal digits are digits.
proof fn lemma_decimal_is_digits(n: nat)
    ensures
        text::decimal(n).len() > 0,
        forall|i: int| 0 <= i < text::decimal(n).len() ==> '0' <= #[trigger] text::decimal(n)[i] <= '9',
    decreases n,
{
    if n >= 10 {
        lemma_decimal_is_digits(n / 10);
        let s = text::decimal(n / 10);
        let t = text::decimal(n);
        assert forall|i: int| 0 <= i < t.len() implies '0' <= #[trigger] t[i] <= '9' by {
            if i < s.len() {
                assert(t[i] == s[i]);
            }
        }
    }
}

/// A number that is written in decimal digits reads back.
pub proof fn decimals_read_back(n: nat, limit: nat)
    requires
        n <= limit,
    ensures
        literal::read_digits(text::decimal(n), 10, limit, 0) == Ok::<nat, NumberFault>(n),
    decreases n,
{
    if n < 10 {
        digits_stand_for_themselves(n, 10);
        assert(text::decimal(n) =~= Seq::<char>::empty().push(text::digit(n)));
        digits_count_by_place(Seq::empty(), text::digit(n), 10, limit, 0);
    } else {
        decimals_read_back(n / 10, limit);
        digits_stand_for_themselves(n % 10, 10);
        digits_count_by_place(text::decimal(n / 10), text::digit(n % 10), 10, limit, 0);
        assert((n / 10) * 10 + n % 10 == n);
    }
}

/// An integer literal is the integer that is written, with its sign.
pub proof fn integers_read_back(n: nat)
    ensures
        n <= 0x7fff_ffff_ffff_ffff ==> literal::integer_value(text::decimal(n)) == Ok::<
            int,
            Seq<char>,
        >(n as int),
        n <= 0x8000_0000_0000_0000 ==> literal::integer_value(seq!['-'] + text::decimal(n)) == Ok::<
            int,
            Seq<char>,
        >(-(n as int)),
{
    let s = text::decimal(n);
    lemma_decimal_is_digits(n);
    assert('0' <= s[0] <= '9');
    if s.len() >= 2 {
        assert('0' <= s[1] <= '9');
    }
    assert(literal::prefix_radix(s) is None);
    if n <= 0x7fff_ffff_ffff_ffff {
        decimals_read_back(n, 0x7fff_ffff_ffff_ffff);
    }
    if n <= 0x8000_0000_0000_0000 {
        decimals_read_back(n, 0x8000_0000_0000_0000);
        let t = seq!['-'] + s;
        assert(t.drop_first() =~= s);
        assert(t[0] == '-');
    }
}

/// A hop bound is the number that is written.
pub proof fn hop_bounds_read_back(n: nat)
    requires
        n <= 0xffff_ffff,
    ensures
        literal::hop_bound(text::decimal(n)) == Ok::<u32, ErrorView>(n as u32),
{
    let s = text::decimal(n);
    lemma_decimal_is_digits(n);
    assert('0' <= s[0] <= '9');
    decimals_read_back(n, 0xffff_ffff);
}

/// A literal with the prefix of a radix is read in that radix.
pub proof fn prefixes_set_the_radix(digits: Seq<char>)
    requires
        digits.len() > 0,
        digits[0] != '+',
    ensures
        literal::integer_value("0x"@ + digits) == (match literal::read_digits(
            digits,
            16,
            0xffff_ffff_ffff_ffff,
            0,
        ) {
            Ok(n) => literal::signed(n, false),
            Err(f) => Err(literal::fault_text(f)),
        }),
        literal::integer_value("0o"@ + digits) == (match literal::read_digits(
            digits,
            8,
            0xffff_ffff_ffff_ffff,
            0,
        ) {
            Ok(n) => literal::signed(n, false),
            Err(f) => Err(literal::fault_text(f)),
        }),
{
    reveal_strlit("0x");
    reveal_strlit("0o");
    let a = "0x"@ + digits;
    let b = "0o"@ + digits;
    assert(a.skip(2) =~= digits);
    assert(b.skip(2) =~= digits);
    assert(a[0] == '0' && a[1] == 'x');
    assert(b[0] == '0' && b[1] == 'o');
}

/// How a character is written inside a string literal.
pub open spec fn escaped_char(c: char) -> Seq<char> {
    if c == '\\' {
        seq!['\\', '\\']
    } else if c == '\'' {
        seq!['\\', '\'']
    } else if c == '"' {
        seq!['\\', '"']
    } else if c == '\n' {
        seq!['\\', 'n']
    } else if c == '\t' {
        seq!['\\', 't']
    } else if c == '\r' {
        seq!['\\', 'r']
    } else if c == '\u{8}' {
        seq!['\\', 'b']
    } else if c == '\u{c}' {
        seq!['\\', 'f']
    } else {
        seq![c]
    }
}

/// How a text is written inside a string literal.
pub open spec fn escaped(t: Seq<char>) -> Seq<char>
    decreases t.len(),
{
    if t.len() == 0 {
        Seq::empty()
    } else {
        escaped_char(t[0]) + escaped(t.drop_first())
    }
}

/// What stands before a place does not matter to what is read from there on.
proof fn lemma_read_on(a: Seq<char>, b: Seq<char>, j: int)
    requires
        0 <= j <= b.len(),
    ensures
        literal::unescaped(a + b, a.len() + j) == literal::unescaped(b, j),
    decreases b.len() - j,
{
    let s = a + b;
    let i = a.len() + j;
    if j < b.len() {
        assert(s[i] == b[j]);
        if j + 1 < b.len() {
            assert(s[i + 1] == b[j + 1]);
        }
        if j + 2 <= b.len() {
            assert(literal::hex_part(s, i + 2) =~= literal::hex_part(b, j + 2));
        }
        match literal::unescape_one(b, j) {
            Ok((piece, next)) => {
                assert(literal::unescape_one(s, i) == Ok::<(Seq<char>, int), ErrorView>(
                    (piece, next + a.len()),
                ));
                if j < next <= b.len() {
                    lemma_read_on(a, b, next);
                }
            },
            Err(_) => {},
        }
    }
}

/// A text that is written inside a string literal, with escapes where they are needed, reads
/// back.
pub proof fn texts_read_back(t: Seq<char>)
    ensures
        literal::unescaped(escaped(t), 0) == Ok::<Seq<char>, ErrorView>(t),
    decreases t.len(),
{
    if t.len() > 0 {
        let rest = t.drop_first();
        texts_read_back(rest);
        let a = escaped_char(t[0]);
        let b = escaped(rest);
        let s = a + b;
        lemma_read_on(a, b, 0);
        assert(s[0] == a[0]);
        if a.len() == 2 {
            assert(s[1] == a[1]);
        }
        assert(literal::unescape_one(s, 0) == Ok::<(Seq<char>, int), ErrorView>(
            (seq![t[0]], a.len() as int),
        ));
        assert(seq![t[0]] + rest =~= t);
        assert(literal::unescaped(s, a.len() as int) == Ok::<Seq<char>, ErrorView>(rest));
    } else {
        assert(t =~= Seq::<char>::empty());
    }
}

/// An escape by code point stands for the character with that code point.
pub proof fn code_points_read_back(s: Seq<char>, i: int, n: nat)
    requires
        0 <= i,
        i + 6 <= s.len(),
        s[i] == '\\',
        s[i + 1] == 'u',
        s[i + 2] != '+',
        literal::read_digits(s.subrange(i + 2, i + 6), 16, 0xffff_ffff, 0) == Ok::<
            nat,
            NumberFault,
        >(n),
        n < 0xd800 || n > 0xdfff,
    ensures
        literal::unescape_one(s, i) == Ok::<(Seq<char>, int), ErrorView>(
            (seq![n as char], i + 6),
        ),
{
}

/// A name in backticks is what stands between them; any other name is itself.
pub proof fn delimited_names_read_back(t: Seq<char>)
    ensures
        literal::undelimited(seq!['`'] + t + seq!['`']) == t,
        t.len() > 0 && t[0] != '`' ==> literal::undelimited(t) == t,
{
    let s = seq!['`'] + t + seq!['`'];
    assert(s.subrange(1, s.len() - 1) =~= t);
}

} // verus!
