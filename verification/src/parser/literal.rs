//! Names, strings and numbers: from their text to what they stand for.
use crate::text;
use crate::types;
use crate::types::{ErrorCode, ErrorView, GraphError, QueryPhase};
use vstd::prelude::*;

verus! {

/// A delimited name without its backticks.
pub open spec fn undelimited(s: Seq<char>) -> Seq<char> {
    if s.len() >= 2 && s[0] == '`' && s[s.len() - 1] == '`' {
        s.subrange(1, s.len() - 1)
    } else {
        s
    }
}

/// Strips the backticks from a delimited name.
pub fn strip_backticks(s: &str) -> (r: String)
    ensures
        r@ == undelimited(s@),
{
    let v = text::chars_of(s);
    let n: usize = v.len();
    if n >= 2 && v[0] == '`' && v[n - 1] == '`' {
        text::slice_text(&v, 1, n - 1)
    } else {
        s.to_owned()
    }
}

/// What a character stands for behind a backslash, where it stands for one other character.
pub open spec fn simple_escape(c: char) -> Option<char> {
    if c == 'n' {
        Some('\n')
    } else if c == 't' {
        Some('\t')
    } else if c == 'r' {
        Some('\r')
    } else if c == 'b' {
        Some('\u{8}')
    } else if c == 'f' {
        Some('\u{c}')
    } else if c == '\\' || c == '\'' || c == '"' || c == '/' {
        Some(c)
    } else {
        None
    }
}

/// The value of a digit, if it is one in the given radix.
pub open spec fn digit_of(c: char, radix: nat) -> Option<nat> {
    let d = if '0' <= c <= '9' {
        c as nat - '0' as nat
    } else if 'a' <= c <= 'z' {
        c as nat - 'a' as nat + 10
    } else if 'A' <= c <= 'Z' {
        c as nat - 'A' as nat + 10
    } else {
        radix as int
    };
    if 0 <= d < radix {
        Some(d as nat)
    } else {
        None
    }
}

/// Why a text is not a number.
pub enum NumberFault {
    Empty,
    InvalidDigit,
    TooLarge,
    TooSmall,
}

/// The digits of `s`, read after others worth `acc`, up to a limit. Reading goes from left to
/// right and stops at the first character that is no digit or makes the number too large.
pub open spec fn read_digits(s: Seq<char>, radix: nat, limit: nat, acc: nat) -> Result<
    nat,
    NumberFault,
>
    decreases s.len(),
{
    if s.len() == 0 {
        Ok(acc)
    } else {
        match digit_of(s[0], radix) {
            None => Err(NumberFault::InvalidDigit),
            Some(d) => if acc * radix + d > limit {
                Err(NumberFault::TooLarge)
            } else {
                read_digits(s.drop_first(), radix, limit, acc * radix + d)
            },
        }
    }
}

/// An unsigned number: digits, with an optional plus in front.
pub open spec fn read_unsigned(s: Seq<char>, radix: nat, limit: nat) -> Result<nat, NumberFault> {
    if s.len() == 0 {
        Err(NumberFault::Empty)
    } else if s[0] == '+' && s.len() > 1 {
        read_digits(s.drop_first(), radix, limit, 0)
    } else {
        read_digits(s, radix, limit, 0)
    }
}

/// A signed decimal number of 64 bits.
pub open spec fn read_signed(s: Seq<char>) -> Result<int, NumberFault> {
    if s.len() > 1 && s[0] == '-' {
        match read_digits(s.drop_first(), 10, 0x8000_0000_0000_0000, 0) {
            Ok(n) => Ok(-(n as int)),
            Err(NumberFault::TooLarge) => Err(NumberFault::TooSmall),
            Err(f) => Err(f),
        }
    } else {
        match read_unsigned(s, 10, 0x7fff_ffff_ffff_ffff) {
            Ok(n) => Ok(n as int),
            Err(f) => Err(f),
        }
    }
}

/// How a fault is reported.
pub open spec fn fault_text(f: NumberFault) -> Seq<char> {
    match f {
        NumberFault::Empty => "cannot parse integer from empty string"@,
        NumberFault::InvalidDigit => "invalid digit found in string"@,
        NumberFault::TooLarge => "number too large to fit in target type"@,
        NumberFault::TooSmall => "number too small to fit in target type"@,
    }
}

/// How a fault is reported.
fn fault_message(f: NumberFault) -> (r: String)
    ensures
        r@ == fault_text(f),
{
    match f {
        NumberFault::Empty => text::owned("cannot parse integer from empty string"),
        NumberFault::InvalidDigit => text::owned("invalid digit found in string"),
        NumberFault::TooLarge => text::owned("number too large to fit in target type"),
        NumberFault::TooSmall => text::owned("number too small to fit in target type"),
    }
}

/// The value of a digit, if it is one in the given radix.
pub fn digit_value(c: char, radix: u32) -> (r: Option<u32>)
    requires
        radix <= 36,
    ensures
        match r {
            Some(d) => digit_of(c, radix as nat) == Some(d as nat),
            None => digit_of(c, radix as nat) is None,
        },
{
    let d: u32 = if '0' <= c && c <= '9' {
        c as u32 - 48
    } else if 'a' <= c && c <= 'z' {
        c as u32 - 87
    } else if 'A' <= c && c <= 'Z' {
        c as u32 - 55
    } else {
        radix
    };
    if d < radix {
        Some(d)
    } else {
        None
    }
}

/// A plain number or fault as a number or fault of the model.
pub open spec fn number_view(r: Result<u64, NumberFault>) -> Result<nat, NumberFault> {
    match r {
        Ok(n) => Ok(n as nat),
        Err(f) => Err(f),
    }
}

/// Reads digits from `from` on.
fn take_digits(v: &Vec<char>, from: usize, radix: u32, limit: u64) -> (r: Result<
    u64,
    NumberFault,
>)
    requires
        from <= v.len(),
        radix <= 36,
    ensures
        number_view(r) == read_digits(
            v@.skip(from as int),
            radix as nat,
            limit as nat,
            0,
        ),
{
    let mut acc: u64 = 0;
    let mut i: usize = from;
    while i < v.len()
        invariant
            from <= i <= v.len(),
            radix <= 36,
            acc <= limit || i == from,
            read_digits(v@.skip(from as int), radix as nat, limit as nat, 0) == read_digits(
                v@.skip(i as int),
                radix as nat,
                limit as nat,
                acc as nat,
            ),
        decreases v.len() - i,
    {
        assert(v@.skip(i as int)[0] == v@[i as int]);
        assert(v@.skip(i as int).drop_first() =~= v@.skip(i + 1));
        match digit_value(v[i], radix) {
            None => {
                return Err(NumberFault::InvalidDigit);
            },
            Some(d) => {
                assert(acc as int * radix as int <= 0xffff_ffff_ffff_ffff * 36) by (nonlinear_arith)
                    requires
                        acc <= 0xffff_ffff_ffff_ffff,
                        radix <= 36,
                ;
                let next: u128 = acc as u128 * radix as u128 + d as u128;
                if next > limit as u128 {
                    return Err(NumberFault::TooLarge);
                }
                acc = next as u64;
            },
        }
        i = i + 1;
    }
    Ok(acc)
}

/// Reads an unsigned number: digits, with an optional plus in front.
fn take_unsigned(v: &Vec<char>, from: usize, radix: u32, limit: u64) -> (r: Result<
    u64,
    NumberFault,
>)
    requires
        from <= v.len(),
        radix <= 36,
    ensures
        number_view(r) == read_unsigned(
            v@.skip(from as int),
            radix as nat,
            limit as nat,
        ),
{
    if from == v.len() {
        Err(NumberFault::Empty)
    } else if v[from] == '+' && v.len() - from > 1 {
        assert(v@.skip(from as int).drop_first() =~= v@.skip(from + 1));
        take_digits(v, from + 1, radix, limit)
    } else {
        take_digits(v, from, radix, limit)
    }
}

/// What an integer or a report says.
pub open spec fn integer_view(r: Result<i64, String>) -> Result<int, Seq<char>> {
    match r {
        Ok(n) => Ok(n as int),
        Err(e) => Err(e@),
    }
}

/// An absolute value with a sign, where it is a 64 bit integer.
pub open spec fn signed(abs: nat, negative: bool) -> Result<int, Seq<char>> {
    if negative {
        if abs <= 0x8000_0000_0000_0000 {
            Ok(-(abs as int))
        } else {
            Err("integer overflow"@)
        }
    } else if abs <= 0x7fff_ffff_ffff_ffff {
        Ok(abs as int)
    } else {
        Err("out of range integral type conversion attempted"@)
    }
}

/// Puts a sign to an absolute value.
pub fn negate_unsigned(abs: u64, negative: bool) -> (r: Result<i64, String>)
    ensures
        integer_view(r) == signed(abs as nat, negative),
{
    if negative {
        if abs == 0x8000_0000_0000_0000 {
            Ok(i64::MIN)
        } else if abs <= 0x7fff_ffff_ffff_ffff {
            Ok(-(abs as i64))
        } else {
            Err(text::owned("integer overflow"))
        }
    } else if abs <= 0x7fff_ffff_ffff_ffff {
        Ok(abs as i64)
    } else {
        Err(text::owned("out of range integral type conversion attempted"))
    }
}

/// The radix that a prefix announces.
pub open spec fn prefix_radix(s: Seq<char>) -> Option<nat> {
    if s.len() >= 2 && s[0] == '0' && (s[1] == 'x' || s[1] == 'X') {
        Some(16)
    } else if s.len() >= 2 && s[0] == '0' && (s[1] == 'o' || s[1] == 'O') {
        Some(8)
    } else {
        None
    }
}

/// The value of an integer literal: decimal, or hexadecimal or octal with a prefix, with an
/// optional minus in front.
pub open spec fn integer_value(s: Seq<char>) -> Result<int, Seq<char>> {
    let negative = s.len() > 0 && s[0] == '-';
    let digits = if negative {
        s.drop_first()
    } else {
        s
    };
    match prefix_radix(digits) {
        Some(radix) => match read_unsigned(digits.skip(2), radix, 0xffff_ffff_ffff_ffff) {
            Ok(abs) => signed(abs, negative),
            Err(f) => Err(fault_text(f)),
        },
        None => match read_signed(s) {
            Ok(n) => Ok(n),
            Err(f) => Err(fault_text(f)),
        },
    }
}

/// Parses an integer literal.
pub fn parse_integer_literal(s: &str) -> (r: Result<i64, String>)
    ensures
        integer_view(r) == integer_value(s@),
{
    let v = text::chars_of(s);
    let n: usize = v.len();
    let negative = n > 0 && v[0] == '-';
    let from: usize = if negative {
        1
    } else {
        0
    };
    proof {
        if negative {
            assert(v@.skip(1) =~= v@.drop_first());
        } else {
            assert(v@.skip(0) =~= v@);
        }
        if n - from >= 2 {
            assert(v@.skip(from as int).skip(2) =~= v@.skip(from + 2));
        }
    }
    let radix: u32 = if n - from >= 2 && v[from] == '0' && (v[from + 1] == 'x' || v[from + 1]
        == 'X') {
        16
    } else if n - from >= 2 && v[from] == '0' && (v[from + 1] == 'o' || v[from + 1] == 'O') {
        8
    } else {
        10
    };
    if radix != 10 {
        match take_unsigned(&v, from + 2, radix, 0xffff_ffff_ffff_ffff) {
            Ok(abs) => negate_unsigned(abs, negative),
            Err(f) => Err(fault_message(f)),
        }
    } else if n > 1 && negative {
        proof {
            lemma_read_digits_limit(v@.skip(1), 10, 0x8000_0000_0000_0000, 0);
        }
        match take_digits(&v, 1, 10, 0x8000_0000_0000_0000) {
            Ok(abs) => negate_unsigned(abs, true),
            Err(NumberFault::TooLarge) => Err(fault_message(NumberFault::TooSmall)),
            Err(f) => Err(fault_message(f)),
        }
    } else {
        proof {
            assert(v@.skip(0) =~= v@);
            lemma_read_digits_limit(v@, 10, 0x7fff_ffff_ffff_ffff, 0);
            if v@.len() > 0 {
                lemma_read_digits_limit(v@.drop_first(), 10, 0x7fff_ffff_ffff_ffff, 0);
            }
        }
        match take_unsigned(&v, 0, 10, 0x7fff_ffff_ffff_ffff) {
            Ok(abs) => negate_unsigned(abs, false),
            Err(f) => Err(fault_message(f)),
        }
    }
}

/// A hop bound of a variable-length pattern: it has to fit in 32 bits.
pub open spec fn hop_bound(s: Seq<char>) -> Result<u32, ErrorView> {
    match read_unsigned(s, 10, 0xffff_ffff) {
        Ok(n) => Ok(n as u32),
        Err(_) => Err(
            types::coded_error(
                QueryPhase::Parse,
                ErrorCode::NumberOutOfRange,
                "var-length hop count `"@ + s + "` is out of range (must fit in u32)"@,
            ),
        ),
    }
}

/// What a hop bound or an error says.
pub open spec fn bound_view(r: Result<u32, GraphError>) -> Result<u32, ErrorView> {
    match r {
        Ok(n) => Ok(n),
        Err(e) => Err(e@),
    }
}

/// Unsigned numbers keep to their limit.
proof fn lemma_read_digits_limit(s: Seq<char>, radix: nat, limit: nat, acc: nat)
    requires
        acc <= limit,
    ensures
        read_digits(s, radix, limit, acc) matches Ok(n) ==> n <= limit,
    decreases s.len(),
{
    if s.len() > 0 {
        if let Some(d) = digit_of(s[0], radix) {
            if acc * radix + d <= limit {
                lemma_read_digits_limit(s.drop_first(), radix, limit, acc * radix + d);
            }
        }
    }
}

/// Parses a hop bound.
pub fn parse_var_length_bound(s: &str) -> (r: Result<u32, GraphError>)
    ensures
        bound_view(r) == hop_bound(s@),
{
    let v = text::chars_of(s);
    assert(v@.skip(0) =~= v@);
    match take_unsigned(&v, 0, 10, 0xffff_ffff) {
        Ok(n) => {
            proof {
                lemma_read_digits_limit(v@, 10, 0xffff_ffff, 0);
                if v@.len() > 0 {
                    lemma_read_digits_limit(v@.drop_first(), 10, 0xffff_ffff, 0);
                }
            }
            Ok(n as u32)
        },
        Err(_) => Err(
            GraphError::query(
                QueryPhase::Parse,
                ErrorCode::NumberOutOfRange,
                text::cat3("var-length hop count `", s, "` is out of range (must fit in u32)"),
            ),
        ),
    }
}

/// The characters behind `\u`: four, or as many as are left.
pub open spec fn hex_part(s: Seq<char>, i: int) -> Seq<char> {
    s.subrange(i, if i + 4 <= s.len() { i + 4 } else { s.len() as int })
}

/// The code point that four hexadecimal digits stand for.
pub open spec fn code_point(hex: Seq<char>) -> Option<nat> {
    if hex.len() == 4 {
        match read_unsigned(hex, 16, 0xffff_ffff) {
            Ok(n) => Some(n),
            Err(_) => None,
        }
    } else {
        None
    }
}

/// The error for a `\u` escape that stands for no character.
pub open spec fn unicode_error(prefix: Seq<char>, hex: Seq<char>) -> ErrorView {
    types::coded_error(
        QueryPhase::Parse,
        ErrorCode::InvalidUnicodeLiteral,
        prefix + "\\u"@ + hex,
    )
}

/// The first escape or character of `s` from `i` on: what it stands for, and where it ends.
pub open spec fn unescape_one(s: Seq<char>, i: int) -> Result<(Seq<char>, int), ErrorView> {
    if s[i] != '\\' {
        Ok((seq![s[i]], i + 1))
    } else if i + 1 >= s.len() {
        Ok((seq!['\\'], i + 1))
    } else if s[i + 1] == 'u' {
        let hex = hex_part(s, i + 2);
        match code_point(hex) {
            None => Err(unicode_error("InvalidUnicodeLiteral: "@, hex)),
            Some(n) => if 0xd800 <= n <= 0xdfff {
                Err(unicode_error("InvalidUnicodeLiteral: invalid code point "@, hex))
            } else {
                Ok((seq![n as char], i + 2 + hex.len()))
            },
        }
    } else {
        match simple_escape(s[i + 1]) {
            Some(c) => Ok((seq![c], i + 2)),
            None => Ok((seq!['\\', s[i + 1]], i + 2)),
        }
    }
}

/// The inside of a string literal from `i` on, with its escapes resolved.
pub open spec fn unescaped(s: Seq<char>, i: int) -> Result<Seq<char>, ErrorView>
    decreases s.len() - i,
{
    if i < 0 || i >= s.len() {
        Ok(Seq::empty())
    } else {
        match unescape_one(s, i) {
            Err(e) => Err(e),
            Ok((piece, next)) => if i < next {
                match unescaped(s, next) {
                    Ok(rest) => Ok(piece + rest),
                    Err(e) => Err(e),
                }
            } else {
                Ok(piece)
            },
        }
    }
}

/// What a text or an error says.
pub open spec fn text_view(r: Result<String, GraphError>) -> Result<Seq<char>, ErrorView> {
    match r {
        Ok(s) => Ok(s@),
        Err(e) => Err(e@),
    }
}

/// What the first part of an unescaped text and the rest make together.
pub open spec fn joined(done: Seq<char>, rest: Result<Seq<char>, ErrorView>) -> Result<
    Seq<char>,
    ErrorView,
> {
    match rest {
        Ok(r) => Ok(done + r),
        Err(e) => Err(e),
    }
}

/// Resolves a `\u` escape whose digits begin at `at`.
fn unescape_unicode(v: &Vec<char>, at: usize) -> (r: Result<(char, usize), GraphError>)
    requires
        2 <= at <= v.len(),
        v@[at - 2] == '\\',
        v@[at - 1] == 'u',
    ensures
        match r {
            Ok((c, next)) => unescape_one(v@, at - 2) == Ok::<(Seq<char>, int), ErrorView>(
                (seq![c], next as int),
            ) && at <= next <= v.len(),
            Err(e) => unescape_one(v@, at - 2) == Err::<(Seq<char>, int), ErrorView>(e@),
        },
{
    let end: usize = if v.len() - at >= 4 {
        at + 4
    } else {
        v.len()
    };
    let hex = text::slice_text(v, at, end);
    let digits = text::chars_of(hex.as_str());
    if digits.len() == 4 {
        assert(digits@.skip(0) =~= digits@);
        if let Ok(n) = take_unsigned(&digits, 0, 16, 0xffff_ffff) {
            proof {
                lemma_four_digits(digits@);
            }
            return match char_from(n as u32) {
                Some(c) => Ok((c, end)),
                None => Err(
                    GraphError::query(
                        QueryPhase::Parse,
                        ErrorCode::InvalidUnicodeLiteral,
                        text::cat3(
                            "InvalidUnicodeLiteral: invalid code point ",
                            "\\u",
                            hex.as_str(),
                        ),
                    ),
                ),
            };
        }
    }
    Err(
        GraphError::query(
            QueryPhase::Parse,
            ErrorCode::InvalidUnicodeLiteral,
            text::cat3("InvalidUnicodeLiteral: ", "\\u", hex.as_str()),
        ),
    )
}

/// Four hexadecimal digits stay below `0x10000`.
proof fn lemma_four_digits(s: Seq<char>)
    requires
        s.len() == 4,
    ensures
        read_unsigned(s, 16, 0xffff_ffff) matches Ok(n) ==> n <= 0xffff,
{
    reveal_with_fuel(read_digits, 6);
    let a = s.drop_first();
    let b = a.drop_first();
    let c = b.drop_first();
    let d = c.drop_first();
    assert(a.len() == 3 && b.len() == 2 && c.len() == 1 && d.len() == 0);
}

/// The character with the given code point below `0x10000`, if there is one.
fn char_from(n: u32) -> (r: Option<char>)
    requires
        n <= 0xffff,
    ensures
        match r {
            Some(c) => !(0xd800 <= n <= 0xdfff) && c == n as char && c as u32 == n,
            None => 0xd800 <= n <= 0xdfff,
        },
{
    if 0xd800 <= n && n <= 0xdfff {
        None
    } else {
        let r = std::char::from_u32(n);
        proof {
            if let Some(c) = r {
                vstd::utf8::char_u32_cast(c, n);
            }
        }
        r
    }
}

/// Resolves the backslash escapes of a string literal.
pub fn unescape_string(raw: &str) -> (r: Result<String, GraphError>)
    ensures
        text_view(r) == unescaped(raw@, 0),
{
    let v = text::chars_of(raw);
    let mut out = String::new();
    let mut i: usize = 0;
    proof {
        if let Ok(rest) = unescaped(v@, 0) {
            assert(Seq::<char>::empty() + rest =~= rest);
        }
    }
    while i < v.len()
        invariant
            v@ == raw@,
            i <= v.len(),
            unescaped(v@, 0) == joined(out@, unescaped(v@, i as int)),
        decreases v.len() - i,
    {
        let c = v[i];
        let ghost done = out@;
        let ghost at = i as int;
        if c == '\\' && v.len() - i > 1 && v[i + 1] == 'u' {
            match unescape_unicode(&v, i + 2) {
                Ok((u, next)) => {
                    out.push(u);
                    i = next;
                    assert(out@ =~= done + seq![u]);
                },
                Err(e) => {
                    return Err(e);
                },
            }
        } else if c == '\\' && v.len() - i > 1 {
            let d = v[i + 1];
            if d == 'n' {
                out.push('\n');
            } else if d == 't' {
                out.push('\t');
            } else if d == 'r' {
                out.push('\r');
            } else if d == 'b' {
                out.push('\u{8}');
            } else if d == 'f' {
                out.push('\u{c}');
            } else if d == '\\' || d == '\'' || d == '"' || d == '/' {
                out.push(d);
            } else {
                out.push('\\');
                out.push(d);
            }
            i = i + 2;
            assert(unescape_one(v@, at) matches Ok((piece, next)) && out@ =~= done + piece && next
                == i);
        } else {
            out.push(c);
            i = i + 1;
            assert(unescape_one(v@, at) matches Ok((piece, next)) && out@ =~= done + piece && next
                == i);
        }
        proof {
            let piece = unescape_one(v@, at)->Ok_0.0;
            if let Ok(rest) = unescaped(v@, i as int) {
                assert(done + (piece + rest) =~= (done + piece) + rest);
            }
        }
    }
    proof {
        assert(out@ + Seq::<char>::empty() =~= out@);
    }
    Ok(out)
}

} // verus!
