//! Text: characters of strings, slices, concatenation and ASCII case.
use crate::ast_model;
use vstd::prelude::*;

verus! {

/// `String::push` appends the given character to the end of the string.
pub assume_specification[ std::string::String::push ](s: &mut std::string::String, c: char)
    ensures
        final(s)@ == old(s)@.push(c),
;

/// `char::from_u32` converts a number to the character with that code point, and gives `None`
/// for a number that is no Unicode scalar value.
pub assume_specification[ std::char::from_u32 ](i: u32) -> (r: Option<char>)
    ensures
        match r {
            Some(c) => c as u32 == i,
            None => 0xd800 <= i <= 0xdfff || i > 0x10ffff,
        },
;

/// The characters of a string.
pub fn chars_of(s: &str) -> (v: Vec<char>)
    ensures
        v@ == s@,
{
    let mut v: Vec<char> = Vec::new();
    for c in it: s.chars()
        invariant
            it.seq() == s@,
            v@ == s@.take(it.index() as int),
    {
        v.push(c);
    }
    v
}

/// The string made of the characters from `a` up to `b`.
pub fn slice_text(v: &Vec<char>, a: usize, b: usize) -> (r: String)
    requires
        a <= b <= v.len(),
    ensures
        r@ == v@.subrange(a as int, b as int),
{
    let mut s = String::new();
    let mut i: usize = a;
    while i < b
        invariant
            a <= i <= b <= v.len(),
            s@ == v@.subrange(a as int, i as int),
        decreases b - i,
    {
        s.push(v[i]);
        i = i + 1;
    }
    s
}

/// An owned copy of a string slice.
pub fn owned(s: &str) -> (r: String)
    ensures
        r@ == s@,
{
    s.to_owned()
}

/// True when the two texts are the same.
pub fn same(a: &String, b: &String) -> (r: bool)
    ensures
        r == (a@ == b@),
{
    *a == *b
}

/// True when the two texts are the same.
pub fn same_str(a: &str, b: &str) -> (r: bool)
    ensures
        r == (a@ == b@),
{
    a.to_owned() == b.to_owned()
}

/// The first text followed by the second.
pub fn cat(a: &str, b: &str) -> (r: String)
    ensures
        r@ == a@ + b@,
{
    let mut s = a.to_owned();
    s.append(b);
    s
}

/// Three texts, one after the other.
pub fn cat3(a: &str, b: &str, c: &str) -> (r: String)
    ensures
        r@ == a@ + b@ + c@,
{
    let mut s = a.to_owned();
    s.append(b);
    s.append(c);
    s
}

/// The lower case form of an ASCII letter; any other character is left alone.
pub open spec fn lower(c: char) -> char {
    if 'A' <= c && c <= 'Z' {
        (c as u32 + 32) as char
    } else {
        c
    }
}

/// The lower case form of an ASCII letter; any other character is left alone.
pub fn lower_char(c: char) -> (r: char)
    ensures
        r == lower(c),
{
    if 'A' <= c && c <= 'Z' {
        (c as u8 + 32) as char
    } else {
        c
    }
}

/// A text with its ASCII letters in lower case.
pub open spec fn lower_text(s: Seq<char>) -> Seq<char> {
    Seq::new(s.len(), |i: int| lower(s[i]))
}

/// A text with its ASCII letters in lower case.
pub fn lower_string(s: &str) -> (r: String)
    ensures
        r@ == lower_text(s@),
{
    let mut r = String::new();
    for c in it: s.chars()
        invariant
            it.seq() == s@,
            r@ == lower_text(s@).take(it.index() as int),
    {
        r.push(lower_char(c));
    }
    r
}

/// The text stands in `s` at `at`, ignoring ASCII case in `s`.
pub open spec fn stands_at(s: Seq<char>, at: int, word: Seq<char>) -> bool {
    0 <= at && at + word.len() <= s.len() && lower_text(s.subrange(at, at + word.len())) == word
}

/// Some part of `s` is the lower case `word`, ignoring ASCII case.
pub open spec fn contains_word(s: Seq<char>, word: Seq<char>) -> bool {
    exists|at: int| stands_at(s, at, word)
}

/// True when the lower case word stands at `at`, ignoring ASCII case.
pub fn word_stands(v: &Vec<char>, at: usize, word: &Vec<char>) -> (r: bool)
    ensures
        r == stands_at(v@, at as int, word@),
{
    if at > v.len() || v.len() - at < word.len() {
        return false;
    }
    let ghost part = v@.subrange(at as int, at + word@.len());
    let mut i: usize = 0;
    while i < word.len()
        invariant
            at + word.len() <= v.len(),
            i <= word.len(),
            part == v@.subrange(at as int, at + word@.len()),
            forall|j: int| 0 <= j < i ==> #[trigger] lower_text(part)[j] == word@[j],
        decreases word.len() - i,
    {
        assert(lower_text(part)[i as int] == lower(v@[at + i]));
        if lower_char(v[at + i]) != word[i] {
            assert(lower_text(part) != word@);
            return false;
        }
        i = i + 1;
    }
    assert(lower_text(part) =~= word@);
    true
}

/// True when some part of the text is the lower case word, ignoring ASCII case.
pub fn has_word(s: &str, word: &str) -> (r: bool)
    ensures
        r == contains_word(s@, word@),
{
    let v = chars_of(s);
    let w = chars_of(word);
    let mut i: usize = 0;
    while i < v.len()
        invariant
            v@ == s@,
            w@ == word@,
            i <= v.len(),
            forall|j: int| 0 <= j < i ==> !#[trigger] stands_at(s@, j, word@),
        decreases v.len() - i,
    {
        if word_stands(&v, i, &w) {
            return true;
        }
        i = i + 1;
    }
    word_stands(&v, i, &w)
}

/// The text begins with `start`.
pub open spec fn begins(s: Seq<char>, start: Seq<char>) -> bool {
    start.len() <= s.len() && s.take(start.len() as int) == start
}

/// The text ends with `end`.
pub open spec fn ends(s: Seq<char>, end: Seq<char>) -> bool {
    end.len() <= s.len() && s.skip(s.len() - end.len()) == end
}

/// `part` stands in the text.
pub open spec fn holds_part(s: Seq<char>, part: Seq<char>) -> bool {
    exists|at: int| part_at(s, at, part)
}

/// `part` stands in the text at `at`.
pub open spec fn part_at(s: Seq<char>, at: int, part: Seq<char>) -> bool {
    0 <= at && at + part.len() <= s.len() && s.subrange(at, at + part.len()) == part
}

/// True when `part` stands in the characters at `at`.
fn stands(v: &Vec<char>, at: usize, part: &Vec<char>) -> (r: bool)
    ensures
        r == part_at(v@, at as int, part@),
{
    if at > v.len() || v.len() - at < part.len() {
        return false;
    }
    let ghost there = v@.subrange(at as int, at + part@.len());
    let mut i: usize = 0;
    while i < part.len()
        invariant
            at + part.len() <= v.len(),
            i <= part.len(),
            there == v@.subrange(at as int, at + part@.len()),
            forall|j: int| 0 <= j < i ==> #[trigger] there[j] == part@[j],
        decreases part.len() - i,
    {
        assert(there[i as int] == v@[at + i]);
        if v[at + i] != part[i] {
            return false;
        }
        i = i + 1;
    }
    assert(there =~= part@);
    true
}

/// True when the text begins with `start`.
pub fn starts_with(s: &str, start: &str) -> (r: bool)
    ensures
        r == begins(s@, start@),
{
    let v = chars_of(s);
    let w = chars_of(start);
    assert(start@.len() <= s@.len() ==> s@.subrange(0, start@.len() as int) =~= s@.take(
        start@.len() as int,
    ));
    stands(&v, 0, &w)
}

/// True when the text ends with `end`.
pub fn ends_with(s: &str, end: &str) -> (r: bool)
    ensures
        r == ends(s@, end@),
{
    let v = chars_of(s);
    let w = chars_of(end);
    if w.len() > v.len() {
        return false;
    }
    assert(s@.subrange(s@.len() - end@.len(), s@.len() as int) =~= s@.skip(s@.len() - end@.len()));
    stands(&v, v.len() - w.len(), &w)
}

/// True when `part` stands somewhere in the text.
pub fn contains(s: &str, part: &str) -> (r: bool)
    ensures
        r == holds_part(s@, part@),
{
    let v = chars_of(s);
    let w = chars_of(part);
    let mut i: usize = 0;
    while i < v.len()
        invariant
            v@ == s@,
            w@ == part@,
            i <= v.len(),
            forall|j: int| 0 <= j < i ==> !#[trigger] part_at(s@, j, part@),
        decreases v.len() - i,
    {
        if stands(&v, i, &w) {
            return true;
        }
        i = i + 1;
    }
    stands(&v, i, &w)
}

/// The text after `start`, where it begins with it.
pub open spec fn after(s: Seq<char>, start: Seq<char>) -> Option<Seq<char>> {
    if begins(s, start) {
        Some(s.skip(start.len() as int))
    } else {
        None
    }
}

/// The text after `start`, where it begins with it.
pub fn strip_prefix(s: &str, start: &str) -> (r: Option<String>)
    ensures
        ast_model::opt_text(r) == after(s@, start@),
{
    if !starts_with(s, start) {
        return None;
    }
    let v = chars_of(s);
    let w = chars_of(start);
    assert(s@.subrange(start@.len() as int, s@.len() as int) =~= s@.skip(start@.len() as int));
    Some(slice_text(&v, w.len(), v.len()))
}

/// The first place of a character; the length of the text where it does not occur.
pub open spec fn first_place(s: Seq<char>, c: char) -> int
    decreases s.len(),
{
    if s.len() == 0 || s[0] == c {
        0
    } else {
        1 + first_place(s.drop_first(), c)
    }
}

/// The first place is within the text, holds the character, and none before it does.
pub proof fn lemma_first_place(s: Seq<char>, c: char)
    ensures
        0 <= first_place(s, c) <= s.len(),
        first_place(s, c) < s.len() ==> s[first_place(s, c)] == c,
        forall|j: int| 0 <= j < first_place(s, c) ==> #[trigger] s[j] != c,
    decreases s.len(),
{
    if s.len() > 0 && s[0] != c {
        let rest = s.drop_first();
        lemma_first_place(rest, c);
        assert forall|j: int| 0 <= j < first_place(s, c) implies #[trigger] s[j] != c by {
            if j > 0 {
                assert(rest[j - 1] == s[j]);
            }
        }
    }
}

/// The first place of a character from `from` on.
fn find_char(v: &Vec<char>, from: usize, c: char) -> (r: usize)
    requires
        from <= v.len(),
    ensures
        r == from + first_place(v@.skip(from as int), c),
        from <= r <= v.len(),
{
    let ghost s = v@.skip(from as int);
    let mut i: usize = from;
    proof {
        lemma_first_place(s, c);
    }
    while i < v.len()
        invariant
            s == v@.skip(from as int),
            from <= i <= v.len(),
            i <= from + first_place(s, c) <= v.len(),
            first_place(s, c) < s.len() ==> s[first_place(s, c)] == c,
            forall|j: int| 0 <= j < first_place(s, c) ==> #[trigger] s[j] != c,
        decreases v.len() - i,
    {
        assert(s[i - from] == v@[i as int]);
        if v[i] == c {
            return i;
        }
        i = i + 1;
    }
    i
}

/// The text before and after the first `c`.
pub open spec fn parted(s: Seq<char>, c: char) -> Option<(Seq<char>, Seq<char>)> {
    let i = first_place(s, c);
    if i < s.len() {
        Some((s.take(i), s.skip(i + 1)))
    } else {
        None
    }
}

/// The text before and after the first `c`.
pub fn split_once(s: &str, c: char) -> (r: Option<(String, String)>)
    ensures
        match r {
            Some((a, b)) => parted(s@, c) == Some((a@, b@)),
            None => parted(s@, c) is None,
        },
{
    let v = chars_of(s);
    assert(v@.skip(0) =~= v@);
    let i = find_char(&v, 0, c);
    if i < v.len() {
        let a = slice_text(&v, 0, i);
        let b = slice_text(&v, i + 1, v.len());
        assert(a@ =~= s@.take(i as int));
        assert(b@ =~= s@.skip(i + 1));
        Some((a, b))
    } else {
        None
    }
}

/// The pieces of a text between the occurrences of `c`.
pub open spec fn pieces(s: Seq<char>, c: char) -> Seq<Seq<char>>
    decreases s.len(),
    via pieces_shrink
{
    match parted(s, c) {
        Some((a, rest)) => seq![a] + pieces(rest, c),
        None => seq![s],
    }
}

#[via_fn]
proof fn pieces_shrink(s: Seq<char>, c: char) {
    lemma_first_place(s, c);
}

/// The pieces of a text between the occurrences of `c`.
pub fn split(s: &str, c: char) -> (r: Vec<String>)
    ensures
        ast_model::texts(r@) == pieces(s@, c),
{
    let v = chars_of(s);
    let mut out: Vec<String> = Vec::new();
    let mut from: usize = 0;
    let mut end = find_char(&v, 0, c);
    assert(v@.skip(0) =~= v@);
    assert(ast_model::texts(out@) =~= Seq::<Seq<char>>::empty());
    assert(Seq::<Seq<char>>::empty() + pieces(s@, c) =~= pieces(s@, c));
    while end < v.len()
        invariant
            v@ == s@,
            from <= end <= v.len(),
            end == from + first_place(v@.skip(from as int), c),
            ast_model::texts(out@) + pieces(v@.skip(from as int), c) == pieces(s@, c),
        decreases v.len() - from,
    {
        let ghost rest = v@.skip(from as int);
        let piece = slice_text(&v, from, end);
        assert(piece@ =~= rest.take(end - from));
        let ghost before = ast_model::texts(out@);
        out.push(piece);
        assert(ast_model::texts(out@) =~= before.push(piece@));
        assert(rest.skip(end - from + 1) =~= v@.skip(end + 1));
        assert(before + (seq![piece@] + pieces(v@.skip(end + 1), c)) =~= before.push(piece@)
            + pieces(v@.skip(end + 1), c));
        from = end + 1;
        end = find_char(&v, from, c);
    }
    let ghost rest = v@.skip(from as int);
    let piece = slice_text(&v, from, v.len());
    assert(piece@ =~= rest);
    let ghost before = ast_model::texts(out@);
    out.push(piece);
    assert(ast_model::texts(out@) =~= before + seq![piece@]);
    out
}

/// The texts one after the other, with `c` between them.
pub open spec fn joined(v: Seq<Seq<char>>, c: char) -> Seq<char>
    decreases v.len(),
{
    if v.len() == 0 {
        Seq::empty()
    } else if v.len() == 1 {
        v[0]
    } else {
        joined(v.drop_last(), c).push(c) + v.last()
    }
}

/// The texts one after the other, with `c` between them.
pub fn join(v: &Vec<String>, c: char) -> (r: String)
    ensures
        r@ == joined(ast_model::texts(v@), c),
{
    let mut s = String::new();
    let mut i: usize = 0;
    assert(ast_model::texts(v@).take(0) =~= Seq::<Seq<char>>::empty());
    while i < v.len()
        invariant
            i <= v.len(),
            s@ == joined(ast_model::texts(v@).take(i as int), c),
        decreases v.len() - i,
    {
        let ghost next = ast_model::texts(v@).take(i + 1);
        assert(next.drop_last() =~= ast_model::texts(v@).take(i as int));
        assert(next.last() == v@[i as int]@);
        if i > 0 {
            s.push(c);
        }
        s.append(v[i].as_str());
        i = i + 1;
    }
    assert(ast_model::texts(v@).take(v@.len() as int) =~= ast_model::texts(v@));
    s
}

/// A field of a variable: the variable, a dot and the name.
pub open spec fn dotted(var: Seq<char>, name: Seq<char>) -> Seq<char> {
    var + "."@ + name
}

/// A field of a variable: the variable, a dot and the name.
pub fn field(var: &str, name: &str) -> (r: String)
    ensures
        r@ == dotted(var@, name@),
{
    cat3(var, ".", name)
}

/// The character of a decimal digit.
pub open spec fn digit(d: nat) -> char {
    (48 + d) as char
}

/// A number in decimal digits.
pub open spec fn decimal(n: nat) -> Seq<char>
    decreases n,
{
    if n < 10 {
        seq![digit(n)]
    } else {
        decimal(n / 10).push(digit(n % 10))
    }
}

/// A number in decimal digits.
pub fn number(n: u64) -> (r: String)
    ensures
        r@ == decimal(n as nat),
    decreases n,
{
    let mut s = if n < 10 {
        String::new()
    } else {
        number(n / 10)
    };
    let d: u64 = n % 10;
    assert(d < 10);
    let c: char = (48 + d as u8) as char;
    s.push(c);
    assert(n < 10 ==> s@ =~= seq![digit(n as nat)]);
    s
}

} // verus!
