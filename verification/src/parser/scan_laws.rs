//! Places in a text, and what the scans before parsing find.
use super::scan;
use super::source;
use crate::types::Span;
use vstd::prelude::*;
use vstd::utf8::encode_utf8;

verus! {

/// The byte is a line feed.
pub open spec fn line_feed() -> spec_fn(u8) -> bool {
    |b: u8| b == 10u8
}

/// The character is a line feed.
pub open spec fn line_end() -> spec_fn(char) -> bool {
    |c: char| c == '\n'
}

/// The line of a byte is one more than the number of line feeds before it.
pub proof fn lines_of_bytes_are_counted(b: Seq<u8>, at: nat)
    requires
        at <= b.len(),
    ensures
        scan::byte_line(b, at) == 1 + b.take(at as int).filter(line_feed()).len(),
    decreases at,
{
    if at == 0 {
        assert(b.take(0) =~= Seq::empty());
        reveal(Seq::filter);
    } else {
        lines_of_bytes_are_counted(b, (at - 1) as nat);
        let t = b.take(at as int);
        assert(t.drop_last() =~= b.take(at - 1));
        assert(t.last() == b[at - 1]);
        reveal(Seq::filter);
    }
}

/// The column of a byte counts from the last line feed before it, or from the beginning.
pub proof fn columns_of_bytes_are_counted(b: Seq<u8>, at: nat)
    requires
        at <= b.len(),
    ensures
        1 <= scan::byte_col(b, at) <= at + 1,
        forall|i: int| at - (scan::byte_col(b, at) - 1) <= i < at ==> #[trigger] b[i] != 10u8,
        scan::byte_col(b, at) <= at ==> b[at - scan::byte_col(b, at)] == 10u8,
    decreases at,
{
    if at > 0 && b[at - 1] != 10u8 {
        columns_of_bytes_are_counted(b, (at - 1) as nat);
    }
}

/// The line of a character is one more than the number of line feeds before it.
pub proof fn lines_are_counted(s: Seq<char>, at: nat)
    requires
        at <= s.len(),
    ensures
        source::line_at(s, at) == 1 + s.take(at as int).filter(line_end()).len(),
    decreases at,
{
    if at == 0 {
        assert(s.take(0) =~= Seq::empty());
        reveal(Seq::filter);
    } else {
        lines_are_counted(s, (at - 1) as nat);
        let t = s.take(at as int);
        assert(t.drop_last() =~= s.take(at - 1));
        assert(t.last() == s[at - 1]);
        reveal(Seq::filter);
    }
}

/// The column of a character counts from the last line feed before it, or from the beginning.
pub proof fn columns_are_counted(s: Seq<char>, at: nat)
    requires
        at <= s.len(),
    ensures
        1 <= source::col_at(s, at) <= at + 1,
        forall|i: int| at - (source::col_at(s, at) - 1) <= i < at ==> #[trigger] s[i] != '\n',
        source::col_at(s, at) <= at ==> s[at - source::col_at(s, at)] == '\n',
    decreases at,
{
    if at > 0 && s[at - 1] != '\n' {
        columns_are_counted(s, (at - 1) as nat);
    }
}

/// Byte offsets begin at nothing and grow by the bytes of each character.
pub proof fn offsets_grow_by_characters(s: Seq<char>, i: nat)
    requires
        i < s.len(),
    ensures
        source::byte_at(s, 0) == 0,
        source::byte_at(s, i + 1) == source::byte_at(s, i) + encode_utf8(seq![s[i as int]]).len(),
{
    assert(s.take(0) =~= Seq::empty());
    assert(s.take((i + 1) as int) =~= s.take(i as int) + seq![s[i as int]]);
    source::lemma_encode_concat(s.take(i as int), seq![s[i as int]]);
}

/// A span from a place to another begins and ends where they stand.
pub proof fn spans_stand_where_they_begin_and_end(s: Seq<char>, start: nat, end: nat)
    requires
        source::byte_at(s, start) <= usize::MAX,
        source::byte_at(s, end) <= usize::MAX,
        source::line_at(s, start) <= u32::MAX,
        source::col_at(s, start) <= u32::MAX,
    ensures
        ({
            let x = source::span_between(s, start, end);
            &&& x.start == source::byte_at(s, start)
            &&& x.end == source::byte_at(s, end)
            &&& x.line == source::line_at(s, start)
            &&& x.col == source::col_at(s, start)
        }),
{
}

/// The span over two that stand in the text covers both and no more, in whichever order they
/// come, and stands on the line of the earlier one.
pub proof fn a_cover_covers_both(a: Span, b: Span)
    requires
        a.line != 0,
        b.line != 0,
    ensures
        ({
            let x = source::span_cover(a, b);
            &&& x.start <= a.start && x.start <= b.start
            &&& x.end >= a.end && x.end >= b.end
            &&& x.start == a.start && x.line == a.line && x.col == a.col || x.start == b.start
                && x.line == b.line && x.col == b.col
            &&& x.end == a.end || x.end == b.end
            &&& a.start != b.start ==> x == source::span_cover(b, a)
        }),
{
}

/// A span that stands nowhere adds nothing.
pub proof fn a_span_from_nowhere_adds_nothing(a: Span, b: Span)
    requires
        b.line == 0,
    ensures
        source::span_cover(a, b) == a || a.line == 0,
        source::span_cover(b, a) == a,
{
}

/// Where nothing is escaped, a string closes at the first quote of its kind, and stays open where
/// there is none.
pub proof fn a_string_closes_at_the_first_quote(b: Seq<u8>, i: int, quote: u8, c: int)
    requires
        0 <= i <= c <= b.len(),
        forall|j: int| i <= j < c ==> #[trigger] b[j] != quote && b[j] != 92u8,
        c < b.len() ==> b[c] == quote,
    ensures
        scan::string_close(b, i, quote) == c,
    decreases c - i,
{
    if i < c {
        assert(b[i] != quote && b[i] != 92u8);
        a_string_closes_at_the_first_quote(b, i + 1, quote, c);
    }
}

/// A quote behind a backslash does not close a string: the two are passed over.
pub proof fn an_escaped_quote_closes_nothing(b: Seq<u8>, i: int, quote: u8)
    requires
        0 <= i,
        i + 1 < b.len(),
        b[i] == 92u8,
        quote != 92u8,
    ensures
        scan::string_close(b, i, quote) == scan::string_close(b, i + 2, quote),
{
}

/// A comment closes at the first line feed.
pub proof fn a_comment_closes_at_the_line_feed(b: Seq<u8>, i: int, c: int)
    requires
        0 <= i <= c <= b.len(),
        forall|j: int| i <= j < c ==> #[trigger] b[j] != 10u8,
        c < b.len() ==> b[c] == 10u8,
    ensures
        scan::comment_close(b, i) == c,
    decreases c - i,
{
    if i < c {
        assert(b[i] != 10u8);
        a_comment_closes_at_the_line_feed(b, i + 1, c);
    }
}

/// A text without quotes has no open string.
pub proof fn without_quotes_nothing_is_open(b: Seq<u8>, i: int)
    requires
        forall|j: int| 0 <= j < b.len() ==> #[trigger] b[j] != 39u8 && b[j] != 34u8,
    ensures
        scan::unclosed_at(b, i) is None,
    decreases b.len() - i,
{
    if 0 <= i < b.len() {
        scan::lemma_piece_end_bounds(b, i);
        without_quotes_nothing_is_open(b, scan::piece_end(b, i));
    }
}

/// A quote with no other of its kind behind it, and neither quotes nor slashes before it, is where
/// a string stays open.
pub proof fn a_lone_quote_stays_open(b: Seq<u8>, i: int, q: int)
    requires
        0 <= i <= q < b.len(),
        b[q] == 39u8 || b[q] == 34u8,
        forall|j: int| i <= j < q ==> #[trigger] b[j] != 39u8 && b[j] != 34u8 && b[j] != 47u8,
        forall|j: int| q < j < b.len() ==> #[trigger] b[j] != b[q] && b[j] != 92u8,
    ensures
        scan::unclosed_at(b, i) == Some(q),
    decreases q - i,
{
    if i == q {
        a_string_closes_at_the_first_quote(b, q + 1, b[q], b.len() as int);
    } else {
        assert(b[i] != 39u8 && b[i] != 34u8 && b[i] != 47u8);
        a_lone_quote_stays_open(b, i + 1, q);
    }
}

/// A string that is closed hides what stands in it: what is open is looked for behind it.
pub proof fn a_closed_string_is_passed_over(b: Seq<u8>, i: int, c: int)
    requires
        0 <= i < c < b.len(),
        b[i] == 39u8 || b[i] == 34u8,
        b[c] == b[i],
        forall|j: int| i < j < c ==> #[trigger] b[j] != b[i] && b[j] != 92u8,
    ensures
        scan::unclosed_at(b, i) == scan::unclosed_at(b, c + 1),
        forall|d: nat| scan::nests_too_deep(b, i, d) == #[trigger] scan::nests_too_deep(b, c + 1, d),
{
    a_string_closes_at_the_first_quote(b, i + 1, b[i], c);
}

/// A comment hides what stands in it up to the line feed.
pub proof fn a_comment_is_passed_over(b: Seq<u8>, i: int, c: int)
    requires
        0 <= i,
        i + 1 < c < b.len(),
        b[i] == 47u8,
        b[i + 1] == 47u8,
        b[c] == 10u8,
        forall|j: int| i < j < c ==> #[trigger] b[j] != 10u8,
    ensures
        scan::unclosed_at(b, i) == scan::unclosed_at(b, c),
        forall|d: nat| scan::nests_too_deep(b, i, d) == #[trigger] scan::nests_too_deep(b, c, d),
{
    a_comment_closes_at_the_line_feed(b, i + 1, c);
}

/// The byte opens a bracket of some kind.
pub open spec fn opening() -> spec_fn(u8) -> bool {
    |b: u8| b == 40u8 || b == 91u8 || b == 123u8
}

/// A text with few enough opening brackets does not nest too deep.
pub proof fn few_brackets_are_not_too_deep(b: Seq<u8>, i: int, depth: nat)
    requires
        0 <= i <= b.len(),
        depth + b.skip(i).filter(opening()).len() <= source::MAX_EXPR_DEPTH,
    ensures
        !scan::nests_too_deep(b, i, depth),
    decreases b.len() - i,
{
    if i < b.len() {
        scan::lemma_piece_end_bounds(b, i);
        let e = if opening()(b[i]) || b[i] == 41u8 || b[i] == 93u8 || b[i] == 125u8 {
            i + 1
        } else {
            scan::piece_end(b, i)
        };
        let head = b.subrange(i, e);
        assert(b.skip(i) =~= head + b.skip(e));
        Seq::filter_distributes_over_add(head, b.skip(e), opening());
        if opening()(b[i]) {
            assert(head =~= seq![b[i]]);
            reveal_with_fuel(Seq::filter, 2);
            assert(head.drop_last() =~= Seq::empty());
            few_brackets_are_not_too_deep(b, i + 1, depth + 1);
        } else if b[i] == 41u8 || b[i] == 93u8 || b[i] == 125u8 {
            few_brackets_are_not_too_deep(
                b,
                i + 1,
                if depth > 0 {
                    (depth - 1) as nat
                } else {
                    0
                },
            );
        } else {
            few_brackets_are_not_too_deep(b, e, depth);
        }
    }
}

/// So many brackets opened in a row nest too deep.
pub proof fn many_brackets_in_a_row_are_too_deep(b: Seq<u8>, i: int, depth: nat)
    requires
        0 <= i,
        depth <= source::MAX_EXPR_DEPTH,
        i + (source::MAX_EXPR_DEPTH - depth) < b.len(),
        forall|j: int| i <= j <= i + (source::MAX_EXPR_DEPTH - depth) ==> opening()(#[trigger] b[j]),
    ensures
        scan::nests_too_deep(b, i, depth),
    decreases source::MAX_EXPR_DEPTH - depth,
{
    assert(opening()(b[i]));
    if depth < source::MAX_EXPR_DEPTH {
        many_brackets_in_a_row_are_too_deep(b, i + 1, depth + 1);
    }
}

/// A bracket that is closed at once does not count for what stands behind it.
pub proof fn a_closed_bracket_does_not_count(b: Seq<u8>, i: int, depth: nat)
    requires
        0 <= i,
        i + 1 < b.len(),
        opening()(b[i]),
        b[i + 1] == 41u8 || b[i + 1] == 93u8 || b[i + 1] == 125u8,
        depth < source::MAX_EXPR_DEPTH,
    ensures
        scan::nests_too_deep(b, i, depth) == scan::nests_too_deep(b, i + 2, depth),
{
    reveal_with_fuel(scan::nests_too_deep, 2);
}

} // verus!
