//! How texts are matched: gaps, words, characters, and the ways in which expressions are put
//! together.
use super::peg;
use super::peg::{Class, FarView, Frame, PairView, Peg};
use crate::text;
use vstd::prelude::*;

verus! {

/// White space is a space, a tab, a line feed or a carriage return.
pub proof fn white_space_is_skipped(s: Seq<char>, at: int)
    requires
        0 <= at < s.len(),
        s[at] == ' ' || s[at] == '\t' || s[at] == '\n' || s[at] == '\r',
    ensures
        peg::gap_end(s, at) == peg::gap_end(s, at + 1),
{
}

/// A comment goes from two slashes to the end of its line.
pub proof fn comments_are_skipped(s: Seq<char>, at: int)
    requires
        0 <= at,
        at + 1 < s.len(),
        s[at] == '/',
        s[at + 1] == '/',
    ensures
        at + 2 <= peg::line_end(s, at) <= s.len(),
        peg::line_end(s, at) < s.len() ==> s[peg::line_end(s, at)] == '\n',
        forall|i: int| at <= i < peg::line_end(s, at) ==> s[i] != '\n',
        peg::gap_end(s, at) == peg::gap_end(s, peg::line_end(s, at)),
{
    lemma_line_end(s, at);
    lemma_line_end(s, at + 1);
    assert(s[at] != '\n' && s[at + 1] != '\n');
    assert(peg::line_end(s, at) == peg::line_end(s, at + 1));
    assert(peg::line_end(s, at + 1) == peg::line_end(s, at + 2));
    lemma_line_end(s, at + 2);
}

/// A line ends at its first line feed, or at the end of the text.
proof fn lemma_line_end(s: Seq<char>, at: int)
    requires
        0 <= at <= s.len(),
    ensures
        at <= peg::line_end(s, at) <= s.len(),
        peg::line_end(s, at) < s.len() ==> s[peg::line_end(s, at)] == '\n',
        forall|i: int| at <= i < peg::line_end(s, at) ==> s[i] != '\n',
    decreases s.len() - at,
{
    if at < s.len() && s[at] != '\n' {
        lemma_line_end(s, at + 1);
    }
}

/// A gap ends where neither white space nor a comment begins.
pub proof fn a_gap_ends_at_something(s: Seq<char>, at: int)
    requires
        0 <= at <= s.len(),
    ensures
        at <= peg::gap_end(s, at) <= s.len(),
        ({
            let e = peg::gap_end(s, at);
            e < s.len() ==> s[e] != ' ' && s[e] != '\t' && s[e] != '\n' && s[e] != '\r' && !(s[e]
                == '/' && e + 1 < s.len() && s[e + 1] == '/')
        }),
    decreases s.len() - at,
{
    if at < s.len() && peg::blank(s[at]) {
        a_gap_ends_at_something(s, at + 1);
    } else if peg::comment_at(s, at) {
        comments_are_skipped(s, at);
        a_gap_ends_at_something(s, peg::line_end(s, at));
    }
}

/// The lower case of a letter: of the ASCII capitals the small letter, of all else itself.
pub proof fn capitals_have_small_letters(c: char)
    ensures
        'A' <= c <= 'Z' ==> text::lower(c) as int == c as int + 32,
        !('A' <= c <= 'Z') ==> text::lower(c) == c,
{
}

/// A word stands in a text where each of its letters does, in whatever case, and no name goes on
/// behind it.
pub proof fn words_stand_in_any_case(s: Seq<char>, at: int, w: Seq<char>)
    requires
        0 <= at,
        at + w.len() <= s.len(),
    ensures
        peg::word_at(s, at, w) <==> ((forall|i: int|
            0 <= i < w.len() ==> text::lower(s[at + i]) == #[trigger] w[i]) && (at + w.len()
            == s.len() || !({
            let c = s[at + w.len()];
            'a' <= c <= 'z' || 'A' <= c <= 'Z' || '0' <= c <= '9' || c == '_' || c > '\x7f'
        }))),
{
    if peg::word_at(s, at, w) {
        assert forall|i: int| 0 <= i < w.len() implies text::lower(s[at + i]) == #[trigger] w[i] by {
            assert(text::lower_text(s.subrange(at, at + w.len()))[i] == w[i]);
        }
    }
    if forall|i: int| 0 <= i < w.len() ==> text::lower(s[at + i]) == #[trigger] w[i] {
        assert(text::lower_text(s.subrange(at, at + w.len())) =~= w);
    }
}

/// A literal stands where each of its characters does.
pub proof fn literals_stand_letter_for_letter(s: Seq<char>, at: int, t: Seq<char>)
    ensures
        peg::literal_at(s, at, t) <==> (0 <= at && at + t.len() <= s.len() && forall|i: int|
            0 <= i < t.len() ==> s[at + i] == #[trigger] t[i]),
{
    if peg::literal_at(s, at, t) {
        assert forall|i: int| 0 <= i < t.len() implies s[at + i] == #[trigger] t[i] by {
            assert(s.subrange(at, at + t.len())[i] == t[i]);
        }
    }
    if 0 <= at && at + t.len() <= s.len() && forall|i: int|
        0 <= i < t.len() ==> s[at + i] == #[trigger] t[i] {
        assert(s.subrange(at, at + t.len()) =~= t);
    }
}

/// What characters belong to a class.
pub proof fn classes_hold_their_characters(c: char)
    ensures
        peg::in_class(c, Class::Digit) <==> 48 <= c as int <= 57,
        peg::in_class(c, Class::OctalDigit) <==> 48 <= c as int <= 55,
        peg::in_class(c, Class::HexDigit) <==> (48 <= c as int <= 57 || 97 <= c as int <= 102 || 65
            <= c as int <= 70),
        peg::in_class(c, Class::NameStart) <==> (97 <= c as int <= 122 || 65 <= c as int <= 90 || c
            == '_' || c as int > 127),
        peg::in_class(c, Class::NameChar) <==> (peg::in_class(c, Class::NameStart)
            || peg::in_class(c, Class::Digit)),
        peg::in_class(c, Class::AsciiStart) <==> (97 <= c as int <= 122 || 65 <= c as int <= 90 || c
            == '_'),
        peg::in_class(c, Class::AsciiChar) <==> (peg::in_class(c, Class::AsciiStart)
            || peg::in_class(c, Class::Digit)),
        peg::in_class(c, Class::Any),
        peg::in_class(c, Class::NotBacktick) <==> c != '`',
        peg::in_class(c, Class::NotSingleQuote) <==> c != '\'' && c != '\\',
        peg::in_class(c, Class::NotDoubleQuote) <==> c != '"' && c != '\\',
{
}

/// Of a choice the first that matches is taken, and the second only where the first does not.
pub proof fn choices_are_tried_in_order(
    a: Peg,
    b: Peg,
    s: Seq<char>,
    at: int,
    frame: Frame,
    far: FarView,
)
    requires
        frame.start <= at <= s.len(),
    ensures
        ({
            let first = peg::matches(a, s, at, frame, far);
            let out = peg::matches(Peg::Either(Box::new(a), Box::new(b)), s, at, frame, far);
            &&& first.0 is Some ==> out.0 == first.0
            &&& first.0 is None ==> out.0 == peg::matches(b, s, at, frame, first.1).0
        }),
{
}

/// One after the other means that the second begins where the first stops, and that what both
/// left stands in that order.
pub proof fn chains_go_on_where_they_stopped(
    a: Peg,
    b: Peg,
    s: Seq<char>,
    at: int,
    frame: Frame,
    far: FarView,
)
    requires
        frame.start <= at <= s.len(),
    ensures
        ({
            let first = peg::matches(a, s, at, frame, far);
            let out = peg::matches(Peg::Chain(Box::new(a), Box::new(b)), s, at, frame, far);
            &&& first.0 is None ==> out.0 is None
            &&& first.0 matches Some((mid, xs)) ==> ({
                let second = peg::matches(b, s, mid, frame, first.1);
                match second.0 {
                    None => out.0 is None,
                    Some((end, ys)) => out.0 == Some((end, xs + ys)),
                }
            })
        }),
{
}

/// What may be there is taken where it is there, and what may be there often is taken as often as
/// it is there.
pub proof fn optional_parts_are_taken_where_there(
    a: Peg,
    s: Seq<char>,
    at: int,
    frame: Frame,
    far: FarView,
)
    requires
        frame.start <= at <= s.len(),
    ensures
        ({
            let one = peg::matches(a, s, at, frame, far);
            let maybe = peg::matches(Peg::Maybe(Box::new(a)), s, at, frame, far);
            let many = peg::matches(Peg::Many(Box::new(a)), s, at, frame, far);
            &&& one.0 is Some ==> maybe.0 == one.0
            &&& one.0 is None ==> maybe.0 == Some((at, Seq::<PairView>::empty())) && many.0 == Some(
                (at, Seq::<PairView>::empty()),
            )
            &&& one.0 matches Some((mid, xs)) ==> (at < mid <= s.len() ==> ({
                let rest = peg::matches(Peg::Many(Box::new(a)), s, mid, frame, one.1);
                match rest.0 {
                    None => many.0 is None,
                    Some((end, ys)) => many.0 == Some((end, xs + ys)),
                }
            }))
        }),
{
}

/// Looking ahead takes nothing, and succeeds where what is looked for is there, or where it is
/// not.
pub proof fn looking_ahead_takes_nothing(
    a: Peg,
    s: Seq<char>,
    at: int,
    frame: Frame,
    far: FarView,
)
    requires
        frame.start <= at <= s.len(),
    ensures
        ({
            let one = peg::matches(a, s, at, frame, far);
            let here = Some((at, Seq::<PairView>::empty()));
            &&& peg::matches(Peg::Ahead(Box::new(a)), s, at, frame, far).0 == (if one.0 is Some {
                here
            } else {
                None
            })
            &&& peg::matches(Peg::Unless(Box::new(a)), s, at, frame, far).0 == (if one.0 is Some {
                None
            } else {
                here
            })
        }),
{
}

} // verus!
