//! The query text, with the position of every character, and the checks that come before
//! parsing.
use super::peg;
use super::peg::{Pair, PairView};
use crate::text;
use crate::types::Span;
use vstd::prelude::*;
use vstd::utf8::*;

verus! {

/// The longest query that is parsed, in bytes.
pub const MAX_QUERY_BYTES: usize = 1048576;

/// The deepest nesting of expressions, and of brackets, that is parsed.
pub const MAX_EXPR_DEPTH: usize = 256;

/// The byte offset of place `i`: the length of everything before it in UTF-8.
pub open spec fn byte_at(s: Seq<char>, i: nat) -> nat {
    encode_utf8(s.take(i as int)).len()
}

/// The line of place `i`, counted from one.
pub open spec fn line_at(s: Seq<char>, i: nat) -> nat
    decreases i,
{
    if i == 0 {
        1
    } else if s[i - 1] == '\n' {
        line_at(s, (i - 1) as nat) + 1
    } else {
        line_at(s, (i - 1) as nat)
    }
}

/// The column of place `i`, counted in characters from one.
pub open spec fn col_at(s: Seq<char>, i: nat) -> nat
    decreases i,
{
    if i == 0 || s[i - 1] == '\n' {
        1
    } else {
        col_at(s, (i - 1) as nat) + 1
    }
}

/// The span from one place to another.
pub open spec fn span_between(s: Seq<char>, start: nat, end: nat) -> Span {
    Span {
        start: byte_at(s, start) as usize,
        end: byte_at(s, end) as usize,
        line: line_at(s, start) as u32,
        col: col_at(s, start) as u32,
    }
}

/// The span of a node of the parse tree.
pub open spec fn span_of(s: Seq<char>, p: PairView) -> Span {
    span_between(s, p.start, p.end)
}

/// The characters that a node of the parse tree matched.
pub open spec fn text_of(s: Seq<char>, p: PairView) -> Seq<char> {
    s.subrange(p.start as int, p.end as int)
}

/// The query text, with the position of every character.
pub struct Source {
    pub chars: Vec<char>,
    pub offsets: Vec<usize>,
    pub lines: Vec<u32>,
    pub cols: Vec<u32>,
}

impl View for Source {
    type V = Seq<char>;

    open spec fn view(&self) -> Seq<char> {
        self.chars@
    }
}

/// Texts one after the other are encoded one after the other.
pub proof fn lemma_encode_concat(a: Seq<char>, b: Seq<char>)
    ensures
        encode_utf8(a + b) == encode_utf8(a) + encode_utf8(b),
    decreases a.len(),
{
    if a.len() == 0 {
        assert(a + b =~= b);
        assert(encode_utf8(a) + encode_utf8(b) =~= encode_utf8(b));
    } else {
        assert((a + b).drop_first() =~= a.drop_first() + b);
        lemma_encode_concat(a.drop_first(), b);
        assert(encode_utf8(a + b) =~= encode_utf8(a) + encode_utf8(b));
    }
}

/// The encoded length of one character.
pub open spec fn width(c: char) -> nat {
    encode_scalar(c as u32).len()
}

/// Offsets grow by the width of each character and end at the encoded length.
proof fn lemma_byte_at_step(s: Seq<char>, i: nat)
    requires
        i < s.len(),
    ensures
        byte_at(s, i + 1) == byte_at(s, i) + width(s[i as int]),
        i <= byte_at(s, i),
        byte_at(s, i + 1) <= encode_utf8(s).len(),
    decreases i,
{
    let c = seq![s[i as int]];
    assert(s.take((i + 1) as int) =~= s.take(i as int) + c);
    lemma_encode_concat(s.take(i as int), c);
    reveal_with_fuel(encode_utf8, 2);
    assert(c.drop_first() =~= Seq::<char>::empty());
    assert(encode_utf8(c) =~= encode_scalar(s[i as int] as u32));
    assert(s =~= s.take((i + 1) as int) + s.skip((i + 1) as int));
    lemma_encode_concat(s.take((i + 1) as int), s.skip((i + 1) as int));
    if i > 0 {
        lemma_byte_at_step(s, (i - 1) as nat);
    }
}

/// No text is shorter in bytes than in characters.
pub proof fn lemma_bytes_bound_chars(s: Seq<char>)
    ensures
        s.len() <= encode_utf8(s).len(),
    decreases s.len(),
{
    if s.len() > 0 {
        lemma_byte_at_step(s, (s.len() - 1) as nat);
        assert(s.take(s.len() as int) =~= s);
    }
}

/// Lines and columns are positive and do not outgrow the text.
proof fn lemma_line_col_bounds(s: Seq<char>, i: nat)
    requires
        i <= s.len(),
    ensures
        1 <= line_at(s, i) <= i + 1,
        1 <= col_at(s, i) <= i + 1,
    decreases i,
{
    if i > 0 {
        lemma_line_col_bounds(s, (i - 1) as nat);
    }
}

impl Source {
    /// The tables hold the position of every place.
    pub open spec fn wf(&self) -> bool {
        &&& encode_utf8(self.chars@).len() <= MAX_QUERY_BYTES
        &&& self.chars@.len() <= MAX_QUERY_BYTES
        &&& self.offsets@.len() == self.chars@.len() + 1
        &&& self.lines@.len() == self.chars@.len() + 1
        &&& self.cols@.len() == self.chars@.len() + 1
        &&& forall|i: int|
            0 <= i <= self.chars@.len() ==> #[trigger] self.offsets@[i] == byte_at(
                self.chars@,
                i as nat,
            )
        &&& forall|i: int|
            0 <= i <= self.chars@.len() ==> #[trigger] self.lines@[i] == line_at(
                self.chars@,
                i as nat,
            )
        &&& forall|i: int|
            0 <= i <= self.chars@.len() ==> #[trigger] self.cols@[i] == col_at(
                self.chars@,
                i as nat,
            )
    }

    /// The positions of a text that is not too long.
    pub fn new(input: &str) -> (r: Source)
        requires
            encode_utf8(input@).len() <= MAX_QUERY_BYTES,
        ensures
            r.wf(),
            r@ == input@,
    {
        let chars = text::chars_of(input);
        let mut offsets: Vec<usize> = Vec::new();
        let mut lines: Vec<u32> = Vec::new();
        let mut cols: Vec<u32> = Vec::new();
        let mut offset: usize = 0;
        let mut line: u32 = 1;
        let mut col: u32 = 1;
        offsets.push(offset);
        lines.push(line);
        cols.push(col);
        proof {
            lemma_bytes_bound_chars(chars@);
            assert(chars@.take(0) =~= Seq::<char>::empty());
        }
        let mut i: usize = 0;
        while i < chars.len()
            invariant
                encode_utf8(chars@).len() <= MAX_QUERY_BYTES,
                chars@.len() <= MAX_QUERY_BYTES,
                i <= chars.len(),
                offset == byte_at(chars@, i as nat),
                line == line_at(chars@, i as nat),
                col == col_at(chars@, i as nat),
                offsets@.len() == i + 1,
                lines@.len() == i + 1,
                cols@.len() == i + 1,
                forall|j: int|
                    0 <= j <= i ==> #[trigger] offsets@[j] == byte_at(chars@, j as nat),
                forall|j: int| 0 <= j <= i ==> #[trigger] lines@[j] == line_at(chars@, j as nat),
                forall|j: int| 0 <= j <= i ==> #[trigger] cols@[j] == col_at(chars@, j as nat),
            decreases chars.len() - i,
        {
            let c = chars[i];
            proof {
                lemma_byte_at_step(chars@, i as nat);
                lemma_line_col_bounds(chars@, i as nat);
                char_is_scalar(c);
            }
            let w: usize = char_width(c);
            offset = offset + w;
            if c == '\n' {
                line = line + 1;
                col = 1;
            } else {
                col = col + 1;
            }
            offsets.push(offset);
            lines.push(line);
            cols.push(col);
            i = i + 1;
        }
        Source { chars, offsets, lines, cols }
    }

    /// The span from one place to another.
    pub fn span(&self, start: usize, end: usize) -> (r: Span)
        requires
            self.wf(),
            start <= self@.len(),
            end <= self@.len(),
        ensures
            r == span_between(self@, start as nat, end as nat),
    {
        Span {
            start: self.offsets[start],
            end: self.offsets[end],
            line: self.lines[start],
            col: self.cols[start],
        }
    }

    /// The span of a node of the parse tree.
    pub fn span_from_pair(&self, pair: &Pair) -> (r: Span)
        requires
            self.wf(),
            peg::within(pair@, self@.len()),
        ensures
            r == span_of(self@, pair@),
    {
        self.span(pair.start, pair.end)
    }

    /// The characters that a node of the parse tree matched.
    pub fn text(&self, pair: &Pair) -> (r: String)
        requires
            peg::within(pair@, self@.len()),
        ensures
            r@ == text_of(self@, pair@),
    {
        text::slice_text(&self.chars, pair.start, pair.end)
    }
}

/// The encoded length of one character.
fn char_width(c: char) -> (r: usize)
    ensures
        r == width(c),
{
    proof {
        char_is_scalar(c);
    }
    if c <= '\x7f' {
        1
    } else if c <= '\u{7ff}' {
        2
    } else if c <= '\u{ffff}' {
        3
    } else {
        4
    }
}

/// The span that covers both: the start of the earlier, the end of the later. A span that
/// stands nowhere in the text covers nothing.
pub open spec fn span_cover(a: Span, b: Span) -> Span {
    if a.line == 0 {
        b
    } else if b.line == 0 {
        a
    } else {
        let (lead, tail) = if a.start <= b.start { (a, b) } else { (b, a) };
        Span {
            start: lead.start,
            end: if tail.end >= lead.end { tail.end } else { lead.end },
            line: lead.line,
            col: lead.col,
        }
    }
}

/// Combines two spans into one that covers both.
pub fn combine_spans(a: Span, b: Span) -> (r: Span)
    ensures
        r == span_cover(a, b),
{
    if a.is_synthetic() {
        return b;
    }
    if b.is_synthetic() {
        return a;
    }
    let (lead, tail) = if a.start <= b.start {
        (a, b)
    } else {
        (b, a)
    };
    let end: usize = if tail.end >= lead.end {
        tail.end
    } else {
        lead.end
    };
    Span { start: lead.start, end, line: lead.line, col: lead.col }
}

} // verus!
