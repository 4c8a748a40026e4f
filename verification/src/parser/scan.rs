//! The scans of the raw text that come before parsing: closed strings and bracket depth.
use super::source::MAX_EXPR_DEPTH;
use crate::text;
use crate::types;
use crate::types::{ErrorCode, ErrorKind, ErrorView, GraphError, QueryError, QueryPhase, Span};
use vstd::prelude::*;
use vstd::string::StringSliceAdditionalSpecFns;

verus! {

/// The line of byte `at`, counted from one.
pub open spec fn byte_line(b: Seq<u8>, at: nat) -> nat
    decreases at,
{
    if at == 0 {
        1
    } else if b[at - 1] == 10u8 {
        byte_line(b, (at - 1) as nat) + 1
    } else {
        byte_line(b, (at - 1) as nat)
    }
}

/// The column of byte `at`, counted in bytes from one.
pub open spec fn byte_col(b: Seq<u8>, at: nat) -> nat
    decreases at,
{
    if at == 0 || b[at - 1] == 10u8 {
        1
    } else {
        byte_col(b, (at - 1) as nat) + 1
    }
}

/// The smaller of two numbers.
pub open spec fn lesser(a: nat, b: nat) -> nat {
    if a <= b {
        a
    } else {
        b
    }
}

/// The line and column of a byte offset, counted from one; the column counts bytes.
pub fn line_col_at(input: &str, byte_pos: usize) -> (r: (u32, u32))
    requires
        input.spec_bytes().len() < u32::MAX,
    ensures
        r.0 == byte_line(input.spec_bytes(), lesser(byte_pos as nat, input.spec_bytes().len())),
        r.1 == byte_col(input.spec_bytes(), lesser(byte_pos as nat, input.spec_bytes().len())),
{
    let bytes = input.as_bytes();
    let mut line: u32 = 1;
    let mut col: u32 = 1;
    let mut i: usize = 0;
    while i < bytes.len() && i < byte_pos
        invariant
            bytes@.len() < u32::MAX,
            i <= bytes.len(),
            i <= byte_pos,
            line == byte_line(bytes@, i as nat),
            col == byte_col(bytes@, i as nat),
            1 <= line <= i + 1,
            1 <= col <= i + 1,
        decreases bytes.len() - i,
    {
        if bytes[i] == 10u8 {
            line = line + 1;
            col = 1;
        } else {
            col = col + 1;
        }
        i = i + 1;
    }
    (line, col)
}

/// The byte opens or closes a string.
pub open spec fn is_quote(b: u8) -> bool {
    b == 39u8 || b == 34u8
}

/// Where the string whose inside begins at `i` is closed by `quote`; the length of the text
/// where it never is. A backslash takes the byte behind it along.
pub open spec fn string_close(b: Seq<u8>, i: int, quote: u8) -> int
    decreases b.len() - i,
{
    if i >= b.len() {
        b.len() as int
    } else if b[i] == quote {
        i
    } else if b[i] == 92u8 && i + 1 < b.len() {
        string_close(b, i + 2, quote)
    } else {
        string_close(b, i + 1, quote)
    }
}

/// A line comment begins at `i`.
pub open spec fn comment_begins(b: Seq<u8>, i: int) -> bool {
    i + 1 < b.len() && b[i] == 47u8 && b[i + 1] == 47u8
}

/// The line feed that ends the line of `i`, or the length of the text.
pub open spec fn comment_close(b: Seq<u8>, i: int) -> int
    decreases b.len() - i,
{
    if i >= b.len() {
        b.len() as int
    } else if b[i] == 10u8 {
        i
    } else {
        comment_close(b, i + 1)
    }
}

/// A string closes behind where it opens, and within the text.
proof fn lemma_string_close_bounds(b: Seq<u8>, i: int, quote: u8)
    requires
        0 <= i <= b.len(),
    ensures
        i <= string_close(b, i, quote) <= b.len(),
    decreases b.len() - i,
{
    if i < b.len() && b[i] != quote {
        if b[i] == 92u8 && i + 1 < b.len() {
            lemma_string_close_bounds(b, i + 2, quote);
        } else {
            lemma_string_close_bounds(b, i + 1, quote);
        }
    }
}

/// A comment closes behind where it begins, and within the text.
proof fn lemma_comment_close_bounds(b: Seq<u8>, i: int)
    requires
        0 <= i <= b.len(),
    ensures
        i <= comment_close(b, i) <= b.len(),
    decreases b.len() - i,
{
    if i < b.len() && b[i] != 10u8 {
        lemma_comment_close_bounds(b, i + 1);
    }
}

/// Where the next piece of text begins behind `i`: a string and a line comment are one piece
/// each, any other byte is a piece of its own.
pub open spec fn piece_end(b: Seq<u8>, i: int) -> int {
    if is_quote(b[i]) {
        let close = string_close(b, i + 1, b[i]);
        if close < b.len() {
            close + 1
        } else {
            close
        }
    } else if comment_begins(b, i) {
        comment_close(b, i + 1)
    } else {
        i + 1
    }
}

/// A piece of text is not empty and lies within the text.
pub proof fn lemma_piece_end_bounds(b: Seq<u8>, i: int)
    requires
        0 <= i < b.len(),
    ensures
        i < piece_end(b, i) <= b.len(),
{
    lemma_string_close_bounds(b, i + 1, b[i]);
    lemma_comment_close_bounds(b, i + 1);
}

/// The first quote from `i` on that opens a string which is never closed.
pub open spec fn unclosed_at(b: Seq<u8>, i: int) -> Option<int>
    decreases b.len() - i,
{
    if i < 0 || i >= b.len() {
        None
    } else if is_quote(b[i]) && string_close(b, i + 1, b[i]) >= b.len() {
        Some(i)
    } else if i < piece_end(b, i) <= b.len() {
        unclosed_at(b, piece_end(b, i))
    } else {
        None
    }
}

/// The error for a string that opens at `at` and is never closed.
pub open spec fn unclosed_error(b: Seq<u8>, at: int) -> ErrorView {
    types::query_error(
        ErrorKind::Syntax,
        QueryPhase::Parse,
        ErrorCode::UnexpectedSyntax,
        if b[at] == 39u8 {
            "unclosed single-quoted string literal — expected `'` before end of input"@
        } else {
            "unclosed double-quoted string literal — expected `\"` before end of input"@
        },
        Some(
            if b[at] == 39u8 {
                "add a closing `'` to terminate the string"@
            } else {
                "add a closing `\"` to terminate the string"@
            },
        ),
        Some(
            Span {
                start: at as usize,
                end: (at + 1) as usize,
                line: byte_line(b, at as nat) as u32,
                col: byte_col(b, at as nat) as u32,
            },
        ),
    )
}

/// Finds where the string whose inside begins at `at` is closed.
fn find_string_close(bytes: &[u8], at: usize, quote: u8) -> (r: usize)
    requires
        at <= bytes@.len(),
    ensures
        r == string_close(bytes@, at as int, quote),
        at <= r <= bytes@.len(),
{
    let mut i: usize = at;
    while i < bytes.len() && bytes[i] != quote
        invariant
            at <= i <= bytes@.len(),
            string_close(bytes@, at as int, quote) == string_close(bytes@, i as int, quote),
        decreases bytes.len() - i,
    {
        if bytes[i] == 92u8 && bytes.len() - i > 1 {
            i = i + 2;
        } else {
            i = i + 1;
        }
    }
    i
}

/// Finds the line feed that ends the line of `at`.
fn find_comment_close(bytes: &[u8], at: usize) -> (r: usize)
    requires
        at <= bytes@.len(),
    ensures
        r == comment_close(bytes@, at as int),
        at <= r <= bytes@.len(),
{
    let mut i: usize = at;
    while i < bytes.len() && bytes[i] != 10u8
        invariant
            at <= i <= bytes@.len(),
            comment_close(bytes@, at as int) == comment_close(bytes@, i as int),
        decreases bytes.len() - i,
    {
        i = i + 1;
    }
    i
}

/// Refuses a text with a string that is never closed; the error stands at the opening quote.
pub fn check_unclosed_string(input: &str) -> (r: Result<(), GraphError>)
    requires
        input.spec_bytes().len() < u32::MAX,
    ensures
        types::verdict(r) == (match unclosed_at(input.spec_bytes(), 0) {
            None => Ok(()),
            Some(at) => Err(unclosed_error(input.spec_bytes(), at)),
        }),
{
    let bytes = input.as_bytes();
    let mut i: usize = 0;
    while i < bytes.len()
        invariant
            bytes@ == input.spec_bytes(),
            bytes@.len() < u32::MAX,
            i <= bytes@.len(),
            unclosed_at(bytes@, 0) == unclosed_at(bytes@, i as int),
        decreases bytes.len() - i,
    {
        let b = bytes[i];
        proof {
            lemma_piece_end_bounds(bytes@, i as int);
        }
        if b == 39u8 || b == 34u8 {
            let close = find_string_close(bytes, i + 1, b);
            if close >= bytes.len() {
                let (line, col) = line_col_at(input, i);
                let message = if b == 39u8 {
                    text::owned(
                        "unclosed single-quoted string literal — expected `'` before end of input",
                    )
                } else {
                    text::owned(
                        "unclosed double-quoted string literal — expected `\"` before end of input",
                    )
                };
                let hint = if b == 39u8 {
                    text::owned("add a closing `'` to terminate the string")
                } else {
                    text::owned("add a closing `\"` to terminate the string")
                };
                return Err(
                    GraphError::Query(
                        QueryError::SyntaxError {
                            phase: QueryPhase::Parse,
                            code: ErrorCode::UnexpectedSyntax,
                            message,
                            hint: Some(hint),
                            span: Some(Span { start: i, end: i + 1, line, col }),
                        },
                    ),
                );
            }
            i = close + 1;
        } else if b == 47u8 && bytes.len() - i > 1 && bytes[i + 1] == 47u8 {
            i = find_comment_close(bytes, i + 1);
        } else {
            i = i + 1;
        }
    }
    Ok(())
}

/// The byte opens a bracket.
pub open spec fn opens(b: u8) -> bool {
    b == 40u8 || b == 91u8 || b == 123u8
}

/// The byte closes a bracket.
pub open spec fn closes(b: u8) -> bool {
    b == 41u8 || b == 93u8 || b == 125u8
}

/// Reading from `i` on with `depth` brackets open, some place has more than the allowed number
/// of brackets open. A closing bracket too many is passed over.
pub open spec fn nests_too_deep(b: Seq<u8>, i: int, depth: nat) -> bool
    decreases b.len() - i,
{
    if i < 0 || i >= b.len() || piece_end(b, i) <= i || piece_end(b, i) > b.len() {
        false
    } else if opens(b[i]) {
        depth + 1 > MAX_EXPR_DEPTH || nests_too_deep(b, i + 1, depth + 1)
    } else if closes(b[i]) {
        nests_too_deep(b, i + 1, if depth > 0 { (depth - 1) as nat } else { 0 })
    } else {
        nests_too_deep(b, piece_end(b, i), depth)
    }
}

/// The error for brackets that nest too deep.
pub open spec fn depth_error(what: Seq<char>) -> ErrorView {
    ErrorView::SizeLimit {
        what,
        limit: MAX_EXPR_DEPTH,
        actual: (MAX_EXPR_DEPTH + 1) as usize,
        hint: Some("simplify the query or split it into multiple statements"@),
    }
}

/// The error for something that nests one deeper than allowed.
pub fn too_deep(what: &str) -> (r: GraphError)
    ensures
        r@ == depth_error(what@),
{
    GraphError::SizeLimit {
        what: text::owned(what),
        limit: MAX_EXPR_DEPTH,
        actual: MAX_EXPR_DEPTH + 1,
        hint: Some(text::owned("simplify the query or split it into multiple statements")),
    }
}

/// Refuses a text whose brackets nest too deep, strings and line comments left out.
pub fn check_bracket_depth(input: &str) -> (r: Result<(), GraphError>)
    ensures
        types::verdict(r) == (if nests_too_deep(input.spec_bytes(), 0, 0) {
            Err(depth_error("bracket nesting depth"@))
        } else {
            Ok(())
        }),
{
    let bytes = input.as_bytes();
    let mut i: usize = 0;
    let mut depth: usize = 0;
    while i < bytes.len()
        invariant
            bytes@ == input.spec_bytes(),
            i <= bytes@.len(),
            depth <= MAX_EXPR_DEPTH,
            nests_too_deep(bytes@, 0, 0) == nests_too_deep(bytes@, i as int, depth as nat),
        decreases bytes.len() - i,
    {
        let b = bytes[i];
        proof {
            lemma_piece_end_bounds(bytes@, i as int);
        }
        if b == 39u8 || b == 34u8 {
            let close = find_string_close(bytes, i + 1, b);
            i = if close < bytes.len() {
                close + 1
            } else {
                close
            };
        } else if b == 47u8 && bytes.len() - i > 1 && bytes[i + 1] == 47u8 {
            i = find_comment_close(bytes, i + 1);
        } else if b == 40u8 || b == 91u8 || b == 123u8 {
            depth = depth + 1;
            if depth > MAX_EXPR_DEPTH {
                return Err(too_deep("bracket nesting depth"));
            }
            i = i + 1;
        } else if b == 41u8 || b == 93u8 || b == 125u8 {
            if depth > 0 {
                depth = depth - 1;
            }
            i = i + 1;
        } else {
            i = i + 1;
        }
    }
    Ok(())
}

} // verus!
