//! From query text to syntax tree.
//!
//! A text that is neither too long nor too deeply nested is matched against the grammar, and
//! the parse tree is then built into a statement.
pub mod chain_law;
pub mod clause;
pub mod decimal;
pub mod decimal_laws;
pub mod expr;
pub mod form_laws;
pub mod forms;
pub mod grammar;
pub mod list_laws;
pub mod literal;
pub mod literal_laws;
pub mod match_text_laws;
pub mod meaning;
pub mod parameter_laws;
pub mod pattern;
pub mod peg;
pub mod reading_laws;
pub mod reference;
pub mod replacement_laws;
pub mod resolve;
pub mod rule;
pub mod scan;
pub mod scan_laws;
pub mod size_law;
pub mod source;
pub mod statement;
pub mod subquery_laws;
pub mod tree;
pub mod validate;

pub use resolve::resolve_params;
pub use validate::validate_params;

use crate::ast::Statement;
use crate::ast_model::StatementView;
use crate::text;
use crate::types;
use crate::types::{ErrorCode, ErrorKind, ErrorView, GraphError, QueryError, QueryPhase};
use peg::{Far, FarView, Frame, PairView, Peg, MAX_CHAIN};
use rule::Rule;
use source::{Source, MAX_QUERY_BYTES};
use tree::DepthGuard;
use vstd::prelude::*;
use vstd::utf8::encode_utf8;

verus! {

/// Where matching a whole statement begins.
pub open spec fn outset() -> Frame {
    Frame { rule: Rule::Statement, start: 0, chain: MAX_CHAIN }
}

/// What matching a whole statement leaves, and the furthest failure on the way.
pub open spec fn matched(s: Seq<char>) -> (Option<(int, Seq<PairView>)>, FarView) {
    peg::matches(
        Peg::Rule(Rule::Statement),
        s,
        0,
        outset(),
        FarView { at: 0, rule: Rule::Statement },
    )
}

/// The error for a text that is no statement: it tells what was expected at the furthest
/// place that was reached.
pub open spec fn no_match(s: Seq<char>, far: FarView) -> ErrorView {
    types::query_error(
        ErrorKind::Syntax,
        QueryPhase::Parse,
        ErrorCode::UnexpectedSyntax,
        "expected "@ + rule::description_of(far.rule),
        None,
        Some(source::span_between(s, far.at, far.at)),
    )
}

/// The statement under the root of a parse tree.
pub open spec fn rooted(s: Seq<char>, root: PairView) -> Result<StatementView, ErrorView> {
    let i = meaning::first_place(root.children, Rule::UnionStmt, 0);
    if 0 <= i < root.children.len() {
        forms::union(s, root.children[i], 0)
    } else {
        Err(types::syntax_error("empty statement"@))
    }
}

/// The error for a text that is too long.
pub open spec fn too_long(n: usize) -> ErrorView {
    ErrorView::SizeLimit {
        what: "Cypher query"@,
        limit: MAX_QUERY_BYTES,
        actual: n,
        hint: Some("split the query into smaller statements"@),
    }
}

/// What a query text stands for.
pub open spec fn parsed(s: Seq<char>) -> Result<StatementView, ErrorView> {
    let b = encode_utf8(s);
    if b.len() > MAX_QUERY_BYTES {
        Err(too_long(b.len() as usize))
    } else if let Some(at) = scan::unclosed_at(b, 0) {
        Err(scan::unclosed_error(b, at))
    } else if scan::nests_too_deep(b, 0, 0) {
        Err(scan::depth_error("bracket nesting depth"@))
    } else {
        match matched(s) {
            (None, far) => Err(no_match(s, far)),
            (Some((_, roots)), _) => if roots.len() == 0 {
                Err(meaning::malformed())
            } else {
                rooted(s, roots[0])
            },
        }
    }
}

/// The error for a text that is no statement.
fn humanize_error(src: &Source, far: Far) -> (r: GraphError)
    requires
        src.wf(),
        far.at <= src@.len(),
    ensures
        r@ == no_match(src@, far@),
{
    GraphError::Query(
        QueryError::SyntaxError {
            phase: QueryPhase::Parse,
            code: ErrorCode::UnexpectedSyntax,
            message: text::cat("expected ", rule::humanize_rule_name(far.rule)),
            hint: None,
            span: Some(src.span(far.at, far.at)),
        },
    )
}

/// Parses a query into a statement.
pub fn parse(input: &str) -> (r: Result<Statement, GraphError>)
    ensures
        types::outcome(r) == parsed(input@),
{
    let n: usize = input.as_bytes().len();
    if n > MAX_QUERY_BYTES {
        return Err(
            GraphError::SizeLimit {
                what: text::owned("Cypher query"),
                limit: MAX_QUERY_BYTES,
                actual: n,
                hint: Some(text::owned("split the query into smaller statements")),
            },
        );
    }
    match scan::check_unclosed_string(input) {
        Err(e) => {
            return Err(e);
        },
        Ok(()) => {},
    }
    match scan::check_bracket_depth(input) {
        Err(e) => {
            return Err(e);
        },
        Ok(()) => {},
    }
    let src = Source::new(input);
    let mut far = Far { at: 0, rule: Rule::Statement };
    let frame = Frame { rule: Rule::Statement, start: 0, chain: MAX_CHAIN };
    let whole = Peg::Rule(Rule::Statement);
    match peg::run(&whole, &src.chars, 0, frame, &mut far) {
        None => Err(humanize_error(&src, far)),
        Some((_, roots)) => {
            if roots.len() == 0 {
                return Err(tree::malformed());
            }
            let ghost root = peg::pairs_view(roots@)[0];
            assert(peg::within(root, src@.len()));
            assert(root.children == peg::pairs_view(roots@[0].children@));
            let kids = &roots[0].children;
            let i = tree::first_place(kids, Rule::UnionStmt, 0);
            if i < kids.len() {
                assert(peg::within(peg::pairs_view(kids@)[i as int], src@.len()));
                statement::parse_union_stmt(&src, &kids[i], DepthGuard { depth: 0 })
            } else {
                Err(tree::fault("empty statement"))
            }
        },
    }
}

} // verus!
