//! What parse trees stand for: the syntax tree of each node, or the error it calls for.
//!
//! Throughout, `s` is the query text, `p` a node of its parse tree and `d` the number of
//! expressions around it.
use super::decimal;
use super::literal;
use super::peg::PairView;
use super::rule;
use super::rule::Rule;
use super::scan;
use super::source;
use super::source::MAX_EXPR_DEPTH;
use crate::assoc;
use crate::ast::{BinOp, QuantifierKind, RelDirection, ShortestPathMode};
use crate::ast_model::{
    ExprKindView, ExprView, FloatLiteralView, IntermediateClauseView, IntermediateMatchView,
    LiteralValueView, MatchStatementView, NodePatternView, OptionalMatchView, PatternElementView,
    PatternView, RelPatternView, RemoveItemView, ReturnClauseView, ReturnItemView, SetItemView,
    SortItemView, StatementView, UnwindClauseView, WithClauseView,
};
use crate::text;
use crate::types;
use crate::types::{ErrorCode, ErrorView, QueryPhase, Span};
use vstd::prelude::*;

verus! {

/// The error for a tree that no text has.
pub open spec fn malformed() -> ErrorView {
    types::syntax_error("malformed parse tree"@)
}

/// The error for a rule in a place where it does not belong.
pub open spec fn unexpected(what: Seq<char>, r: Rule) -> ErrorView {
    types::syntax_error(what + rule::name_of(r))
}

/// The first place from `i` on that holds a node of the rule; the length where none does.
pub open spec fn first_place(kids: Seq<PairView>, r: Rule, i: int) -> int
    decreases kids.len() - i,
{
    if i >= kids.len() || kids[i].rule == r {
        i
    } else {
        first_place(kids, r, i + 1)
    }
}

/// The last place before `i` that holds a node of the rule; -1 where none does.
pub open spec fn last_place(kids: Seq<PairView>, r: Rule, i: int) -> int
    decreases i,
{
    if i <= 0 {
        -1
    } else if kids[i - 1].rule == r {
        i - 1
    } else {
        last_place(kids, r, i - 1)
    }
}

/// How many of the first `i` nodes are of the rule.
pub open spec fn count_of(kids: Seq<PairView>, r: Rule, i: int) -> nat
    decreases i,
{
    if i <= 0 {
        0
    } else {
        count_of(kids, r, i - 1) + if kids[i - 1].rule == r { 1nat } else { 0nat }
    }
}

/// The texts of all nodes.
pub open spec fn all_texts(s: Seq<char>, kids: Seq<PairView>) -> Seq<Seq<char>> {
    Seq::new(kids.len(), |i: int| source::text_of(s, kids[i]))
}

/// The texts of the nodes of a rule among the first `i`.
pub open spec fn texts_of(s: Seq<char>, kids: Seq<PairView>, r: Rule, i: int) -> Seq<Seq<char>>
    decreases i,
{
    if i <= 0 {
        Seq::empty()
    } else if kids[i - 1].rule == r {
        texts_of(s, kids, r, i - 1).push(source::text_of(s, kids[i - 1]))
    } else {
        texts_of(s, kids, r, i - 1)
    }
}

/// The name that a node stands for.
pub open spec fn name(s: Seq<char>, p: PairView) -> Seq<char> {
    literal::undelimited(source::text_of(s, p))
}

/// An expression of the given kind where the node stands.
pub open spec fn at(s: Seq<char>, p: PairView, kind: ExprKindView) -> ExprView {
    ExprView { kind, span: source::span_of(s, p) }
}

/// A binary operation; it stands where its operands do.
pub open spec fn binary(l: ExprView, op: BinOp, r: ExprView) -> ExprView {
    ExprView {
        kind: ExprKindView::BinaryOp { left: Box::new(l), op, right: Box::new(r) },
        span: source::span_cover(l.span, r.span),
    }
}

/// The expression under `n` negations.
pub open spec fn negated(e: ExprView, n: nat, span: Span) -> ExprView
    decreases n,
{
    if n == 0 {
        e
    } else {
        ExprView { kind: ExprKindView::Not(Box::new(negated(e, (n - 1) as nat, span))), span }
    }
}

/// The left-associative levels of operators.
#[derive(Clone, Copy, PartialEq, Eq, Structural)]
pub enum Level {
    Or,
    Xor,
    And,
    Add,
    Mul,
    Pow,
}

/// The operator that a node of a chain stands for; `None` for a node that is passed over.
pub open spec fn operator(level: Level, s: Seq<char>, k: PairView) -> Result<
    Option<BinOp>,
    ErrorView,
> {
    let t = source::text_of(s, k);
    match level {
        Level::Or => Ok(if k.rule == Rule::OrOp { Some(BinOp::Or) } else { None }),
        Level::Xor => Ok(if k.rule == Rule::XorOp { Some(BinOp::Xor) } else { None }),
        Level::And => Ok(if k.rule == Rule::AndOp { Some(BinOp::And) } else { None }),
        Level::Add => if t == "+"@ {
            Ok(Some(BinOp::Add))
        } else if t == "-"@ {
            Ok(Some(BinOp::Sub))
        } else {
            Err(types::syntax_error("unexpected add op: "@ + t))
        },
        Level::Mul => if t == "*"@ {
            Ok(Some(BinOp::Mul))
        } else if t == "/"@ {
            Ok(Some(BinOp::Div))
        } else if t == "%"@ {
            Ok(Some(BinOp::Mod))
        } else {
            Err(types::syntax_error("unexpected mul op: "@ + t))
        },
        Level::Pow => Ok(if k.rule == Rule::ExpOp { Some(BinOp::Pow) } else { None }),
    }
}

/// An operand of a chain.
pub open spec fn operand(level: Level, s: Seq<char>, p: PairView, d: nat) -> Result<
    ExprView,
    ErrorView,
>
    decreases p, 60int,
{
    match level {
        Level::Or => chain(Level::Xor, s, p, d),
        Level::Xor => chain(Level::And, s, p, d),
        Level::And => bool_factor(s, p, d),
        Level::Add => chain(Level::Mul, s, p, d),
        Level::Mul => chain(Level::Pow, s, p, d),
        Level::Pow => atom(s, p, d),
    }
}

/// Operands with operators between them, from the left.
pub open spec fn chain(level: Level, s: Seq<char>, p: PairView, d: nat) -> Result<
    ExprView,
    ErrorView,
>
    decreases p, 40int,
{
    if p.children.len() == 0 {
        Err(malformed())
    } else {
        match operand(level, s, p.children[0], d) {
            Err(e) => Err(e),
            Ok(left) => chain_from(level, s, p.children, 1, left, d),
        }
    }
}

/// The rest of a chain behind what stands for its left part.
pub open spec fn chain_from(
    level: Level,
    s: Seq<char>,
    kids: Seq<PairView>,
    i: int,
    left: ExprView,
    d: nat,
) -> Result<ExprView, ErrorView>
    decreases kids, kids.len() - i,
{
    if i < 0 || i >= kids.len() {
        Ok(left)
    } else {
        match operator(level, s, kids[i]) {
            Err(e) => Err(e),
            Ok(None) => chain_from(level, s, kids, i + 1, left, d),
            Ok(Some(op)) => if i + 1 >= kids.len() {
                Err(malformed())
            } else {
                match operand(level, s, kids[i + 1], d) {
                    Err(e) => Err(e),
                    Ok(right) => chain_from(level, s, kids, i + 2, binary(left, op, right), d),
                }
            },
        }
    }
}

/// An expression; expressions nest only so deep.
pub open spec fn expr(s: Seq<char>, p: PairView, d: nat) -> Result<ExprView, ErrorView>
    decreases p, 45int,
{
    if d + 1 > MAX_EXPR_DEPTH {
        Err(scan::depth_error("expression nesting depth"@))
    } else {
        chain(Level::Or, s, p, d + 1)
    }
}

/// The expression that the first node of the rule stands for.
pub open spec fn expr_under(s: Seq<char>, kids: Seq<PairView>, r: Rule, d: nat) -> Result<
    ExprView,
    ErrorView,
>
    decreases kids, 0int,
{
    let i = first_place(kids, r, 0);
    if 0 <= i < kids.len() {
        expr(s, kids[i], d)
    } else {
        Err(malformed())
    }
}

/// The expression that the node at `i` stands for.
pub open spec fn expr_at(s: Seq<char>, kids: Seq<PairView>, i: int, d: nat) -> Result<
    ExprView,
    ErrorView,
>
    decreases kids, 0int,
{
    if 0 <= i < kids.len() {
        expr(s, kids[i], d)
    } else {
        Err(malformed())
    }
}

/// A condition.
pub open spec fn bool_expr(s: Seq<char>, p: PairView, d: nat) -> Result<ExprView, ErrorView>
    decreases p, 10int,
{
    expr_at(s, p.children, 0, d)
}

/// A comparison under any number of negations.
pub open spec fn bool_factor(s: Seq<char>, p: PairView, d: nat) -> Result<ExprView, ErrorView>
    decreases p, 30int,
{
    let i = last_place(p.children, Rule::BoolPrimary, p.children.len() as int);
    if 0 <= i < p.children.len() {
        match bool_primary(s, p.children[i], d) {
            Err(e) => Err(e),
            Ok(e) => Ok(
                negated(
                    e,
                    count_of(p.children, Rule::NotOp, p.children.len() as int),
                    source::span_of(s, p),
                ),
            ),
        }
    } else {
        Err(malformed())
    }
}

/// What a condition is made of.
pub open spec fn bool_primary(s: Seq<char>, p: PairView, d: nat) -> Result<ExprView, ErrorView>
    decreases p, 30int,
{
    if p.children.len() == 0 {
        Err(malformed())
    } else if p.children[0].rule == Rule::CmpOrValue {
        comparisons(s, p.children[0], d)
    } else {
        Err(unexpected("unexpected bool primary: "@, p.children[0].rule))
    }
}

/// A value, or comparisons in a row: `a < b < c` holds when `a < b` and `b < c` do.
pub open spec fn comparisons(s: Seq<char>, p: PairView, d: nat) -> Result<ExprView, ErrorView>
    decreases p, 30int,
{
    if p.children.len() == 0 {
        Err(malformed())
    } else {
        match predicate(s, p.children[0], d) {
            Err(e) => Err(e),
            Ok(first) => comparisons_from(s, p.children, 1, first, None, d),
        }
    }
}

/// One comparison.
pub open spec fn comparison(s: Seq<char>, kids: Seq<PairView>, d: nat) -> Result<
    (BinOp, ExprView),
    ErrorView,
>
    decreases kids, 0int,
{
    if kids.len() < 2 {
        Err(malformed())
    } else {
        match comp_op(s, kids[0]) {
            Err(e) => Err(e),
            Ok(op) => match predicate(s, kids[1], d) {
                Err(e) => Err(e),
                Ok(right) => Ok((op, right)),
            },
        }
    }
}

/// What comparisons read so far and one more make together.
pub open spec fn conjoined(acc: Option<ExprView>, c: ExprView) -> ExprView {
    match acc {
        None => c,
        Some(a) => binary(a, BinOp::And, c),
    }
}

/// The rest of a row of comparisons: `prev` is the operand read last.
pub open spec fn comparisons_from(
    s: Seq<char>,
    kids: Seq<PairView>,
    i: int,
    prev: ExprView,
    acc: Option<ExprView>,
    d: nat,
) -> Result<ExprView, ErrorView>
    decreases kids, kids.len() - i,
{
    if i < 0 || i >= kids.len() {
        Ok(
            match acc {
                None => prev,
                Some(a) => a,
            },
        )
    } else {
        match comparison(s, kids[i].children, d) {
            Err(e) => Err(e),
            Ok((op, right)) => comparisons_from(
                s,
                kids,
                i + 1,
                right,
                Some(conjoined(acc, binary(prev, op, right))),
                d,
            ),
        }
    }
}

/// A comparison operator.
pub open spec fn comp_op(s: Seq<char>, p: PairView) -> Result<BinOp, ErrorView> {
    if p.children.len() > 0 {
        match p.children[0].rule {
            Rule::StartsWithOp => Ok(BinOp::StartsWith),
            Rule::EndsWithOp => Ok(BinOp::EndsWith),
            Rule::ContainsOp => Ok(BinOp::Contains),
            r => Err(unexpected("unexpected comp_op sub-rule: "@, r)),
        }
    } else {
        let t = source::text_of(s, p);
        if t == "="@ {
            Ok(BinOp::Eq)
        } else if t == "<>"@ {
            Ok(BinOp::Neq)
        } else if t == "<="@ {
            Ok(BinOp::Lte)
        } else if t == ">="@ {
            Ok(BinOp::Gte)
        } else if t == "<"@ {
            Ok(BinOp::Lt)
        } else if t == ">"@ {
            Ok(BinOp::Gt)
        } else if t == "=~"@ {
            Ok(BinOp::RegexMatch)
        } else {
            Err(types::syntax_error("unknown comparison operator: "@ + t))
        }
    }
}

/// A string predicate operator.
pub open spec fn string_pred_op(p: PairView) -> Result<BinOp, ErrorView> {
    if p.children.len() == 0 {
        Err(malformed())
    } else {
        match p.children[0].rule {
            Rule::StartsWithOp => Ok(BinOp::StartsWith),
            Rule::EndsWithOp => Ok(BinOp::EndsWith),
            Rule::ContainsOp => Ok(BinOp::Contains),
            r => Err(unexpected("unexpected string pred op: "@, r)),
        }
    }
}

/// A value with an optional test behind it.
pub open spec fn predicate(s: Seq<char>, p: PairView, d: nat) -> Result<ExprView, ErrorView>
    decreases p, 30int,
{
    if p.children.len() == 0 {
        Err(malformed())
    } else {
        match compared(s, p.children[0], d) {
            Err(e) => Err(e),
            Ok(left) => if p.children.len() == 1 {
                Ok(left)
            } else {
                suffixed(s, left, source::span_of(s, p), p.children[1], d)
            },
        }
    }
}

/// A value with a test behind it.
pub open spec fn suffixed(s: Seq<char>, left: ExprView, span: Span, p: PairView, d: nat) -> Result<
    ExprView,
    ErrorView,
>
    decreases p, 30int,
{
    let kids = p.children;
    match p.rule {
        Rule::IsNotNullSuffix => Ok(
            ExprView { kind: ExprKindView::IsNotNull(Box::new(left)), span },
        ),
        Rule::IsNullSuffix => Ok(ExprView { kind: ExprKindView::IsNull(Box::new(left)), span }),
        Rule::InSuffix => match sum_at(s, kids, first_place(kids, Rule::AddExpr, 0), d) {
            Err(e) => Err(e),
            Ok(right) => Ok(binary(left, BinOp::In, right)),
        },
        Rule::StringPredSuffix => if kids.len() < 2 {
            Err(malformed())
        } else {
            match string_pred_op(kids[0]) {
                Err(e) => Err(e),
                Ok(op) => match sum_at(s, kids, 1, d) {
                    Err(e) => Err(e),
                    Ok(right) => Ok(binary(left, op, right)),
                },
            }
        },
        r => Err(unexpected("unexpected predicate_expr suffix: "@, r)),
    }
}

/// The sum that the node at `i` stands for.
pub open spec fn sum_at(s: Seq<char>, kids: Seq<PairView>, i: int, d: nat) -> Result<
    ExprView,
    ErrorView,
>
    decreases kids, 0int,
{
    if 0 <= i < kids.len() {
        chain(Level::Add, s, kids[i], d)
    } else {
        Err(malformed())
    }
}

/// What is compared.
pub open spec fn compared(s: Seq<char>, p: PairView, d: nat) -> Result<ExprView, ErrorView>
    decreases p, 30int,
{
    if p.children.len() == 0 {
        Err(malformed())
    } else {
        let k = p.children[0];
        match k.rule {
            Rule::CaseExpr => case_expr(s, k, d),
            Rule::ExistsSubquery => exists_subquery(s, k, d),
            Rule::ExistsFullSubquery => exists_full_subquery(s, k, d),
            Rule::PatternPredicate => match pattern(s, k, d) {
                Err(e) => Err(e),
                Ok(x) => Ok(at(s, k, ExprKindView::PatternPredicate(x))),
            },
            Rule::Expr => expr(s, k, d),
            Rule::AddExpr => chain(Level::Add, s, k, d),
            r => Err(unexpected("unexpected cmp_primary: "@, r)),
        }
    }
}

/// The parts of a CASE expression read so far.
pub struct CaseParts {
    pub operand: Option<Box<ExprView>>,
    pub alternatives: Seq<(ExprView, ExprView)>,
    pub default: Option<Box<ExprView>>,
}

/// The parts of a CASE expression with one node more.
pub open spec fn case_step(s: Seq<char>, acc: CaseParts, k: PairView, d: nat) -> Result<
    CaseParts,
    ErrorView,
>
    decreases k, 30int,
{
    match k.rule {
        Rule::CaseOperand => match expr_at(s, k.children, 0, d) {
            Err(e) => Err(e),
            Ok(x) => Ok(CaseParts { operand: Some(Box::new(x)), ..acc }),
        },
        Rule::CaseWhenClause => match expr_at(s, k.children, 0, d) {
            Err(e) => Err(e),
            Ok(x) => match expr_at(s, k.children, 1, d) {
                Err(e) => Err(e),
                Ok(y) => Ok(CaseParts { alternatives: acc.alternatives.push((x, y)), ..acc }),
            },
        },
        Rule::CaseElseClause => match expr_at(s, k.children, 0, d) {
            Err(e) => Err(e),
            Ok(x) => Ok(CaseParts { default: Some(Box::new(x)), ..acc }),
        },
        _ => Ok(acc),
    }
}

pub open spec fn case_from(s: Seq<char>, kids: Seq<PairView>, i: int, acc: CaseParts, d: nat) -> Result<
    CaseParts,
    ErrorView,
>
    decreases kids, kids.len() - i,
{
    if i < 0 || i >= kids.len() {
        Ok(acc)
    } else {
        match case_step(s, acc, kids[i], d) {
            Err(e) => Err(e),
            Ok(next) => case_from(s, kids, i + 1, next, d),
        }
    }
}

/// A CASE expression.
pub open spec fn case_expr(s: Seq<char>, p: PairView, d: nat) -> Result<ExprView, ErrorView>
    decreases p, 20int,
{
    let none = CaseParts { operand: None, alternatives: Seq::empty(), default: None };
    match case_from(s, p.children, 0, none, d) {
        Err(e) => Err(e),
        Ok(c) => Ok(
            at(
                s,
                p,
                ExprKindView::Case {
                    operand: c.operand,
                    alternatives: c.alternatives,
                    default: c.default,
                },
            ),
        ),
    }
}

/// `EXISTS { patterns WHERE condition }`: the patterns and the condition.
pub open spec fn exists_from(
    s: Seq<char>,
    kids: Seq<PairView>,
    i: int,
    patterns: Seq<PatternView>,
    condition: Option<Box<ExprView>>,
    d: nat,
) -> Result<(Seq<PatternView>, Option<Box<ExprView>>), ErrorView>
    decreases kids, kids.len() - i,
{
    if i < 0 || i >= kids.len() {
        Ok((patterns, condition))
    } else {
        match kids[i].rule {
            Rule::PatternList => match pattern_list(s, kids[i], d) {
                Err(e) => Err(e),
                Ok(x) => exists_from(s, kids, i + 1, x, condition, d),
            },
            Rule::WhereClause => match where_clause(s, kids[i], d) {
                Err(e) => Err(e),
                Ok(x) => exists_from(s, kids, i + 1, patterns, Some(Box::new(x)), d),
            },
            _ => exists_from(s, kids, i + 1, patterns, condition, d),
        }
    }
}

/// `EXISTS { patterns WHERE condition }`.
pub open spec fn exists_subquery(s: Seq<char>, p: PairView, d: nat) -> Result<ExprView, ErrorView>
    decreases p, 20int,
{
    match exists_from(s, p.children, 0, Seq::empty(), None, d) {
        Err(e) => Err(e),
        Ok((patterns, condition)) => if patterns.len() == 0 {
            Err(types::syntax_error("EXISTS subquery requires at least one pattern"@))
        } else {
            Ok(at(s, p, ExprKindView::Exists { patterns, where_clause: condition }))
        },
    }
}

/// The parts of a statement that have been read.
pub struct PartsView {
    pub patterns: Seq<PatternView>,
    pub optional_patterns: Seq<OptionalMatchView>,
    pub where_clause: Option<ExprView>,
    pub intermediate: Seq<IntermediateClauseView>,
    pub return_clause: Option<ReturnClauseView>,
    pub order_by: Seq<SortItemView>,
    pub skip: Option<ExprView>,
    pub limit: Option<ExprView>,
    pub create_patterns: Seq<PatternView>,
    pub merge_pattern: Option<PatternView>,
    pub on_create: Seq<SetItemView>,
    pub on_match: Seq<SetItemView>,
    pub items: Seq<SetItemView>,
    pub removals: Seq<RemoveItemView>,
    pub detach: bool,
    pub exprs: Seq<ExprView>,
    /// The first MATCH is still to come.
    pub first: bool,
    /// The SET items have been read.
    pub closed: bool,
}

/// No part has been read.
pub open spec fn no_parts(first: bool) -> PartsView {
    PartsView {
        patterns: Seq::empty(),
        optional_patterns: Seq::empty(),
        where_clause: None,
        intermediate: Seq::empty(),
        return_clause: None,
        order_by: Seq::empty(),
        skip: None,
        limit: None,
        create_patterns: Seq::empty(),
        merge_pattern: None,
        on_create: Seq::empty(),
        on_match: Seq::empty(),
        items: Seq::empty(),
        removals: Seq::empty(),
        detach: false,
        exprs: Seq::empty(),
        first,
        closed: false,
    }
}

/// What MATCH matches.
pub struct MatchView {
    pub patterns: Seq<PatternView>,
    pub optional_patterns: Seq<OptionalMatchView>,
    pub where_clause: Option<ExprView>,
}

/// A MATCH between two projections.
pub open spec fn intermediate_match(m: MatchView) -> IntermediateClauseView {
    IntermediateClauseView::Match(
        IntermediateMatchView {
            patterns: m.patterns,
            optional_patterns: m.optional_patterns,
            where_clause: m.where_clause,
        },
    )
}

/// The condition of a subquery goes to the last MATCH, if that has none yet.
pub open spec fn with_condition(acc: PartsView, w: ExprView) -> PartsView {
    let n = acc.intermediate.len();
    if n > 0 {
        match acc.intermediate[n - 1] {
            IntermediateClauseView::Match(m) => if m.where_clause is None {
                PartsView {
                    intermediate: acc.intermediate.update(
                        n - 1,
                        IntermediateClauseView::Match(
                            IntermediateMatchView { where_clause: Some(w), ..m },
                        ),
                    ),
                    ..acc
                }
            } else {
                PartsView { where_clause: Some(w), ..acc }
            },
            _ => PartsView { where_clause: Some(w), ..acc },
        }
    } else {
        PartsView { where_clause: Some(w), ..acc }
    }
}

/// The error for a subquery that writes.
pub open spec fn updating_error() -> ErrorView {
    types::coded_error(
        QueryPhase::Parse,
        ErrorCode::InvalidClauseComposition,
        "InvalidClauseComposition: EXISTS subquery cannot contain updating clauses"@,
    )
}

/// The parts of an `EXISTS { MATCH ... }` subquery with one node more.
pub open spec fn subquery_step(s: Seq<char>, acc: PartsView, k: PairView, d: nat) -> Result<
    PartsView,
    ErrorView,
>
    decreases k, 30int,
{
    match k.rule {
        Rule::PatternList => match pattern_list(s, k, d) {
            Err(e) => Err(e),
            Ok(x) => if acc.first {
                Ok(PartsView { patterns: x, first: false, ..acc })
            } else {
                Ok(
                    PartsView {
                        intermediate: acc.intermediate.push(
                            intermediate_match(
                                MatchView {
                                    patterns: x,
                                    optional_patterns: Seq::empty(),
                                    where_clause: None,
                                },
                            ),
                        ),
                        ..acc
                    },
                )
            },
        },
        Rule::WhereClause => match where_clause(s, k, d) {
            Err(e) => Err(e),
            Ok(w) => Ok(with_condition(acc, w)),
        },
        Rule::MultiSetClause => Err(updating_error()),
        Rule::MultiDeleteClause => Err(updating_error()),
        Rule::MultiRemoveClause => Err(updating_error()),
        Rule::MultiCreateClause => Err(updating_error()),
        Rule::MultiMergeClause => Err(updating_error()),
        _ => tail_step(s, acc, k, d),
    }
}

pub open spec fn subquery_from(s: Seq<char>, kids: Seq<PairView>, i: int, acc: PartsView, d: nat) -> Result<
    PartsView,
    ErrorView,
>
    decreases kids, kids.len() - i,
{
    if i < 0 || i >= kids.len() {
        Ok(acc)
    } else {
        match subquery_step(s, acc, kids[i], d) {
            Err(e) => Err(e),
            Ok(next) => subquery_from(s, kids, i + 1, next, d),
        }
    }
}

/// A RETURN that only says that there is a row.
pub open spec fn return_existence() -> ReturnClauseView {
    ReturnClauseView {
        items: seq![
            ReturnItemView {
                expr: ExprView {
                    kind: ExprKindView::Literal(LiteralValueView::Bool(true)),
                    span: Span::none(),
                },
                alias: Some("__exists"@),
            },
        ],
        distinct: false,
    }
}

/// The statement that a subquery runs.
pub open spec fn subquery_statement(m: PartsView) -> StatementView {
    StatementView::Match(
        MatchStatementView {
            patterns: m.patterns,
            optional_patterns: Seq::empty(),
            where_clause: m.where_clause,
            intermediate_clauses: m.intermediate,
            return_clause: match m.return_clause {
                Some(r) => r,
                None => return_existence(),
            },
            order_by: m.order_by,
            skip: m.skip,
            limit: m.limit,
        },
    )
}

/// `EXISTS { MATCH ... }`.
pub open spec fn exists_full_subquery(s: Seq<char>, p: PairView, d: nat) -> Result<
    ExprView,
    ErrorView,
>
    decreases p, 20int,
{
    match subquery_from(s, p.children, 0, no_parts(true), d) {
        Err(e) => Err(e),
        Ok(m) => if m.patterns.len() == 0 {
            Err(types::syntax_error("EXISTS subquery requires at least one MATCH pattern"@))
        } else {
            Ok(at(s, p, ExprKindView::ExistsSubquery(Box::new(subquery_statement(m)))))
        },
    }
}

/// The clauses that follow a first clause: projections, and what orders and cuts the rows.
pub open spec fn tail_step(s: Seq<char>, acc: PartsView, k: PairView, d: nat) -> Result<
    PartsView,
    ErrorView,
>
    decreases k, 25int,
{
    match k.rule {
        Rule::WithClause => match with_clause(s, k, d) {
            Err(e) => Err(e),
            Ok(x) => Ok(
                PartsView {
                    intermediate: acc.intermediate.push(IntermediateClauseView::With(x)),
                    ..acc
                },
            ),
        },
        Rule::UnwindClause => match unwind_clause(s, k, d) {
            Err(e) => Err(e),
            Ok(x) => Ok(
                PartsView {
                    intermediate: acc.intermediate.push(IntermediateClauseView::Unwind(x)),
                    ..acc
                },
            ),
        },
        Rule::ReturnClause => match return_clause(s, k, d) {
            Err(e) => Err(e),
            Ok(x) => Ok(PartsView { return_clause: Some(x), ..acc }),
        },
        Rule::OrderByClause => match order_by(s, k, d) {
            Err(e) => Err(e),
            Ok(x) => Ok(PartsView { order_by: x, ..acc }),
        },
        Rule::SkipClause => match expr_under(s, k.children, Rule::Expr, d) {
            Err(e) => Err(e),
            Ok(x) => Ok(PartsView { skip: Some(x), ..acc }),
        },
        Rule::LimitClause => match expr_under(s, k.children, Rule::Expr, d) {
            Err(e) => Err(e),
            Ok(x) => Ok(PartsView { limit: Some(x), ..acc }),
        },
        _ => Ok(acc),
    }
}

/// `add_expr IN add_expr`.
pub open spec fn in_expr(s: Seq<char>, p: PairView, d: nat) -> Result<ExprView, ErrorView>
    decreases p, 44int,
{
    match sum_at(s, p.children, 0, d) {
        Err(e) => Err(e),
        Ok(left) => if p.children.len() == 1 {
            Ok(left)
        } else {
            match sum_at(s, p.children, 1, d) {
                Err(e) => Err(e),
                Ok(right) => Ok(binary(left, BinOp::In, right)),
            }
        },
    }
}

/// An operand of the tightest operators.
pub open spec fn atom(s: Seq<char>, p: PairView, d: nat) -> Result<ExprView, ErrorView>
    decreases p, 50int,
{
    let kids = p.children;
    match p.rule {
        Rule::AtomExpr => if kids.len() == 0 {
            Err(malformed())
        } else {
            match atom(s, kids[0], d) {
                Err(e) => Err(e),
                Ok(x) => postfix_from(s, kids, 1, x, d),
            }
        },
        Rule::CaseExpr => case_expr(s, p, d),
        Rule::QuantifierExpr => quantifier(s, p, d),
        Rule::DottedFunctionCall => call(s, p, d),
        Rule::FunctionCall => call(s, p, d),
        Rule::UnknownFunctionCall => call(s, p, d),
        Rule::PropertyAccess => if kids.len() < 2 {
            Err(malformed())
        } else {
            Ok(at(s, p, ExprKindView::Property(name(s, kids[0]), name(s, kids[1]))))
        },
        Rule::HasLabelExpr => if kids.len() < 2 {
            Err(malformed())
        } else {
            Ok(
                at(
                    s,
                    p,
                    ExprKindView::HasLabel(
                        source::text_of(s, kids[0]),
                        all_texts(s, kids[1].children),
                    ),
                ),
            )
        },
        Rule::Literal => literal_expr(s, p),
        Rule::PatternComprehension => pattern_comprehension(s, p, d),
        Rule::ListComprehension => list_comprehension(s, p, d),
        Rule::ListLiteral => match exprs_from(s, kids, 0, Seq::empty(), d) {
            Err(e) => Err(e),
            Ok(xs) => Ok(at(s, p, ExprKindView::List(xs))),
        },
        Rule::MapLiteral => match map_from(s, kids, 0, Seq::empty(), d) {
            Err(e) => Err(e),
            Ok(xs) => Ok(at(s, p, ExprKindView::MapLiteral(xs))),
        },
        Rule::Star => Ok(at(s, p, ExprKindView::Star)),
        Rule::Parameter => if kids.len() == 0 {
            Err(malformed())
        } else {
            Ok(at(s, p, ExprKindView::Parameter(source::text_of(s, kids[0]))))
        },
        Rule::Variable => if kids.len() == 0 {
            Err(malformed())
        } else {
            Ok(at(s, p, ExprKindView::Variable(source::text_of(s, kids[0]))))
        },
        Rule::Expr => expr(s, p, d),
        Rule::InExpr => in_expr(s, p, d),
        Rule::AddExpr => chain(Level::Add, s, p, d),
        Rule::MulExpr => chain(Level::Mul, s, p, d),
        Rule::ExpExpr => chain(Level::Pow, s, p, d),
        Rule::UnaryMinusExpr => if kids.len() == 0 {
            Err(malformed())
        } else {
            match atom(s, kids[0], d) {
                Err(e) => Err(e),
                Ok(x) => Ok(
                    at(
                        s,
                        p,
                        ExprKindView::BinaryOp {
                            left: Box::new(
                                at(s, p, ExprKindView::Literal(LiteralValueView::I64(0))),
                            ),
                            op: BinOp::Sub,
                            right: Box::new(x),
                        },
                    ),
                ),
            }
        },
        r => Err(unexpected("unexpected expr: "@, r)),
    }
}

/// Subscripts and property accesses behind a value.
pub open spec fn postfix_from(s: Seq<char>, kids: Seq<PairView>, i: int, base: ExprView, d: nat) -> Result<
    ExprView,
    ErrorView,
>
    decreases kids, kids.len() - i,
{
    if i < 0 || i >= kids.len() {
        Ok(base)
    } else if kids[i].rule == Rule::Subscript {
        match subscript(s, base, kids[i], d) {
            Err(e) => Err(e),
            Ok(x) => postfix_from(s, kids, i + 1, x, d),
        }
    } else if kids[i].rule == Rule::DotAccess {
        if kids[i].children.len() == 0 {
            Err(malformed())
        } else {
            postfix_from(s, kids, i + 1, dotted(s, base, kids[i]), d)
        }
    } else {
        postfix_from(s, kids, i + 1, base, d)
    }
}

/// A property access behind a value.
pub open spec fn dotted(s: Seq<char>, base: ExprView, k: PairView) -> ExprView {
    ExprView {
        kind: ExprKindView::DotAccess { expr: Box::new(base), key: name(s, k.children[0]) },
        span: source::span_cover(base.span, source::span_of(s, k)),
    }
}

/// A subscript behind a value.
pub open spec fn subscript(s: Seq<char>, base: ExprView, p: PairView, d: nat) -> Result<
    ExprView,
    ErrorView,
>
    decreases p, 20int,
{
    let span = source::span_cover(base.span, source::span_of(s, p));
    if p.children.len() == 0 {
        Err(malformed())
    } else {
        subscript_inner(s, base, span, p.children[0].children, d)
    }
}

/// What stands in the brackets of a subscript.
pub open spec fn subscript_inner(
    s: Seq<char>,
    base: ExprView,
    span: Span,
    kids: Seq<PairView>,
    d: nat,
) -> Result<ExprView, ErrorView>
    decreases kids, 0int,
{
    if kids.len() == 0 {
        Err(malformed())
    } else {
        let inner = kids[0].children;
        let first = first_place(inner, Rule::Expr, 0);
        match kids[0].rule {
            Rule::SliceFull => match expr_at(s, inner, first, d) {
                Err(e) => Err(e),
                Ok(x) => match expr_at(s, inner, first_place(inner, Rule::Expr, first + 1), d) {
                    Err(e) => Err(e),
                    Ok(y) => Ok(sliced(base, Some(Box::new(x)), Some(Box::new(y)), span)),
                },
            },
            Rule::SliceFrom => match expr_at(s, inner, first, d) {
                Err(e) => Err(e),
                Ok(x) => Ok(sliced(base, Some(Box::new(x)), None, span)),
            },
            Rule::SliceTo => match expr_at(s, inner, first, d) {
                Err(e) => Err(e),
                Ok(x) => Ok(sliced(base, None, Some(Box::new(x)), span)),
            },
            Rule::Expr => match expr(s, kids[0], d) {
                Err(e) => Err(e),
                Ok(x) => Ok(
                    ExprView {
                        kind: ExprKindView::Index { expr: Box::new(base), index: Box::new(x) },
                        span,
                    },
                ),
            },
            r => Err(unexpected("unexpected subscript: "@, r)),
        }
    }
}

/// A slice of a value.
pub open spec fn sliced(
    base: ExprView,
    start: Option<Box<ExprView>>,
    end: Option<Box<ExprView>>,
    span: Span,
) -> ExprView {
    ExprView { kind: ExprKindView::Slice { expr: Box::new(base), start, end }, span }
}

/// The expressions among the nodes.
pub open spec fn exprs_from(
    s: Seq<char>,
    kids: Seq<PairView>,
    i: int,
    acc: Seq<ExprView>,
    d: nat,
) -> Result<Seq<ExprView>, ErrorView>
    decreases kids, kids.len() - i,
{
    if i < 0 || i >= kids.len() {
        Ok(acc)
    } else if kids[i].rule == Rule::Expr {
        match expr(s, kids[i], d) {
            Err(e) => Err(e),
            Ok(x) => exprs_from(s, kids, i + 1, acc.push(x), d),
        }
    } else {
        exprs_from(s, kids, i + 1, acc, d)
    }
}

/// A key and its value.
pub open spec fn keyed(s: Seq<char>, kids: Seq<PairView>, d: nat) -> Result<
    (Seq<char>, ExprView),
    ErrorView,
>
    decreases kids, 1int,
{
    if kids.len() < 2 {
        Err(malformed())
    } else {
        match expr_at(s, kids, 1, d) {
            Err(e) => Err(e),
            Ok(x) => Ok((name(s, kids[0]), x)),
        }
    }
}

/// The entries of a map literal.
pub open spec fn map_from(
    s: Seq<char>,
    kids: Seq<PairView>,
    i: int,
    acc: Seq<(Seq<char>, ExprView)>,
    d: nat,
) -> Result<Seq<(Seq<char>, ExprView)>, ErrorView>
    decreases kids, kids.len() - i,
{
    if i < 0 || i >= kids.len() {
        Ok(acc)
    } else if kids[i].rule == Rule::MapPair {
        match keyed(s, kids[i].children, d) {
            Err(e) => Err(e),
            Ok(x) => map_from(s, kids, i + 1, acc.push(x), d),
        }
    } else {
        map_from(s, kids, i + 1, acc, d)
    }
}

/// The arguments of a call that have been read.
pub struct ArgsView {
    pub args: Seq<ExprView>,
    pub distinct: bool,
}

/// The arguments of a call.
pub open spec fn args_from(s: Seq<char>, kids: Seq<PairView>, i: int, acc: ArgsView, d: nat) -> Result<
    ArgsView,
    ErrorView,
>
    decreases kids, kids.len() - i,
{
    if i < 0 || i >= kids.len() {
        Ok(acc)
    } else {
        match kids[i].rule {
            Rule::Star => args_from(
                s,
                kids,
                i + 1,
                ArgsView { args: acc.args.push(at(s, kids[i], ExprKindView::Star)), ..acc },
                d,
            ),
            Rule::DistinctKeyword => args_from(
                s,
                kids,
                i + 1,
                ArgsView { distinct: true, ..acc },
                d,
            ),
            Rule::ExprList => match exprs_from(s, kids[i].children, 0, acc.args, d) {
                Err(e) => Err(e),
                Ok(xs) => args_from(s, kids, i + 1, ArgsView { args: xs, ..acc }, d),
            },
            Rule::Expr => match expr(s, kids[i], d) {
                Err(e) => Err(e),
                Ok(x) => args_from(s, kids, i + 1, ArgsView { args: acc.args.push(x), ..acc }, d),
            },
            _ => args_from(s, kids, i + 1, acc, d),
        }
    }
}

/// The arguments under the function-arguments nodes of a call.
pub open spec fn call_from(s: Seq<char>, kids: Seq<PairView>, i: int, acc: ArgsView, d: nat) -> Result<
    ArgsView,
    ErrorView,
>
    decreases kids, kids.len() - i,
{
    if i < 0 || i >= kids.len() {
        Ok(acc)
    } else if kids[i].rule == Rule::FunctionArgs {
        match args_from(s, kids[i].children, 0, acc, d) {
            Err(e) => Err(e),
            Ok(next) => call_from(s, kids, i + 1, next, d),
        }
    } else {
        call_from(s, kids, i + 1, acc, d)
    }
}

/// The rule that holds the function name of a call.
pub open spec fn name_rule(r: Rule) -> Rule {
    match r {
        Rule::DottedFunctionCall => Rule::DottedFunctionName,
        Rule::FunctionCall => Rule::FunctionName,
        _ => Rule::PlainIdent,
    }
}

/// The function name of a call; a dotted name goes by its lower case form.
pub open spec fn call_name(s: Seq<char>, p: PairView) -> Seq<char> {
    let i = last_place(p.children, name_rule(p.rule), p.children.len() as int);
    if 0 <= i < p.children.len() {
        let t = source::text_of(s, p.children[i]);
        if p.rule == Rule::DottedFunctionCall {
            text::lower_text(t)
        } else {
            t
        }
    } else {
        Seq::empty()
    }
}

/// A function call.
pub open spec fn call(s: Seq<char>, p: PairView, d: nat) -> Result<ExprView, ErrorView>
    decreases p, 20int,
{
    match call_from(s, p.children, 0, ArgsView { args: Seq::empty(), distinct: false }, d) {
        Err(e) => Err(e),
        Ok(a) => Ok(
            at(
                s,
                p,
                ExprKindView::FunctionCall {
                    name: call_name(s, p),
                    args: a.args,
                    distinct: a.distinct && p.rule != Rule::DottedFunctionCall,
                    original_text: Some(source::text_of(s, p)),
                },
            ),
        ),
    }
}

/// The constant that a literal stands for.
pub open spec fn constant(s: Seq<char>, k: PairView) -> Result<LiteralValueView, ErrorView> {
    let t = source::text_of(s, k);
    match k.rule {
        Rule::IntegerLiteral => match literal::integer_value(t) {
            Ok(n) => Ok(LiteralValueView::I64(n as i64)),
            Err(e) => Err(types::syntax_error("invalid integer literal: "@ + e)),
        },
        Rule::FloatLiteral => if decimal::too_large(t) {
            Err(types::syntax_error("floating point value overflow"@))
        } else {
            Ok(
                LiteralValueView::F64(
                    FloatLiteralView::Decimal(decimal::without_signed_zero(t)),
                ),
            )
        },
        Rule::StringLiteral => if k.children.len() == 0 || k.children[0].children.len() == 0 {
            Err(malformed())
        } else {
            match literal::unescaped(source::text_of(s, k.children[0].children[0]), 0) {
                Ok(x) => Ok(LiteralValueView::String(x)),
                Err(e) => Err(e),
            }
        },
        Rule::BoolLiteral => Ok(LiteralValueView::Bool(text::lower_text(t) == "true"@)),
        Rule::NullLiteral => Ok(LiteralValueView::Null),
        r => Err(unexpected("unexpected literal: "@, r)),
    }
}

/// A literal.
pub open spec fn literal_expr(s: Seq<char>, p: PairView) -> Result<ExprView, ErrorView> {
    if p.children.len() == 0 {
        Err(malformed())
    } else {
        match constant(s, p.children[0]) {
            Err(e) => Err(e),
            Ok(c) => Ok(
                ExprView {
                    kind: ExprKindView::Literal(c),
                    span: source::span_cover(
                        source::span_of(s, p),
                        source::span_of(s, p.children[0]),
                    ),
                },
            ),
        }
    }
}

/// The parts of a comprehension or a quantifier that have been read.
pub struct ScopeView {
    pub kind: Option<QuantifierKind>,
    pub variable: Option<Seq<char>>,
    pub pattern: Option<PatternView>,
    pub list: Option<Box<ExprView>>,
    pub filter: Option<Box<ExprView>>,
    pub map: Option<Box<ExprView>>,
}

/// No part has been read.
pub open spec fn no_scope() -> ScopeView {
    ScopeView { kind: None, variable: None, pattern: None, list: None, filter: None, map: None }
}

/// The quantifier with the given name.
pub open spec fn quantifier_kind(t: Seq<char>) -> Result<QuantifierKind, ErrorView> {
    let n = text::lower_text(t);
    if n == "none"@ {
        Ok(QuantifierKind::NoneOf)
    } else if n == "single"@ {
        Ok(QuantifierKind::Single)
    } else if n == "any"@ {
        Ok(QuantifierKind::Any)
    } else if n == "all"@ {
        Ok(QuantifierKind::All)
    } else {
        Err(types::syntax_error("unknown quantifier: "@ + n))
    }
}

/// The parts of a list comprehension or quantifier with one node more.
pub open spec fn scope_step(s: Seq<char>, acc: ScopeView, k: PairView, d: nat) -> Result<
    ScopeView,
    ErrorView,
>
    decreases k, 70int,
{
    match k.rule {
        Rule::QuantifierName => match quantifier_kind(source::text_of(s, k)) {
            Err(e) => Err(e),
            Ok(q) => Ok(ScopeView { kind: Some(q), ..acc }),
        },
        Rule::Ident => Ok(ScopeView { variable: Some(name(s, k)), ..acc }),
        Rule::Expr => match expr(s, k, d) {
            Err(e) => Err(e),
            Ok(x) => Ok(ScopeView { list: Some(Box::new(x)), ..acc }),
        },
        Rule::WhereClause => match where_clause(s, k, d) {
            Err(e) => Err(e),
            Ok(x) => Ok(ScopeView { filter: Some(Box::new(x)), ..acc }),
        },
        Rule::ListCompWhere => match condition_at(s, k.children, 0, d) {
            Err(e) => Err(e),
            Ok(x) => Ok(ScopeView { filter: Some(Box::new(x)), ..acc }),
        },
        Rule::ListCompMap => match expr_at(s, k.children, 0, d) {
            Err(e) => Err(e),
            Ok(x) => Ok(ScopeView { map: Some(Box::new(x)), ..acc }),
        },
        _ => Ok(acc),
    }
}

pub open spec fn scope_from(s: Seq<char>, kids: Seq<PairView>, i: int, acc: ScopeView, d: nat) -> Result<
    ScopeView,
    ErrorView,
>
    decreases kids, kids.len() - i,
{
    if i < 0 || i >= kids.len() {
        Ok(acc)
    } else {
        match scope_step(s, acc, kids[i], d) {
            Err(e) => Err(e),
            Ok(next) => scope_from(s, kids, i + 1, next, d),
        }
    }
}

/// The condition that the node at `i` stands for.
pub open spec fn condition_at(s: Seq<char>, kids: Seq<PairView>, i: int, d: nat) -> Result<
    ExprView,
    ErrorView,
>
    decreases kids, 0int,
{
    if 0 <= i < kids.len() {
        bool_expr(s, kids[i], d)
    } else {
        Err(malformed())
    }
}

/// `[variable IN list WHERE filter | map]`.
pub open spec fn list_comprehension(s: Seq<char>, p: PairView, d: nat) -> Result<ExprView, ErrorView>
    decreases p, 20int,
{
    match scope_from(s, p.children, 0, no_scope(), d) {
        Err(e) => Err(e),
        Ok(c) => match (c.variable, c.list) {
            (None, _) => Err(types::syntax_error("missing variable in list comprehension"@)),
            (_, None) => Err(types::syntax_error("missing list expression in list comprehension"@)),
            (Some(variable), Some(list_expr)) => Ok(
                at(
                    s,
                    p,
                    ExprKindView::ListComprehension {
                        variable,
                        list_expr,
                        filter: c.filter,
                        map_expr: c.map,
                    },
                ),
            ),
        },
    }
}

/// `none/single/any/all (variable IN list WHERE predicate)`.
pub open spec fn quantifier(s: Seq<char>, p: PairView, d: nat) -> Result<ExprView, ErrorView>
    decreases p, 20int,
{
    match scope_from(s, p.children, 0, no_scope(), d) {
        Err(e) => Err(e),
        Ok(c) => match (c.kind, c.variable, c.list, c.filter) {
            (None, _, _, _) => Err(types::syntax_error("missing quantifier name"@)),
            (_, None, _, _) => Err(types::syntax_error("missing variable in quantifier"@)),
            (_, _, None, _) => Err(types::syntax_error("missing list expression in quantifier"@)),
            (_, _, _, None) => Err(types::syntax_error("missing WHERE predicate in quantifier"@)),
            (Some(kind), Some(variable), Some(list_expr), Some(predicate)) => Ok(
                at(
                    s,
                    p,
                    ExprKindView::Quantifier { kind, variable, list_expr, predicate },
                ),
            ),
        },
    }
}

/// The parts of a pattern comprehension with one node more.
pub open spec fn pattern_scope_step(s: Seq<char>, acc: ScopeView, k: PairView, d: nat) -> Result<
    ScopeView,
    ErrorView,
>
    decreases k, 70int,
{
    match k.rule {
        Rule::Ident => Ok(ScopeView { variable: Some(name(s, k)), ..acc }),
        Rule::Pattern => match pattern(s, k, d) {
            Err(e) => Err(e),
            Ok(x) => Ok(ScopeView { pattern: Some(x), ..acc }),
        },
        Rule::BoolExpr => match bool_expr(s, k, d) {
            Err(e) => Err(e),
            Ok(x) => Ok(ScopeView { filter: Some(Box::new(x)), ..acc }),
        },
        Rule::Expr => match expr(s, k, d) {
            Err(e) => Err(e),
            Ok(x) => Ok(ScopeView { map: Some(Box::new(x)), ..acc }),
        },
        _ => Ok(acc),
    }
}

pub open spec fn pattern_scope_from(
    s: Seq<char>,
    kids: Seq<PairView>,
    i: int,
    acc: ScopeView,
    d: nat,
) -> Result<ScopeView, ErrorView>
    decreases kids, kids.len() - i,
{
    if i < 0 || i >= kids.len() {
        Ok(acc)
    } else {
        match pattern_scope_step(s, acc, kids[i], d) {
            Err(e) => Err(e),
            Ok(next) => pattern_scope_from(s, kids, i + 1, next, d),
        }
    }
}

/// `[path = pattern WHERE condition | map]`.
pub open spec fn pattern_comprehension(s: Seq<char>, p: PairView, d: nat) -> Result<
    ExprView,
    ErrorView,
>
    decreases p, 20int,
{
    match pattern_scope_from(s, p.children, 0, no_scope(), d) {
        Err(e) => Err(e),
        Ok(c) => match (c.pattern, c.map) {
            (None, _) => Err(types::syntax_error("missing pattern in pattern comprehension"@)),
            (_, None) => Err(
                types::syntax_error("missing map expression in pattern comprehension"@),
            ),
            (Some(x), Some(map_expr)) => Ok(
                at(
                    s,
                    p,
                    ExprKindView::PatternComprehension {
                        path_variable: c.variable,
                        pattern: x,
                        where_clause: c.filter,
                        map_expr,
                    },
                ),
            ),
        },
    }
}

/// The patterns of a list.
pub open spec fn patterns_from(
    s: Seq<char>,
    kids: Seq<PairView>,
    i: int,
    acc: Seq<PatternView>,
    d: nat,
) -> Result<Seq<PatternView>, ErrorView>
    decreases kids, kids.len() - i,
{
    if i < 0 || i >= kids.len() {
        Ok(acc)
    } else if kids[i].rule == Rule::PatternItem {
        match pattern_item(s, kids[i], d) {
            Err(e) => Err(e),
            Ok(x) => patterns_from(s, kids, i + 1, acc.push(x), d),
        }
    } else {
        patterns_from(s, kids, i + 1, acc, d)
    }
}

/// Patterns with commas between.
pub open spec fn pattern_list(s: Seq<char>, p: PairView, d: nat) -> Result<
    Seq<PatternView>,
    ErrorView,
>
    decreases p, 20int,
{
    patterns_from(s, p.children, 0, Seq::empty(), d)
}

/// A pattern, with or without a name for its path.
pub open spec fn pattern_item(s: Seq<char>, p: PairView, d: nat) -> Result<PatternView, ErrorView>
    decreases p, 20int,
{
    if p.children.len() == 0 {
        Err(malformed())
    } else {
        match p.children[0].rule {
            Rule::PathPattern => path_pattern(s, p.children[0], d),
            Rule::Pattern => pattern(s, p.children[0], d),
            r => Err(unexpected("unexpected pattern item: "@, r)),
        }
    }
}

/// The parts of a named pattern that have been read.
pub struct PathParts {
    pub variable: Option<Seq<char>>,
    pub pattern: Option<PatternView>,
    pub mode: ShortestPathMode,
}

/// The pattern that the last pattern node stands for, if there is one.
pub open spec fn inner_pattern(s: Seq<char>, kids: Seq<PairView>, d: nat) -> Result<
    Option<PatternView>,
    ErrorView,
>
    decreases kids, 0int,
{
    let i = last_place(kids, Rule::Pattern, kids.len() as int);
    if 0 <= i < kids.len() {
        match pattern(s, kids[i], d) {
            Err(e) => Err(e),
            Ok(x) => Ok(Some(x)),
        }
    } else {
        Ok(None)
    }
}

/// The parts of a named pattern with a path search.
pub open spec fn with_search(acc: PathParts, x: Option<PatternView>, mode: ShortestPathMode) -> PathParts {
    PathParts {
        pattern: match x {
            Some(y) => Some(y),
            None => acc.pattern,
        },
        mode,
        ..acc
    }
}

/// The parts of a named pattern with one node more.
pub open spec fn path_step(s: Seq<char>, acc: PathParts, k: PairView, d: nat) -> Result<
    PathParts,
    ErrorView,
>
    decreases k, 30int,
{
    match k.rule {
        Rule::Ident => Ok(PathParts { variable: Some(name(s, k)), ..acc }),
        Rule::ShortestPathFn => match inner_pattern(s, k.children, d) {
            Err(e) => Err(e),
            Ok(x) => Ok(with_search(acc, x, ShortestPathMode::Single)),
        },
        Rule::AllShortestPathsFn => match inner_pattern(s, k.children, d) {
            Err(e) => Err(e),
            Ok(x) => Ok(with_search(acc, x, ShortestPathMode::All)),
        },
        Rule::Pattern => match pattern(s, k, d) {
            Err(e) => Err(e),
            Ok(x) => Ok(PathParts { pattern: Some(x), ..acc }),
        },
        _ => Ok(acc),
    }
}

pub open spec fn path_from(s: Seq<char>, kids: Seq<PairView>, i: int, acc: PathParts, d: nat) -> Result<
    PathParts,
    ErrorView,
>
    decreases kids, kids.len() - i,
{
    if i < 0 || i >= kids.len() {
        Ok(acc)
    } else {
        match path_step(s, acc, kids[i], d) {
            Err(e) => Err(e),
            Ok(next) => path_from(s, kids, i + 1, next, d),
        }
    }
}

/// `path = pattern`, or a search for shortest paths.
pub open spec fn path_pattern(s: Seq<char>, p: PairView, d: nat) -> Result<PatternView, ErrorView>
    decreases p, 20int,
{
    let none = PathParts { variable: None, pattern: None, mode: ShortestPathMode::Off };
    match path_from(s, p.children, 0, none, d) {
        Err(e) => Err(e),
        Ok(c) => match c.pattern {
            None => Err(types::syntax_error("missing pattern in path assignment"@)),
            Some(x) => Ok(
                PatternView { path_variable: c.variable, shortest_path_mode: c.mode, ..x },
            ),
        },
    }
}

/// The elements of a pattern.
pub open spec fn elements_from(
    s: Seq<char>,
    kids: Seq<PairView>,
    i: int,
    acc: Seq<PatternElementView>,
    d: nat,
) -> Result<Seq<PatternElementView>, ErrorView>
    decreases kids, kids.len() - i,
{
    if i < 0 || i >= kids.len() {
        Ok(acc)
    } else if kids[i].rule == Rule::NodePattern {
        match node_pattern(s, kids[i], d) {
            Err(e) => Err(e),
            Ok(x) => elements_from(s, kids, i + 1, acc.push(PatternElementView::Node(x)), d),
        }
    } else if kids[i].rule == Rule::RelPattern {
        match rel_pattern(s, kids[i], d) {
            Err(e) => Err(e),
            Ok(x) => elements_from(
                s,
                kids,
                i + 1,
                acc.push(PatternElementView::Relationship(x)),
                d,
            ),
        }
    } else {
        elements_from(s, kids, i + 1, acc, d)
    }
}

/// A pattern: nodes and relationships in turn.
pub open spec fn pattern(s: Seq<char>, p: PairView, d: nat) -> Result<PatternView, ErrorView>
    decreases p, 20int,
{
    match elements_from(s, p.children, 0, Seq::empty(), d) {
        Err(e) => Err(e),
        Ok(elements) => Ok(
            PatternView { elements, path_variable: None, shortest_path_mode: ShortestPathMode::Off },
        ),
    }
}

/// The parts of a node pattern.
pub open spec fn node_from(
    s: Seq<char>,
    kids: Seq<PairView>,
    i: int,
    acc: NodePatternView,
    d: nat,
) -> Result<NodePatternView, ErrorView>
    decreases kids, kids.len() - i,
{
    if i < 0 || i >= kids.len() {
        Ok(acc)
    } else {
        let k = kids[i];
        match k.rule {
            Rule::Ident => node_from(
                s,
                kids,
                i + 1,
                NodePatternView { variable: Some(name(s, k)), ..acc },
                d,
            ),
            Rule::LabelSpec => node_from(
                s,
                kids,
                i + 1,
                NodePatternView {
                    labels: acc.labels + texts_of(
                        s,
                        k.children,
                        Rule::SymbolicName,
                        k.children.len() as int,
                    ),
                    ..acc
                },
                d,
            ),
            Rule::PropertyMap => match property_map(s, k, d) {
                Err(e) => Err(e),
                Ok(x) => node_from(s, kids, i + 1, NodePatternView { properties: x, ..acc }, d),
            },
            _ => node_from(s, kids, i + 1, acc, d),
        }
    }
}

/// `(variable:Label {key: value})`.
pub open spec fn node_pattern(s: Seq<char>, p: PairView, d: nat) -> Result<
    NodePatternView,
    ErrorView,
>
    decreases p, 20int,
{
    node_from(
        s,
        p.children,
        0,
        NodePatternView { variable: None, labels: Seq::empty(), properties: Seq::empty() },
        d,
    )
}

/// The direction of a relationship pattern.
pub open spec fn direction_of(r: Rule) -> Option<RelDirection> {
    match r {
        Rule::RelRight => Some(RelDirection::Outgoing),
        Rule::RelRightBare => Some(RelDirection::Outgoing),
        Rule::RelLeft => Some(RelDirection::Incoming),
        Rule::RelLeftBare => Some(RelDirection::Incoming),
        Rule::RelUndirected => Some(RelDirection::Undirected),
        Rule::RelUndirectedBare => Some(RelDirection::Undirected),
        Rule::RelBoth => Some(RelDirection::Undirected),
        Rule::RelBothBare => Some(RelDirection::Undirected),
        _ => None,
    }
}

/// Relationship types with those of the first `i` nodes added, each once.
pub open spec fn with_types(acc: Seq<Seq<char>>, s: Seq<char>, kids: Seq<PairView>, i: int) -> Seq<
    Seq<char>,
>
    decreases i,
{
    if i <= 0 {
        acc
    } else {
        let before = with_types(acc, s, kids, i - 1);
        let t = source::text_of(s, kids[i - 1]);
        if kids[i - 1].rule == Rule::SymbolicName && !before.contains(t) {
            before.push(t)
        } else {
            before
        }
    }
}

/// The first entries with the first `i` of the second bound on top of them.
pub open spec fn extended(
    base: Seq<(Seq<char>, ExprView)>,
    more: Seq<(Seq<char>, ExprView)>,
    i: int,
) -> Seq<(Seq<char>, ExprView)>
    decreases i,
{
    if i <= 0 {
        base
    } else {
        assoc::put(extended(base, more, i - 1), more[i - 1].0, more[i - 1].1)
    }
}

/// The parts of a relationship pattern.
pub open spec fn rel_from(
    s: Seq<char>,
    kids: Seq<PairView>,
    i: int,
    acc: RelPatternView,
    d: nat,
) -> Result<RelPatternView, ErrorView>
    decreases kids, kids.len() - i,
{
    if i < 0 || i >= kids.len() {
        Ok(acc)
    } else {
        let k = kids[i];
        match k.rule {
            Rule::Ident => rel_from(
                s,
                kids,
                i + 1,
                RelPatternView { variable: Some(name(s, k)), ..acc },
                d,
            ),
            Rule::RelTypeSpec => rel_from(
                s,
                kids,
                i + 1,
                RelPatternView {
                    rel_types: with_types(
                        acc.rel_types,
                        s,
                        k.children,
                        k.children.len() as int,
                    ),
                    ..acc
                },
                d,
            ),
            Rule::PropertyMap => match property_map(s, k, d) {
                Err(e) => Err(e),
                Ok(x) => rel_from(s, kids, i + 1, RelPatternView { properties: x, ..acc }, d),
            },
            Rule::VarLength => match var_length(s, k, d) {
                Err(e) => Err(e),
                Ok((range, x)) => rel_from(
                    s,
                    kids,
                    i + 1,
                    RelPatternView {
                        var_length: Some(range),
                        properties: extended(acc.properties, x, x.len() as int),
                        ..acc
                    },
                    d,
                ),
            },
            _ => rel_from(s, kids, i + 1, acc, d),
        }
    }
}

/// The parts of a relationship pattern, wherever details are given.
pub open spec fn details_from(
    s: Seq<char>,
    kids: Seq<PairView>,
    i: int,
    acc: RelPatternView,
    d: nat,
) -> Result<RelPatternView, ErrorView>
    decreases kids, kids.len() - i,
{
    if i < 0 || i >= kids.len() {
        Ok(acc)
    } else if kids[i].rule == Rule::RelDetail {
        match rel_from(s, kids[i].children, 0, acc, d) {
            Err(e) => Err(e),
            Ok(next) => details_from(s, kids, i + 1, next, d),
        }
    } else {
        details_from(s, kids, i + 1, acc, d)
    }
}

/// `-[variable:TYPE*min..max {key: value}]->`.
pub open spec fn rel_pattern(s: Seq<char>, p: PairView, d: nat) -> Result<
    RelPatternView,
    ErrorView,
>
    decreases p, 20int,
{
    if p.children.len() == 0 {
        Err(malformed())
    } else {
        match direction_of(p.children[0].rule) {
            None => Err(malformed()),
            Some(direction) => details_from(
                s,
                p.children[0].children,
                0,
                RelPatternView {
                    variable: None,
                    rel_types: Seq::empty(),
                    properties: Seq::empty(),
                    direction,
                    var_length: None,
                },
                d,
            ),
        }
    }
}

/// The bounds that the integers among the nodes give.
pub open spec fn bounds_from(s: Seq<char>, kids: Seq<PairView>, i: int, acc: Seq<u32>) -> Result<
    Seq<u32>,
    ErrorView,
>
    decreases kids.len() - i,
{
    if i < 0 || i >= kids.len() {
        Ok(acc)
    } else if kids[i].rule == Rule::Integer {
        match literal::hop_bound(source::text_of(s, kids[i])) {
            Err(e) => Err(e),
            Ok(n) => bounds_from(s, kids, i + 1, acc.push(n)),
        }
    } else {
        bounds_from(s, kids, i + 1, acc)
    }
}

/// The range of a variable-length pattern: 50 hops where there is no upper bound.
pub open spec fn hop_range(s: Seq<char>, p: PairView) -> Result<(u32, u32), ErrorView> {
    let t = source::text_of(s, p);
    match bounds_from(s, p.children, 0, Seq::empty()) {
        Err(e) => Err(e),
        Ok(ns) => Ok(
            if ns.len() == 2 {
                (ns[0], ns[1])
            } else if ns.len() == 1 && t.len() >= 2 && t[0] == '.' && t[1] == '.' {
                (1, ns[0])
            } else if ns.len() == 1 {
                (ns[0], 50)
            } else {
                (1, 50)
            },
        ),
    }
}

/// The range and the properties of a variable-length pattern.
pub open spec fn length_from(
    s: Seq<char>,
    kids: Seq<PairView>,
    i: int,
    range: (u32, u32),
    props: Seq<(Seq<char>, ExprView)>,
    d: nat,
) -> Result<((u32, u32), Seq<(Seq<char>, ExprView)>), ErrorView>
    decreases kids, kids.len() - i,
{
    if i < 0 || i >= kids.len() {
        Ok((range, props))
    } else {
        match kids[i].rule {
            Rule::IntRange => match hop_range(s, kids[i]) {
                Err(e) => Err(e),
                Ok(r) => length_from(s, kids, i + 1, r, props, d),
            },
            Rule::FixedLength => match literal::hop_bound(source::text_of(s, kids[i])) {
                Err(e) => Err(e),
                Ok(n) => length_from(s, kids, i + 1, (n, n), props, d),
            },
            Rule::PropertyMap => match property_map(s, kids[i], d) {
                Err(e) => Err(e),
                Ok(x) => length_from(s, kids, i + 1, range, x, d),
            },
            _ => length_from(s, kids, i + 1, range, props, d),
        }
    }
}

/// The length of a variable-length pattern; a bare `*` goes from 1 to 50 hops.
pub open spec fn var_length(s: Seq<char>, p: PairView, d: nat) -> Result<
    ((u32, u32), Seq<(Seq<char>, ExprView)>),
    ErrorView,
>
    decreases p, 20int,
{
    length_from(s, p.children, 0, (1, 50), Seq::empty(), d)
}

/// The entries of a property map; a key given twice keeps its last value.
pub open spec fn props_from(
    s: Seq<char>,
    kids: Seq<PairView>,
    i: int,
    acc: Seq<(Seq<char>, ExprView)>,
    d: nat,
) -> Result<Seq<(Seq<char>, ExprView)>, ErrorView>
    decreases kids, kids.len() - i,
{
    if i < 0 || i >= kids.len() {
        Ok(acc)
    } else if kids[i].rule == Rule::PropertyPair {
        match keyed(s, kids[i].children, d) {
            Err(e) => Err(e),
            Ok((k, x)) => props_from(s, kids, i + 1, assoc::put(acc, k, x), d),
        }
    } else {
        props_from(s, kids, i + 1, acc, d)
    }
}

/// `{key: value}`.
pub open spec fn property_map(s: Seq<char>, p: PairView, d: nat) -> Result<
    Seq<(Seq<char>, ExprView)>,
    ErrorView,
>
    decreases p, 20int,
{
    props_from(s, p.children, 0, Seq::empty(), d)
}

/// A WHERE clause.
pub open spec fn where_clause(s: Seq<char>, p: PairView, d: nat) -> Result<ExprView, ErrorView>
    decreases p, 20int,
{
    condition_at(s, p.children, first_place(p.children, Rule::BoolExpr, 0), d)
}

/// The parts of a WITH clause with one node more.
pub open spec fn with_step(s: Seq<char>, acc: WithClauseView, k: PairView, d: nat) -> Result<
    WithClauseView,
    ErrorView,
>
    decreases k, 30int,
{
    match k.rule {
        Rule::DistinctKeyword => Ok(WithClauseView { distinct: true, ..acc }),
        Rule::ReturnItems => match items_from(s, k.children, 0, Seq::empty(), d) {
            Err(e) => Err(e),
            Ok(x) => Ok(WithClauseView { items: x, ..acc }),
        },
        Rule::OrderByClause => match order_by(s, k, d) {
            Err(e) => Err(e),
            Ok(x) => Ok(WithClauseView { order_by: x, ..acc }),
        },
        Rule::SkipClause => match expr_under(s, k.children, Rule::Expr, d) {
            Err(e) => Err(e),
            Ok(x) => Ok(WithClauseView { skip: Some(x), ..acc }),
        },
        Rule::LimitClause => match expr_under(s, k.children, Rule::Expr, d) {
            Err(e) => Err(e),
            Ok(x) => Ok(WithClauseView { limit: Some(x), ..acc }),
        },
        Rule::WhereClause => match where_clause(s, k, d) {
            Err(e) => Err(e),
            Ok(x) => Ok(WithClauseView { where_clause: Some(x), ..acc }),
        },
        _ => Ok(acc),
    }
}

pub open spec fn with_from(
    s: Seq<char>,
    kids: Seq<PairView>,
    i: int,
    acc: WithClauseView,
    d: nat,
) -> Result<WithClauseView, ErrorView>
    decreases kids, kids.len() - i,
{
    if i < 0 || i >= kids.len() {
        Ok(acc)
    } else {
        match with_step(s, acc, kids[i], d) {
            Err(e) => Err(e),
            Ok(next) => with_from(s, kids, i + 1, next, d),
        }
    }
}

/// A WITH clause.
pub open spec fn with_clause(s: Seq<char>, p: PairView, d: nat) -> Result<WithClauseView, ErrorView>
    decreases p, 20int,
{
    with_from(
        s,
        p.children,
        0,
        WithClauseView {
            items: Seq::empty(),
            distinct: false,
            order_by: Seq::empty(),
            skip: None,
            limit: None,
            where_clause: None,
        },
        d,
    )
}

/// The alias that a node gives.
pub open spec fn alias_of(s: Seq<char>, kids: Seq<PairView>, before: Option<Seq<char>>) -> Option<
    Seq<char>,
> {
    let i = last_place(kids, Rule::Ident, kids.len() as int);
    if 0 <= i < kids.len() {
        Some(name(s, kids[i]))
    } else {
        before
    }
}

/// The expression and the alias of a projected item.
pub open spec fn item_from(
    s: Seq<char>,
    kids: Seq<PairView>,
    i: int,
    e: Option<ExprView>,
    alias: Option<Seq<char>>,
    d: nat,
) -> Result<ReturnItemView, ErrorView>
    decreases kids, kids.len() - i,
{
    if i < 0 || i >= kids.len() {
        match e {
            None => Err(malformed()),
            Some(x) => Ok(ReturnItemView { expr: x, alias }),
        }
    } else {
        match kids[i].rule {
            Rule::Expr => match expr(s, kids[i], d) {
                Err(f) => Err(f),
                Ok(x) => item_from(s, kids, i + 1, Some(x), alias, d),
            },
            Rule::Alias => item_from(
                s,
                kids,
                i + 1,
                e,
                alias_of(s, kids[i].children, alias),
                d,
            ),
            _ => item_from(s, kids, i + 1, e, alias, d),
        }
    }
}

/// The projected items.
pub open spec fn items_from(
    s: Seq<char>,
    kids: Seq<PairView>,
    i: int,
    acc: Seq<ReturnItemView>,
    d: nat,
) -> Result<Seq<ReturnItemView>, ErrorView>
    decreases kids, kids.len() - i,
{
    if i < 0 || i >= kids.len() {
        Ok(acc)
    } else if kids[i].rule == Rule::ReturnItem {
        match item_from(s, kids[i].children, 0, None, None, d) {
            Err(e) => Err(e),
            Ok(x) => items_from(s, kids, i + 1, acc.push(x), d),
        }
    } else {
        items_from(s, kids, i + 1, acc, d)
    }
}

/// A RETURN clause.
pub open spec fn return_clause(s: Seq<char>, p: PairView, d: nat) -> Result<
    ReturnClauseView,
    ErrorView,
>
    decreases p, 20int,
{
    let i = first_place(p.children, Rule::ReturnItems, 0);
    if 0 <= i < p.children.len() {
        match items_from(s, p.children[i].children, 0, Seq::empty(), d) {
            Err(e) => Err(e),
            Ok(items) => Ok(
                ReturnClauseView {
                    items,
                    distinct: count_of(
                        p.children,
                        Rule::DistinctKeyword,
                        p.children.len() as int,
                    ) > 0,
                },
            ),
        }
    } else {
        Err(malformed())
    }
}

/// The text names the descending direction.
pub open spec fn is_descending(t: Seq<char>) -> bool {
    text::lower_text(t) == "desc"@ || text::lower_text(t) == "descending"@
}

/// The expression and the direction of a sort key.
pub open spec fn sort_from(
    s: Seq<char>,
    kids: Seq<PairView>,
    i: int,
    e: Option<ExprView>,
    descending: bool,
    d: nat,
) -> Result<SortItemView, ErrorView>
    decreases kids, kids.len() - i,
{
    if i < 0 || i >= kids.len() {
        match e {
            None => Err(malformed()),
            Some(x) => Ok(SortItemView { expr: x, descending }),
        }
    } else {
        match kids[i].rule {
            Rule::Expr => match expr(s, kids[i], d) {
                Err(f) => Err(f),
                Ok(x) => sort_from(s, kids, i + 1, Some(x), descending, d),
            },
            Rule::SortDirection => sort_from(
                s,
                kids,
                i + 1,
                e,
                is_descending(source::text_of(s, kids[i])),
                d,
            ),
            _ => sort_from(s, kids, i + 1, e, descending, d),
        }
    }
}

/// The sort keys.
pub open spec fn sorts_from(
    s: Seq<char>,
    kids: Seq<PairView>,
    i: int,
    acc: Seq<SortItemView>,
    d: nat,
) -> Result<Seq<SortItemView>, ErrorView>
    decreases kids, kids.len() - i,
{
    if i < 0 || i >= kids.len() {
        Ok(acc)
    } else if kids[i].rule == Rule::SortItem {
        match sort_from(s, kids[i].children, 0, None, false, d) {
            Err(e) => Err(e),
            Ok(x) => sorts_from(s, kids, i + 1, acc.push(x), d),
        }
    } else {
        sorts_from(s, kids, i + 1, acc, d)
    }
}

/// An ORDER BY clause.
pub open spec fn order_by(s: Seq<char>, p: PairView, d: nat) -> Result<Seq<SortItemView>, ErrorView>
    decreases p, 20int,
{
    let i = first_place(p.children, Rule::SortItems, 0);
    if 0 <= i < p.children.len() {
        sorts_from(s, p.children[i].children, 0, Seq::empty(), d)
    } else {
        Err(malformed())
    }
}

/// The last expression and the last name among the nodes.
pub open spec fn unwind_from(
    s: Seq<char>,
    kids: Seq<PairView>,
    i: int,
    e: Option<ExprView>,
    alias: Option<Seq<char>>,
    d: nat,
) -> Result<UnwindClauseView, ErrorView>
    decreases kids, kids.len() - i,
{
    if i < 0 || i >= kids.len() {
        match (e, alias) {
            (None, _) => Err(types::syntax_error("missing UNWIND expression"@)),
            (_, None) => Err(types::syntax_error("missing UNWIND alias"@)),
            (Some(x), Some(a)) => Ok(UnwindClauseView { expr: x, alias: a }),
        }
    } else {
        match kids[i].rule {
            Rule::Expr => match expr(s, kids[i], d) {
                Err(f) => Err(f),
                Ok(x) => unwind_from(s, kids, i + 1, Some(x), alias, d),
            },
            Rule::Ident => unwind_from(s, kids, i + 1, e, Some(name(s, kids[i])), d),
            _ => unwind_from(s, kids, i + 1, e, alias, d),
        }
    }
}

/// An UNWIND clause.
pub open spec fn unwind_clause(s: Seq<char>, p: PairView, d: nat) -> Result<
    UnwindClauseView,
    ErrorView,
>
    decreases p, 20int,
{
    unwind_from(s, p.children, 0, None, None, d)
}

} // verus!
