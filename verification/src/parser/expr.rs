//! Building expressions.
use super::clause;
use super::clause::{parse_tail, parse_where, Parts};
use super::decimal;
use super::literal;
use super::meaning;
use super::meaning::Level;
use super::pattern;
use super::pattern::{parse_pattern, parse_pattern_list};
use super::peg;
use super::peg::Pair;
use super::rule::Rule;
use super::source::{combine_spans, Source};
use super::tree;
use super::tree::{fault, malformed, unexpected, DepthGuard};
use crate::ast::{
    BinOp, Expr, ExprKind, FloatLiteral, IntermediateClause, IntermediateMatch, LiteralValue,
    MatchStatement, Pattern, QuantifierKind, ReturnClause, ReturnItem, Statement,
};
use crate::ast_model;
use crate::ast_model::{ExprKindView, ExprView, LiteralValueView, PatternView};
use crate::text;
use crate::types;
use crate::types::{ErrorCode, ErrorView, GraphError, QueryPhase, Span};
use vstd::prelude::*;

verus! {

broadcast use ast_model::group_list_views;

/// A binary operation; it stands where its operands do.
pub fn binary(left: Expr, op: BinOp, right: Expr) -> (r: Expr)
    ensures
        r@ == meaning::binary(left@, op, right@),
{
    let span = combine_spans(left.span, right.span);
    Expr::new(ExprKind::BinaryOp { left: Box::new(left), op, right: Box::new(right) }, span)
}

/// What an operator or an error says.
pub open spec fn operator_out(r: Result<Option<BinOp>, GraphError>) -> Result<
    Option<BinOp>,
    ErrorView,
> {
    match r {
        Ok(op) => Ok(op),
        Err(e) => Err(e@),
    }
}

/// What an operator or an error says.
pub open spec fn op_out(r: Result<BinOp, GraphError>) -> Result<BinOp, ErrorView> {
    match r {
        Ok(op) => Ok(op),
        Err(e) => Err(e@),
    }
}

/// The operator that a node of a chain stands for.
fn read_operator(level: Level, src: &Source, k: &Pair) -> (r: Result<Option<BinOp>, GraphError>)
    requires
        tree::fits_one(*src, *k),
    ensures
        operator_out(r) == meaning::operator(level, src@, k@),
{
    match level {
        Level::Or => Ok(if k.rule == Rule::OrOp { Some(BinOp::Or) } else { None }),
        Level::Xor => Ok(if k.rule == Rule::XorOp { Some(BinOp::Xor) } else { None }),
        Level::And => Ok(if k.rule == Rule::AndOp { Some(BinOp::And) } else { None }),
        Level::Add => if tree::reads(src, k, "+") {
            Ok(Some(BinOp::Add))
        } else if tree::reads(src, k, "-") {
            Ok(Some(BinOp::Sub))
        } else {
            Err(GraphError::syntax(text::cat("unexpected add op: ", src.text(k).as_str())))
        },
        Level::Mul => if tree::reads(src, k, "*") {
            Ok(Some(BinOp::Mul))
        } else if tree::reads(src, k, "/") {
            Ok(Some(BinOp::Div))
        } else if tree::reads(src, k, "%") {
            Ok(Some(BinOp::Mod))
        } else {
            Err(GraphError::syntax(text::cat("unexpected mul op: ", src.text(k).as_str())))
        },
        Level::Pow => Ok(if k.rule == Rule::ExpOp { Some(BinOp::Pow) } else { None }),
    }
}

/// An operand of a chain.
fn parse_operand(level: Level, src: &Source, pair: &Pair, d: DepthGuard) -> (r: Result<
    Expr,
    GraphError,
>)
    requires
        tree::fits_one(*src, *pair),
    ensures
        types::outcome(r) == meaning::operand(level, src@, pair@, d.depth as nat),
    decreases pair, 60int,
{
    match level {
        Level::Or => parse_xor_term(src, pair, d),
        Level::Xor => parse_bool_term(src, pair, d),
        Level::And => parse_bool_factor(src, pair, d),
        Level::Add => parse_mul_expr(src, pair, d),
        Level::Mul => parse_exp_expr(src, pair, d),
        Level::Pow => parse_atom_expr(src, pair, d),
    }
}

/// Operands with operators between them, from the left.
fn parse_chain(level: Level, src: &Source, pair: &Pair, d: DepthGuard) -> (r: Result<
    Expr,
    GraphError,
>)
    requires
        tree::fits_one(*src, *pair),
    ensures
        types::outcome(r) == meaning::chain(level, src@, pair@, d.depth as nat),
    decreases pair, 40int,
{
    let kids = &pair.children;
    if kids.len() == 0 {
        return Err(malformed());
    }
    let ghost ks = peg::pairs_view(kids@);
    assert(peg::within(ks[0], src@.len()));
    match parse_operand(level, src, &kids[0], d) {
        Ok(left) => parse_chain_rest(level, src, kids, left, d),
        Err(e) => Err(e),
    }
}

/// The rest of a chain behind its left part.
fn parse_chain_rest(level: Level, src: &Source, kids: &Vec<Pair>, init: Expr, d: DepthGuard) -> (r:
    Result<Expr, GraphError>)
    requires
        tree::fits(*src, kids@),
    ensures
        types::outcome(r) == meaning::chain_from(
            level,
            src@,
            peg::pairs_view(kids@),
            1,
            init@,
            d.depth as nat,
        ),
    decreases kids, 3int,
{
    let ghost ks = peg::pairs_view(kids@);
    let mut left = init;
    let mut i: usize = 1;
    assert(decreases_to!(kids => kids@));
    while i < kids.len()
        invariant
            tree::fits(*src, kids@),
            ks == peg::pairs_view(kids@),
            1 <= i,
            decreases_to!(kids => kids@),
            meaning::chain_from(level, src@, ks, 1, init@, d.depth as nat) == meaning::chain_from(
                level,
                src@,
                ks,
                i as int,
                left@,
                d.depth as nat,
            ),
        decreases kids.len() - i,
    {
        assert(peg::within(ks[i as int], src@.len()));
        match read_operator(level, src, &kids[i]) {
            Err(e) => {
                return Err(e);
            },
            Ok(None) => {
                i = i + 1;
            },
            Ok(Some(op)) => {
                if kids.len() - i < 2 {
                    return Err(malformed());
                }
                assert(peg::within(ks[i + 1], src@.len()));
                match parse_operand(level, src, &kids[i + 1], d) {
                    Ok(right) => {
                        left = binary(left, op, right);
                    },
                    Err(e) => {
                        return Err(e);
                    },
                }
                i = i + 2;
            },
        }
    }
    Ok(left)
}

/// An expression: alternatives of OR.
pub fn parse_expr(src: &Source, pair: &Pair, d: DepthGuard) -> (r: Result<Expr, GraphError>)
    requires
        tree::fits_one(*src, *pair),
    ensures
        types::outcome(r) == meaning::expr(src@, pair@, d.depth as nat),
    decreases pair, 45int,
{
    match d.enter() {
        Ok(inner) => parse_chain(Level::Or, src, pair, inner),
        Err(e) => Err(e),
    }
}

/// Alternatives of XOR.
fn parse_xor_term(src: &Source, pair: &Pair, d: DepthGuard) -> (r: Result<Expr, GraphError>)
    requires
        tree::fits_one(*src, *pair),
    ensures
        types::outcome(r) == meaning::chain(Level::Xor, src@, pair@, d.depth as nat),
    decreases pair, 42int,
{
    parse_chain(Level::Xor, src, pair, d)
}

/// Conjuncts of AND.
fn parse_bool_term(src: &Source, pair: &Pair, d: DepthGuard) -> (r: Result<Expr, GraphError>)
    requires
        tree::fits_one(*src, *pair),
    ensures
        types::outcome(r) == meaning::chain(Level::And, src@, pair@, d.depth as nat),
    decreases pair, 42int,
{
    parse_chain(Level::And, src, pair, d)
}

/// Sums and differences.
pub fn parse_add_expr(src: &Source, pair: &Pair, d: DepthGuard) -> (r: Result<Expr, GraphError>)
    requires
        tree::fits_one(*src, *pair),
    ensures
        types::outcome(r) == meaning::chain(Level::Add, src@, pair@, d.depth as nat),
    decreases pair, 42int,
{
    parse_chain(Level::Add, src, pair, d)
}

/// Products, quotients and remainders.
fn parse_mul_expr(src: &Source, pair: &Pair, d: DepthGuard) -> (r: Result<Expr, GraphError>)
    requires
        tree::fits_one(*src, *pair),
    ensures
        types::outcome(r) == meaning::chain(Level::Mul, src@, pair@, d.depth as nat),
    decreases pair, 42int,
{
    parse_chain(Level::Mul, src, pair, d)
}

/// Powers.
fn parse_exp_expr(src: &Source, pair: &Pair, d: DepthGuard) -> (r: Result<Expr, GraphError>)
    requires
        tree::fits_one(*src, *pair),
    ensures
        types::outcome(r) == meaning::chain(Level::Pow, src@, pair@, d.depth as nat),
    decreases pair, 42int,
{
    parse_chain(Level::Pow, src, pair, d)
}

/// The expression that the node at `i` stands for.
pub fn parse_expr_at(src: &Source, kids: &Vec<Pair>, i: usize, d: DepthGuard) -> (r: Result<
    Expr,
    GraphError,
>)
    requires
        tree::fits(*src, kids@),
    ensures
        types::outcome(r) == meaning::expr_at(
            src@,
            peg::pairs_view(kids@),
            i as int,
            d.depth as nat,
        ),
    decreases kids, 0int,
{
    if i < kids.len() {
        assert(peg::within(peg::pairs_view(kids@)[i as int], src@.len()));
        assert(decreases_to!(kids => kids@));
        parse_expr(src, &kids[i], d)
    } else {
        Err(malformed())
    }
}

/// The expression that the first node of the rule stands for.
pub fn parse_expr_under(src: &Source, kids: &Vec<Pair>, rule: Rule, d: DepthGuard) -> (r: Result<
    Expr,
    GraphError,
>)
    requires
        tree::fits(*src, kids@),
    ensures
        types::outcome(r) == meaning::expr_under(
            src@,
            peg::pairs_view(kids@),
            rule,
            d.depth as nat,
        ),
    decreases kids, 1int,
{
    let i = tree::first_place(kids, rule, 0);
    parse_expr_at(src, kids, i, d)
}

/// The sum that the node at `i` stands for.
fn parse_sum_at(src: &Source, kids: &Vec<Pair>, i: usize, d: DepthGuard) -> (r: Result<
    Expr,
    GraphError,
>)
    requires
        tree::fits(*src, kids@),
    ensures
        types::outcome(r) == meaning::sum_at(
            src@,
            peg::pairs_view(kids@),
            i as int,
            d.depth as nat,
        ),
    decreases kids, 0int,
{
    if i < kids.len() {
        assert(peg::within(peg::pairs_view(kids@)[i as int], src@.len()));
        assert(decreases_to!(kids => kids@));
        parse_add_expr(src, &kids[i], d)
    } else {
        Err(malformed())
    }
}

/// A condition.
pub fn parse_bool_expr(src: &Source, pair: &Pair, d: DepthGuard) -> (r: Result<Expr, GraphError>)
    requires
        tree::fits_one(*src, *pair),
    ensures
        types::outcome(r) == meaning::bool_expr(src@, pair@, d.depth as nat),
    decreases pair, 10int,
{
    parse_expr_at(src, &pair.children, 0, d)
}

/// The condition that the node at `i` stands for.
pub fn parse_condition_at(src: &Source, kids: &Vec<Pair>, i: usize, d: DepthGuard) -> (r: Result<
    Expr,
    GraphError,
>)
    requires
        tree::fits(*src, kids@),
    ensures
        types::outcome(r) == meaning::condition_at(
            src@,
            peg::pairs_view(kids@),
            i as int,
            d.depth as nat,
        ),
    decreases kids, 0int,
{
    if i < kids.len() {
        assert(peg::within(peg::pairs_view(kids@)[i as int], src@.len()));
        assert(decreases_to!(kids => kids@));
        parse_bool_expr(src, &kids[i], d)
    } else {
        Err(malformed())
    }
}

/// A comparison under any number of negations.
fn parse_bool_factor(src: &Source, pair: &Pair, d: DepthGuard) -> (r: Result<Expr, GraphError>)
    requires
        tree::fits_one(*src, *pair),
    ensures
        types::outcome(r) == meaning::bool_factor(src@, pair@, d.depth as nat),
    decreases pair, 30int,
{
    let span = src.span_from_pair(pair);
    let kids = &pair.children;
    let count = tree::count_of(kids, Rule::NotOp);
    match tree::last_place(kids, Rule::BoolPrimary) {
        None => Err(malformed()),
        Some(at) => {
            assert(peg::within(peg::pairs_view(kids@)[at as int], src@.len()));
            assert(decreases_to!(kids => kids@));
            match parse_bool_primary(src, &kids[at], d) {
                Err(e) => Err(e),
                Ok(primary) => {
                    let ghost p = primary@;
                    let mut expr = primary;
                    let mut i: usize = 0;
                    while i < count
                        invariant
                            i <= count,
                            expr@ == meaning::negated(p, i as nat, span),
                        decreases count - i,
                    {
                        expr = Expr::new(ExprKind::Not(Box::new(expr)), span);
                        i = i + 1;
                    }
                    Ok(expr)
                },
            }
        },
    }
}

/// What a condition is made of.
fn parse_bool_primary(src: &Source, pair: &Pair, d: DepthGuard) -> (r: Result<Expr, GraphError>)
    requires
        tree::fits_one(*src, *pair),
    ensures
        types::outcome(r) == meaning::bool_primary(src@, pair@, d.depth as nat),
    decreases pair, 30int,
{
    let kids = &pair.children;
    if kids.len() == 0 {
        return Err(malformed());
    }
    assert(peg::within(peg::pairs_view(kids@)[0], src@.len()));
    assert(decreases_to!(kids => kids@));
    if kids[0].rule == Rule::CmpOrValue {
        parse_comparisons(src, &kids[0], d)
    } else {
        Err(unexpected("unexpected bool primary: ", kids[0].rule))
    }
}

/// What an operator and an operand or an error say.
pub open spec fn comparison_out(r: Result<(BinOp, Expr), GraphError>) -> Result<
    (BinOp, ExprView),
    ErrorView,
> {
    match r {
        Ok((op, x)) => Ok((op, x@)),
        Err(e) => Err(e@),
    }
}

/// The operator and the right operand of a comparison.
fn parse_comparison(src: &Source, kids: &Vec<Pair>, d: DepthGuard) -> (r: Result<
    (BinOp, Expr),
    GraphError,
>)
    requires
        tree::fits(*src, kids@),
    ensures
        comparison_out(r) == meaning::comparison(src@, peg::pairs_view(kids@), d.depth as nat),
    decreases kids, 0int,
{
    if kids.len() < 2 {
        return Err(malformed());
    }
    assert(peg::within(peg::pairs_view(kids@)[0], src@.len()));
    assert(peg::within(peg::pairs_view(kids@)[1], src@.len()));
    assert(decreases_to!(kids => kids@));
    match parse_comp_op(src, &kids[0]) {
        Err(e) => Err(e),
        Ok(op) => match parse_predicate_expr(src, &kids[1], d) {
            Err(e) => Err(e),
            Ok(right) => Ok((op, right)),
        },
    }
}

/// A value, or comparisons in a row.
fn parse_comparisons(src: &Source, pair: &Pair, d: DepthGuard) -> (r: Result<Expr, GraphError>)
    requires
        tree::fits_one(*src, *pair),
    ensures
        types::outcome(r) == meaning::comparisons(src@, pair@, d.depth as nat),
    decreases pair, 30int,
{
    let kids = &pair.children;
    if kids.len() == 0 {
        return Err(malformed());
    }
    let ghost ks = peg::pairs_view(kids@);
    assert(peg::within(ks[0], src@.len()));
    assert(decreases_to!(kids => kids@));
    match parse_predicate_expr(src, &kids[0], d) {
        Ok(first) => parse_more_comparisons(src, kids, first, d),
        Err(e) => Err(e),
    }
}

/// The rest of a row of comparisons.
fn parse_more_comparisons(src: &Source, kids: &Vec<Pair>, first: Expr, d: DepthGuard) -> (r: Result<
    Expr,
    GraphError,
>)
    requires
        tree::fits(*src, kids@),
    ensures
        types::outcome(r) == meaning::comparisons_from(
            src@,
            peg::pairs_view(kids@),
            1,
            first@,
            None,
            d.depth as nat,
        ),
    decreases kids, 3int,
{
    let ghost ks = peg::pairs_view(kids@);
    let mut prev = first;
    let mut acc: Option<Expr> = None;
    let mut i: usize = 1;
    assert(decreases_to!(kids => kids@));
    while i < kids.len()
        invariant
            tree::fits(*src, kids@),
            ks == peg::pairs_view(kids@),
            1 <= i,
            decreases_to!(kids => kids@),
            meaning::comparisons_from(src@, ks, 1, first@, None, d.depth as nat)
                == meaning::comparisons_from(
                src@,
                ks,
                i as int,
                prev@,
                ast_model::opt_expr_view(acc),
                d.depth as nat,
            ),
        decreases kids.len() - i,
    {
        assert(peg::within(ks[i as int], src@.len()));
        assert(decreases_to!(kids@[i as int] => kids@[i as int].children));
        match parse_comparison(src, &kids[i].children, d) {
            Err(e) => {
                return Err(e);
            },
            Ok((op, right)) => {
                let again = right.dup();
                let c = binary(prev, op, right);
                acc = Some(
                    match acc {
                        None => c,
                        Some(a) => binary(a, BinOp::And, c),
                    },
                );
                prev = again;
            },
        }
        i = i + 1;
    }
    match acc {
        None => Ok(prev),
        Some(a) => Ok(a),
    }
}

/// A comparison operator.
fn parse_comp_op(src: &Source, pair: &Pair) -> (r: Result<BinOp, GraphError>)
    requires
        tree::fits_one(*src, *pair),
    ensures
        op_out(r) == meaning::comp_op(src@, pair@),
{
    if pair.children.len() > 0 {
        assert(peg::pairs_view(pair.children@)[0].rule == pair.children@[0].rule);
        return match pair.children[0].rule {
            Rule::StartsWithOp => Ok(BinOp::StartsWith),
            Rule::EndsWithOp => Ok(BinOp::EndsWith),
            Rule::ContainsOp => Ok(BinOp::Contains),
            r => Err(unexpected("unexpected comp_op sub-rule: ", r)),
        };
    }
    if tree::reads(src, pair, "=") {
        Ok(BinOp::Eq)
    } else if tree::reads(src, pair, "<>") {
        Ok(BinOp::Neq)
    } else if tree::reads(src, pair, "<=") {
        Ok(BinOp::Lte)
    } else if tree::reads(src, pair, ">=") {
        Ok(BinOp::Gte)
    } else if tree::reads(src, pair, "<") {
        Ok(BinOp::Lt)
    } else if tree::reads(src, pair, ">") {
        Ok(BinOp::Gt)
    } else if tree::reads(src, pair, "=~") {
        Ok(BinOp::RegexMatch)
    } else {
        Err(
            GraphError::syntax(
                text::cat("unknown comparison operator: ", src.text(pair).as_str()),
            ),
        )
    }
}

/// A string predicate operator.
fn parse_string_pred_op(pair: &Pair) -> (r: Result<BinOp, GraphError>)
    ensures
        op_out(r) == meaning::string_pred_op(pair@),
{
    if pair.children.len() == 0 {
        return Err(malformed());
    }
    assert(peg::pairs_view(pair.children@)[0].rule == pair.children@[0].rule);
    match pair.children[0].rule {
        Rule::StartsWithOp => Ok(BinOp::StartsWith),
        Rule::EndsWithOp => Ok(BinOp::EndsWith),
        Rule::ContainsOp => Ok(BinOp::Contains),
        r => Err(unexpected("unexpected string pred op: ", r)),
    }
}

/// A value with an optional test behind it.
fn parse_predicate_expr(src: &Source, pair: &Pair, d: DepthGuard) -> (r: Result<Expr, GraphError>)
    requires
        tree::fits_one(*src, *pair),
    ensures
        types::outcome(r) == meaning::predicate(src@, pair@, d.depth as nat),
    decreases pair, 30int,
{
    let kids = &pair.children;
    if kids.len() == 0 {
        return Err(malformed());
    }
    assert(peg::within(peg::pairs_view(kids@)[0], src@.len()));
    assert(decreases_to!(kids => kids@));
    match parse_compared(src, &kids[0], d) {
        Err(e) => Err(e),
        Ok(left) => if kids.len() == 1 {
            Ok(left)
        } else {
            assert(peg::within(peg::pairs_view(kids@)[1], src@.len()));
            let span = src.span_from_pair(pair);
            parse_suffix(src, left, span, &kids[1], d)
        },
    }
}

/// A value with a test behind it.
fn parse_suffix(src: &Source, left: Expr, span: Span, pair: &Pair, d: DepthGuard) -> (r: Result<
    Expr,
    GraphError,
>)
    requires
        tree::fits_one(*src, *pair),
    ensures
        types::outcome(r) == meaning::suffixed(src@, left@, span, pair@, d.depth as nat),
    decreases pair, 30int,
{
    let kids = &pair.children;
    match pair.rule {
        Rule::IsNotNullSuffix => Ok(Expr::new(ExprKind::IsNotNull(Box::new(left)), span)),
        Rule::IsNullSuffix => Ok(Expr::new(ExprKind::IsNull(Box::new(left)), span)),
        Rule::InSuffix => {
            let i = tree::first_place(kids, Rule::AddExpr, 0);
            match parse_sum_at(src, kids, i, d) {
                Err(e) => Err(e),
                Ok(right) => Ok(binary(left, BinOp::In, right)),
            }
        },
        Rule::StringPredSuffix => {
            if kids.len() < 2 {
                return Err(malformed());
            }
            match parse_string_pred_op(&kids[0]) {
                Err(e) => Err(e),
                Ok(op) => match parse_sum_at(src, kids, 1, d) {
                    Err(e) => Err(e),
                    Ok(right) => Ok(binary(left, op, right)),
                },
            }
        },
        r => Err(unexpected("unexpected predicate_expr suffix: ", r)),
    }
}

/// What is compared.
fn parse_compared(src: &Source, pair: &Pair, d: DepthGuard) -> (r: Result<Expr, GraphError>)
    requires
        tree::fits_one(*src, *pair),
    ensures
        types::outcome(r) == meaning::compared(src@, pair@, d.depth as nat),
    decreases pair, 30int,
{
    let kids = &pair.children;
    if kids.len() == 0 {
        return Err(malformed());
    }
    assert(peg::within(peg::pairs_view(kids@)[0], src@.len()));
    assert(decreases_to!(kids => kids@));
    let inner = &kids[0];
    match inner.rule {
        Rule::CaseExpr => parse_case_expr(src, inner, d),
        Rule::ExistsSubquery => parse_exists_subquery(src, inner, d),
        Rule::ExistsFullSubquery => parse_exists_full_subquery(src, inner, d),
        Rule::PatternPredicate => match parse_pattern(src, inner, d) {
            Err(e) => Err(e),
            Ok(x) => Ok(Expr::new(ExprKind::PatternPredicate(x), src.span_from_pair(inner))),
        },
        Rule::Expr => parse_expr(src, inner, d),
        Rule::AddExpr => parse_add_expr(src, inner, d),
        r => Err(unexpected("unexpected cmp_primary: ", r)),
    }
}

/// The parts of a CASE expression read so far.
struct CaseAcc {
    operand: Option<Box<Expr>>,
    alternatives: Vec<(Box<Expr>, Box<Expr>)>,
    default: Option<Box<Expr>>,
}

impl View for CaseAcc {
    type V = meaning::CaseParts;

    closed spec fn view(&self) -> meaning::CaseParts {
        meaning::CaseParts {
            operand: ast_model::opt_box_view(self.operand),
            alternatives: ast_model::alternatives_view(self.alternatives@),
            default: ast_model::opt_box_view(self.default),
        }
    }
}

/// Takes one more node into a CASE expression.
fn parse_case_part(src: &Source, acc: CaseAcc, k: &Pair, d: DepthGuard) -> (r: Result<
    CaseAcc,
    GraphError,
>)
    requires
        tree::fits_one(*src, *k),
    ensures
        types::outcome(r) == meaning::case_step(src@, acc@, k@, d.depth as nat),
    decreases k, 30int,
{
    let mut acc = acc;
    match k.rule {
        Rule::CaseOperand => match parse_expr_at(src, &k.children, 0, d) {
            Err(e) => Err(e),
            Ok(x) => {
                acc.operand = Some(Box::new(x));
                Ok(acc)
            },
        },
        Rule::CaseWhenClause => match parse_expr_at(src, &k.children, 0, d) {
            Err(e) => Err(e),
            Ok(x) => match parse_expr_at(src, &k.children, 1, d) {
                Err(e) => Err(e),
                Ok(y) => {
                    acc.alternatives.push((Box::new(x), Box::new(y)));
                    Ok(acc)
                },
            },
        },
        Rule::CaseElseClause => match parse_expr_at(src, &k.children, 0, d) {
            Err(e) => Err(e),
            Ok(x) => {
                acc.default = Some(Box::new(x));
                Ok(acc)
            },
        },
        _ => Ok(acc),
    }
}

/// A CASE expression.
fn parse_case_expr(src: &Source, pair: &Pair, d: DepthGuard) -> (r: Result<Expr, GraphError>)
    requires
        tree::fits_one(*src, *pair),
    ensures
        types::outcome(r) == meaning::case_expr(src@, pair@, d.depth as nat),
    decreases pair, 20int,
{
    let none = CaseAcc { operand: None, alternatives: Vec::new(), default: None };
    match parse_case_parts(src, &pair.children, none, d) {
        Err(e) => Err(e),
        Ok(acc) => Ok(
            Expr::new(
                ExprKind::Case {
                    operand: acc.operand,
                    alternatives: acc.alternatives,
                    default: acc.default,
                },
                src.span_from_pair(pair),
            ),
        ),
    }
}

/// The parts of a CASE expression.
fn parse_case_parts(src: &Source, kids: &Vec<Pair>, init: CaseAcc, d: DepthGuard) -> (r: Result<
    CaseAcc,
    GraphError,
>)
    requires
        tree::fits(*src, kids@),
    ensures
        types::outcome(r) == meaning::case_from(
            src@,
            peg::pairs_view(kids@),
            0,
            init@,
            d.depth as nat,
        ),
    decreases kids, 3int,
{
    let ghost ks = peg::pairs_view(kids@);
    let mut acc = init;
    let mut i: usize = 0;
    assert(decreases_to!(kids => kids@));
    while i < kids.len()
        invariant
            tree::fits(*src, kids@),
            ks == peg::pairs_view(kids@),
            decreases_to!(kids => kids@),
            meaning::case_from(src@, ks, 0, init@, d.depth as nat) == meaning::case_from(
                src@,
                ks,
                i as int,
                acc@,
                d.depth as nat,
            ),
        decreases kids.len() - i,
    {
        assert(peg::within(ks[i as int], src@.len()));
        match parse_case_part(src, acc, &kids[i], d) {
            Err(e) => {
                return Err(e);
            },
            Ok(next) => {
                acc = next;
            },
        }
        i = i + 1;
    }
    Ok(acc)
}

/// What patterns with a condition or an error say.
pub open spec fn exists_out(r: Result<(Vec<Pattern>, Option<Box<Expr>>), GraphError>) -> Result<
    (Seq<PatternView>, Option<Box<ExprView>>),
    ErrorView,
> {
    match r {
        Ok((ps, c)) => Ok((ast_model::patterns_view(ps@), ast_model::opt_box_view(c))),
        Err(e) => Err(e@),
    }
}

/// `EXISTS { patterns WHERE condition }`.
fn parse_exists_subquery(src: &Source, pair: &Pair, d: DepthGuard) -> (r: Result<Expr, GraphError>)
    requires
        tree::fits_one(*src, *pair),
    ensures
        types::outcome(r) == meaning::exists_subquery(src@, pair@, d.depth as nat),
    decreases pair, 20int,
{
    match parse_exists_parts(src, &pair.children, d) {
        Err(e) => Err(e),
        Ok((patterns, condition)) => {
            if patterns.len() == 0 {
                return Err(fault("EXISTS subquery requires at least one pattern"));
            }
            Ok(
                Expr::new(
                    ExprKind::Exists { patterns, where_clause: condition },
                    src.span_from_pair(pair),
                ),
            )
        },
    }
}

/// The patterns and the condition of `EXISTS { patterns WHERE condition }`.
fn parse_exists_parts(src: &Source, kids: &Vec<Pair>, d: DepthGuard) -> (r: Result<
    (Vec<Pattern>, Option<Box<Expr>>),
    GraphError,
>)
    requires
        tree::fits(*src, kids@),
    ensures
        exists_out(r) == meaning::exists_from(
            src@,
            peg::pairs_view(kids@),
            0,
            Seq::empty(),
            None,
            d.depth as nat,
        ),
    decreases kids, 3int,
{
    let ghost ks = peg::pairs_view(kids@);
    let mut patterns: Vec<Pattern> = Vec::new();
    let mut condition: Option<Box<Expr>> = None;
    let mut i: usize = 0;
    assert(decreases_to!(kids => kids@));
    while i < kids.len()
        invariant
            tree::fits(*src, kids@),
            ks == peg::pairs_view(kids@),
            decreases_to!(kids => kids@),
            meaning::exists_from(src@, ks, 0, Seq::empty(), None, d.depth as nat)
                == meaning::exists_from(
                src@,
                ks,
                i as int,
                ast_model::patterns_view(patterns@),
                ast_model::opt_box_view(condition),
                d.depth as nat,
            ),
        decreases kids.len() - i,
    {
        assert(peg::within(ks[i as int], src@.len()));
        match kids[i].rule {
            Rule::PatternList => match parse_pattern_list(src, &kids[i], d) {
                Err(e) => {
                    return Err(e);
                },
                Ok(x) => {
                    patterns = x;
                },
            },
            Rule::WhereClause => match parse_where(src, &kids[i], d) {
                Err(e) => {
                    return Err(e);
                },
                Ok(x) => {
                    condition = Some(Box::new(x));
                },
            },
            _ => {},
        }
        i = i + 1;
    }
    Ok((patterns, condition))
}

/// The error for a subquery that writes.
fn updating_error() -> (r: GraphError)
    ensures
        r@ == meaning::updating_error(),
{
    GraphError::query(
        QueryPhase::Parse,
        ErrorCode::InvalidClauseComposition,
        text::owned("InvalidClauseComposition: EXISTS subquery cannot contain updating clauses"),
    )
}

/// Gives the condition of a subquery to its last MATCH, if that has none yet.
fn add_condition(acc: Parts, w: Expr) -> (r: Parts)
    ensures
        r@ == meaning::with_condition(acc@, w@),
{
    let mut acc = acc;
    let ghost before = acc@;
    match acc.intermediate.pop() {
        None => {
            acc.where_clause = Some(w);
            acc
        },
        Some(last) => {
            let ghost rest = acc.intermediate@;
            proof {
                clause::lemma_pop_intermediate(rest, last);
            }
            match last {
                IntermediateClause::Match(m) => if m.where_clause.is_none() {
                    let m2 = IntermediateMatch {
                        patterns: m.patterns,
                        optional_patterns: m.optional_patterns,
                        where_clause: Some(w),
                    };
                    acc.intermediate.push(IntermediateClause::Match(m2));
                    assert(acc@.intermediate =~= meaning::with_condition(before, w@).intermediate);
                    acc
                } else {
                    acc.intermediate.push(IntermediateClause::Match(m));
                    acc.where_clause = Some(w);
                    assert(acc@.intermediate =~= before.intermediate);
                    acc
                },
                other => {
                    acc.intermediate.push(other);
                    acc.where_clause = Some(w);
                    assert(acc@.intermediate =~= before.intermediate);
                    acc
                },
            }
        },
    }
}

/// Takes one more node into an `EXISTS { MATCH ... }` subquery.
fn parse_subquery_part(src: &Source, acc: Parts, k: &Pair, d: DepthGuard) -> (r: Result<
    Parts,
    GraphError,
>)
    requires
        tree::fits_one(*src, *k),
    ensures
        types::outcome(r) == meaning::subquery_step(src@, acc@, k@, d.depth as nat),
    decreases k, 30int,
{
    match k.rule {
        Rule::PatternList => match parse_pattern_list(src, k, d) {
            Err(e) => Err(e),
            Ok(x) => {
                let mut acc = acc;
                if acc.first {
                    acc.patterns = x;
                    acc.first = false;
                } else {
                    acc.intermediate.push(
                        IntermediateClause::Match(
                            IntermediateMatch {
                                patterns: x,
                                optional_patterns: Vec::new(),
                                where_clause: None,
                            },
                        ),
                    );
                }
                Ok(acc)
            },
        },
        Rule::WhereClause => match parse_where(src, k, d) {
            Err(e) => Err(e),
            Ok(w) => Ok(add_condition(acc, w)),
        },
        Rule::MultiSetClause => Err(updating_error()),
        Rule::MultiDeleteClause => Err(updating_error()),
        Rule::MultiRemoveClause => Err(updating_error()),
        Rule::MultiCreateClause => Err(updating_error()),
        Rule::MultiMergeClause => Err(updating_error()),
        _ => parse_tail(src, acc, k, d),
    }
}

/// A RETURN that only says that there is a row.
fn return_existence() -> (r: ReturnClause)
    ensures
        r@ == meaning::return_existence(),
{
    let mut items: Vec<ReturnItem> = Vec::new();
    items.push(
        ReturnItem {
            expr: Expr::synthetic(ExprKind::Literal(LiteralValue::Bool(true))),
            alias: Some(text::owned("__exists")),
        },
    );
    let r = ReturnClause { items, distinct: false };
    assert(r@.items =~= meaning::return_existence().items);
    r
}

/// The statement that a subquery runs.
fn subquery_statement(acc: Parts) -> (r: Statement)
    ensures
        r@ == meaning::subquery_statement(acc@),
{
    let return_clause = match acc.return_clause {
        Some(x) => x,
        None => return_existence(),
    };
    let m = MatchStatement {
        patterns: acc.patterns,
        optional_patterns: Vec::new(),
        where_clause: acc.where_clause,
        intermediate_clauses: acc.intermediate,
        return_clause,
        order_by: acc.order_by,
        skip: acc.skip,
        limit: acc.limit,
    };
    assert(m@.optional_patterns =~= Seq::empty());
    Statement::Match(m)
}

/// `EXISTS { MATCH ... }`.
fn parse_exists_full_subquery(src: &Source, pair: &Pair, d: DepthGuard) -> (r: Result<
    Expr,
    GraphError,
>)
    requires
        tree::fits_one(*src, *pair),
    ensures
        types::outcome(r) == meaning::exists_full_subquery(src@, pair@, d.depth as nat),
    decreases pair, 20int,
{
    let acc = match parse_subquery(src, &pair.children, d) {
        Err(e) => {
            return Err(e);
        },
        Ok(x) => x,
    };
    if acc.patterns.len() == 0 {
        return Err(fault("EXISTS subquery requires at least one MATCH pattern"));
    }
    let statement = subquery_statement(acc);
    Ok(
        Expr::new(
            ExprKind::ExistsSubquery(Box::new(statement)),
            src.span_from_pair(pair),
        ),
    )
}

/// The parts of an `EXISTS { MATCH ... }` subquery.
fn parse_subquery(src: &Source, kids: &Vec<Pair>, d: DepthGuard) -> (r: Result<
    Parts,
    GraphError,
>)
    requires
        tree::fits(*src, kids@),
    ensures
        types::outcome(r) == meaning::subquery_from(
            src@,
            peg::pairs_view(kids@),
            0,
            meaning::no_parts(true),
            d.depth as nat,
        ),
    decreases kids, 3int,
{
    let ghost ks = peg::pairs_view(kids@);
    let mut acc = Parts::none(true);
    let mut i: usize = 0;
    assert(decreases_to!(kids => kids@));
    while i < kids.len()
        invariant
            tree::fits(*src, kids@),
            ks == peg::pairs_view(kids@),
            decreases_to!(kids => kids@),
            meaning::subquery_from(src@, ks, 0, meaning::no_parts(true), d.depth as nat)
                == meaning::subquery_from(src@, ks, i as int, acc@, d.depth as nat),
        decreases kids.len() - i,
    {
        assert(peg::within(ks[i as int], src@.len()));
        match parse_subquery_part(src, acc, &kids[i], d) {
            Err(e) => {
                return Err(e);
            },
            Ok(next) => {
                acc = next;
            },
        }
        i = i + 1;
    }
    Ok(acc)
}

/// `add_expr IN add_expr`.
fn parse_in_expr(src: &Source, pair: &Pair, d: DepthGuard) -> (r: Result<Expr, GraphError>)
    requires
        tree::fits_one(*src, *pair),
    ensures
        types::outcome(r) == meaning::in_expr(src@, pair@, d.depth as nat),
    decreases pair, 44int,
{
    match parse_sum_at(src, &pair.children, 0, d) {
        Err(e) => Err(e),
        Ok(left) => if pair.children.len() == 1 {
            Ok(left)
        } else {
            match parse_sum_at(src, &pair.children, 1, d) {
                Err(e) => Err(e),
                Ok(right) => Ok(binary(left, BinOp::In, right)),
            }
        },
    }
}

/// An operand of the tightest operators.
fn parse_atom_expr(src: &Source, pair: &Pair, d: DepthGuard) -> (r: Result<Expr, GraphError>)
    requires
        tree::fits_one(*src, *pair),
    ensures
        types::outcome(r) == meaning::atom(src@, pair@, d.depth as nat),
    decreases pair, 50int,
{
    match pair.rule {
        Rule::AtomExpr => parse_postfix(src, pair, d),
        Rule::CaseExpr => parse_case_expr(src, pair, d),
        Rule::QuantifierExpr => parse_quantifier_expr(src, pair, d),
        Rule::DottedFunctionCall => parse_dotted_function_call(src, pair, d),
        Rule::FunctionCall => parse_function_call(src, pair, d),
        Rule::UnknownFunctionCall => parse_unknown_function_call(src, pair, d),
        Rule::PropertyAccess => parse_named(src, pair),
        Rule::HasLabelExpr => parse_named(src, pair),
        Rule::Literal => parse_literal(src, pair),
        Rule::PatternComprehension => parse_pattern_comprehension(src, pair, d),
        Rule::ListComprehension => parse_list_comprehension(src, pair, d),
        Rule::ListLiteral => match parse_exprs(src, &pair.children, Vec::new(), d) {
            Err(e) => Err(e),
            Ok(xs) => Ok(Expr::new(ExprKind::List(xs), src.span_from_pair(pair))),
        },
        Rule::MapLiteral => match parse_map_pairs(src, &pair.children, d) {
            Err(e) => Err(e),
            Ok(xs) => Ok(Expr::new(ExprKind::MapLiteral(xs), src.span_from_pair(pair))),
        },
        Rule::Star => Ok(Expr::new(ExprKind::Star, src.span_from_pair(pair))),
        Rule::Parameter => parse_named(src, pair),
        Rule::Variable => parse_named(src, pair),
        Rule::Expr => parse_expr(src, pair, d),
        Rule::InExpr => parse_in_expr(src, pair, d),
        Rule::AddExpr => parse_add_expr(src, pair, d),
        Rule::MulExpr => parse_mul_expr(src, pair, d),
        Rule::ExpExpr => parse_exp_expr(src, pair, d),
        Rule::UnaryMinusExpr => parse_unary_minus(src, pair, d),
        r => Err(unexpected("unexpected expr: ", r)),
    }
}

/// A minus in front of an operand: zero less the operand.
fn parse_unary_minus(src: &Source, pair: &Pair, d: DepthGuard) -> (r: Result<Expr, GraphError>)
    requires
        tree::fits_one(*src, *pair),
        pair.rule == Rule::UnaryMinusExpr,
    ensures
        types::outcome(r) == meaning::atom(src@, pair@, d.depth as nat),
    decreases pair, 20int,
{
    let kids = &pair.children;
    if kids.len() == 0 {
        return Err(malformed());
    }
    assert(peg::within(peg::pairs_view(kids@)[0], src@.len()));
    assert(decreases_to!(kids => kids@));
    let span = src.span_from_pair(pair);
    match parse_atom_expr(src, &kids[0], d) {
        Err(e) => Err(e),
        Ok(x) => {
            let zero = Expr::new(ExprKind::Literal(LiteralValue::I64(0)), span);
            assert(zero@ == meaning::at(
                src@,
                pair@,
                ExprKindView::Literal(LiteralValueView::I64(0)),
            ));
            Ok(
                Expr::new(
                    ExprKind::BinaryOp {
                        left: Box::new(zero),
                        op: BinOp::Sub,
                        right: Box::new(x),
                    },
                    span,
                ),
            )
        },
    }
}

/// A property access, a label test, a parameter or a variable.
fn parse_named(src: &Source, pair: &Pair) -> (r: Result<Expr, GraphError>)
    requires
        tree::fits_one(*src, *pair),
        pair.rule == Rule::PropertyAccess || pair.rule == Rule::HasLabelExpr || pair.rule
            == Rule::Parameter || pair.rule == Rule::Variable,
    ensures
        forall|d: nat| types::outcome(r) == #[trigger] meaning::atom(src@, pair@, d),
{
    let kids = &pair.children;
    let span = src.span_from_pair(pair);
    if kids.len() == 0 {
        return Err(malformed());
    }
    assert(peg::within(peg::pairs_view(kids@)[0], src@.len()));
    if pair.rule == Rule::Parameter {
        return Ok(Expr::new(ExprKind::Parameter(src.text(&kids[0])), span));
    }
    if pair.rule == Rule::Variable {
        return Ok(Expr::new(ExprKind::Variable(src.text(&kids[0])), span));
    }
    if kids.len() < 2 {
        return Err(malformed());
    }
    assert(peg::within(peg::pairs_view(kids@)[1], src@.len()));
    if pair.rule == Rule::PropertyAccess {
        Ok(
            Expr::new(
                ExprKind::Property(tree::name(src, &kids[0]), tree::name(src, &kids[1])),
                span,
            ),
        )
    } else {
        Ok(
            Expr::new(
                ExprKind::HasLabel(src.text(&kids[0]), tree::all_texts(src, &kids[1].children)),
                span,
            ),
        )
    }
}

/// A value with subscripts and property accesses behind it.
fn parse_postfix(src: &Source, pair: &Pair, d: DepthGuard) -> (r: Result<Expr, GraphError>)
    requires
        tree::fits_one(*src, *pair),
        pair.rule == Rule::AtomExpr,
    ensures
        types::outcome(r) == meaning::atom(src@, pair@, d.depth as nat),
    decreases pair, 20int,
{
    let kids = &pair.children;
    if kids.len() == 0 {
        return Err(malformed());
    }
    let ghost ks = peg::pairs_view(kids@);
    assert(peg::within(ks[0], src@.len()));
    assert(decreases_to!(kids => kids@));
    match parse_atom_expr(src, &kids[0], d) {
        Ok(base) => parse_accesses(src, kids, base, d),
        Err(e) => Err(e),
    }
}

/// Subscripts and property accesses behind a value.
fn parse_accesses(src: &Source, kids: &Vec<Pair>, init: Expr, d: DepthGuard) -> (r: Result<
    Expr,
    GraphError,
>)
    requires
        tree::fits(*src, kids@),
    ensures
        types::outcome(r) == meaning::postfix_from(
            src@,
            peg::pairs_view(kids@),
            1,
            init@,
            d.depth as nat,
        ),
    decreases kids, 3int,
{
    let ghost ks = peg::pairs_view(kids@);
    let mut base = init;
    let mut i: usize = 1;
    assert(decreases_to!(kids => kids@));
    while i < kids.len()
        invariant
            tree::fits(*src, kids@),
            ks == peg::pairs_view(kids@),
            1 <= i,
            decreases_to!(kids => kids@),
            meaning::postfix_from(src@, ks, 1, init@, d.depth as nat) == meaning::postfix_from(
                src@,
                ks,
                i as int,
                base@,
                d.depth as nat,
            ),
        decreases kids.len() - i,
    {
        assert(peg::within(ks[i as int], src@.len()));
        if kids[i].rule == Rule::Subscript {
            match parse_subscript(src, base, &kids[i], d) {
                Ok(x) => {
                    base = x;
                },
                Err(e) => {
                    return Err(e);
                },
            }
        } else if kids[i].rule == Rule::DotAccess {
            assert(ks[i as int].children == peg::pairs_view(kids@[i as int].children@));
            if kids[i].children.len() == 0 {
                return Err(malformed());
            }
            assert(peg::within(ks[i as int].children[0], src@.len()));
            let span = combine_spans(base.span, src.span_from_pair(&kids[i]));
            let key = tree::name(src, &kids[i].children[0]);
            base = Expr::new(ExprKind::DotAccess { expr: Box::new(base), key }, span);
        }
        i = i + 1;
    }
    Ok(base)
}

/// A subscript behind a value.
fn parse_subscript(src: &Source, base: Expr, pair: &Pair, d: DepthGuard) -> (r: Result<
    Expr,
    GraphError,
>)
    requires
        tree::fits_one(*src, *pair),
    ensures
        types::outcome(r) == meaning::subscript(src@, base@, pair@, d.depth as nat),
    decreases pair, 20int,
{
    let span = combine_spans(base.span, src.span_from_pair(pair));
    if pair.children.len() == 0 {
        return Err(malformed());
    }
    assert(peg::within(peg::pairs_view(pair.children@)[0], src@.len()));
    assert(decreases_to!(pair.children => pair.children@));
    assert(decreases_to!(pair.children@[0] => pair.children@[0].children));
    parse_subscript_inner(src, base, span, &pair.children[0].children, d)
}

/// A slice of a value.
fn slice(base: Expr, start: Option<Box<Expr>>, end: Option<Box<Expr>>, span: Span) -> (r: Expr)
    ensures
        r@ == meaning::sliced(
            base@,
            ast_model::opt_box_view(start),
            ast_model::opt_box_view(end),
            span,
        ),
{
    Expr::new(ExprKind::Slice { expr: Box::new(base), start, end }, span)
}

/// What stands in the brackets of a subscript.
fn parse_subscript_inner(src: &Source, base: Expr, span: Span, kids: &Vec<Pair>, d: DepthGuard) -> (r:
    Result<Expr, GraphError>)
    requires
        tree::fits(*src, kids@),
    ensures
        types::outcome(r) == meaning::subscript_inner(
            src@,
            base@,
            span,
            peg::pairs_view(kids@),
            d.depth as nat,
        ),
    decreases kids, 0int,
{
    if kids.len() == 0 {
        return Err(malformed());
    }
    assert(peg::within(peg::pairs_view(kids@)[0], src@.len()));
    assert(decreases_to!(kids => kids@));
    assert(decreases_to!(kids@[0] => kids@[0].children));
    let inner = &kids[0].children;
    let first = tree::first_place(inner, Rule::Expr, 0);
    match kids[0].rule {
        Rule::SliceFull => {
            let second = if first < inner.len() {
                tree::first_place(inner, Rule::Expr, first + 1)
            } else {
                first
            };
            match parse_expr_at(src, inner, first, d) {
                Err(e) => Err(e),
                Ok(x) => match parse_expr_at(src, inner, second, d) {
                    Err(e) => Err(e),
                    Ok(y) => Ok(slice(base, Some(Box::new(x)), Some(Box::new(y)), span)),
                },
            }
        },
        Rule::SliceFrom => match parse_expr_at(src, inner, first, d) {
            Err(e) => Err(e),
            Ok(x) => Ok(slice(base, Some(Box::new(x)), None, span)),
        },
        Rule::SliceTo => match parse_expr_at(src, inner, first, d) {
            Err(e) => Err(e),
            Ok(x) => Ok(slice(base, None, Some(Box::new(x)), span)),
        },
        Rule::Expr => match parse_expr(src, &kids[0], d) {
            Err(e) => Err(e),
            Ok(x) => Ok(
                Expr::new(ExprKind::Index { expr: Box::new(base), index: Box::new(x) }, span),
            ),
        },
        r => Err(unexpected("unexpected subscript: ", r)),
    }
}

/// Adds the expressions among the nodes to a list.
pub fn parse_exprs(src: &Source, kids: &Vec<Pair>, acc: Vec<Expr>, d: DepthGuard) -> (r: Result<
    Vec<Expr>,
    GraphError,
>)
    requires
        tree::fits(*src, kids@),
    ensures
        tree::exprs_out(r) == meaning::exprs_from(
            src@,
            peg::pairs_view(kids@),
            0,
            ast_model::exprs_view(acc@),
            d.depth as nat,
        ),
    decreases kids, 0int,
{
    let ghost ks = peg::pairs_view(kids@);
    let mut out = acc;
    let mut i: usize = 0;
    assert(decreases_to!(kids => kids@));
    while i < kids.len()
        invariant
            tree::fits(*src, kids@),
            ks == peg::pairs_view(kids@),
            decreases_to!(kids => kids@),
            meaning::exprs_from(src@, ks, 0, ast_model::exprs_view(acc@), d.depth as nat)
                == meaning::exprs_from(
                src@,
                ks,
                i as int,
                ast_model::exprs_view(out@),
                d.depth as nat,
            ),
        decreases kids.len() - i,
    {
        assert(peg::within(ks[i as int], src@.len()));
        if kids[i].rule == Rule::Expr {
            match parse_expr(src, &kids[i], d) {
                Err(e) => {
                    return Err(e);
                },
                Ok(x) => {
                    out.push(x);
                },
            }
        }
        i = i + 1;
    }
    Ok(out)
}

/// What a key and its value or an error say.
pub open spec fn keyed_out(r: Result<(String, Expr), GraphError>) -> Result<
    (Seq<char>, ExprView),
    ErrorView,
> {
    match r {
        Ok((k, x)) => Ok((k@, x@)),
        Err(e) => Err(e@),
    }
}

/// A key and its value.
pub fn parse_keyed(src: &Source, kids: &Vec<Pair>, d: DepthGuard) -> (r: Result<
    (String, Expr),
    GraphError,
>)
    requires
        tree::fits(*src, kids@),
    ensures
        keyed_out(r) == meaning::keyed(src@, peg::pairs_view(kids@), d.depth as nat),
    decreases kids, 1int,
{
    if kids.len() < 2 {
        return Err(malformed());
    }
    assert(peg::within(peg::pairs_view(kids@)[0], src@.len()));
    match parse_expr_at(src, kids, 1, d) {
        Err(e) => Err(e),
        Ok(x) => Ok((tree::name(src, &kids[0]), x)),
    }
}

/// The entries of a map literal.
fn parse_map_pairs(src: &Source, kids: &Vec<Pair>, d: DepthGuard) -> (r: Result<
    Vec<(String, Expr)>,
    GraphError,
>)
    requires
        tree::fits(*src, kids@),
    ensures
        tree::pairs_out(r) == meaning::map_from(
            src@,
            peg::pairs_view(kids@),
            0,
            Seq::empty(),
            d.depth as nat,
        ),
    decreases kids, 2int,
{
    let ghost ks = peg::pairs_view(kids@);
    let mut out: Vec<(String, Expr)> = Vec::new();
    let mut i: usize = 0;
    assert(decreases_to!(kids => kids@));
    while i < kids.len()
        invariant
            tree::fits(*src, kids@),
            ks == peg::pairs_view(kids@),
            decreases_to!(kids => kids@),
            meaning::map_from(src@, ks, 0, Seq::empty(), d.depth as nat) == meaning::map_from(
                src@,
                ks,
                i as int,
                ast_model::pairs_view(out@),
                d.depth as nat,
            ),
        decreases kids.len() - i,
    {
        assert(peg::within(ks[i as int], src@.len()));
        assert(decreases_to!(kids@[i as int] => kids@[i as int].children));
        if kids[i].rule == Rule::MapPair {
            match parse_keyed(src, &kids[i].children, d) {
                Err(e) => {
                    return Err(e);
                },
                Ok(x) => {
                    out.push(x);
                },
            }
        }
        i = i + 1;
    }
    Ok(out)
}

/// The arguments of a call that have been read.
struct Args {
    args: Vec<Expr>,
    distinct: bool,
}

impl View for Args {
    type V = meaning::ArgsView;

    closed spec fn view(&self) -> meaning::ArgsView {
        meaning::ArgsView { args: ast_model::exprs_view(self.args@), distinct: self.distinct }
    }
}

/// The arguments of a call.
fn parse_args(src: &Source, kids: &Vec<Pair>, acc: Args, d: DepthGuard) -> (r: Result<
    Args,
    GraphError,
>)
    requires
        tree::fits(*src, kids@),
    ensures
        types::outcome(r) == meaning::args_from(
            src@,
            peg::pairs_view(kids@),
            0,
            acc@,
            d.depth as nat,
        ),
    decreases kids, 2int,
{
    let ghost ks = peg::pairs_view(kids@);
    let mut args = acc.args;
    let mut distinct = acc.distinct;
    let mut i: usize = 0;
    assert(decreases_to!(kids => kids@));
    while i < kids.len()
        invariant
            tree::fits(*src, kids@),
            ks == peg::pairs_view(kids@),
            decreases_to!(kids => kids@),
            meaning::args_from(src@, ks, 0, acc@, d.depth as nat) == meaning::args_from(
                src@,
                ks,
                i as int,
                (meaning::ArgsView { args: ast_model::exprs_view(args@), distinct }),
                d.depth as nat,
            ),
        decreases kids.len() - i,
    {
        assert(peg::within(ks[i as int], src@.len()));
        assert(decreases_to!(kids@[i as int] => kids@[i as int].children));
        match kids[i].rule {
            Rule::Star => {
                args.push(Expr::new(ExprKind::Star, src.span_from_pair(&kids[i])));
            },
            Rule::DistinctKeyword => {
                distinct = true;
            },
            Rule::ExprList => match parse_exprs(src, &kids[i].children, args, d) {
                Err(e) => {
                    return Err(e);
                },
                Ok(xs) => {
                    args = xs;
                },
            },
            Rule::Expr => match parse_expr(src, &kids[i], d) {
                Err(e) => {
                    return Err(e);
                },
                Ok(x) => {
                    args.push(x);
                },
            },
            _ => {},
        }
        i = i + 1;
    }
    Ok(Args { args, distinct })
}

/// The rule that holds the function name of a call.
fn name_rule(r: Rule) -> (n: Rule)
    ensures
        n == meaning::name_rule(r),
{
    match r {
        Rule::DottedFunctionCall => Rule::DottedFunctionName,
        Rule::FunctionCall => Rule::FunctionName,
        _ => Rule::PlainIdent,
    }
}

/// The function name of a call.
fn parse_call_name(src: &Source, pair: &Pair) -> (r: String)
    requires
        tree::fits_one(*src, *pair),
    ensures
        r@ == meaning::call_name(src@, pair@),
{
    match tree::last_place(&pair.children, name_rule(pair.rule)) {
        None => {
            let r = String::new();
            assert(r@ =~= Seq::<char>::empty());
            r
        },
        Some(i) => {
            assert(peg::within(peg::pairs_view(pair.children@)[i as int], src@.len()));
            let t = src.text(&pair.children[i]);
            if pair.rule == Rule::DottedFunctionCall {
                text::lower_string(t.as_str())
            } else {
                t
            }
        },
    }
}

/// A function call.
fn parse_any_call(src: &Source, pair: &Pair, d: DepthGuard) -> (r: Result<Expr, GraphError>)
    requires
        tree::fits_one(*src, *pair),
    ensures
        types::outcome(r) == meaning::call(src@, pair@, d.depth as nat),
    decreases pair, 19int,
{
    let none = Args { args: Vec::new(), distinct: false };
    match parse_call_args(src, &pair.children, none, d) {
        Err(e) => Err(e),
        Ok(acc) => Ok(
            Expr::new(
                ExprKind::FunctionCall {
                    name: parse_call_name(src, pair),
                    args: acc.args,
                    distinct: acc.distinct && pair.rule != Rule::DottedFunctionCall,
                    original_text: Some(src.text(pair)),
                },
                src.span_from_pair(pair),
            ),
        ),
    }
}

/// The arguments under the function-arguments nodes of a call.
fn parse_call_args(src: &Source, kids: &Vec<Pair>, init: Args, d: DepthGuard) -> (r: Result<
    Args,
    GraphError,
>)
    requires
        tree::fits(*src, kids@),
    ensures
        types::outcome(r) == meaning::call_from(
            src@,
            peg::pairs_view(kids@),
            0,
            init@,
            d.depth as nat,
        ),
    decreases kids, 3int,
{
    let ghost ks = peg::pairs_view(kids@);
    let mut acc = init;
    let mut i: usize = 0;
    assert(decreases_to!(kids => kids@));
    while i < kids.len()
        invariant
            tree::fits(*src, kids@),
            ks == peg::pairs_view(kids@),
            decreases_to!(kids => kids@),
            meaning::call_from(src@, ks, 0, init@, d.depth as nat) == meaning::call_from(
                src@,
                ks,
                i as int,
                acc@,
                d.depth as nat,
            ),
        decreases kids.len() - i,
    {
        assert(peg::within(ks[i as int], src@.len()));
        assert(decreases_to!(kids@[i as int] => kids@[i as int].children));
        if kids[i].rule == Rule::FunctionArgs {
            match parse_args(src, &kids[i].children, acc, d) {
                Err(e) => {
                    return Err(e);
                },
                Ok(next) => {
                    acc = next;
                },
            }
        }
        i = i + 1;
    }
    Ok(acc)
}

/// A call of a function with a dotted name.
fn parse_dotted_function_call(src: &Source, pair: &Pair, d: DepthGuard) -> (r: Result<
    Expr,
    GraphError,
>)
    requires
        tree::fits_one(*src, *pair),
    ensures
        types::outcome(r) == meaning::call(src@, pair@, d.depth as nat),
    decreases pair, 20int,
{
    parse_any_call(src, pair, d)
}

/// A call of a function that the grammar knows.
fn parse_function_call(src: &Source, pair: &Pair, d: DepthGuard) -> (r: Result<Expr, GraphError>)
    requires
        tree::fits_one(*src, *pair),
    ensures
        types::outcome(r) == meaning::call(src@, pair@, d.depth as nat),
    decreases pair, 20int,
{
    parse_any_call(src, pair, d)
}

/// A call of any other function.
fn parse_unknown_function_call(src: &Source, pair: &Pair, d: DepthGuard) -> (r: Result<
    Expr,
    GraphError,
>)
    requires
        tree::fits_one(*src, *pair),
    ensures
        types::outcome(r) == meaning::call(src@, pair@, d.depth as nat),
    decreases pair, 20int,
{
    parse_any_call(src, pair, d)
}

/// The constant that a literal stands for.
fn parse_constant(src: &Source, k: &Pair) -> (r: Result<LiteralValue, GraphError>)
    requires
        tree::fits_one(*src, *k),
    ensures
        types::outcome(r) == meaning::constant(src@, k@),
{
    let t = src.text(k);
    match k.rule {
        Rule::IntegerLiteral => match literal::parse_integer_literal(t.as_str()) {
            Ok(n) => Ok(LiteralValue::I64(n)),
            Err(e) => Err(
                GraphError::syntax(text::cat("invalid integer literal: ", e.as_str())),
            ),
        },
        Rule::FloatLiteral => {
            if decimal::is_too_large(t.as_str()) {
                return Err(GraphError::syntax(text::owned("floating point value overflow")));
            }
            Ok(LiteralValue::F64(FloatLiteral::Decimal(decimal::drop_signed_zero(t))))
        },
        Rule::StringLiteral => {
            if k.children.len() == 0 {
                return Err(malformed());
            }
            let ghost inner = peg::pairs_view(k.children@)[0];
            assert(peg::within(inner, src@.len()));
            assert(inner.children == peg::pairs_view(k.children@[0].children@));
            if k.children[0].children.len() == 0 {
                return Err(malformed());
            }
            assert(peg::within(peg::pairs_view(k.children@[0].children@)[0], src@.len()));
            let raw = src.text(&k.children[0].children[0]);
            match literal::unescape_string(raw.as_str()) {
                Ok(x) => Ok(LiteralValue::String(x)),
                Err(e) => Err(e),
            }
        },
        Rule::BoolLiteral => {
            let low = text::lower_string(t.as_str());
            Ok(LiteralValue::Bool(text::same_str(low.as_str(), "true")))
        },
        Rule::NullLiteral => Ok(LiteralValue::Null),
        r => Err(unexpected("unexpected literal: ", r)),
    }
}

/// A literal.
fn parse_literal(src: &Source, pair: &Pair) -> (r: Result<Expr, GraphError>)
    requires
        tree::fits_one(*src, *pair),
    ensures
        types::outcome(r) == meaning::literal_expr(src@, pair@),
{
    if pair.children.len() == 0 {
        return Err(malformed());
    }
    assert(peg::within(peg::pairs_view(pair.children@)[0], src@.len()));
    let span = combine_spans(
        src.span_from_pair(pair),
        src.span_from_pair(&pair.children[0]),
    );
    match parse_constant(src, &pair.children[0]) {
        Err(e) => Err(e),
        Ok(c) => Ok(Expr::new(ExprKind::Literal(c), span)),
    }
}

/// The parts of a comprehension or a quantifier that have been read.
struct Scope {
    kind: Option<QuantifierKind>,
    variable: Option<String>,
    pattern: Option<Pattern>,
    list: Option<Box<Expr>>,
    filter: Option<Box<Expr>>,
    map: Option<Box<Expr>>,
}

impl View for Scope {
    type V = meaning::ScopeView;

    closed spec fn view(&self) -> meaning::ScopeView {
        meaning::ScopeView {
            kind: self.kind,
            variable: ast_model::opt_text(self.variable),
            pattern: pattern::opt_pattern_view(self.pattern),
            list: ast_model::opt_box_view(self.list),
            filter: ast_model::opt_box_view(self.filter),
            map: ast_model::opt_box_view(self.map),
        }
    }
}

impl Scope {
    /// No part has been read.
    fn none() -> (r: Scope)
        ensures
            r@ == meaning::no_scope(),
    {
        Scope { kind: None, variable: None, pattern: None, list: None, filter: None, map: None }
    }
}

/// What a quantifier or an error says.
pub open spec fn quantifier_out(r: Result<QuantifierKind, GraphError>) -> Result<
    QuantifierKind,
    ErrorView,
> {
    match r {
        Ok(q) => Ok(q),
        Err(e) => Err(e@),
    }
}

/// The quantifier with the given name.
fn quantifier_kind(t: &str) -> (r: Result<QuantifierKind, GraphError>)
    ensures
        quantifier_out(r) == meaning::quantifier_kind(t@),
{
    let n = text::lower_string(t);
    if text::same_str(n.as_str(), "none") {
        Ok(QuantifierKind::NoneOf)
    } else if text::same_str(n.as_str(), "single") {
        Ok(QuantifierKind::Single)
    } else if text::same_str(n.as_str(), "any") {
        Ok(QuantifierKind::Any)
    } else if text::same_str(n.as_str(), "all") {
        Ok(QuantifierKind::All)
    } else {
        Err(GraphError::syntax(text::cat("unknown quantifier: ", n.as_str())))
    }
}

/// Takes one more node into a list comprehension or a quantifier.
fn parse_scope_part(src: &Source, acc: Scope, k: &Pair, d: DepthGuard) -> (r: Result<
    Scope,
    GraphError,
>)
    requires
        tree::fits_one(*src, *k),
    ensures
        types::outcome(r) == meaning::scope_step(src@, acc@, k@, d.depth as nat),
    decreases k, 70int,
{
    let mut acc = acc;
    match k.rule {
        Rule::QuantifierName => match quantifier_kind(src.text(k).as_str()) {
            Err(e) => Err(e),
            Ok(q) => {
                acc.kind = Some(q);
                Ok(acc)
            },
        },
        Rule::Ident => {
            acc.variable = Some(tree::name(src, k));
            Ok(acc)
        },
        Rule::Expr => match parse_expr(src, k, d) {
            Err(e) => Err(e),
            Ok(x) => {
                acc.list = Some(Box::new(x));
                Ok(acc)
            },
        },
        Rule::WhereClause => match parse_where(src, k, d) {
            Err(e) => Err(e),
            Ok(x) => {
                acc.filter = Some(Box::new(x));
                Ok(acc)
            },
        },
        Rule::ListCompWhere => match parse_condition_at(src, &k.children, 0, d) {
            Err(e) => Err(e),
            Ok(x) => {
                acc.filter = Some(Box::new(x));
                Ok(acc)
            },
        },
        Rule::ListCompMap => match parse_expr_at(src, &k.children, 0, d) {
            Err(e) => Err(e),
            Ok(x) => {
                acc.map = Some(Box::new(x));
                Ok(acc)
            },
        },
        _ => Ok(acc),
    }
}

/// The parts of a list comprehension or a quantifier.
fn parse_scope(src: &Source, kids: &Vec<Pair>, d: DepthGuard) -> (r: Result<Scope, GraphError>)
    requires
        tree::fits(*src, kids@),
    ensures
        types::outcome(r) == meaning::scope_from(
            src@,
            peg::pairs_view(kids@),
            0,
            meaning::no_scope(),
            d.depth as nat,
        ),
    decreases kids, 2int,
{
    let ghost ks = peg::pairs_view(kids@);
    let mut acc = Scope::none();
    let mut i: usize = 0;
    assert(decreases_to!(kids => kids@));
    while i < kids.len()
        invariant
            tree::fits(*src, kids@),
            ks == peg::pairs_view(kids@),
            decreases_to!(kids => kids@),
            meaning::scope_from(src@, ks, 0, meaning::no_scope(), d.depth as nat)
                == meaning::scope_from(src@, ks, i as int, acc@, d.depth as nat),
        decreases kids.len() - i,
    {
        assert(peg::within(ks[i as int], src@.len()));
        match parse_scope_part(src, acc, &kids[i], d) {
            Err(e) => {
                return Err(e);
            },
            Ok(next) => {
                acc = next;
            },
        }
        i = i + 1;
    }
    Ok(acc)
}

/// `[variable IN list WHERE filter | map]`.
fn parse_list_comprehension(src: &Source, pair: &Pair, d: DepthGuard) -> (r: Result<
    Expr,
    GraphError,
>)
    requires
        tree::fits_one(*src, *pair),
    ensures
        types::outcome(r) == meaning::list_comprehension(src@, pair@, d.depth as nat),
    decreases pair, 20int,
{
    let c = match parse_scope(src, &pair.children, d) {
        Ok(c) => c,
        Err(e) => {
            return Err(e);
        },
    };
    let variable = match c.variable {
        Some(v) => v,
        None => {
            return Err(fault("missing variable in list comprehension"));
        },
    };
    let list_expr = match c.list {
        Some(x) => x,
        None => {
            return Err(fault("missing list expression in list comprehension"));
        },
    };
    Ok(
        Expr::new(
            ExprKind::ListComprehension { variable, list_expr, filter: c.filter, map_expr: c.map },
            src.span_from_pair(pair),
        ),
    )
}

/// `none/single/any/all (variable IN list WHERE predicate)`.
fn parse_quantifier_expr(src: &Source, pair: &Pair, d: DepthGuard) -> (r: Result<Expr, GraphError>)
    requires
        tree::fits_one(*src, *pair),
    ensures
        types::outcome(r) == meaning::quantifier(src@, pair@, d.depth as nat),
    decreases pair, 20int,
{
    let c = match parse_scope(src, &pair.children, d) {
        Ok(c) => c,
        Err(e) => {
            return Err(e);
        },
    };
    let kind = match c.kind {
        Some(q) => q,
        None => {
            return Err(fault("missing quantifier name"));
        },
    };
    let variable = match c.variable {
        Some(v) => v,
        None => {
            return Err(fault("missing variable in quantifier"));
        },
    };
    let list_expr = match c.list {
        Some(x) => x,
        None => {
            return Err(fault("missing list expression in quantifier"));
        },
    };
    let predicate = match c.filter {
        Some(x) => x,
        None => {
            return Err(fault("missing WHERE predicate in quantifier"));
        },
    };
    Ok(
        Expr::new(
            ExprKind::Quantifier { kind, variable, list_expr, predicate },
            src.span_from_pair(pair),
        ),
    )
}

/// Takes one more node into a pattern comprehension.
fn parse_pattern_scope_part(src: &Source, acc: Scope, k: &Pair, d: DepthGuard) -> (r: Result<
    Scope,
    GraphError,
>)
    requires
        tree::fits_one(*src, *k),
    ensures
        types::outcome(r) == meaning::pattern_scope_step(src@, acc@, k@, d.depth as nat),
    decreases k, 70int,
{
    let mut acc = acc;
    match k.rule {
        Rule::Ident => {
            acc.variable = Some(tree::name(src, k));
            Ok(acc)
        },
        Rule::Pattern => match parse_pattern(src, k, d) {
            Err(e) => Err(e),
            Ok(x) => {
                acc.pattern = Some(x);
                Ok(acc)
            },
        },
        Rule::BoolExpr => match parse_bool_expr(src, k, d) {
            Err(e) => Err(e),
            Ok(x) => {
                acc.filter = Some(Box::new(x));
                Ok(acc)
            },
        },
        Rule::Expr => match parse_expr(src, k, d) {
            Err(e) => Err(e),
            Ok(x) => {
                acc.map = Some(Box::new(x));
                Ok(acc)
            },
        },
        _ => Ok(acc),
    }
}

/// `[path = pattern WHERE condition | map]`.
fn parse_pattern_comprehension(src: &Source, pair: &Pair, d: DepthGuard) -> (r: Result<
    Expr,
    GraphError,
>)
    requires
        tree::fits_one(*src, *pair),
    ensures
        types::outcome(r) == meaning::pattern_comprehension(src@, pair@, d.depth as nat),
    decreases pair, 20int,
{
    let acc = match parse_pattern_scope(src, &pair.children, d) {
        Err(e) => {
            return Err(e);
        },
        Ok(x) => x,
    };
    let pattern = match acc.pattern {
        Some(x) => x,
        None => {
            return Err(fault("missing pattern in pattern comprehension"));
        },
    };
    let map_expr = match acc.map {
        Some(x) => x,
        None => {
            return Err(fault("missing map expression in pattern comprehension"));
        },
    };
    Ok(
        Expr::new(
            ExprKind::PatternComprehension {
                path_variable: acc.variable,
                pattern,
                where_clause: acc.filter,
                map_expr,
            },
            src.span_from_pair(pair),
        ),
    )
}

/// The parts of a pattern comprehension.
fn parse_pattern_scope(src: &Source, kids: &Vec<Pair>, d: DepthGuard) -> (r: Result<
    Scope,
    GraphError,
>)
    requires
        tree::fits(*src, kids@),
    ensures
        types::outcome(r) == meaning::pattern_scope_from(
            src@,
            peg::pairs_view(kids@),
            0,
            meaning::no_scope(),
            d.depth as nat,
        ),
    decreases kids, 3int,
{
    let ghost ks = peg::pairs_view(kids@);
    let mut acc = Scope::none();
    let mut i: usize = 0;
    assert(decreases_to!(kids => kids@));
    while i < kids.len()
        invariant
            tree::fits(*src, kids@),
            ks == peg::pairs_view(kids@),
            decreases_to!(kids => kids@),
            meaning::pattern_scope_from(src@, ks, 0, meaning::no_scope(), d.depth as nat)
                == meaning::pattern_scope_from(src@, ks, i as int, acc@, d.depth as nat),
        decreases kids.len() - i,
    {
        assert(peg::within(ks[i as int], src@.len()));
        match parse_pattern_scope_part(src, acc, &kids[i], d) {
            Err(e) => {
                return Err(e);
            },
            Ok(next) => {
                acc = next;
            },
        }
        i = i + 1;
    }
    Ok(acc)
}

} // verus!
