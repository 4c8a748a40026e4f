//! What the parse trees of statements stand for.
//!
//! As in [`super::meaning`], `s` is the query text, `p` or `k` a node and `d` the number of
//! expressions around it.
use super::meaning;
use super::meaning::{MatchView, PartsView};
use super::peg::PairView;
use super::rule::Rule;
use super::source;
use crate::ast_model::{
    AssignmentView, ClauseView, CreateStatementView, DeleteStatementView, ExprKindView, ExprView,
    MatchCreateStatementView, MatchMergeStatementView, MatchStatementView, MergeStatementView,
    MultiClauseStatementView, OptionalMatchView, PatternView, RemoveItemView, RemoveStatementView,
    ReturnStatementView, SetItemView, SetStatementView, StatementView, UnwindBodyView,
    UnwindStatementView,
};
use crate::text;
use crate::types;
use crate::types::{ErrorCode, ErrorView, QueryPhase};
use vstd::prelude::*;

verus! {

/// The last name among the nodes; the empty text where there is none.
pub open spec fn variable_of(s: Seq<char>, kids: Seq<PairView>) -> Seq<char> {
    let i = meaning::last_place(kids, Rule::Ident, kids.len() as int);
    if 0 <= i < kids.len() {
        meaning::name(s, kids[i])
    } else {
        Seq::empty()
    }
}

/// The labels that the first `i` nodes give.
pub open spec fn labels_of(s: Seq<char>, kids: Seq<PairView>, i: int) -> Seq<Seq<char>>
    decreases i,
{
    if i <= 0 {
        Seq::empty()
    } else if kids[i - 1].rule == Rule::LabelSpec {
        labels_of(s, kids, i - 1) + meaning::all_texts(s, kids[i - 1].children)
    } else {
        labels_of(s, kids, i - 1)
    }
}

/// `variable.property = value`, or `(variable).property = value`.
pub open spec fn assignment(s: Seq<char>, kids: Seq<PairView>, d: nat) -> Result<
    AssignmentView,
    ErrorView,
> {
    if kids.len() < 2 {
        Err(meaning::malformed())
    } else {
        match meaning::expr(s, kids[1], d) {
            Err(e) => Err(e),
            Ok(value) => target(s, kids[0], value, d),
        }
    }
}

/// What an assignment of the value to the given target does.
pub open spec fn target(s: Seq<char>, p: PairView, value: ExprView, d: nat) -> Result<
    AssignmentView,
    ErrorView,
> {
    if p.children.len() < 2 {
        Err(meaning::malformed())
    } else if p.rule == Rule::ExprPropertyAccess {
        match meaning::expr(s, p.children[0], d) {
            Err(e) => Err(e),
            Ok(x) => match x.kind {
                ExprKindView::Variable(variable) => Ok(
                    AssignmentView {
                        variable,
                        property: source::text_of(s, p.children[1]),
                        value,
                    },
                ),
                _ => Err(types::syntax_error("SET target expression must be a variable"@)),
            },
        }
    } else {
        Ok(
            AssignmentView {
                variable: source::text_of(s, p.children[0]),
                property: source::text_of(s, p.children[1]),
                value,
            },
        )
    }
}

/// One item of a SET clause.
pub open spec fn set_item(s: Seq<char>, p: PairView, d: nat) -> Result<SetItemView, ErrorView> {
    if p.children.len() == 0 {
        Err(meaning::malformed())
    } else {
        let kids = p.children[0].children;
        match p.children[0].rule {
            Rule::SetLabel => Ok(
                SetItemView::Label {
                    variable: variable_of(s, kids),
                    labels: labels_of(s, kids, kids.len() as int),
                },
            ),
            Rule::SetMapMerge => match meaning::expr_under(s, kids, Rule::Expr, d) {
                Err(e) => Err(e),
                Ok(value) => Ok(SetItemView::MapMerge { variable: variable_of(s, kids), value }),
            },
            Rule::SetMap => match meaning::expr_under(s, kids, Rule::Expr, d) {
                Err(e) => Err(e),
                Ok(value) => Ok(SetItemView::MapOverwrite { variable: variable_of(s, kids), value }),
            },
            Rule::Assignment => match assignment(s, kids, d) {
                Err(e) => Err(e),
                Ok(x) => Ok(SetItemView::Property(x)),
            },
            r => Err(meaning::unexpected("unexpected set item: "@, r)),
        }
    }
}

/// The items of a SET clause.
pub open spec fn set_items_from(
    s: Seq<char>,
    kids: Seq<PairView>,
    i: int,
    acc: Seq<SetItemView>,
    d: nat,
) -> Result<Seq<SetItemView>, ErrorView>
    decreases kids.len() - i,
{
    if i < 0 || i >= kids.len() {
        Ok(acc)
    } else if kids[i].rule == Rule::SetItem {
        match set_item(s, kids[i], d) {
            Err(e) => Err(e),
            Ok(x) => set_items_from(s, kids, i + 1, acc.push(x), d),
        }
    } else {
        set_items_from(s, kids, i + 1, acc, d)
    }
}

/// The SET items of the list among the nodes; none where there is no list.
pub open spec fn assignments_under(s: Seq<char>, kids: Seq<PairView>, d: nat) -> Result<
    Seq<SetItemView>,
    ErrorView,
> {
    let i = meaning::first_place(kids, Rule::AssignmentList, 0);
    if 0 <= i < kids.len() {
        set_items_from(s, kids[i].children, 0, Seq::empty(), d)
    } else {
        Ok(Seq::empty())
    }
}

/// One item of a REMOVE clause.
pub open spec fn remove_item(s: Seq<char>, p: PairView) -> Result<RemoveItemView, ErrorView> {
    if p.children.len() == 0 {
        Err(meaning::malformed())
    } else {
        let kids = p.children[0].children;
        match p.children[0].rule {
            Rule::RemoveProperty => if kids.len() == 0 || kids[0].children.len() < 2 {
                Err(meaning::malformed())
            } else {
                Ok(
                    RemoveItemView::Property {
                        variable: source::text_of(s, kids[0].children[0]),
                        property: source::text_of(s, kids[0].children[1]),
                    },
                )
            },
            Rule::RemoveLabel => Ok(
                RemoveItemView::Label {
                    variable: variable_of(s, kids),
                    labels: labels_of(s, kids, kids.len() as int),
                },
            ),
            r => Err(meaning::unexpected("unexpected remove item: "@, r)),
        }
    }
}

/// The items of a REMOVE clause.
pub open spec fn remove_items_from(
    s: Seq<char>,
    kids: Seq<PairView>,
    i: int,
    acc: Seq<RemoveItemView>,
) -> Result<Seq<RemoveItemView>, ErrorView>
    decreases kids.len() - i,
{
    if i < 0 || i >= kids.len() {
        Ok(acc)
    } else if kids[i].rule == Rule::RemoveItem {
        match remove_item(s, kids[i]) {
            Err(e) => Err(e),
            Ok(x) => remove_items_from(s, kids, i + 1, acc.push(x)),
        }
    } else {
        remove_items_from(s, kids, i + 1, acc)
    }
}

/// The patterns of a CREATE clause.
pub open spec fn creates_from(
    s: Seq<char>,
    kids: Seq<PairView>,
    i: int,
    acc: Seq<PatternView>,
    d: nat,
) -> Result<Seq<PatternView>, ErrorView>
    decreases kids.len() - i,
{
    if i < 0 || i >= kids.len() {
        Ok(acc)
    } else if kids[i].rule == Rule::CreatePattern {
        match meaning::pattern(s, kids[i], d) {
            Err(e) => Err(e),
            Ok(x) => creates_from(s, kids, i + 1, acc.push(x), d),
        }
    } else {
        creates_from(s, kids, i + 1, acc, d)
    }
}

/// What the parts of a MATCH clause match.
pub open spec fn matched(m: PartsView) -> MatchView {
    MatchView {
        patterns: m.patterns,
        optional_patterns: m.optional_patterns,
        where_clause: m.where_clause,
    }
}

/// The parts of a statement with a MATCH clause more: the first one that is awaited is the
/// statement's own, any other stands between two projections.
pub open spec fn with_match(acc: PartsView, m: MatchView) -> PartsView {
    if acc.first {
        PartsView {
            patterns: m.patterns,
            optional_patterns: m.optional_patterns,
            where_clause: m.where_clause,
            first: false,
            ..acc
        }
    } else {
        PartsView { intermediate: acc.intermediate.push(meaning::intermediate_match(m)), ..acc }
    }
}

/// The parts of a statement with one node more.
pub open spec fn part_step(s: Seq<char>, acc: PartsView, k: PairView, d: nat) -> Result<
    PartsView,
    ErrorView,
>
    decreases k, 30int,
{
    match k.rule {
        Rule::PatternList => if acc.closed {
            Ok(acc)
        } else {
            match meaning::pattern_list(s, k, d) {
                Err(e) => Err(e),
                Ok(x) => Ok(PartsView { patterns: x, ..acc }),
            }
        },
        Rule::OptionalMatchClause => if acc.closed {
            Ok(acc)
        } else {
            match parts_from(s, k.children, 0, meaning::no_parts(false), d) {
                Err(e) => Err(e),
                Ok(m) => Ok(
                    PartsView {
                        optional_patterns: acc.optional_patterns.push(
                            OptionalMatchView {
                                patterns: m.patterns,
                                where_clause: m.where_clause,
                            },
                        ),
                        ..acc
                    },
                ),
            }
        },
        Rule::WhereClause => if acc.closed {
            Ok(acc)
        } else {
            match meaning::where_clause(s, k, d) {
                Err(e) => Err(e),
                Ok(x) => Ok(PartsView { where_clause: Some(x), ..acc }),
            }
        },
        Rule::MatchPart => match parts_from(s, k.children, 0, meaning::no_parts(false), d) {
            Err(e) => Err(e),
            Ok(m) => Ok(with_match(acc, matched(m))),
        },
        Rule::CreatePatternList => match creates_from(s, k.children, 0, acc.create_patterns, d) {
            Err(e) => Err(e),
            Ok(x) => Ok(PartsView { create_patterns: x, ..acc }),
        },
        Rule::PatternItem => match meaning::pattern_item(s, k, d) {
            Err(e) => Err(e),
            Ok(x) => Ok(PartsView { merge_pattern: Some(x), ..acc }),
        },
        Rule::OnCreateClause => match assignments_under(s, k.children, d) {
            Err(e) => Err(e),
            Ok(x) => Ok(PartsView { on_create: x, ..acc }),
        },
        Rule::OnMatchClause => match assignments_under(s, k.children, d) {
            Err(e) => Err(e),
            Ok(x) => Ok(PartsView { on_match: x, ..acc }),
        },
        Rule::AssignmentList => match set_items_from(s, k.children, 0, Seq::empty(), d) {
            Err(e) => Err(e),
            Ok(x) => Ok(PartsView { items: x, closed: true, ..acc }),
        },
        Rule::RemoveItemList => match remove_items_from(s, k.children, 0, acc.removals) {
            Err(e) => Err(e),
            Ok(x) => Ok(PartsView { removals: x, ..acc }),
        },
        Rule::DetachKeyword => Ok(PartsView { detach: true, ..acc }),
        Rule::DeleteExprList => match meaning::exprs_from(s, k.children, 0, acc.exprs, d) {
            Err(e) => Err(e),
            Ok(x) => Ok(PartsView { exprs: x, ..acc }),
        },
        _ => meaning::tail_step(s, acc, k, d),
    }
}

/// The parts of a statement, from the node at `i` on.
pub open spec fn parts_from(
    s: Seq<char>,
    kids: Seq<PairView>,
    i: int,
    acc: PartsView,
    d: nat,
) -> Result<PartsView, ErrorView>
    decreases kids, kids.len() - i,
{
    if i < 0 || i >= kids.len() {
        Ok(acc)
    } else {
        match part_step(s, acc, kids[i], d) {
            Err(e) => Err(e),
            Ok(next) => parts_from(s, kids, i + 1, next, d),
        }
    }
}

/// The parts of a statement or clause.
pub open spec fn parts(s: Seq<char>, p: PairView, first: bool, d: nat) -> Result<
    PartsView,
    ErrorView,
> {
    parts_from(s, p.children, 0, meaning::no_parts(first), d)
}

/// MATCH ... RETURN and WITH ... RETURN: nothing without a RETURN.
pub open spec fn match_statement(m: PartsView) -> Result<MatchStatementView, ErrorView> {
    match m.return_clause {
        None => Err(types::syntax_error("missing RETURN clause"@)),
        Some(return_clause) => Ok(
            MatchStatementView {
                patterns: m.patterns,
                optional_patterns: m.optional_patterns,
                where_clause: m.where_clause,
                intermediate_clauses: m.intermediate,
                return_clause,
                order_by: m.order_by,
                skip: m.skip,
                limit: m.limit,
            },
        ),
    }
}

/// RETURN.
pub open spec fn return_statement(m: PartsView) -> Result<ReturnStatementView, ErrorView> {
    match m.return_clause {
        None => Err(types::syntax_error("missing RETURN clause"@)),
        Some(return_clause) => Ok(
            ReturnStatementView {
                return_clause,
                order_by: m.order_by,
                skip: m.skip,
                limit: m.limit,
            },
        ),
    }
}

/// CREATE.
pub open spec fn create_statement(m: PartsView) -> CreateStatementView {
    CreateStatementView {
        patterns: m.create_patterns,
        return_clause: m.return_clause,
        order_by: m.order_by,
        skip: m.skip,
        limit: m.limit,
    }
}

/// MATCH ... CREATE.
pub open spec fn match_create_statement(m: PartsView) -> MatchCreateStatementView {
    MatchCreateStatementView {
        patterns: m.patterns,
        where_clause: m.where_clause,
        create_patterns: m.create_patterns,
        return_clause: m.return_clause,
        order_by: m.order_by,
        skip: m.skip,
        limit: m.limit,
    }
}

/// MATCH ... MERGE.
pub open spec fn match_merge_statement(m: PartsView) -> Result<MatchMergeStatementView, ErrorView> {
    match m.merge_pattern {
        None => Err(types::syntax_error("missing MERGE pattern"@)),
        Some(merge_pattern) => Ok(
            MatchMergeStatementView {
                patterns: m.patterns,
                where_clause: m.where_clause,
                merge_pattern,
                on_create: m.on_create,
                on_match: m.on_match,
                return_clause: m.return_clause,
                order_by: m.order_by,
                skip: m.skip,
                limit: m.limit,
            },
        ),
    }
}

/// MERGE.
pub open spec fn merge_statement(m: PartsView) -> Result<MergeStatementView, ErrorView> {
    match m.merge_pattern {
        None => Err(types::syntax_error("missing MERGE pattern"@)),
        Some(pattern) => Ok(
            MergeStatementView {
                pattern,
                on_create: m.on_create,
                on_match: m.on_match,
                return_clause: m.return_clause,
                order_by: m.order_by,
                skip: m.skip,
                limit: m.limit,
            },
        ),
    }
}

/// MATCH ... DELETE.
pub open spec fn delete_statement(m: PartsView) -> DeleteStatementView {
    DeleteStatementView {
        patterns: m.patterns,
        optional_patterns: m.optional_patterns,
        where_clause: m.where_clause,
        detach: m.detach,
        exprs: m.exprs,
        return_clause: m.return_clause,
        order_by: m.order_by,
        skip: m.skip,
        limit: m.limit,
    }
}

/// MATCH ... SET.
pub open spec fn set_statement(m: PartsView) -> SetStatementView {
    SetStatementView {
        patterns: m.patterns,
        optional_patterns: m.optional_patterns,
        where_clause: m.where_clause,
        items: m.items,
        intermediate_clauses: m.intermediate,
        return_clause: m.return_clause,
        order_by: m.order_by,
        skip: m.skip,
        limit: m.limit,
    }
}

/// MATCH ... REMOVE.
pub open spec fn remove_statement(m: PartsView) -> RemoveStatementView {
    RemoveStatementView {
        patterns: m.patterns,
        optional_patterns: m.optional_patterns,
        where_clause: m.where_clause,
        items: m.removals,
        return_clause: m.return_clause,
        order_by: m.order_by,
        skip: m.skip,
        limit: m.limit,
    }
}

/// What follows the UNWIND of an UNWIND statement.
pub open spec fn unwind_body(s: Seq<char>, kids: Seq<PairView>, d: nat) -> Result<
    UnwindBodyView,
    ErrorView,
> {
    let i = meaning::first_place(kids, Rule::UnwindReturn, 0);
    let j = meaning::first_place(kids, Rule::UnwindCreate, 0);
    if 0 <= i < kids.len() {
        match parts(s, kids[i], false, d) {
            Err(e) => Err(e),
            Ok(m) => match m.return_clause {
                None => Err(types::syntax_error("missing RETURN clause in UNWIND"@)),
                Some(return_clause) => Ok(
                    UnwindBodyView::Return {
                        where_clause: m.where_clause,
                        intermediate_clauses: m.intermediate,
                        return_clause,
                        order_by: m.order_by,
                        skip: m.skip,
                        limit: m.limit,
                    },
                ),
            },
        }
    } else if 0 <= j < kids.len() {
        match parts(s, kids[j], false, d) {
            Err(e) => Err(e),
            Ok(m) => Ok(
                UnwindBodyView::Create {
                    patterns: m.create_patterns,
                    intermediate_clauses: m.intermediate,
                    return_clause: m.return_clause,
                    order_by: m.order_by,
                    skip: m.skip,
                    limit: m.limit,
                },
            ),
        }
    } else {
        Err(types::syntax_error("missing UNWIND body"@))
    }
}

/// UNWIND.
pub open spec fn unwind_statement(s: Seq<char>, p: PairView, d: nat) -> Result<
    UnwindStatementView,
    ErrorView,
> {
    match meaning::unwind_clause(s, p, d) {
        Err(e) => Err(e),
        Ok(u) => match unwind_body(s, p.children, d) {
            Err(e) => Err(e),
            Ok(body) => Ok(UnwindStatementView { expr: u.expr, alias: u.alias, body }),
        },
    }
}

/// The columns that a YIELD names, each with the name it goes by.
pub open spec fn yields_from(
    s: Seq<char>,
    kids: Seq<PairView>,
    i: int,
    acc: Seq<(Seq<char>, Option<Seq<char>>)>,
) -> Seq<(Seq<char>, Option<Seq<char>>)>
    decreases kids.len() - i,
{
    if i < 0 || i >= kids.len() {
        acc
    } else if kids[i].rule == Rule::YieldItem && kids[i].children.len() > 0 {
        let names = kids[i].children;
        let alias = if names.len() > 1 {
            Some(source::text_of(s, names[1]))
        } else {
            None
        };
        yields_from(s, kids, i + 1, acc.push((source::text_of(s, names[0]), alias)))
    } else {
        yields_from(s, kids, i + 1, acc)
    }
}

/// The parts of a CALL that have been read.
pub struct CallView {
    pub procedure_name: Seq<char>,
    pub args: Seq<ExprView>,
    pub yield_items: Option<Seq<(Seq<char>, Option<Seq<char>>)>>,
    pub yield_star: bool,
}

/// No part has been read.
pub open spec fn no_call() -> CallView {
    CallView {
        procedure_name: Seq::empty(),
        args: Seq::empty(),
        yield_items: None,
        yield_star: false,
    }
}

/// The columns that a YIELD clause names.
pub open spec fn yield_items(s: Seq<char>, kids: Seq<PairView>) -> Option<
    Seq<(Seq<char>, Option<Seq<char>>)>,
> {
    let i = meaning::last_place(kids, Rule::YieldItems, kids.len() as int);
    if 0 <= i < kids.len() {
        Some(yields_from(s, kids[i].children, 0, Seq::empty()))
    } else {
        None
    }
}

/// A YIELD clause asks for every column.
pub open spec fn yield_star(kids: Seq<PairView>) -> bool {
    meaning::count_of(kids, Rule::YieldStar, kids.len() as int) > 0
}

/// The parts of a CALL, from the node at `i` on.
pub open spec fn call_from(s: Seq<char>, kids: Seq<PairView>, i: int, acc: CallView, d: nat) -> Result<
    CallView,
    ErrorView,
>
    decreases kids.len() - i,
{
    if i < 0 || i >= kids.len() {
        Ok(acc)
    } else {
        match kids[i].rule {
            Rule::ProcedureName => call_from(
                s,
                kids,
                i + 1,
                CallView { procedure_name: source::text_of(s, kids[i]), ..acc },
                d,
            ),
            Rule::Expr => match meaning::expr(s, kids[i], d) {
                Err(e) => Err(e),
                Ok(x) => call_from(s, kids, i + 1, CallView { args: acc.args.push(x), ..acc }, d),
            },
            Rule::YieldClause => call_from(
                s,
                kids,
                i + 1,
                CallView {
                    yield_items: yield_items(s, kids[i].children),
                    yield_star: yield_star(kids[i].children),
                    ..acc
                },
                d,
            ),
            _ => call_from(s, kids, i + 1, acc, d),
        }
    }
}

/// A parenthesis opens before any YIELD: the arguments of a CALL are given.
pub open spec fn has_parens(t: Seq<char>) -> bool {
    exists|i: int|
        #![trigger t[i]]
        0 <= i < t.len() && t[i] == '(' && forall|j: int|
            0 <= j <= i ==> !text::stands_at(t, j, "yield"@)
}

/// CALL.
pub open spec fn call_statement(s: Seq<char>, p: PairView, d: nat) -> Result<
    StatementView,
    ErrorView,
> {
    match call_from(s, p.children, 0, no_call(), d) {
        Err(e) => Err(e),
        Ok(c) => match parts(s, p, false, d) {
            Err(e) => Err(e),
            Ok(m) => Ok(
                StatementView::Call {
                    procedure_name: c.procedure_name,
                    args: c.args,
                    implicit_args: !has_parens(source::text_of(s, p)),
                    yield_items: c.yield_items,
                    yield_star: c.yield_star,
                    return_clause: m.return_clause,
                    order_by: m.order_by,
                    skip: boxed(m.skip),
                    limit: boxed(m.limit),
                },
            ),
        },
    }
}

/// An optional expression behind a pointer.
pub open spec fn boxed(o: Option<ExprView>) -> Option<Box<ExprView>> {
    match o {
        None => None,
        Some(x) => Some(Box::new(x)),
    }
}

/// A CALL clause.
pub open spec fn call_clause(s: Seq<char>, p: PairView, d: nat) -> Result<ClauseView, ErrorView> {
    match call_from(s, p.children, 0, no_call(), d) {
        Err(e) => Err(e),
        Ok(c) => Ok(
            ClauseView::Call {
                procedure_name: c.procedure_name,
                args: c.args,
                implicit_args: !has_parens(source::text_of(s, p)),
                yield_items: c.yield_items,
                yield_star: c.yield_star,
            },
        ),
    }
}

/// The node is a clause of a multi-clause statement.
pub open spec fn is_clause(r: Rule) -> bool {
    match r {
        Rule::MultiMatchClause => true,
        Rule::MultiCreateClause => true,
        Rule::MultiMergeClause => true,
        Rule::MultiSetClause => true,
        Rule::MultiRemoveClause => true,
        Rule::MultiDeleteClause => true,
        Rule::MultiCallClause => true,
        Rule::UnwindClause => true,
        Rule::WithClause => true,
        _ => false,
    }
}

/// The clause that is made of the parts; none for a MERGE without a pattern.
pub open spec fn part_clause(r: Rule, m: PartsView) -> Option<ClauseView> {
    match r {
        Rule::MultiMatchClause => Some(
            ClauseView::Match {
                patterns: m.patterns,
                optional_patterns: m.optional_patterns,
                where_clause: m.where_clause,
            },
        ),
        Rule::MultiCreateClause => Some(ClauseView::Create { patterns: m.create_patterns }),
        Rule::MultiMergeClause => match m.merge_pattern {
            None => None,
            Some(pattern) => Some(
                ClauseView::Merge { pattern, on_create: m.on_create, on_match: m.on_match },
            ),
        },
        Rule::MultiSetClause => Some(ClauseView::SetItems { items: m.items }),
        Rule::MultiRemoveClause => Some(ClauseView::Remove { items: m.removals }),
        _ => Some(ClauseView::Delete { exprs: m.exprs, detach: m.detach }),
    }
}

/// The clause that a node of a multi-clause statement stands for.
pub open spec fn clause(s: Seq<char>, k: PairView, d: nat) -> Result<Option<ClauseView>, ErrorView> {
    match k.rule {
        Rule::MultiCallClause => match call_clause(s, k, d) {
            Err(e) => Err(e),
            Ok(c) => Ok(Some(c)),
        },
        Rule::UnwindClause => match meaning::unwind_clause(s, k, d) {
            Err(e) => Err(e),
            Ok(x) => Ok(Some(ClauseView::Unwind(x))),
        },
        Rule::WithClause => match meaning::with_clause(s, k, d) {
            Err(e) => Err(e),
            Ok(x) => Ok(Some(ClauseView::With(x))),
        },
        _ => match parts(s, k, false, d) {
            Err(e) => Err(e),
            Ok(m) => Ok(part_clause(k.rule, m)),
        },
    }
}

/// The clauses with one more.
pub open spec fn with_clause(cs: Seq<ClauseView>, c: Option<ClauseView>) -> Seq<ClauseView> {
    match c {
        None => cs,
        Some(x) => cs.push(x),
    }
}

/// The clauses and the other parts of a multi-clause statement, from the node at `i` on.
pub open spec fn multi_from(
    s: Seq<char>,
    kids: Seq<PairView>,
    i: int,
    cs: Seq<ClauseView>,
    acc: PartsView,
    d: nat,
) -> Result<(Seq<ClauseView>, PartsView), ErrorView>
    decreases kids.len() - i,
{
    if i < 0 || i >= kids.len() {
        Ok((cs, acc))
    } else if is_clause(kids[i].rule) {
        match clause(s, kids[i], d) {
            Err(e) => Err(e),
            Ok(c) => multi_from(s, kids, i + 1, with_clause(cs, c), acc, d),
        }
    } else {
        match meaning::tail_step(s, acc, kids[i], d) {
            Err(e) => Err(e),
            Ok(next) => multi_from(s, kids, i + 1, cs, next, d),
        }
    }
}

/// Reading and writing clauses in any order.
pub open spec fn multi_statement(s: Seq<char>, p: PairView, d: nat) -> Result<
    MultiClauseStatementView,
    ErrorView,
> {
    match multi_from(s, p.children, 0, Seq::empty(), meaning::no_parts(false), d) {
        Err(e) => Err(e),
        Ok((clauses, m)) => Ok(
            MultiClauseStatementView {
                clauses,
                return_clause: m.return_clause,
                order_by: m.order_by,
                skip: m.skip,
                limit: m.limit,
            },
        ),
    }
}

/// MATCH ... RETURN from its node; `first` tells whether it begins with MATCH.
pub open spec fn query(s: Seq<char>, p: PairView, first: bool, d: nat) -> Result<
    MatchStatementView,
    ErrorView,
> {
    match parts(s, p, first, d) {
        Err(e) => Err(e),
        Ok(m) => match_statement(m),
    }
}

/// A statement that is made of its parts alone.
pub open spec fn part_statement(r: Rule, m: PartsView) -> Result<StatementView, ErrorView> {
    match r {
        Rule::CreateStmt => Ok(StatementView::Create(create_statement(m))),
        Rule::MatchCreateStmt => Ok(StatementView::MatchCreate(match_create_statement(m))),
        Rule::MatchMergeStmt => match match_merge_statement(m) {
            Err(e) => Err(e),
            Ok(x) => Ok(StatementView::MatchMerge(x)),
        },
        Rule::DeleteStmt => Ok(StatementView::Delete(delete_statement(m))),
        Rule::SetStmt => Ok(StatementView::SetProps(set_statement(m))),
        Rule::RemoveStmt => Ok(StatementView::Remove(remove_statement(m))),
        Rule::MergeStmt => match merge_statement(m) {
            Err(e) => Err(e),
            Ok(x) => Ok(StatementView::Merge(x)),
        },
        Rule::ReturnStmt => match return_statement(m) {
            Err(e) => Err(e),
            Ok(x) => Ok(StatementView::Return(x)),
        },
        Rule::MatchStmt => match match_statement(m) {
            Err(e) => Err(e),
            Ok(x) => Ok(StatementView::Match(x)),
        },
        Rule::WithStmt => match match_statement(m) {
            Err(e) => Err(e),
            Ok(x) => Ok(StatementView::Match(x)),
        },
        _ => Err(meaning::unexpected("unexpected rule: "@, r)),
    }
}

/// The statement is made of its parts alone.
pub open spec fn has_parts(r: Rule) -> bool {
    match r {
        Rule::CreateStmt => true,
        Rule::MatchCreateStmt => true,
        Rule::MatchMergeStmt => true,
        Rule::DeleteStmt => true,
        Rule::SetStmt => true,
        Rule::RemoveStmt => true,
        Rule::MergeStmt => true,
        Rule::ReturnStmt => true,
        Rule::MatchStmt => true,
        Rule::WithStmt => true,
        _ => false,
    }
}

/// A statement other than EXPLAIN.
pub open spec fn plain_statement(s: Seq<char>, p: PairView, d: nat) -> Result<
    StatementView,
    ErrorView,
> {
    match p.rule {
        Rule::MultiClauseStmt => match multi_statement(s, p, d) {
            Err(e) => Err(e),
            Ok(x) => Ok(StatementView::MultiClause(x)),
        },
        Rule::UnwindStmt => match unwind_statement(s, p, d) {
            Err(e) => Err(e),
            Ok(x) => Ok(StatementView::Unwind(x)),
        },
        Rule::CallStmt => call_statement(s, p, d),
        r => if has_parts(r) {
            match parts(s, p, r == Rule::MatchStmt, d) {
                Err(e) => Err(e),
                Ok(m) => part_statement(r, m),
            }
        } else {
            Err(meaning::unexpected("unexpected rule: "@, r))
        },
    }
}

/// The statements that EXPLAIN takes.
pub open spec fn explainable(r: Rule) -> bool {
    match r {
        Rule::MatchStmt => true,
        Rule::MatchCreateStmt => true,
        Rule::UnwindStmt => true,
        Rule::WithStmt => true,
        Rule::MultiClauseStmt => true,
        _ => false,
    }
}

/// EXPLAIN.
pub open spec fn explain(s: Seq<char>, p: PairView, d: nat) -> Result<StatementView, ErrorView> {
    if p.children.len() == 0 {
        Err(types::syntax_error("EXPLAIN requires a statement"@))
    } else if !explainable(p.children[0].rule) {
        Err(meaning::unexpected("EXPLAIN not supported for "@, p.children[0].rule))
    } else {
        match plain_statement(s, p.children[0], d) {
            Err(e) => Err(e),
            Ok(x) => Ok(StatementView::Explain(Box::new(x))),
        }
    }
}

/// A single statement.
pub open spec fn single(s: Seq<char>, p: PairView, d: nat) -> Result<StatementView, ErrorView> {
    if p.rule == Rule::ExplainStmt {
        explain(s, p, d)
    } else {
        plain_statement(s, p, d)
    }
}

/// The parts of a UNION that have been read.
pub struct UnionView {
    pub statements: Seq<StatementView>,
    /// Some UNION keeps duplicate rows.
    pub has_all: bool,
    /// Some UNION drops them.
    pub has_plain: bool,
}

/// The parts of a UNION, from the node at `i` on.
pub open spec fn union_from(s: Seq<char>, kids: Seq<PairView>, i: int, acc: UnionView, d: nat) -> Result<
    UnionView,
    ErrorView,
>
    decreases kids.len() - i,
{
    if i < 0 || i >= kids.len() {
        Ok(acc)
    } else if kids[i].rule == Rule::SingleStmt {
        if kids[i].children.len() == 0 {
            Err(meaning::malformed())
        } else {
            match single(s, kids[i].children[0], d) {
                Err(e) => Err(e),
                Ok(x) => union_from(
                    s,
                    kids,
                    i + 1,
                    UnionView { statements: acc.statements.push(x), ..acc },
                    d,
                ),
            }
        }
    } else if kids[i].rule == Rule::UnionOp {
        if text::contains_word(source::text_of(s, kids[i]), "all"@) {
            union_from(s, kids, i + 1, UnionView { has_all: true, ..acc }, d)
        } else {
            union_from(s, kids, i + 1, UnionView { has_plain: true, ..acc }, d)
        }
    } else {
        union_from(s, kids, i + 1, acc, d)
    }
}

/// One statement, or several with UNION between them; UNION and UNION ALL do not mix.
pub open spec fn union(s: Seq<char>, p: PairView, d: nat) -> Result<StatementView, ErrorView> {
    let none = UnionView { statements: Seq::empty(), has_all: false, has_plain: false };
    match union_from(s, p.children, 0, none, d) {
        Err(e) => Err(e),
        Ok(u) => if u.statements.len() == 1 {
            Ok(u.statements[0])
        } else if u.has_all && u.has_plain {
            Err(
                types::coded_error(
                    QueryPhase::Parse,
                    ErrorCode::InvalidClauseComposition,
                    "InvalidClauseComposition: cannot mix UNION and UNION ALL"@,
                ),
            )
        } else {
            Ok(StatementView::Union { statements: u.statements, all: !u.has_plain })
        },
    }
}

} // verus!
