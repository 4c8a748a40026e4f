//! Building statements.
use super::clause;
use super::clause::{parse_tail, parse_unwind_clause, parse_where, parse_with, Parts};
use super::expr::{parse_expr, parse_expr_under, parse_exprs};
use super::forms;
use super::meaning;
use super::pattern;
use super::pattern::{parse_pattern, parse_pattern_item, parse_pattern_list};
use super::peg;
use super::peg::Pair;
use super::rule::Rule;
use super::source::Source;
use super::tree;
use super::tree::{fault, malformed, unexpected, DepthGuard};
use crate::ast::{
    Assignment, Clause, CreateStatement, DeleteStatement, Expr, ExprKind, IntermediateClause,
    IntermediateMatch, MatchCreateStatement, MatchMergeStatement, MatchStatement, MergeStatement,
    MultiClauseStatement, OptionalMatch, Pattern, RemoveItem, RemoveStatement, ReturnStatement,
    SetItem, SetStatement, Statement, UnwindBody, UnwindStatement,
};
use crate::ast_model;
use crate::ast_model::ClauseView;
use crate::text;
use crate::types;
use crate::types::{ErrorCode, ErrorView, GraphError, QueryPhase};
use vstd::prelude::*;

verus! {

broadcast use ast_model::group_list_views;

/// The last name among the nodes.
fn variable_of(src: &Source, kids: &Vec<Pair>) -> (r: String)
    requires
        tree::fits(*src, kids@),
    ensures
        r@ == forms::variable_of(src@, peg::pairs_view(kids@)),
{
    match tree::last_place(kids, Rule::Ident) {
        None => {
            let r = String::new();
            assert(r@ =~= Seq::<char>::empty());
            r
        },
        Some(i) => {
            assert(peg::within(peg::pairs_view(kids@)[i as int], src@.len()));
            tree::name(src, &kids[i])
        },
    }
}

/// The labels that the nodes give.
fn labels_of(src: &Source, kids: &Vec<Pair>) -> (r: Vec<String>)
    requires
        tree::fits(*src, kids@),
    ensures
        ast_model::texts(r@) == forms::labels_of(
            src@,
            peg::pairs_view(kids@),
            kids@.len() as int,
        ),
{
    let mut out: Vec<String> = Vec::new();
    let mut i: usize = 0;
    while i < kids.len()
        invariant
            tree::fits(*src, kids@),
            i <= kids.len(),
            ast_model::texts(out@) == forms::labels_of(src@, peg::pairs_view(kids@), i as int),
        decreases kids.len() - i,
    {
        let ghost k = peg::pairs_view(kids@)[i as int];
        assert(peg::within(k, src@.len()));
        assert(k.children == peg::pairs_view(kids@[i as int].children@));
        if kids[i].rule == Rule::LabelSpec {
            let mut more = tree::all_texts(src, &kids[i].children);
            let ghost before = out@;
            let ghost added = more@;
            out.append(&mut more);
            assert(ast_model::texts(before + added) =~= ast_model::texts(before)
                + ast_model::texts(added));
        }
        i = i + 1;
    }
    out
}

/// `variable.property = value`, or `(variable).property = value`.
fn parse_assignment(src: &Source, kids: &Vec<Pair>, d: DepthGuard) -> (r: Result<
    Assignment,
    GraphError,
>)
    requires
        tree::fits(*src, kids@),
    ensures
        types::outcome(r) == forms::assignment(src@, peg::pairs_view(kids@), d.depth as nat),
{
    if kids.len() < 2 {
        return Err(malformed());
    }
    assert(peg::within(peg::pairs_view(kids@)[0], src@.len()));
    assert(peg::within(peg::pairs_view(kids@)[1], src@.len()));
    match parse_expr(src, &kids[1], d) {
        Err(e) => Err(e),
        Ok(value) => parse_target(src, &kids[0], value, d),
    }
}

/// What an assignment of the value to the given target does.
fn parse_target(src: &Source, pair: &Pair, value: Expr, d: DepthGuard) -> (r: Result<
    Assignment,
    GraphError,
>)
    requires
        tree::fits_one(*src, *pair),
    ensures
        types::outcome(r) == forms::target(src@, pair@, value@, d.depth as nat),
{
    let kids = &pair.children;
    if kids.len() < 2 {
        return Err(malformed());
    }
    assert(peg::within(peg::pairs_view(kids@)[0], src@.len()));
    assert(peg::within(peg::pairs_view(kids@)[1], src@.len()));
    let property = src.text(&kids[1]);
    if pair.rule == Rule::ExprPropertyAccess {
        match parse_expr(src, &kids[0], d) {
            Err(e) => Err(e),
            Ok(x) => match x.kind {
                ExprKind::Variable(variable) => Ok(Assignment { variable, property, value }),
                _ => Err(fault("SET target expression must be a variable")),
            },
        }
    } else {
        Ok(Assignment { variable: src.text(&kids[0]), property, value })
    }
}

/// One item of a SET clause.
fn parse_set_item(src: &Source, pair: &Pair, d: DepthGuard) -> (r: Result<SetItem, GraphError>)
    requires
        tree::fits_one(*src, *pair),
    ensures
        types::outcome(r) == forms::set_item(src@, pair@, d.depth as nat),
{
    if pair.children.len() == 0 {
        return Err(malformed());
    }
    let ghost inner = peg::pairs_view(pair.children@)[0];
    assert(peg::within(inner, src@.len()));
    assert(inner.children == peg::pairs_view(pair.children@[0].children@));
    let kids = &pair.children[0].children;
    match pair.children[0].rule {
        Rule::SetLabel => Ok(
            SetItem::Label { variable: variable_of(src, kids), labels: labels_of(src, kids) },
        ),
        Rule::SetMapMerge => match parse_expr_under(src, kids, Rule::Expr, d) {
            Err(e) => Err(e),
            Ok(value) => Ok(SetItem::MapMerge { variable: variable_of(src, kids), value }),
        },
        Rule::SetMap => match parse_expr_under(src, kids, Rule::Expr, d) {
            Err(e) => Err(e),
            Ok(value) => Ok(SetItem::MapOverwrite { variable: variable_of(src, kids), value }),
        },
        Rule::Assignment => match parse_assignment(src, kids, d) {
            Err(e) => Err(e),
            Ok(x) => Ok(SetItem::Property(x)),
        },
        r => Err(unexpected("unexpected set item: ", r)),
    }
}

/// The items of a SET clause.
fn parse_set_item_list(src: &Source, kids: &Vec<Pair>, d: DepthGuard) -> (r: Result<
    Vec<SetItem>,
    GraphError,
>)
    requires
        tree::fits(*src, kids@),
    ensures
        tree::set_items_out(r) == forms::set_items_from(
            src@,
            peg::pairs_view(kids@),
            0,
            Seq::empty(),
            d.depth as nat,
        ),
{
    let ghost ks = peg::pairs_view(kids@);
    let mut out: Vec<SetItem> = Vec::new();
    let mut i: usize = 0;
    while i < kids.len()
        invariant
            tree::fits(*src, kids@),
            ks == peg::pairs_view(kids@),
            forms::set_items_from(src@, ks, 0, Seq::empty(), d.depth as nat)
                == forms::set_items_from(
                src@,
                ks,
                i as int,
                ast_model::set_items_view(out@),
                d.depth as nat,
            ),
        decreases kids.len() - i,
    {
        assert(peg::within(ks[i as int], src@.len()));
        if kids[i].rule == Rule::SetItem {
            match parse_set_item(src, &kids[i], d) {
                Err(e) => {
                    return Err(e);
                },
                Ok(x) => {
                    out.push(x);
                },
            }
        }
        i = i + 1;
    }
    Ok(out)
}

/// The SET items of the list among the nodes.
fn parse_assignments_under(src: &Source, kids: &Vec<Pair>, d: DepthGuard) -> (r: Result<
    Vec<SetItem>,
    GraphError,
>)
    requires
        tree::fits(*src, kids@),
    ensures
        tree::set_items_out(r) == forms::assignments_under(
            src@,
            peg::pairs_view(kids@),
            d.depth as nat,
        ),
{
    let i = tree::first_place(kids, Rule::AssignmentList, 0);
    if i < kids.len() {
        let ghost k = peg::pairs_view(kids@)[i as int];
        assert(peg::within(k, src@.len()));
        assert(k.children == peg::pairs_view(kids@[i as int].children@));
        parse_set_item_list(src, &kids[i].children, d)
    } else {
        Ok(Vec::new())
    }
}

/// One item of a REMOVE clause.
fn parse_remove_item(src: &Source, pair: &Pair) -> (r: Result<RemoveItem, GraphError>)
    requires
        tree::fits_one(*src, *pair),
    ensures
        types::outcome(r) == forms::remove_item(src@, pair@),
{
    if pair.children.len() == 0 {
        return Err(malformed());
    }
    let ghost inner = peg::pairs_view(pair.children@)[0];
    assert(peg::within(inner, src@.len()));
    assert(inner.children == peg::pairs_view(pair.children@[0].children@));
    let kids = &pair.children[0].children;
    match pair.children[0].rule {
        Rule::RemoveProperty => {
            if kids.len() == 0 {
                return Err(malformed());
            }
            let ghost access = peg::pairs_view(kids@)[0];
            assert(peg::within(access, src@.len()));
            assert(access.children == peg::pairs_view(kids@[0].children@));
            let names = &kids[0].children;
            if names.len() < 2 {
                return Err(malformed());
            }
            assert(peg::within(peg::pairs_view(names@)[0], src@.len()));
            assert(peg::within(peg::pairs_view(names@)[1], src@.len()));
            Ok(
                RemoveItem::Property {
                    variable: src.text(&names[0]),
                    property: src.text(&names[1]),
                },
            )
        },
        Rule::RemoveLabel => Ok(
            RemoveItem::Label { variable: variable_of(src, kids), labels: labels_of(src, kids) },
        ),
        r => Err(unexpected("unexpected remove item: ", r)),
    }
}

/// Adds the items of a REMOVE clause.
fn parse_remove_item_list(src: &Source, kids: &Vec<Pair>, acc: Vec<RemoveItem>) -> (r: Result<
    Vec<RemoveItem>,
    GraphError,
>)
    requires
        tree::fits(*src, kids@),
    ensures
        tree::remove_items_out(r) == forms::remove_items_from(
            src@,
            peg::pairs_view(kids@),
            0,
            ast_model::remove_items_view(acc@),
        ),
{
    let ghost ks = peg::pairs_view(kids@);
    let mut out = acc;
    let mut i: usize = 0;
    while i < kids.len()
        invariant
            tree::fits(*src, kids@),
            ks == peg::pairs_view(kids@),
            forms::remove_items_from(src@, ks, 0, ast_model::remove_items_view(acc@))
                == forms::remove_items_from(
                src@,
                ks,
                i as int,
                ast_model::remove_items_view(out@),
            ),
        decreases kids.len() - i,
    {
        assert(peg::within(ks[i as int], src@.len()));
        if kids[i].rule == Rule::RemoveItem {
            match parse_remove_item(src, &kids[i]) {
                Err(e) => {
                    return Err(e);
                },
                Ok(x) => {
                    out.push(x);
                },
            }
        }
        i = i + 1;
    }
    Ok(out)
}

/// Adds the patterns of a CREATE clause.
fn parse_creates(src: &Source, kids: &Vec<Pair>, acc: Vec<Pattern>, d: DepthGuard) -> (r: Result<
    Vec<Pattern>,
    GraphError,
>)
    requires
        tree::fits(*src, kids@),
    ensures
        tree::patterns_out(r) == forms::creates_from(
            src@,
            peg::pairs_view(kids@),
            0,
            ast_model::patterns_view(acc@),
            d.depth as nat,
        ),
{
    let ghost ks = peg::pairs_view(kids@);
    let mut out = acc;
    let mut i: usize = 0;
    while i < kids.len()
        invariant
            tree::fits(*src, kids@),
            ks == peg::pairs_view(kids@),
            forms::creates_from(src@, ks, 0, ast_model::patterns_view(acc@), d.depth as nat)
                == forms::creates_from(
                src@,
                ks,
                i as int,
                ast_model::patterns_view(out@),
                d.depth as nat,
            ),
        decreases kids.len() - i,
    {
        assert(peg::within(ks[i as int], src@.len()));
        if kids[i].rule == Rule::CreatePattern {
            match parse_pattern(src, &kids[i], d) {
                Err(e) => {
                    return Err(e);
                },
                Ok(x) => {
                    out.push(x);
                },
            }
        }
        i = i + 1;
    }
    Ok(out)
}

/// The parts of a statement with a MATCH clause more.
fn add_match(acc: Parts, m: Parts) -> (r: Parts)
    ensures
        r@ == forms::with_match(acc@, forms::matched(m@)),
{
    let mut acc = acc;
    if acc.first {
        acc.patterns = m.patterns;
        acc.optional_patterns = m.optional_patterns;
        acc.where_clause = m.where_clause;
        acc.first = false;
    } else {
        acc.intermediate.push(
            IntermediateClause::Match(
                IntermediateMatch {
                    patterns: m.patterns,
                    optional_patterns: m.optional_patterns,
                    where_clause: m.where_clause,
                },
            ),
        );
    }
    acc
}

/// Takes one more node into a statement: what MATCH matches.
fn parse_reading_part(src: &Source, acc: Parts, k: &Pair, d: DepthGuard) -> (r: Result<
    Parts,
    GraphError,
>)
    requires
        tree::fits_one(*src, *k),
        k.rule == Rule::PatternList || k.rule == Rule::OptionalMatchClause || k.rule
            == Rule::WhereClause || k.rule == Rule::MatchPart,
    ensures
        types::outcome(r) == forms::part_step(src@, acc@, k@, d.depth as nat),
    decreases k, 20int,
{
    let mut acc = acc;
    if k.rule == Rule::MatchPart {
        return match parse_match_part(src, k, d) {
            Err(e) => Err(e),
            Ok(m) => Ok(add_match(acc, m)),
        };
    }
    if acc.closed {
        return Ok(acc);
    }
    if k.rule == Rule::PatternList {
        match parse_pattern_list(src, k, d) {
            Err(e) => Err(e),
            Ok(x) => {
                acc.patterns = x;
                Ok(acc)
            },
        }
    } else if k.rule == Rule::WhereClause {
        match parse_where(src, k, d) {
            Err(e) => Err(e),
            Ok(x) => {
                acc.where_clause = Some(x);
                Ok(acc)
            },
        }
    } else {
        match parse_optional_match_clause(src, k, d) {
            Err(e) => Err(e),
            Ok(m) => {
                acc.optional_patterns.push(
                    OptionalMatch { patterns: m.patterns, where_clause: m.where_clause },
                );
                Ok(acc)
            },
        }
    }
}

/// The parts of a MATCH clause.
fn parse_match_part(src: &Source, pair: &Pair, d: DepthGuard) -> (r: Result<Parts, GraphError>)
    requires
        tree::fits_one(*src, *pair),
    ensures
        types::outcome(r) == forms::parts(src@, pair@, false, d.depth as nat),
    decreases pair, 10int,
{
    parse_parts(src, &pair.children, Parts::none(false), d)
}

/// The parts of an OPTIONAL MATCH clause.
fn parse_optional_match_clause(src: &Source, pair: &Pair, d: DepthGuard) -> (r: Result<
    Parts,
    GraphError,
>)
    requires
        tree::fits_one(*src, *pair),
    ensures
        types::outcome(r) == forms::parts(src@, pair@, false, d.depth as nat),
    decreases pair, 10int,
{
    parse_parts(src, &pair.children, Parts::none(false), d)
}

/// Takes one more node into a statement: what it writes.
fn parse_writing_part(src: &Source, acc: Parts, k: &Pair, d: DepthGuard) -> (r: Result<
    Parts,
    GraphError,
>)
    requires
        tree::fits_one(*src, *k),
        k.rule != Rule::PatternList && k.rule != Rule::OptionalMatchClause && k.rule
            != Rule::WhereClause && k.rule != Rule::MatchPart,
    ensures
        types::outcome(r) == forms::part_step(src@, acc@, k@, d.depth as nat),
{
    let mut acc = acc;
    let kids = &k.children;
    match k.rule {
        Rule::CreatePatternList => match parse_creates(src, kids, acc.create_patterns, d) {
            Err(e) => Err(e),
            Ok(x) => {
                acc.create_patterns = x;
                Ok(acc)
            },
        },
        Rule::PatternItem => match parse_pattern_item(src, k, d) {
            Err(e) => Err(e),
            Ok(x) => {
                acc.merge_pattern = Some(x);
                Ok(acc)
            },
        },
        Rule::OnCreateClause => match parse_assignments_under(src, kids, d) {
            Err(e) => Err(e),
            Ok(x) => {
                acc.on_create = x;
                Ok(acc)
            },
        },
        Rule::OnMatchClause => match parse_assignments_under(src, kids, d) {
            Err(e) => Err(e),
            Ok(x) => {
                acc.on_match = x;
                Ok(acc)
            },
        },
        Rule::AssignmentList => match parse_set_item_list(src, kids, d) {
            Err(e) => Err(e),
            Ok(x) => {
                acc.items = x;
                acc.closed = true;
                Ok(acc)
            },
        },
        Rule::RemoveItemList => match parse_remove_item_list(src, kids, acc.removals) {
            Err(e) => Err(e),
            Ok(x) => {
                acc.removals = x;
                Ok(acc)
            },
        },
        Rule::DetachKeyword => {
            acc.detach = true;
            Ok(acc)
        },
        Rule::DeleteExprList => match parse_exprs(src, kids, acc.exprs, d) {
            Err(e) => Err(e),
            Ok(x) => {
                acc.exprs = x;
                Ok(acc)
            },
        },
        _ => parse_tail(src, acc, k, d),
    }
}

/// The parts of a statement or clause.
fn parse_parts(src: &Source, kids: &Vec<Pair>, init: Parts, d: DepthGuard) -> (r: Result<
    Parts,
    GraphError,
>)
    requires
        tree::fits(*src, kids@),
    ensures
        types::outcome(r) == forms::parts_from(
            src@,
            peg::pairs_view(kids@),
            0,
            init@,
            d.depth as nat,
        ),
    decreases kids, 0int,
{
    let ghost ks = peg::pairs_view(kids@);
    let mut acc = init;
    let mut i: usize = 0;
    assert(decreases_to!(kids => kids@));
    while i < kids.len()
        invariant
            tree::fits(*src, kids@),
            ks == peg::pairs_view(kids@),
            decreases_to!(kids => kids@),
            forms::parts_from(src@, ks, 0, init@, d.depth as nat) == forms::parts_from(
                src@,
                ks,
                i as int,
                acc@,
                d.depth as nat,
            ),
        decreases kids.len() - i,
    {
        assert(peg::within(ks[i as int], src@.len()));
        let rule = kids[i].rule;
        let read = if rule == Rule::PatternList || rule == Rule::OptionalMatchClause || rule
            == Rule::WhereClause || rule == Rule::MatchPart {
            parse_reading_part(src, acc, &kids[i], d)
        } else {
            parse_writing_part(src, acc, &kids[i], d)
        };
        match read {
            Err(e) => {
                return Err(e);
            },
            Ok(next) => {
                acc = next;
            },
        }
        i = i + 1;
    }
    Ok(acc)
}

/// The parts of the statement that a node stands for.
fn parse_statement_parts(src: &Source, pair: &Pair, first: bool, d: DepthGuard) -> (r: Result<
    Parts,
    GraphError,
>)
    requires
        tree::fits_one(*src, *pair),
    ensures
        types::outcome(r) == forms::parts(src@, pair@, first, d.depth as nat),
{
    parse_parts(src, &pair.children, Parts::none(first), d)
}

/// MATCH ... RETURN.
fn parse_match(m: Parts) -> (r: Result<MatchStatement, GraphError>)
    ensures
        types::outcome(r) == forms::match_statement(m@),
{
    match m.return_clause {
        None => Err(fault("missing RETURN clause")),
        Some(return_clause) => Ok(
            MatchStatement {
                patterns: m.patterns,
                optional_patterns: m.optional_patterns,
                where_clause: m.where_clause,
                intermediate_clauses: m.intermediate,
                return_clause,
                order_by: m.order_by,
                skip: m.skip,
                limit: m.limit,
            },
        ),
    }
}

/// RETURN.
fn parse_return_stmt(m: Parts) -> (r: Result<ReturnStatement, GraphError>)
    ensures
        types::outcome(r) == forms::return_statement(m@),
{
    match m.return_clause {
        None => Err(fault("missing RETURN clause")),
        Some(return_clause) => Ok(
            ReturnStatement { return_clause, order_by: m.order_by, skip: m.skip, limit: m.limit },
        ),
    }
}

/// CREATE.
fn parse_create(m: Parts) -> (r: CreateStatement)
    ensures
        r@ == forms::create_statement(m@),
{
    CreateStatement {
        patterns: m.create_patterns,
        return_clause: m.return_clause,
        order_by: m.order_by,
        skip: m.skip,
        limit: m.limit,
    }
}

/// MATCH ... CREATE.
fn parse_match_create(m: Parts) -> (r: MatchCreateStatement)
    ensures
        r@ == forms::match_create_statement(m@),
{
    MatchCreateStatement {
        patterns: m.patterns,
        where_clause: m.where_clause,
        create_patterns: m.create_patterns,
        return_clause: m.return_clause,
        order_by: m.order_by,
        skip: m.skip,
        limit: m.limit,
    }
}

/// MATCH ... MERGE.
fn parse_match_merge(m: Parts) -> (r: Result<MatchMergeStatement, GraphError>)
    ensures
        types::outcome(r) == forms::match_merge_statement(m@),
{
    match m.merge_pattern {
        None => Err(fault("missing MERGE pattern")),
        Some(merge_pattern) => Ok(
            MatchMergeStatement {
                patterns: m.patterns,
                where_clause: m.where_clause,
                merge_pattern,
                on_create: m.on_create,
                on_match: m.on_match,
                return_clause: m.return_clause,
                order_by: m.order_by,
                skip: m.skip,
                limit: m.limit,
            },
        ),
    }
}

/// MERGE.
fn parse_merge(m: Parts) -> (r: Result<MergeStatement, GraphError>)
    ensures
        types::outcome(r) == forms::merge_statement(m@),
{
    match m.merge_pattern {
        None => Err(fault("missing MERGE pattern")),
        Some(pattern) => Ok(
            MergeStatement {
                pattern,
                on_create: m.on_create,
                on_match: m.on_match,
                return_clause: m.return_clause,
                order_by: m.order_by,
                skip: m.skip,
                limit: m.limit,
            },
        ),
    }
}

/// MATCH ... DELETE.
fn parse_delete(m: Parts) -> (r: DeleteStatement)
    ensures
        r@ == forms::delete_statement(m@),
{
    DeleteStatement {
        patterns: m.patterns,
        optional_patterns: m.optional_patterns,
        where_clause: m.where_clause,
        detach: m.detach,
        exprs: m.exprs,
        return_clause: m.return_clause,
        order_by: m.order_by,
        skip: m.skip,
        limit: m.limit,
    }
}

/// MATCH ... SET.
fn parse_set(m: Parts) -> (r: SetStatement)
    ensures
        r@ == forms::set_statement(m@),
{
    SetStatement {
        patterns: m.patterns,
        optional_patterns: m.optional_patterns,
        where_clause: m.where_clause,
        items: m.items,
        intermediate_clauses: m.intermediate,
        return_clause: m.return_clause,
        order_by: m.order_by,
        skip: m.skip,
        limit: m.limit,
    }
}

/// MATCH ... REMOVE.
fn parse_remove(m: Parts) -> (r: RemoveStatement)
    ensures
        r@ == forms::remove_statement(m@),
{
    RemoveStatement {
        patterns: m.patterns,
        optional_patterns: m.optional_patterns,
        where_clause: m.where_clause,
        items: m.removals,
        return_clause: m.return_clause,
        order_by: m.order_by,
        skip: m.skip,
        limit: m.limit,
    }
}

/// What follows the UNWIND of an UNWIND statement.
fn parse_unwind_body(src: &Source, kids: &Vec<Pair>, d: DepthGuard) -> (r: Result<
    UnwindBody,
    GraphError,
>)
    requires
        tree::fits(*src, kids@),
    ensures
        types::outcome(r) == forms::unwind_body(src@, peg::pairs_view(kids@), d.depth as nat),
{
    let i = tree::first_place(kids, Rule::UnwindReturn, 0);
    let j = tree::first_place(kids, Rule::UnwindCreate, 0);
    if i < kids.len() {
        assert(peg::within(peg::pairs_view(kids@)[i as int], src@.len()));
        let m = match parse_statement_parts(src, &kids[i], false, d) {
            Err(e) => {
                return Err(e);
            },
            Ok(m) => m,
        };
        match m.return_clause {
            None => Err(fault("missing RETURN clause in UNWIND")),
            Some(return_clause) => Ok(
                UnwindBody::Return {
                    where_clause: m.where_clause,
                    intermediate_clauses: m.intermediate,
                    return_clause,
                    order_by: m.order_by,
                    skip: m.skip,
                    limit: m.limit,
                },
            ),
        }
    } else if j < kids.len() {
        assert(peg::within(peg::pairs_view(kids@)[j as int], src@.len()));
        match parse_statement_parts(src, &kids[j], false, d) {
            Err(e) => Err(e),
            Ok(m) => Ok(
                UnwindBody::Create {
                    patterns: m.create_patterns,
                    intermediate_clauses: m.intermediate,
                    return_clause: m.return_clause,
                    order_by: m.order_by,
                    skip: m.skip,
                    limit: m.limit,
                },
            ),
        }
    } else {
        Err(fault("missing UNWIND body"))
    }
}

/// UNWIND.
fn parse_unwind(src: &Source, pair: &Pair, d: DepthGuard) -> (r: Result<
    UnwindStatement,
    GraphError,
>)
    requires
        tree::fits_one(*src, *pair),
    ensures
        types::outcome(r) == forms::unwind_statement(src@, pair@, d.depth as nat),
{
    match parse_unwind_clause(src, pair, d) {
        Err(e) => Err(e),
        Ok(u) => match parse_unwind_body(src, &pair.children, d) {
            Err(e) => Err(e),
            Ok(body) => Ok(UnwindStatement { expr: u.expr, alias: u.alias, body }),
        },
    }
}

/// The columns that a YIELD names, each with the name it goes by.
fn parse_yields(src: &Source, kids: &Vec<Pair>) -> (r: Vec<(String, Option<String>)>)
    requires
        tree::fits(*src, kids@),
    ensures
        ast_model::yields_view(r@) == forms::yields_from(
            src@,
            peg::pairs_view(kids@),
            0,
            Seq::empty(),
        ),
{
    let ghost ks = peg::pairs_view(kids@);
    let mut out: Vec<(String, Option<String>)> = Vec::new();
    let mut i: usize = 0;
    while i < kids.len()
        invariant
            tree::fits(*src, kids@),
            ks == peg::pairs_view(kids@),
            forms::yields_from(src@, ks, 0, Seq::empty()) == forms::yields_from(
                src@,
                ks,
                i as int,
                ast_model::yields_view(out@),
            ),
        decreases kids.len() - i,
    {
        assert(peg::within(ks[i as int], src@.len()));
        let names = &kids[i].children;
        assert(ks[i as int].children == peg::pairs_view(names@));
        if kids[i].rule == Rule::YieldItem && names.len() > 0 {
            assert(peg::within(peg::pairs_view(names@)[0], src@.len()));
            let column = src.text(&names[0]);
            let alias = if names.len() > 1 {
                assert(peg::within(peg::pairs_view(names@)[1], src@.len()));
                Some(src.text(&names[1]))
            } else {
                None
            };
            out.push((column, alias));
        }
        i = i + 1;
    }
    out
}

/// What a YIELD clause asks for: the columns that it names, and whether it takes every one.
fn parse_yield_clause(src: &Source, kids: &Vec<Pair>) -> (r: (
    Option<Vec<(String, Option<String>)>>,
    bool,
))
    requires
        tree::fits(*src, kids@),
    ensures
        ast_model::opt_yields_view(r.0) == forms::yield_items(src@, peg::pairs_view(kids@)),
        r.1 == forms::yield_star(peg::pairs_view(kids@)),
{
    let star = tree::count_of(kids, Rule::YieldStar) > 0;
    match tree::last_place(kids, Rule::YieldItems) {
        None => (None, star),
        Some(i) => {
            let ghost k = peg::pairs_view(kids@)[i as int];
            assert(peg::within(k, src@.len()));
            assert(k.children == peg::pairs_view(kids@[i as int].children@));
            (Some(parse_yields(src, &kids[i].children)), star)
        },
    }
}

/// The parts of a CALL that have been read.
struct CallAcc {
    procedure_name: String,
    args: Vec<Expr>,
    yield_items: Option<Vec<(String, Option<String>)>>,
    yield_star: bool,
}

impl View for CallAcc {
    type V = forms::CallView;

    closed spec fn view(&self) -> forms::CallView {
        forms::CallView {
            procedure_name: self.procedure_name@,
            args: ast_model::exprs_view(self.args@),
            yield_items: ast_model::opt_yields_view(self.yield_items),
            yield_star: self.yield_star,
        }
    }
}

/// The parts of a CALL.
fn parse_call_parts(src: &Source, kids: &Vec<Pair>, d: DepthGuard) -> (r: Result<
    CallAcc,
    GraphError,
>)
    requires
        tree::fits(*src, kids@),
    ensures
        types::outcome(r) == forms::call_from(
            src@,
            peg::pairs_view(kids@),
            0,
            forms::no_call(),
            d.depth as nat,
        ),
{
    let ghost ks = peg::pairs_view(kids@);
    let mut acc = CallAcc {
        procedure_name: String::new(),
        args: Vec::new(),
        yield_items: None,
        yield_star: false,
    };
    assert(acc@.procedure_name =~= Seq::<char>::empty());
    let mut i: usize = 0;
    while i < kids.len()
        invariant
            tree::fits(*src, kids@),
            ks == peg::pairs_view(kids@),
            forms::call_from(src@, ks, 0, forms::no_call(), d.depth as nat) == forms::call_from(
                src@,
                ks,
                i as int,
                acc@,
                d.depth as nat,
            ),
        decreases kids.len() - i,
    {
        assert(peg::within(ks[i as int], src@.len()));
        match kids[i].rule {
            Rule::ProcedureName => {
                acc.procedure_name = src.text(&kids[i]);
            },
            Rule::Expr => match parse_expr(src, &kids[i], d) {
                Err(e) => {
                    return Err(e);
                },
                Ok(x) => {
                    acc.args.push(x);
                },
            },
            Rule::YieldClause => {
                let (items, star) = parse_yield_clause(src, &kids[i].children);
                acc.yield_items = items;
                acc.yield_star = star;
            },
            _ => {},
        }
        i = i + 1;
    }
    Ok(acc)
}

/// True when a parenthesis opens before any YIELD.
fn has_parens(t: &str) -> (r: bool)
    ensures
        r == forms::has_parens(t@),
{
    let v = text::chars_of(t);
    let w = text::chars_of("yield");
    let mut i: usize = 0;
    while i < v.len()
        invariant
            v@ == t@,
            w@ == "yield"@,
            i <= v.len(),
            forall|j: int| 0 <= j < i ==> t@[j] != '(',
            forall|j: int| 0 <= j < i ==> !text::stands_at(t@, j, "yield"@),
        decreases v.len() - i,
    {
        if text::word_stands(&v, i, &w) {
            return false;
        }
        if v[i] == '(' {
            assert(t@[i as int] == '(');
            return true;
        }
        i = i + 1;
    }
    false
}

/// An optional expression behind a pointer.
fn boxed(o: Option<Expr>) -> (r: Option<Box<Expr>>)
    ensures
        ast_model::opt_box_view(r) == forms::boxed(ast_model::opt_expr_view(o)),
{
    match o {
        None => None,
        Some(x) => Some(Box::new(x)),
    }
}

/// CALL.
fn parse_call(src: &Source, pair: &Pair, d: DepthGuard) -> (r: Result<Statement, GraphError>)
    requires
        tree::fits_one(*src, *pair),
    ensures
        types::outcome(r) == forms::call_statement(src@, pair@, d.depth as nat),
{
    let c = match parse_call_parts(src, &pair.children, d) {
        Err(e) => {
            return Err(e);
        },
        Ok(c) => c,
    };
    match parse_statement_parts(src, pair, false, d) {
        Err(e) => Err(e),
        Ok(m) => Ok(
            Statement::Call {
                procedure_name: c.procedure_name,
                args: c.args,
                implicit_args: !has_parens(src.text(pair).as_str()),
                yield_items: c.yield_items,
                yield_star: c.yield_star,
                return_clause: m.return_clause,
                order_by: m.order_by,
                skip: boxed(m.skip),
                limit: boxed(m.limit),
            },
        ),
    }
}

/// A CALL clause.
fn parse_multi_call_clause(src: &Source, pair: &Pair, d: DepthGuard) -> (r: Result<
    Clause,
    GraphError,
>)
    requires
        tree::fits_one(*src, *pair),
    ensures
        types::outcome(r) == forms::call_clause(src@, pair@, d.depth as nat),
{
    match parse_call_parts(src, &pair.children, d) {
        Err(e) => Err(e),
        Ok(c) => Ok(
            Clause::Call {
                procedure_name: c.procedure_name,
                args: c.args,
                implicit_args: !has_parens(src.text(pair).as_str()),
                yield_items: c.yield_items,
                yield_star: c.yield_star,
            },
        ),
    }
}

/// True when the node is a clause of a multi-clause statement.
fn is_clause(r: Rule) -> (b: bool)
    ensures
        b == forms::is_clause(r),
{
    match r {
        Rule::MultiMatchClause => true,
        Rule::MultiCreateClause => true,
        Rule::MultiMergeClause => true,
        Rule::MultiSetClause => true,
        Rule::MultiRemoveClause => true,
        Rule::MultiDeleteClause => true,
        Rule::MultiCallClause => true,
        Rule::UnwindClause => true,
        Rule::WithClause => true,
        _ => false,
    }
}

/// What an optional clause says.
pub open spec fn opt_clause_view(o: Option<Clause>) -> Option<ClauseView> {
    match o {
        None => None,
        Some(c) => Some(c@),
    }
}

/// What an optional clause or an error says.
pub open spec fn opt_clause_out(r: Result<Option<Clause>, GraphError>) -> Result<
    Option<ClauseView>,
    ErrorView,
> {
    match r {
        Ok(c) => Ok(opt_clause_view(c)),
        Err(e) => Err(e@),
    }
}

/// The clause that is made of the parts.
fn part_clause(rule: Rule, m: Parts) -> (r: Option<Clause>)
    ensures
        opt_clause_view(r) == forms::part_clause(rule, m@),
{
    match rule {
        Rule::MultiMatchClause => Some(
            Clause::Match {
                patterns: m.patterns,
                optional_patterns: m.optional_patterns,
                where_clause: m.where_clause,
            },
        ),
        Rule::MultiCreateClause => Some(Clause::Create { patterns: m.create_patterns }),
        Rule::MultiMergeClause => match m.merge_pattern {
            None => None,
            Some(pattern) => Some(
                Clause::Merge { pattern, on_create: m.on_create, on_match: m.on_match },
            ),
        },
        Rule::MultiSetClause => Some(Clause::SetItems { items: m.items }),
        Rule::MultiRemoveClause => Some(Clause::Remove { items: m.removals }),
        _ => Some(Clause::Delete { exprs: m.exprs, detach: m.detach }),
    }
}

/// The clause that a node of a multi-clause statement stands for.
fn parse_clause(src: &Source, k: &Pair, d: DepthGuard) -> (r: Result<Option<Clause>, GraphError>)
    requires
        tree::fits_one(*src, *k),
    ensures
        opt_clause_out(r) == forms::clause(src@, k@, d.depth as nat),
{
    match k.rule {
        Rule::MultiCallClause => match parse_multi_call_clause(src, k, d) {
            Err(e) => Err(e),
            Ok(c) => Ok(Some(c)),
        },
        Rule::UnwindClause => match parse_unwind_clause(src, k, d) {
            Err(e) => Err(e),
            Ok(x) => Ok(Some(Clause::Unwind(x))),
        },
        Rule::WithClause => match parse_with(src, k, d) {
            Err(e) => Err(e),
            Ok(x) => Ok(Some(Clause::With(x))),
        },
        _ => match parse_statement_parts(src, k, false, d) {
            Err(e) => Err(e),
            Ok(m) => Ok(part_clause(k.rule, m)),
        },
    }
}

/// What clauses and other parts or an error say.
pub open spec fn multi_out(r: Result<(Vec<Clause>, Parts), GraphError>) -> Result<
    (Seq<ClauseView>, meaning::PartsView),
    ErrorView,
> {
    match r {
        Ok((cs, m)) => Ok((ast_model::clauses_view(cs@), m@)),
        Err(e) => Err(e@),
    }
}

/// The clauses and the other parts of a multi-clause statement.
fn parse_clauses(src: &Source, kids: &Vec<Pair>, d: DepthGuard) -> (r: Result<
    (Vec<Clause>, Parts),
    GraphError,
>)
    requires
        tree::fits(*src, kids@),
    ensures
        multi_out(r) == forms::multi_from(
            src@,
            peg::pairs_view(kids@),
            0,
            Seq::empty(),
            meaning::no_parts(false),
            d.depth as nat,
        ),
{
    let ghost ks = peg::pairs_view(kids@);
    let mut cs: Vec<Clause> = Vec::new();
    let mut acc = Parts::none(false);
    let mut i: usize = 0;
    while i < kids.len()
        invariant
            tree::fits(*src, kids@),
            ks == peg::pairs_view(kids@),
            forms::multi_from(
                src@,
                ks,
                0,
                Seq::empty(),
                meaning::no_parts(false),
                d.depth as nat,
            ) == forms::multi_from(
                src@,
                ks,
                i as int,
                ast_model::clauses_view(cs@),
                acc@,
                d.depth as nat,
            ),
        decreases kids.len() - i,
    {
        assert(peg::within(ks[i as int], src@.len()));
        if is_clause(kids[i].rule) {
            match parse_clause(src, &kids[i], d) {
                Err(e) => {
                    return Err(e);
                },
                Ok(None) => {},
                Ok(Some(c)) => {
                    cs.push(c);
                },
            }
        } else {
            match parse_tail(src, acc, &kids[i], d) {
                Err(e) => {
                    return Err(e);
                },
                Ok(next) => {
                    acc = next;
                },
            }
        }
        i = i + 1;
    }
    Ok((cs, acc))
}

/// Reading and writing clauses in any order.
fn parse_multi_clause(src: &Source, pair: &Pair, d: DepthGuard) -> (r: Result<
    MultiClauseStatement,
    GraphError,
>)
    requires
        tree::fits_one(*src, *pair),
    ensures
        types::outcome(r) == forms::multi_statement(src@, pair@, d.depth as nat),
{
    match parse_clauses(src, &pair.children, d) {
        Err(e) => Err(e),
        Ok((clauses, m)) => Ok(
            MultiClauseStatement {
                clauses,
                return_clause: m.return_clause,
                order_by: m.order_by,
                skip: m.skip,
                limit: m.limit,
            },
        ),
    }
}

/// A statement that is made of its parts alone.
fn part_statement(rule: Rule, m: Parts) -> (r: Result<Statement, GraphError>)
    ensures
        types::outcome(r) == forms::part_statement(rule, m@),
{
    match rule {
        Rule::CreateStmt => Ok(Statement::Create(parse_create(m))),
        Rule::MatchCreateStmt => Ok(Statement::MatchCreate(parse_match_create(m))),
        Rule::MatchMergeStmt => match parse_match_merge(m) {
            Err(e) => Err(e),
            Ok(x) => Ok(Statement::MatchMerge(x)),
        },
        Rule::DeleteStmt => Ok(Statement::Delete(parse_delete(m))),
        Rule::SetStmt => Ok(Statement::SetProps(parse_set(m))),
        Rule::RemoveStmt => Ok(Statement::Remove(parse_remove(m))),
        Rule::MergeStmt => match parse_merge(m) {
            Err(e) => Err(e),
            Ok(x) => Ok(Statement::Merge(x)),
        },
        Rule::ReturnStmt => match parse_return_stmt(m) {
            Err(e) => Err(e),
            Ok(x) => Ok(Statement::Return(x)),
        },
        Rule::MatchStmt => match parse_match(m) {
            Err(e) => Err(e),
            Ok(x) => Ok(Statement::Match(x)),
        },
        Rule::WithStmt => match parse_match(m) {
            Err(e) => Err(e),
            Ok(x) => Ok(Statement::Match(x)),
        },
        r => Err(unexpected("unexpected rule: ", r)),
    }
}

/// True when the statement is made of its parts alone.
fn has_parts(r: Rule) -> (b: bool)
    ensures
        b == forms::has_parts(r),
{
    match r {
        Rule::CreateStmt => true,
        Rule::MatchCreateStmt => true,
        Rule::MatchMergeStmt => true,
        Rule::DeleteStmt => true,
        Rule::SetStmt => true,
        Rule::RemoveStmt => true,
        Rule::MergeStmt => true,
        Rule::ReturnStmt => true,
        Rule::MatchStmt => true,
        Rule::WithStmt => true,
        _ => false,
    }
}

/// A statement other than EXPLAIN.
fn parse_plain_stmt(src: &Source, pair: &Pair, d: DepthGuard) -> (r: Result<Statement, GraphError>)
    requires
        tree::fits_one(*src, *pair),
    ensures
        types::outcome(r) == forms::plain_statement(src@, pair@, d.depth as nat),
{
    match pair.rule {
        Rule::MultiClauseStmt => match parse_multi_clause(src, pair, d) {
            Err(e) => Err(e),
            Ok(x) => Ok(Statement::MultiClause(x)),
        },
        Rule::UnwindStmt => match parse_unwind(src, pair, d) {
            Err(e) => Err(e),
            Ok(x) => Ok(Statement::Unwind(x)),
        },
        Rule::CallStmt => parse_call(src, pair, d),
        r => if has_parts(r) {
            match parse_statement_parts(src, pair, r == Rule::MatchStmt, d) {
                Err(e) => Err(e),
                Ok(m) => part_statement(r, m),
            }
        } else {
            Err(unexpected("unexpected rule: ", r))
        },
    }
}

/// True for a statement that EXPLAIN takes.
fn explainable(r: Rule) -> (b: bool)
    ensures
        b == forms::explainable(r),
{
    match r {
        Rule::MatchStmt => true,
        Rule::MatchCreateStmt => true,
        Rule::UnwindStmt => true,
        Rule::WithStmt => true,
        Rule::MultiClauseStmt => true,
        _ => false,
    }
}

/// EXPLAIN.
fn parse_explain(src: &Source, pair: &Pair, d: DepthGuard) -> (r: Result<Statement, GraphError>)
    requires
        tree::fits_one(*src, *pair),
    ensures
        types::outcome(r) == forms::explain(src@, pair@, d.depth as nat),
{
    if pair.children.len() == 0 {
        return Err(fault("EXPLAIN requires a statement"));
    }
    assert(peg::within(peg::pairs_view(pair.children@)[0], src@.len()));
    let inner = &pair.children[0];
    if !explainable(inner.rule) {
        return Err(unexpected("EXPLAIN not supported for ", inner.rule));
    }
    match parse_plain_stmt(src, inner, d) {
        Err(e) => Err(e),
        Ok(x) => Ok(Statement::Explain(Box::new(x))),
    }
}

/// A single statement.
fn parse_single_stmt(src: &Source, pair: &Pair, d: DepthGuard) -> (r: Result<
    Statement,
    GraphError,
>)
    requires
        tree::fits_one(*src, *pair),
    ensures
        types::outcome(r) == forms::single(src@, pair@, d.depth as nat),
{
    if pair.rule == Rule::ExplainStmt {
        parse_explain(src, pair, d)
    } else {
        parse_plain_stmt(src, pair, d)
    }
}

/// The parts of a UNION that have been read.
struct UnionAcc {
    statements: Vec<Statement>,
    has_all: bool,
    has_plain: bool,
}

impl View for UnionAcc {
    type V = forms::UnionView;

    closed spec fn view(&self) -> forms::UnionView {
        forms::UnionView {
            statements: ast_model::statements_view(self.statements@),
            has_all: self.has_all,
            has_plain: self.has_plain,
        }
    }
}

/// The parts of a UNION.
fn parse_union_parts(src: &Source, kids: &Vec<Pair>, init: UnionAcc, d: DepthGuard) -> (r: Result<
    UnionAcc,
    GraphError,
>)
    requires
        tree::fits(*src, kids@),
    ensures
        types::outcome(r) == forms::union_from(
            src@,
            peg::pairs_view(kids@),
            0,
            init@,
            d.depth as nat,
        ),
{
    let ghost ks = peg::pairs_view(kids@);
    let mut acc = init;
    let mut i: usize = 0;
    while i < kids.len()
        invariant
            tree::fits(*src, kids@),
            ks == peg::pairs_view(kids@),
            forms::union_from(src@, ks, 0, init@, d.depth as nat) == forms::union_from(
                src@,
                ks,
                i as int,
                acc@,
                d.depth as nat,
            ),
        decreases kids.len() - i,
    {
        assert(peg::within(ks[i as int], src@.len()));
        let inner = &kids[i].children;
        assert(ks[i as int].children == peg::pairs_view(inner@));
        if kids[i].rule == Rule::SingleStmt {
            if inner.len() == 0 {
                return Err(malformed());
            }
            assert(peg::within(peg::pairs_view(inner@)[0], src@.len()));
            match parse_single_stmt(src, &inner[0], d) {
                Err(e) => {
                    return Err(e);
                },
                Ok(x) => {
                    acc.statements.push(x);
                },
            }
        } else if kids[i].rule == Rule::UnionOp {
            if text::has_word(src.text(&kids[i]).as_str(), "all") {
                acc.has_all = true;
            } else {
                acc.has_plain = true;
            }
        }
        i = i + 1;
    }
    Ok(acc)
}

/// One statement, or several with UNION between them.
pub fn parse_union_stmt(src: &Source, pair: &Pair, d: DepthGuard) -> (r: Result<
    Statement,
    GraphError,
>)
    requires
        tree::fits_one(*src, *pair),
    ensures
        types::outcome(r) == forms::union(src@, pair@, d.depth as nat),
{
    let none = UnionAcc { statements: Vec::new(), has_all: false, has_plain: false };
    let mut u = match parse_union_parts(src, &pair.children, none, d) {
        Err(e) => {
            return Err(e);
        },
        Ok(u) => u,
    };
    if u.statements.len() == 1 {
        let x = u.statements.remove(0);
        Ok(x)
    } else if u.has_all && u.has_plain {
        Err(
            GraphError::query(
                QueryPhase::Parse,
                ErrorCode::InvalidClauseComposition,
                text::owned("InvalidClauseComposition: cannot mix UNION and UNION ALL"),
            ),
        )
    } else {
        Ok(Statement::Union { statements: u.statements, all: !u.has_plain })
    }
}

} // verus!
