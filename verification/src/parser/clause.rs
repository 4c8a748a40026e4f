//! Building clauses.
use super::expr::{parse_condition_at, parse_expr, parse_expr_under};
use super::meaning;
use super::pattern;
use super::peg;
use super::peg::Pair;
use super::rule::Rule;
use super::source::Source;
use super::tree;
use super::tree::{fault, malformed, DepthGuard};
use crate::ast::{
    Expr, IntermediateClause, OptionalMatch, Pattern, RemoveItem, ReturnClause, ReturnItem,
    SetItem, SortItem, UnwindClause, WithClause,
};
use crate::ast_model;
use crate::text;
use crate::types;
use crate::types::GraphError;
use vstd::prelude::*;

verus! {

broadcast use ast_model::group_list_views;

/// The parts of a statement that have been read.
pub struct Parts {
    pub patterns: Vec<Pattern>,
    pub optional_patterns: Vec<OptionalMatch>,
    pub where_clause: Option<Expr>,
    pub intermediate: Vec<IntermediateClause>,
    pub return_clause: Option<ReturnClause>,
    pub order_by: Vec<SortItem>,
    pub skip: Option<Expr>,
    pub limit: Option<Expr>,
    pub create_patterns: Vec<Pattern>,
    pub merge_pattern: Option<Pattern>,
    pub on_create: Vec<SetItem>,
    pub on_match: Vec<SetItem>,
    pub items: Vec<SetItem>,
    pub removals: Vec<RemoveItem>,
    pub detach: bool,
    pub exprs: Vec<Expr>,
    /// The first MATCH is still to come.
    pub first: bool,
    /// The SET items have been read.
    pub closed: bool,
}

impl View for Parts {
    type V = meaning::PartsView;

    open spec fn view(&self) -> meaning::PartsView {
        meaning::PartsView {
            patterns: ast_model::patterns_view(self.patterns@),
            optional_patterns: ast_model::optional_matchs_view(self.optional_patterns@),
            where_clause: ast_model::opt_expr_view(self.where_clause),
            intermediate: ast_model::intermediate_clauses_view(self.intermediate@),
            return_clause: ast_model::opt_return_clause_view(self.return_clause),
            order_by: ast_model::sort_items_view(self.order_by@),
            skip: ast_model::opt_expr_view(self.skip),
            limit: ast_model::opt_expr_view(self.limit),
            create_patterns: ast_model::patterns_view(self.create_patterns@),
            merge_pattern: pattern::opt_pattern_view(self.merge_pattern),
            on_create: ast_model::set_items_view(self.on_create@),
            on_match: ast_model::set_items_view(self.on_match@),
            items: ast_model::set_items_view(self.items@),
            removals: ast_model::remove_items_view(self.removals@),
            detach: self.detach,
            exprs: ast_model::exprs_view(self.exprs@),
            first: self.first,
            closed: self.closed,
        }
    }
}

impl Parts {
    /// No part has been read.
    pub fn none(first: bool) -> (r: Parts)
        ensures
            r@ == meaning::no_parts(first),
    {
        Parts {
            patterns: Vec::new(),
            optional_patterns: Vec::new(),
            where_clause: None,
            intermediate: Vec::new(),
            return_clause: None,
            order_by: Vec::new(),
            skip: None,
            limit: None,
            create_patterns: Vec::new(),
            merge_pattern: None,
            on_create: Vec::new(),
            on_match: Vec::new(),
            items: Vec::new(),
            removals: Vec::new(),
            detach: false,
            exprs: Vec::new(),
            first,
            closed: false,
        }
    }
}

/// A list of clauses says what its clauses say, the last one apart.
pub proof fn lemma_pop_intermediate(rest: Seq<IntermediateClause>, last: IntermediateClause)
    ensures
        ast_model::intermediate_clauses_view(rest.push(last))
            == ast_model::intermediate_clauses_view(rest).push(last@),
{
}

/// A WHERE clause.
pub fn parse_where(src: &Source, pair: &Pair, d: DepthGuard) -> (r: Result<Expr, GraphError>)
    requires
        tree::fits_one(*src, *pair),
    ensures
        types::outcome(r) == meaning::where_clause(src@, pair@, d.depth as nat),
    decreases pair, 20int,
{
    let i = tree::first_place(&pair.children, Rule::BoolExpr, 0);
    parse_condition_at(src, &pair.children, i, d)
}

/// Takes one more node into what follows a first clause.
pub fn parse_tail(src: &Source, acc: Parts, k: &Pair, d: DepthGuard) -> (r: Result<
    Parts,
    GraphError,
>)
    requires
        tree::fits_one(*src, *k),
    ensures
        types::outcome(r) == meaning::tail_step(src@, acc@, k@, d.depth as nat),
    decreases k, 25int,
{
    let mut acc = acc;
    match k.rule {
        Rule::WithClause => match parse_with(src, k, d) {
            Err(e) => Err(e),
            Ok(x) => {
                acc.intermediate.push(IntermediateClause::With(x));
                Ok(acc)
            },
        },
        Rule::UnwindClause => match parse_unwind_clause(src, k, d) {
            Err(e) => Err(e),
            Ok(x) => {
                acc.intermediate.push(IntermediateClause::Unwind(x));
                Ok(acc)
            },
        },
        Rule::ReturnClause => match parse_return_clause(src, k, d) {
            Err(e) => Err(e),
            Ok(x) => {
                acc.return_clause = Some(x);
                Ok(acc)
            },
        },
        Rule::OrderByClause => match parse_order_by(src, k, d) {
            Err(e) => Err(e),
            Ok(x) => {
                acc.order_by = x;
                Ok(acc)
            },
        },
        Rule::SkipClause => match parse_expr_under(src, &k.children, Rule::Expr, d) {
            Err(e) => Err(e),
            Ok(x) => {
                acc.skip = Some(x);
                Ok(acc)
            },
        },
        Rule::LimitClause => match parse_expr_under(src, &k.children, Rule::Expr, d) {
            Err(e) => Err(e),
            Ok(x) => {
                acc.limit = Some(x);
                Ok(acc)
            },
        },
        _ => Ok(acc),
    }
}

/// Takes one more node into a WITH clause.
fn parse_with_part(src: &Source, acc: WithClause, k: &Pair, d: DepthGuard) -> (r: Result<
    WithClause,
    GraphError,
>)
    requires
        tree::fits_one(*src, *k),
    ensures
        types::outcome(r) == meaning::with_step(src@, acc@, k@, d.depth as nat),
    decreases k, 30int,
{
    let mut acc = acc;
    match k.rule {
        Rule::DistinctKeyword => {
            acc.distinct = true;
            Ok(acc)
        },
        Rule::ReturnItems => match parse_return_items(src, &k.children, d) {
            Err(e) => Err(e),
            Ok(x) => {
                acc.items = x;
                Ok(acc)
            },
        },
        Rule::OrderByClause => match parse_order_by(src, k, d) {
            Err(e) => Err(e),
            Ok(x) => {
                acc.order_by = x;
                Ok(acc)
            },
        },
        Rule::SkipClause => match parse_expr_under(src, &k.children, Rule::Expr, d) {
            Err(e) => Err(e),
            Ok(x) => {
                acc.skip = Some(x);
                Ok(acc)
            },
        },
        Rule::LimitClause => match parse_expr_under(src, &k.children, Rule::Expr, d) {
            Err(e) => Err(e),
            Ok(x) => {
                acc.limit = Some(x);
                Ok(acc)
            },
        },
        Rule::WhereClause => match parse_where(src, k, d) {
            Err(e) => Err(e),
            Ok(x) => {
                acc.where_clause = Some(x);
                Ok(acc)
            },
        },
        _ => Ok(acc),
    }
}

/// A WITH clause.
pub fn parse_with(src: &Source, pair: &Pair, d: DepthGuard) -> (r: Result<WithClause, GraphError>)
    requires
        tree::fits_one(*src, *pair),
    ensures
        types::outcome(r) == meaning::with_clause(src@, pair@, d.depth as nat),
    decreases pair, 20int,
{
    let none = WithClause {
        items: Vec::new(),
        distinct: false,
        order_by: Vec::new(),
        skip: None,
        limit: None,
        where_clause: None,
    };
    parse_with_parts(src, &pair.children, none, d)
}

/// The parts of a WITH clause.
fn parse_with_parts(src: &Source, kids: &Vec<Pair>, init: WithClause, d: DepthGuard) -> (r: Result<
    WithClause,
    GraphError,
>)
    requires
        tree::fits(*src, kids@),
    ensures
        types::outcome(r) == meaning::with_from(
            src@,
            peg::pairs_view(kids@),
            0,
            init@,
            d.depth as nat,
        ),
    decreases kids, 3int,
{
    let ghost ks = peg::pairs_view(kids@);
    let mut acc = init;
    let mut i: usize = 0;
    assert(decreases_to!(kids => kids@));
    while i < kids.len()
        invariant
            tree::fits(*src, kids@),
            ks == peg::pairs_view(kids@),
            decreases_to!(kids => kids@),
            meaning::with_from(src@, ks, 0, init@, d.depth as nat) == meaning::with_from(
                src@,
                ks,
                i as int,
                acc@,
                d.depth as nat,
            ),
        decreases kids.len() - i,
    {
        assert(peg::within(ks[i as int], src@.len()));
        match parse_with_part(src, acc, &kids[i], d) {
            Err(e) => {
                return Err(e);
            },
            Ok(next) => {
                acc = next;
            },
        }
        i = i + 1;
    }
    Ok(acc)
}

/// The alias that a node gives.
fn parse_alias(src: &Source, kids: &Vec<Pair>, before: Option<String>) -> (r: Option<String>)
    requires
        tree::fits(*src, kids@),
    ensures
        ast_model::opt_text(r) == meaning::alias_of(
            src@,
            peg::pairs_view(kids@),
            ast_model::opt_text(before),
        ),
{
    match tree::last_place(kids, Rule::Ident) {
        None => before,
        Some(i) => {
            assert(peg::within(peg::pairs_view(kids@)[i as int], src@.len()));
            Some(tree::name(src, &kids[i]))
        },
    }
}

/// A projected item.
fn parse_return_item(src: &Source, kids: &Vec<Pair>, d: DepthGuard) -> (r: Result<
    ReturnItem,
    GraphError,
>)
    requires
        tree::fits(*src, kids@),
    ensures
        types::outcome(r) == meaning::item_from(
            src@,
            peg::pairs_view(kids@),
            0,
            None,
            None,
            d.depth as nat,
        ),
    decreases kids, 0int,
{
    let ghost ks = peg::pairs_view(kids@);
    let mut e: Option<Expr> = None;
    let mut alias: Option<String> = None;
    let mut i: usize = 0;
    assert(decreases_to!(kids => kids@));
    while i < kids.len()
        invariant
            tree::fits(*src, kids@),
            ks == peg::pairs_view(kids@),
            decreases_to!(kids => kids@),
            meaning::item_from(src@, ks, 0, None, None, d.depth as nat) == meaning::item_from(
                src@,
                ks,
                i as int,
                ast_model::opt_expr_view(e),
                ast_model::opt_text(alias),
                d.depth as nat,
            ),
        decreases kids.len() - i,
    {
        assert(peg::within(ks[i as int], src@.len()));
        match kids[i].rule {
            Rule::Expr => match parse_expr(src, &kids[i], d) {
                Err(f) => {
                    return Err(f);
                },
                Ok(x) => {
                    e = Some(x);
                },
            },
            Rule::Alias => {
                alias = parse_alias(src, &kids[i].children, alias);
            },
            _ => {},
        }
        i = i + 1;
    }
    match e {
        None => Err(malformed()),
        Some(x) => Ok(ReturnItem { expr: x, alias }),
    }
}

/// The projected items.
fn parse_return_items(src: &Source, kids: &Vec<Pair>, d: DepthGuard) -> (r: Result<
    Vec<ReturnItem>,
    GraphError,
>)
    requires
        tree::fits(*src, kids@),
    ensures
        tree::items_out(r) == meaning::items_from(
            src@,
            peg::pairs_view(kids@),
            0,
            Seq::empty(),
            d.depth as nat,
        ),
    decreases kids, 1int,
{
    let ghost ks = peg::pairs_view(kids@);
    let mut out: Vec<ReturnItem> = Vec::new();
    let mut i: usize = 0;
    assert(decreases_to!(kids => kids@));
    while i < kids.len()
        invariant
            tree::fits(*src, kids@),
            ks == peg::pairs_view(kids@),
            decreases_to!(kids => kids@),
            meaning::items_from(src@, ks, 0, Seq::empty(), d.depth as nat) == meaning::items_from(
                src@,
                ks,
                i as int,
                ast_model::return_items_view(out@),
                d.depth as nat,
            ),
        decreases kids.len() - i,
    {
        assert(peg::within(ks[i as int], src@.len()));
        assert(decreases_to!(kids@[i as int] => kids@[i as int].children));
        if kids[i].rule == Rule::ReturnItem {
            match parse_return_item(src, &kids[i].children, d) {
                Err(e) => {
                    return Err(e);
                },
                Ok(x) => {
                    out.push(x);
                },
            }
        }
        i = i + 1;
    }
    Ok(out)
}

/// A RETURN clause.
pub fn parse_return_clause(src: &Source, pair: &Pair, d: DepthGuard) -> (r: Result<
    ReturnClause,
    GraphError,
>)
    requires
        tree::fits_one(*src, *pair),
    ensures
        types::outcome(r) == meaning::return_clause(src@, pair@, d.depth as nat),
    decreases pair, 20int,
{
    let kids = &pair.children;
    let i = tree::first_place(kids, Rule::ReturnItems, 0);
    if i >= kids.len() {
        return Err(malformed());
    }
    assert(peg::within(peg::pairs_view(kids@)[i as int], src@.len()));
    assert(decreases_to!(kids => kids@));
    assert(decreases_to!(kids@[i as int] => kids@[i as int].children));
    let distinct = tree::count_of(kids, Rule::DistinctKeyword) > 0;
    match parse_return_items(src, &kids[i].children, d) {
        Err(e) => Err(e),
        Ok(items) => Ok(ReturnClause { items, distinct }),
    }
}

/// True when the text names the descending direction.
fn is_descending(t: &str) -> (r: bool)
    ensures
        r == meaning::is_descending(t@),
{
    let n = text::lower_string(t);
    text::same_str(n.as_str(), "desc") || text::same_str(n.as_str(), "descending")
}

/// A sort key.
fn parse_sort_item(src: &Source, kids: &Vec<Pair>, d: DepthGuard) -> (r: Result<
    SortItem,
    GraphError,
>)
    requires
        tree::fits(*src, kids@),
    ensures
        types::outcome(r) == meaning::sort_from(
            src@,
            peg::pairs_view(kids@),
            0,
            None,
            false,
            d.depth as nat,
        ),
    decreases kids, 0int,
{
    let ghost ks = peg::pairs_view(kids@);
    let mut e: Option<Expr> = None;
    let mut descending = false;
    let mut i: usize = 0;
    assert(decreases_to!(kids => kids@));
    while i < kids.len()
        invariant
            tree::fits(*src, kids@),
            ks == peg::pairs_view(kids@),
            decreases_to!(kids => kids@),
            meaning::sort_from(src@, ks, 0, None, false, d.depth as nat) == meaning::sort_from(
                src@,
                ks,
                i as int,
                ast_model::opt_expr_view(e),
                descending,
                d.depth as nat,
            ),
        decreases kids.len() - i,
    {
        assert(peg::within(ks[i as int], src@.len()));
        match kids[i].rule {
            Rule::Expr => match parse_expr(src, &kids[i], d) {
                Err(f) => {
                    return Err(f);
                },
                Ok(x) => {
                    e = Some(x);
                },
            },
            Rule::SortDirection => {
                descending = is_descending(src.text(&kids[i]).as_str());
            },
            _ => {},
        }
        i = i + 1;
    }
    match e {
        None => Err(malformed()),
        Some(x) => Ok(SortItem { expr: x, descending }),
    }
}

/// An ORDER BY clause.
pub fn parse_order_by(src: &Source, pair: &Pair, d: DepthGuard) -> (r: Result<
    Vec<SortItem>,
    GraphError,
>)
    requires
        tree::fits_one(*src, *pair),
    ensures
        tree::sorts_out(r) == meaning::order_by(src@, pair@, d.depth as nat),
    decreases pair, 20int,
{
    let at = tree::first_place(&pair.children, Rule::SortItems, 0);
    if at >= pair.children.len() {
        return Err(malformed());
    }
    assert(peg::within(peg::pairs_view(pair.children@)[at as int], src@.len()));
    assert(decreases_to!(pair.children => pair.children@));
    assert(decreases_to!(pair.children@[at as int] => pair.children@[at as int].children));
    parse_sort_items(src, &pair.children[at].children, d)
}

/// The sort keys.
fn parse_sort_items(src: &Source, kids: &Vec<Pair>, d: DepthGuard) -> (r: Result<
    Vec<SortItem>,
    GraphError,
>)
    requires
        tree::fits(*src, kids@),
    ensures
        tree::sorts_out(r) == meaning::sorts_from(
            src@,
            peg::pairs_view(kids@),
            0,
            Seq::empty(),
            d.depth as nat,
        ),
    decreases kids, 3int,
{
    let ghost ks = peg::pairs_view(kids@);
    let mut out: Vec<SortItem> = Vec::new();
    let mut i: usize = 0;
    assert(decreases_to!(kids => kids@));
    while i < kids.len()
        invariant
            tree::fits(*src, kids@),
            ks == peg::pairs_view(kids@),
            decreases_to!(kids => kids@),
            meaning::sorts_from(src@, ks, 0, Seq::empty(), d.depth as nat) == meaning::sorts_from(
                src@,
                ks,
                i as int,
                ast_model::sort_items_view(out@),
                d.depth as nat,
            ),
        decreases kids.len() - i,
    {
        assert(peg::within(ks[i as int], src@.len()));
        assert(decreases_to!(kids@[i as int] => kids@[i as int].children));
        if kids[i].rule == Rule::SortItem {
            match parse_sort_item(src, &kids[i].children, d) {
                Err(e) => {
                    return Err(e);
                },
                Ok(x) => {
                    out.push(x);
                },
            }
        }
        i = i + 1;
    }
    Ok(out)
}

/// An UNWIND clause.
pub fn parse_unwind_clause(src: &Source, pair: &Pair, d: DepthGuard) -> (r: Result<
    UnwindClause,
    GraphError,
>)
    requires
        tree::fits_one(*src, *pair),
    ensures
        types::outcome(r) == meaning::unwind_clause(src@, pair@, d.depth as nat),
    decreases pair, 20int,
{
    parse_unwinding(src, &pair.children, d)
}

/// The last expression and the last name among the nodes.
fn parse_unwinding(src: &Source, kids: &Vec<Pair>, d: DepthGuard) -> (r: Result<
    UnwindClause,
    GraphError,
>)
    requires
        tree::fits(*src, kids@),
    ensures
        types::outcome(r) == meaning::unwind_from(
            src@,
            peg::pairs_view(kids@),
            0,
            None,
            None,
            d.depth as nat,
        ),
    decreases kids, 0int,
{
    let ghost ks = peg::pairs_view(kids@);
    let mut e: Option<Expr> = None;
    let mut alias: Option<String> = None;
    let mut i: usize = 0;
    assert(decreases_to!(kids => kids@));
    while i < kids.len()
        invariant
            tree::fits(*src, kids@),
            ks == peg::pairs_view(kids@),
            decreases_to!(kids => kids@),
            meaning::unwind_from(src@, ks, 0, None, None, d.depth as nat) == meaning::unwind_from(
                src@,
                ks,
                i as int,
                ast_model::opt_expr_view(e),
                ast_model::opt_text(alias),
                d.depth as nat,
            ),
        decreases kids.len() - i,
    {
        assert(peg::within(ks[i as int], src@.len()));
        match kids[i].rule {
            Rule::Expr => match parse_expr(src, &kids[i], d) {
                Err(f) => {
                    return Err(f);
                },
                Ok(x) => {
                    e = Some(x);
                },
            },
            Rule::Ident => {
                alias = Some(tree::name(src, &kids[i]));
            },
            _ => {},
        }
        i = i + 1;
    }
    let expr = match e {
        Some(x) => x,
        None => {
            return Err(fault("missing UNWIND expression"));
        },
    };
    match alias {
        Some(a) => Ok(UnwindClause { expr, alias: a }),
        None => Err(fault("missing UNWIND alias")),
    }
}

} // verus!
