//! Reading nodes of the parse tree.
use super::literal;
use super::meaning;
use super::peg;
use super::peg::Pair;
use super::rule;
use super::rule::Rule;
use super::scan;
use super::source;
use super::source::{Source, MAX_EXPR_DEPTH};
use crate::assoc;
use crate::assoc::AssocList;
use crate::ast::{Expr, Pattern, RemoveItem, ReturnItem, SetItem, SortItem};
use crate::ast_model;
use crate::ast_model::{
    ExprView, PatternView, RemoveItemView, ReturnItemView, SetItemView, SortItemView,
};
use crate::text;
use crate::types;
use crate::types::{ErrorView, GraphError};
use vstd::prelude::*;

verus! {

/// Counts the expressions around a place.
#[derive(Clone, Copy)]
pub struct DepthGuard {
    pub depth: usize,
}

impl DepthGuard {
    /// One expression further in; refused where that is too deep.
    pub fn enter(self) -> (r: Result<DepthGuard, GraphError>)
        ensures
            match r {
                Ok(g) => self.depth < MAX_EXPR_DEPTH && g.depth == self.depth + 1,
                Err(e) => self.depth >= MAX_EXPR_DEPTH && e@ == scan::depth_error(
                    "expression nesting depth"@,
                ),
            },
    {
        if self.depth >= MAX_EXPR_DEPTH {
            Err(scan::too_deep("expression nesting depth"))
        } else {
            Ok(DepthGuard { depth: self.depth + 1 })
        }
    }
}

/// The nodes lie within the text.
pub open spec fn fits(src: Source, kids: Seq<Pair>) -> bool {
    src.wf() && peg::all_within(peg::pairs_view(kids), src@.len())
}

/// The node lies within the text.
pub open spec fn fits_one(src: Source, p: Pair) -> bool {
    src.wf() && peg::within(p@, src@.len())
}

/// What a list of expressions or an error says.
pub open spec fn exprs_out(r: Result<Vec<Expr>, GraphError>) -> Result<Seq<ExprView>, ErrorView> {
    match r {
        Ok(v) => Ok(ast_model::exprs_view(v@)),
        Err(e) => Err(e@),
    }
}

/// What a list of patterns or an error says.
pub open spec fn patterns_out(r: Result<Vec<Pattern>, GraphError>) -> Result<
    Seq<PatternView>,
    ErrorView,
> {
    match r {
        Ok(v) => Ok(ast_model::patterns_view(v@)),
        Err(e) => Err(e@),
    }
}

/// What a list of entries or an error says.
pub open spec fn pairs_out(r: Result<Vec<(String, Expr)>, GraphError>) -> Result<
    Seq<(Seq<char>, ExprView)>,
    ErrorView,
> {
    match r {
        Ok(v) => Ok(ast_model::pairs_view(v@)),
        Err(e) => Err(e@),
    }
}

/// What a property map or an error says.
pub open spec fn props_out(r: Result<AssocList<Expr>, GraphError>) -> Result<
    Seq<(Seq<char>, ExprView)>,
    ErrorView,
> {
    match r {
        Ok(v) => Ok(ast_model::pairs_view(v.entries@)),
        Err(e) => Err(e@),
    }
}

/// What a list of sort keys or an error says.
pub open spec fn sorts_out(r: Result<Vec<SortItem>, GraphError>) -> Result<
    Seq<SortItemView>,
    ErrorView,
> {
    match r {
        Ok(v) => Ok(ast_model::sort_items_view(v@)),
        Err(e) => Err(e@),
    }
}

/// What a list of projected items or an error says.
pub open spec fn items_out(r: Result<Vec<ReturnItem>, GraphError>) -> Result<
    Seq<ReturnItemView>,
    ErrorView,
> {
    match r {
        Ok(v) => Ok(ast_model::return_items_view(v@)),
        Err(e) => Err(e@),
    }
}

/// What a list of SET items or an error says.
pub open spec fn set_items_out(r: Result<Vec<SetItem>, GraphError>) -> Result<
    Seq<SetItemView>,
    ErrorView,
> {
    match r {
        Ok(v) => Ok(ast_model::set_items_view(v@)),
        Err(e) => Err(e@),
    }
}

/// What a list of REMOVE items or an error says.
pub open spec fn remove_items_out(r: Result<Vec<RemoveItem>, GraphError>) -> Result<
    Seq<RemoveItemView>,
    ErrorView,
> {
    match r {
        Ok(v) => Ok(ast_model::remove_items_view(v@)),
        Err(e) => Err(e@),
    }
}

/// The error for a tree that no text has.
pub fn malformed() -> (r: GraphError)
    ensures
        r@ == meaning::malformed(),
{
    GraphError::syntax(text::owned("malformed parse tree"))
}

/// A syntax error with a fixed message.
pub fn fault(message: &str) -> (r: GraphError)
    ensures
        r@ == types::syntax_error(message@),
{
    GraphError::syntax(text::owned(message))
}

/// The error for a rule in a place where it does not belong.
pub fn unexpected(what: &str, r: Rule) -> (e: GraphError)
    ensures
        e@ == meaning::unexpected(what@, r),
{
    GraphError::syntax(text::cat(what, rule::rule_name(r)))
}

/// The first place from `i` on that holds a node of the rule.
pub fn first_place(kids: &Vec<Pair>, r: Rule, from: usize) -> (at: usize)
    requires
        from <= kids.len(),
    ensures
        at == meaning::first_place(peg::pairs_view(kids@), r, from as int),
        from <= at <= kids.len(),
{
    let mut i: usize = from;
    while i < kids.len()
        invariant
            from <= i <= kids.len(),
            meaning::first_place(peg::pairs_view(kids@), r, from as int) == meaning::first_place(
                peg::pairs_view(kids@),
                r,
                i as int,
            ),
        decreases kids.len() - i,
    {
        assert(peg::pairs_view(kids@)[i as int].rule == kids@[i as int].rule);
        if kids[i].rule == r {
            return i;
        }
        i = i + 1;
    }
    i
}

/// The last place that holds a node of the rule.
pub fn last_place(kids: &Vec<Pair>, r: Rule) -> (at: Option<usize>)
    ensures
        match at {
            Some(i) => i < kids.len() && i == meaning::last_place(
                peg::pairs_view(kids@),
                r,
                kids@.len() as int,
            ),
            None => meaning::last_place(peg::pairs_view(kids@), r, kids@.len() as int) == -1,
        },
{
    let mut i: usize = kids.len();
    while i > 0
        invariant
            i <= kids.len(),
            meaning::last_place(peg::pairs_view(kids@), r, kids@.len() as int)
                == meaning::last_place(peg::pairs_view(kids@), r, i as int),
        decreases i,
    {
        assert(peg::pairs_view(kids@)[i - 1].rule == kids@[i - 1].rule);
        i = i - 1;
        if kids[i].rule == r {
            return Some(i);
        }
    }
    None
}

/// How many nodes are of the rule.
pub fn count_of(kids: &Vec<Pair>, r: Rule) -> (n: usize)
    ensures
        n == meaning::count_of(peg::pairs_view(kids@), r, kids@.len() as int),
{
    let mut i: usize = 0;
    let mut n: usize = 0;
    while i < kids.len()
        invariant
            n <= i <= kids.len(),
            n == meaning::count_of(peg::pairs_view(kids@), r, i as int),
        decreases kids.len() - i,
    {
        assert(peg::pairs_view(kids@)[i as int].rule == kids@[i as int].rule);
        if kids[i].rule == r {
            n = n + 1;
        }
        i = i + 1;
    }
    n
}

/// The texts of all nodes.
pub fn all_texts(src: &Source, kids: &Vec<Pair>) -> (r: Vec<String>)
    requires
        fits(*src, kids@),
    ensures
        ast_model::texts(r@) == meaning::all_texts(src@, peg::pairs_view(kids@)),
{
    let mut out: Vec<String> = Vec::new();
    let mut i: usize = 0;
    while i < kids.len()
        invariant
            fits(*src, kids@),
            i <= kids.len(),
            out.len() == i,
            forall|j: int|
                0 <= j < i ==> (#[trigger] out[j])@ == source::text_of(
                    src@,
                    peg::pairs_view(kids@)[j],
                ),
        decreases kids.len() - i,
    {
        assert(peg::within(peg::pairs_view(kids@)[i as int], src@.len()));
        out.push(src.text(&kids[i]));
        i = i + 1;
    }
    assert(ast_model::texts(out@) =~= meaning::all_texts(src@, peg::pairs_view(kids@)));
    out
}

/// Adds the texts of the nodes of a rule.
pub fn add_texts(out: &mut Vec<String>, src: &Source, kids: &Vec<Pair>, r: Rule)
    requires
        fits(*src, kids@),
    ensures
        ast_model::texts(final(out)@) == ast_model::texts(old(out)@) + meaning::texts_of(
            src@,
            peg::pairs_view(kids@),
            r,
            kids@.len() as int,
        ),
{
    broadcast use ast_model::group_list_views;

    let ghost before = ast_model::texts(out@);
    let mut i: usize = 0;
    assert(before + Seq::<Seq<char>>::empty() =~= before);
    while i < kids.len()
        invariant
            fits(*src, kids@),
            i <= kids.len(),
            ast_model::texts(out@) == before + meaning::texts_of(
                src@,
                peg::pairs_view(kids@),
                r,
                i as int,
            ),
        decreases kids.len() - i,
    {
        assert(peg::within(peg::pairs_view(kids@)[i as int], src@.len()));
        if kids[i].rule == r {
            let t = src.text(&kids[i]);
            let ghost sofar = meaning::texts_of(src@, peg::pairs_view(kids@), r, i as int);
            out.push(t);
            assert((before + sofar).push(t@) =~= before + sofar.push(t@));
        }
        i = i + 1;
    }
}

/// The name that a node stands for.
pub fn name(src: &Source, p: &Pair) -> (r: String)
    requires
        fits_one(*src, *p),
    ensures
        r@ == meaning::name(src@, p@),
{
    literal::strip_backticks(src.text(p).as_str())
}

/// True when the node's text is `t`.
pub fn reads(src: &Source, p: &Pair, t: &str) -> (r: bool)
    requires
        fits_one(*src, *p),
    ensures
        r == (source::text_of(src@, p@) == t@),
{
    text::same_str(src.text(p).as_str(), t)
}

/// Binding a key in an entry list binds it in what the list says.
pub proof fn lemma_insert_view(
    before: Seq<(String, Expr)>,
    after: Seq<(String, Expr)>,
    k: String,
    x: Expr,
)
    requires
        ({
            let i = assoc::place(assoc::keys_of(before), k@);
            if i < before.len() {
                after == before.update(i as int, (before[i as int].0, x))
            } else {
                after == before.push((k, x))
            }
        }),
    ensures
        ast_model::pairs_view(after) == assoc::put(ast_model::pairs_view(before), k@, x@),
{
    assoc::lemma_same_keys(before, ast_model::pairs_view(before));
    assoc::lemma_place(assoc::keys_of(before), k@);
    let i = assoc::place(assoc::keys_of(before), k@);
    if i < before.len() {
        assert(assoc::keys_of(before)[i as int] == k@);
    }
    assert(ast_model::pairs_view(after) =~= assoc::put(ast_model::pairs_view(before), k@, x@));
}

} // verus!
