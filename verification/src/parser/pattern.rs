//! Building patterns.
use super::expr::parse_keyed;
use super::literal;
use super::meaning;
use super::peg;
use super::peg::Pair;
use super::rule::Rule;
use super::source::Source;
use super::tree;
use super::tree::{fault, malformed, unexpected, DepthGuard};
use crate::assoc::AssocList;
use crate::ast::{
    Expr, NodePattern, Pattern, PatternElement, RelDirection, RelPattern, ShortestPathMode,
};
use crate::ast_model;
use crate::ast_model::{ExprView, PatternElementView, PatternView};
use crate::text;
use crate::types;
use crate::types::{ErrorView, GraphError};
use vstd::prelude::*;

verus! {

broadcast use ast_model::group_list_views;

/// Patterns with commas between.
pub fn parse_pattern_list(src: &Source, pair: &Pair, d: DepthGuard) -> (r: Result<
    Vec<Pattern>,
    GraphError,
>)
    requires
        tree::fits_one(*src, *pair),
    ensures
        tree::patterns_out(r) == meaning::pattern_list(src@, pair@, d.depth as nat),
    decreases pair, 20int,
{
    parse_patterns(src, &pair.children, d)
}

/// The patterns of a list.
fn parse_patterns(src: &Source, kids: &Vec<Pair>, d: DepthGuard) -> (r: Result<
    Vec<Pattern>,
    GraphError,
>)
    requires
        tree::fits(*src, kids@),
    ensures
        tree::patterns_out(r) == meaning::patterns_from(
            src@,
            peg::pairs_view(kids@),
            0,
            Seq::empty(),
            d.depth as nat,
        ),
    decreases kids, 3int,
{
    let ghost ks = peg::pairs_view(kids@);
    let mut out: Vec<Pattern> = Vec::new();
    let mut i: usize = 0;
    assert(decreases_to!(kids => kids@));
    while i < kids.len()
        invariant
            tree::fits(*src, kids@),
            ks == peg::pairs_view(kids@),
            decreases_to!(kids => kids@),
            meaning::patterns_from(src@, ks, 0, Seq::empty(), d.depth as nat)
                == meaning::patterns_from(
                src@,
                ks,
                i as int,
                ast_model::patterns_view(out@),
                d.depth as nat,
            ),
        decreases kids.len() - i,
    {
        assert(peg::within(ks[i as int], src@.len()));
        if kids[i].rule == Rule::PatternItem {
            match parse_pattern_item(src, &kids[i], d) {
                Err(e) => {
                    return Err(e);
                },
                Ok(x) => {
                    out.push(x);
                },
            }
        }
        i = i + 1;
    }
    Ok(out)
}

/// A pattern, with or without a name for its path.
pub fn parse_pattern_item(src: &Source, pair: &Pair, d: DepthGuard) -> (r: Result<
    Pattern,
    GraphError,
>)
    requires
        tree::fits_one(*src, *pair),
    ensures
        types::outcome(r) == meaning::pattern_item(src@, pair@, d.depth as nat),
    decreases pair, 20int,
{
    let kids = &pair.children;
    if kids.len() == 0 {
        return Err(malformed());
    }
    assert(peg::within(peg::pairs_view(kids@)[0], src@.len()));
    assert(decreases_to!(kids => kids@));
    match kids[0].rule {
        Rule::PathPattern => parse_path_pattern(src, &kids[0], d),
        Rule::Pattern => parse_pattern(src, &kids[0], d),
        r => Err(unexpected("unexpected pattern item: ", r)),
    }
}

/// What an optional pattern says.
pub open spec fn opt_pattern_view(o: Option<Pattern>) -> Option<PatternView> {
    match o {
        Some(x) => Some(x@),
        None => None,
    }
}

/// What an optional pattern or an error says.
pub open spec fn opt_pattern_out(r: Result<Option<Pattern>, GraphError>) -> Result<
    Option<PatternView>,
    ErrorView,
> {
    match r {
        Ok(x) => Ok(opt_pattern_view(x)),
        Err(e) => Err(e@),
    }
}

/// The pattern that the last pattern node stands for, if there is one.
fn parse_inner_pattern(src: &Source, kids: &Vec<Pair>, d: DepthGuard) -> (r: Result<
    Option<Pattern>,
    GraphError,
>)
    requires
        tree::fits(*src, kids@),
    ensures
        opt_pattern_out(r) == meaning::inner_pattern(
            src@,
            peg::pairs_view(kids@),
            d.depth as nat,
        ),
    decreases kids, 0int,
{
    match tree::last_place(kids, Rule::Pattern) {
        None => Ok(None),
        Some(i) => {
            assert(peg::within(peg::pairs_view(kids@)[i as int], src@.len()));
            assert(decreases_to!(kids => kids@));
            match parse_pattern(src, &kids[i], d) {
                Err(e) => Err(e),
                Ok(x) => Ok(Some(x)),
            }
        },
    }
}

/// The parts of a named pattern that have been read.
struct PathAcc {
    variable: Option<String>,
    pattern: Option<Pattern>,
    mode: ShortestPathMode,
}

impl View for PathAcc {
    type V = meaning::PathParts;

    closed spec fn view(&self) -> meaning::PathParts {
        meaning::PathParts {
            variable: ast_model::opt_text(self.variable),
            pattern: opt_pattern_view(self.pattern),
            mode: self.mode,
        }
    }
}

/// The parts of a named pattern with a path search.
fn add_search(acc: PathAcc, x: Option<Pattern>, mode: ShortestPathMode) -> (r: PathAcc)
    ensures
        r@ == meaning::with_search(acc@, opt_pattern_view(x), mode),
{
    PathAcc {
        variable: acc.variable,
        pattern: match x {
            Some(y) => Some(y),
            None => acc.pattern,
        },
        mode,
    }
}

/// Takes one more node into a named pattern.
fn parse_path_part(src: &Source, acc: PathAcc, k: &Pair, d: DepthGuard) -> (r: Result<
    PathAcc,
    GraphError,
>)
    requires
        tree::fits_one(*src, *k),
    ensures
        types::outcome(r) == meaning::path_step(src@, acc@, k@, d.depth as nat),
    decreases k, 30int,
{
    let mut acc = acc;
    match k.rule {
        Rule::Ident => {
            acc.variable = Some(tree::name(src, k));
            Ok(acc)
        },
        Rule::ShortestPathFn => match parse_inner_pattern(src, &k.children, d) {
            Err(e) => Err(e),
            Ok(x) => Ok(add_search(acc, x, ShortestPathMode::Single)),
        },
        Rule::AllShortestPathsFn => match parse_inner_pattern(src, &k.children, d) {
            Err(e) => Err(e),
            Ok(x) => Ok(add_search(acc, x, ShortestPathMode::All)),
        },
        Rule::Pattern => match parse_pattern(src, k, d) {
            Err(e) => Err(e),
            Ok(x) => {
                acc.pattern = Some(x);
                Ok(acc)
            },
        },
        _ => Ok(acc),
    }
}

/// `path = pattern`, or a search for shortest paths.
fn parse_path_pattern(src: &Source, pair: &Pair, d: DepthGuard) -> (r: Result<Pattern, GraphError>)
    requires
        tree::fits_one(*src, *pair),
    ensures
        types::outcome(r) == meaning::path_pattern(src@, pair@, d.depth as nat),
    decreases pair, 20int,
{
    let none = PathAcc { variable: None, pattern: None, mode: ShortestPathMode::Off };
    let acc = match parse_path_parts(src, &pair.children, none, d) {
        Err(e) => {
            return Err(e);
        },
        Ok(x) => x,
    };
    match acc.pattern {
        None => Err(fault("missing pattern in path assignment")),
        Some(x) => Ok(
            Pattern {
                elements: x.elements,
                path_variable: acc.variable,
                shortest_path_mode: acc.mode,
            },
        ),
    }
}

/// The parts of a named pattern.
fn parse_path_parts(src: &Source, kids: &Vec<Pair>, init: PathAcc, d: DepthGuard) -> (r: Result<
    PathAcc,
    GraphError,
>)
    requires
        tree::fits(*src, kids@),
    ensures
        types::outcome(r) == meaning::path_from(
            src@,
            peg::pairs_view(kids@),
            0,
            init@,
            d.depth as nat,
        ),
    decreases kids, 3int,
{
    let ghost ks = peg::pairs_view(kids@);
    let mut acc = init;
    let mut i: usize = 0;
    assert(decreases_to!(kids => kids@));
    while i < kids.len()
        invariant
            tree::fits(*src, kids@),
            ks == peg::pairs_view(kids@),
            decreases_to!(kids => kids@),
            meaning::path_from(src@, ks, 0, init@, d.depth as nat) == meaning::path_from(
                src@,
                ks,
                i as int,
                acc@,
                d.depth as nat,
            ),
        decreases kids.len() - i,
    {
        assert(peg::within(ks[i as int], src@.len()));
        match parse_path_part(src, acc, &kids[i], d) {
            Err(e) => {
                return Err(e);
            },
            Ok(next) => {
                acc = next;
            },
        }
        i = i + 1;
    }
    Ok(acc)
}

/// What a list of elements or an error says.
pub open spec fn elements_out(r: Result<Vec<PatternElement>, GraphError>) -> Result<
    Seq<PatternElementView>,
    ErrorView,
> {
    match r {
        Ok(v) => Ok(ast_model::pattern_elements_view(v@)),
        Err(e) => Err(e@),
    }
}

/// The elements of a pattern.
fn parse_elements(src: &Source, kids: &Vec<Pair>, d: DepthGuard) -> (r: Result<
    Vec<PatternElement>,
    GraphError,
>)
    requires
        tree::fits(*src, kids@),
    ensures
        elements_out(r) == meaning::elements_from(
            src@,
            peg::pairs_view(kids@),
            0,
            Seq::empty(),
            d.depth as nat,
        ),
    decreases kids, 0int,
{
    let ghost ks = peg::pairs_view(kids@);
    let mut out: Vec<PatternElement> = Vec::new();
    let mut i: usize = 0;
    assert(decreases_to!(kids => kids@));
    while i < kids.len()
        invariant
            tree::fits(*src, kids@),
            ks == peg::pairs_view(kids@),
            decreases_to!(kids => kids@),
            meaning::elements_from(src@, ks, 0, Seq::empty(), d.depth as nat)
                == meaning::elements_from(
                src@,
                ks,
                i as int,
                ast_model::pattern_elements_view(out@),
                d.depth as nat,
            ),
        decreases kids.len() - i,
    {
        assert(peg::within(ks[i as int], src@.len()));
        if kids[i].rule == Rule::NodePattern {
            match parse_node_pattern(src, &kids[i], d) {
                Err(e) => {
                    return Err(e);
                },
                Ok(x) => {
                    out.push(PatternElement::Node(x));
                },
            }
        } else if kids[i].rule == Rule::RelPattern {
            match parse_rel_pattern(src, &kids[i], d) {
                Err(e) => {
                    return Err(e);
                },
                Ok(x) => {
                    out.push(PatternElement::Relationship(x));
                },
            }
        }
        i = i + 1;
    }
    Ok(out)
}

/// A pattern: nodes and relationships in turn.
pub fn parse_pattern(src: &Source, pair: &Pair, d: DepthGuard) -> (r: Result<Pattern, GraphError>)
    requires
        tree::fits_one(*src, *pair),
    ensures
        types::outcome(r) == meaning::pattern(src@, pair@, d.depth as nat),
    decreases pair, 20int,
{
    match parse_elements(src, &pair.children, d) {
        Err(e) => Err(e),
        Ok(elements) => Ok(
            Pattern { elements, path_variable: None, shortest_path_mode: ShortestPathMode::Off },
        ),
    }
}

/// `(variable:Label {key: value})`.
fn parse_node_pattern(src: &Source, pair: &Pair, d: DepthGuard) -> (r: Result<
    NodePattern,
    GraphError,
>)
    requires
        tree::fits_one(*src, *pair),
    ensures
        types::outcome(r) == meaning::node_pattern(src@, pair@, d.depth as nat),
    decreases pair, 20int,
{
    let none = NodePattern { variable: None, labels: Vec::new(), properties: AssocList::new() };
    parse_node_parts(src, &pair.children, none, d)
}

/// The parts of a node pattern.
fn parse_node_parts(src: &Source, kids: &Vec<Pair>, init: NodePattern, d: DepthGuard) -> (r: Result<
    NodePattern,
    GraphError,
>)
    requires
        tree::fits(*src, kids@),
    ensures
        types::outcome(r) == meaning::node_from(
            src@,
            peg::pairs_view(kids@),
            0,
            init@,
            d.depth as nat,
        ),
    decreases kids, 3int,
{
    let ghost ks = peg::pairs_view(kids@);
    let mut acc = init;
    let mut i: usize = 0;
    assert(decreases_to!(kids => kids@));
    while i < kids.len()
        invariant
            tree::fits(*src, kids@),
            ks == peg::pairs_view(kids@),
            decreases_to!(kids => kids@),
            meaning::node_from(src@, ks, 0, init@, d.depth as nat) == meaning::node_from(
                src@,
                ks,
                i as int,
                acc@,
                d.depth as nat,
            ),
        decreases kids.len() - i,
    {
        assert(peg::within(ks[i as int], src@.len()));
        match kids[i].rule {
            Rule::Ident => {
                acc.variable = Some(tree::name(src, &kids[i]));
            },
            Rule::LabelSpec => {
                tree::add_texts(&mut acc.labels, src, &kids[i].children, Rule::SymbolicName);
            },
            Rule::PropertyMap => match parse_property_map(src, &kids[i], d) {
                Err(e) => {
                    return Err(e);
                },
                Ok(x) => {
                    acc.properties = x;
                },
            },
            _ => {},
        }
        i = i + 1;
    }
    Ok(acc)
}

/// The direction of a relationship pattern.
fn direction_of(r: Rule) -> (d: Option<RelDirection>)
    ensures
        d == meaning::direction_of(r),
{
    match r {
        Rule::RelRight => Some(RelDirection::Outgoing),
        Rule::RelRightBare => Some(RelDirection::Outgoing),
        Rule::RelLeft => Some(RelDirection::Incoming),
        Rule::RelLeftBare => Some(RelDirection::Incoming),
        Rule::RelUndirected => Some(RelDirection::Undirected),
        Rule::RelUndirectedBare => Some(RelDirection::Undirected),
        Rule::RelBoth => Some(RelDirection::Undirected),
        Rule::RelBothBare => Some(RelDirection::Undirected),
        _ => None,
    }
}

/// True when the text is among the listed ones.
fn lists(v: &Vec<String>, t: &String) -> (r: bool)
    ensures
        r == ast_model::texts(v@).contains(t@),
{
    let mut i: usize = 0;
    while i < v.len()
        invariant
            i <= v.len(),
            forall|j: int| 0 <= j < i ==> (#[trigger] v[j])@ != t@,
        decreases v.len() - i,
    {
        if text::same(&v[i], t) {
            assert(ast_model::texts(v@)[i as int] == t@);
            return true;
        }
        i = i + 1;
    }
    false
}

/// Adds relationship types, each once.
fn add_types(out: &mut Vec<String>, src: &Source, kids: &Vec<Pair>)
    requires
        tree::fits(*src, kids@),
    ensures
        ast_model::texts(final(out)@) == meaning::with_types(
            ast_model::texts(old(out)@),
            src@,
            peg::pairs_view(kids@),
            kids@.len() as int,
        ),
{
    let ghost before = ast_model::texts(out@);
    let mut i: usize = 0;
    while i < kids.len()
        invariant
            tree::fits(*src, kids@),
            i <= kids.len(),
            ast_model::texts(out@) == meaning::with_types(
                before,
                src@,
                peg::pairs_view(kids@),
                i as int,
            ),
        decreases kids.len() - i,
    {
        assert(peg::within(peg::pairs_view(kids@)[i as int], src@.len()));
        if kids[i].rule == Rule::SymbolicName {
            let t = src.text(&kids[i]);
            if !lists(out, &t) {
                out.push(t);
            }
        }
        i = i + 1;
    }
}

/// Binds more entries on top of those of a map.
fn extend(base: &mut AssocList<Expr>, more: AssocList<Expr>)
    ensures
        ast_model::pairs_view(final(base).entries@) == meaning::extended(
            ast_model::pairs_view(old(base).entries@),
            ast_model::pairs_view(more.entries@),
            more.entries@.len() as int,
        ),
{
    let ghost before = ast_model::pairs_view(base.entries@);
    let mut i: usize = 0;
    while i < more.entries.len()
        invariant
            i <= more.entries.len(),
            ast_model::pairs_view(base.entries@) == meaning::extended(
                before,
                ast_model::pairs_view(more.entries@),
                i as int,
            ),
        decreases more.entries.len() - i,
    {
        let k = more.entries[i].0.clone();
        let x = more.entries[i].1.dup();
        let ghost was = base.entries@;
        base.insert(k, x);
        proof {
            tree::lemma_insert_view(was, base.entries@, k, x);
        }
        i = i + 1;
    }
}

/// The parts of a relationship pattern.
fn parse_rel_detail(src: &Source, kids: &Vec<Pair>, init: RelPattern, d: DepthGuard) -> (r: Result<
    RelPattern,
    GraphError,
>)
    requires
        tree::fits(*src, kids@),
    ensures
        types::outcome(r) == meaning::rel_from(
            src@,
            peg::pairs_view(kids@),
            0,
            init@,
            d.depth as nat,
        ),
    decreases kids, 0int,
{
    let ghost ks = peg::pairs_view(kids@);
    let mut acc = init;
    let mut i: usize = 0;
    assert(decreases_to!(kids => kids@));
    while i < kids.len()
        invariant
            tree::fits(*src, kids@),
            ks == peg::pairs_view(kids@),
            decreases_to!(kids => kids@),
            meaning::rel_from(src@, ks, 0, init@, d.depth as nat) == meaning::rel_from(
                src@,
                ks,
                i as int,
                acc@,
                d.depth as nat,
            ),
        decreases kids.len() - i,
    {
        assert(peg::within(ks[i as int], src@.len()));
        match kids[i].rule {
            Rule::Ident => {
                acc.variable = Some(tree::name(src, &kids[i]));
            },
            Rule::RelTypeSpec => {
                add_types(&mut acc.rel_types, src, &kids[i].children);
            },
            Rule::PropertyMap => match parse_property_map(src, &kids[i], d) {
                Err(e) => {
                    return Err(e);
                },
                Ok(x) => {
                    acc.properties = x;
                },
            },
            Rule::VarLength => match parse_var_length(src, &kids[i], d) {
                Err(e) => {
                    return Err(e);
                },
                Ok((range, x)) => {
                    acc.var_length = Some(range);
                    extend(&mut acc.properties, x);
                },
            },
            _ => {},
        }
        i = i + 1;
    }
    Ok(acc)
}

/// `-[variable:TYPE*min..max {key: value}]->`.
fn parse_rel_pattern(src: &Source, pair: &Pair, d: DepthGuard) -> (r: Result<
    RelPattern,
    GraphError,
>)
    requires
        tree::fits_one(*src, *pair),
    ensures
        types::outcome(r) == meaning::rel_pattern(src@, pair@, d.depth as nat),
    decreases pair, 20int,
{
    if pair.children.len() == 0 {
        return Err(malformed());
    }
    assert(peg::within(peg::pairs_view(pair.children@)[0], src@.len()));
    assert(decreases_to!(pair.children => pair.children@));
    assert(decreases_to!(pair.children@[0] => pair.children@[0].children));
    let direction = match direction_of(pair.children[0].rule) {
        None => {
            return Err(malformed());
        },
        Some(x) => x,
    };
    let none = RelPattern {
        variable: None,
        rel_types: Vec::new(),
        properties: AssocList::new(),
        direction,
        var_length: None,
    };
    parse_rel_details(src, &pair.children[0].children, none, d)
}

/// The parts of a relationship pattern, wherever details are given.
fn parse_rel_details(src: &Source, kids: &Vec<Pair>, init: RelPattern, d: DepthGuard) -> (r: Result<
    RelPattern,
    GraphError,
>)
    requires
        tree::fits(*src, kids@),
    ensures
        types::outcome(r) == meaning::details_from(
            src@,
            peg::pairs_view(kids@),
            0,
            init@,
            d.depth as nat,
        ),
    decreases kids, 3int,
{
    let ghost ks = peg::pairs_view(kids@);
    let mut acc = init;
    let mut i: usize = 0;
    assert(decreases_to!(kids => kids@));
    while i < kids.len()
        invariant
            tree::fits(*src, kids@),
            ks == peg::pairs_view(kids@),
            decreases_to!(kids => kids@),
            meaning::details_from(src@, ks, 0, init@, d.depth as nat) == meaning::details_from(
                src@,
                ks,
                i as int,
                acc@,
                d.depth as nat,
            ),
        decreases kids.len() - i,
    {
        assert(peg::within(ks[i as int], src@.len()));
        assert(decreases_to!(kids@[i as int] => kids@[i as int].children));
        if kids[i].rule == Rule::RelDetail {
            match parse_rel_detail(src, &kids[i].children, acc, d) {
                Err(e) => {
                    return Err(e);
                },
                Ok(next) => {
                    acc = next;
                },
            }
        }
        i = i + 1;
    }
    Ok(acc)
}

/// What a list of bounds or an error says.
pub open spec fn bounds_out(r: Result<Vec<u32>, GraphError>) -> Result<Seq<u32>, ErrorView> {
    match r {
        Ok(v) => Ok(v@),
        Err(e) => Err(e@),
    }
}

/// The bounds that the integers among the nodes give.
fn parse_bounds(src: &Source, kids: &Vec<Pair>) -> (r: Result<Vec<u32>, GraphError>)
    requires
        tree::fits(*src, kids@),
    ensures
        bounds_out(r) == meaning::bounds_from(src@, peg::pairs_view(kids@), 0, Seq::empty()),
{
    let ghost ks = peg::pairs_view(kids@);
    let mut out: Vec<u32> = Vec::new();
    let mut i: usize = 0;
    while i < kids.len()
        invariant
            tree::fits(*src, kids@),
            ks == peg::pairs_view(kids@),
            meaning::bounds_from(src@, ks, 0, Seq::empty()) == meaning::bounds_from(
                src@,
                ks,
                i as int,
                out@,
            ),
        decreases kids.len() - i,
    {
        assert(peg::within(ks[i as int], src@.len()));
        if kids[i].rule == Rule::Integer {
            match literal::parse_var_length_bound(src.text(&kids[i]).as_str()) {
                Err(e) => {
                    return Err(e);
                },
                Ok(n) => {
                    out.push(n);
                },
            }
        }
        i = i + 1;
    }
    Ok(out)
}

/// What a range or an error says.
pub open spec fn range_out(r: Result<(u32, u32), GraphError>) -> Result<(u32, u32), ErrorView> {
    match r {
        Ok(x) => Ok(x),
        Err(e) => Err(e@),
    }
}

/// The range of a variable-length pattern.
fn parse_int_range(src: &Source, pair: &Pair) -> (r: Result<(u32, u32), GraphError>)
    requires
        tree::fits_one(*src, *pair),
    ensures
        range_out(r) == meaning::hop_range(src@, pair@),
{
    match parse_bounds(src, &pair.children) {
        Err(e) => Err(e),
        Ok(ns) => {
            let t = text::chars_of(src.text(pair).as_str());
            if ns.len() == 2 {
                Ok((ns[0], ns[1]))
            } else if ns.len() == 1 && t.len() >= 2 && t[0] == '.' && t[1] == '.' {
                Ok((1, ns[0]))
            } else if ns.len() == 1 {
                Ok((ns[0], 50))
            } else {
                Ok((1, 50))
            }
        },
    }
}

/// What a variable length or an error says.
pub open spec fn length_out(r: Result<((u32, u32), AssocList<Expr>), GraphError>) -> Result<
    ((u32, u32), Seq<(Seq<char>, ExprView)>),
    ErrorView,
> {
    match r {
        Ok((range, x)) => Ok((range, ast_model::pairs_view(x.entries@))),
        Err(e) => Err(e@),
    }
}

/// The length of a variable-length pattern; a bare `*` goes from 1 to 50 hops.
fn parse_var_length(src: &Source, pair: &Pair, d: DepthGuard) -> (r: Result<
    ((u32, u32), AssocList<Expr>),
    GraphError,
>)
    requires
        tree::fits_one(*src, *pair),
    ensures
        length_out(r) == meaning::var_length(src@, pair@, d.depth as nat),
    decreases pair, 20int,
{
    parse_length(src, &pair.children, d)
}

/// The range and the properties of a variable-length pattern.
fn parse_length(src: &Source, kids: &Vec<Pair>, d: DepthGuard) -> (r: Result<
    ((u32, u32), AssocList<Expr>),
    GraphError,
>)
    requires
        tree::fits(*src, kids@),
    ensures
        length_out(r) == meaning::length_from(
            src@,
            peg::pairs_view(kids@),
            0,
            (1, 50),
            Seq::empty(),
            d.depth as nat,
        ),
    decreases kids, 3int,
{
    let ghost ks = peg::pairs_view(kids@);
    let mut range: (u32, u32) = (1, 50);
    let mut props: AssocList<Expr> = AssocList::new();
    let mut i: usize = 0;
    assert(decreases_to!(kids => kids@));
    while i < kids.len()
        invariant
            tree::fits(*src, kids@),
            ks == peg::pairs_view(kids@),
            decreases_to!(kids => kids@),
            meaning::length_from(src@, ks, 0, (1, 50), Seq::empty(), d.depth as nat)
                == meaning::length_from(
                src@,
                ks,
                i as int,
                range,
                ast_model::pairs_view(props.entries@),
                d.depth as nat,
            ),
        decreases kids.len() - i,
    {
        assert(peg::within(ks[i as int], src@.len()));
        match kids[i].rule {
            Rule::IntRange => match parse_int_range(src, &kids[i]) {
                Err(e) => {
                    return Err(e);
                },
                Ok(x) => {
                    range = x;
                },
            },
            Rule::FixedLength => match literal::parse_var_length_bound(
                src.text(&kids[i]).as_str(),
            ) {
                Err(e) => {
                    return Err(e);
                },
                Ok(n) => {
                    range = (n, n);
                },
            },
            Rule::PropertyMap => match parse_property_map(src, &kids[i], d) {
                Err(e) => {
                    return Err(e);
                },
                Ok(x) => {
                    props = x;
                },
            },
            _ => {},
        }
        i = i + 1;
    }
    Ok((range, props))
}

/// `{key: value}`; a key given twice keeps its last value.
fn parse_property_map(src: &Source, pair: &Pair, d: DepthGuard) -> (r: Result<
    AssocList<Expr>,
    GraphError,
>)
    requires
        tree::fits_one(*src, *pair),
    ensures
        tree::props_out(r) == meaning::property_map(src@, pair@, d.depth as nat),
    decreases pair, 20int,
{
    parse_props(src, &pair.children, d)
}

/// The entries of a property map.
fn parse_props(src: &Source, kids: &Vec<Pair>, d: DepthGuard) -> (r: Result<
    AssocList<Expr>,
    GraphError,
>)
    requires
        tree::fits(*src, kids@),
    ensures
        tree::props_out(r) == meaning::props_from(
            src@,
            peg::pairs_view(kids@),
            0,
            Seq::empty(),
            d.depth as nat,
        ),
    decreases kids, 3int,
{
    let ghost ks = peg::pairs_view(kids@);
    let mut out: AssocList<Expr> = AssocList::new();
    let mut i: usize = 0;
    assert(decreases_to!(kids => kids@));
    while i < kids.len()
        invariant
            tree::fits(*src, kids@),
            ks == peg::pairs_view(kids@),
            decreases_to!(kids => kids@),
            meaning::props_from(src@, ks, 0, Seq::empty(), d.depth as nat) == meaning::props_from(
                src@,
                ks,
                i as int,
                ast_model::pairs_view(out.entries@),
                d.depth as nat,
            ),
        decreases kids.len() - i,
    {
        assert(peg::within(ks[i as int], src@.len()));
        assert(decreases_to!(kids@[i as int] => kids@[i as int].children));
        if kids[i].rule == Rule::PropertyPair {
            match parse_keyed(src, &kids[i].children, d) {
                Err(e) => {
                    return Err(e);
                },
                Ok((k, x)) => {
                    let ghost was = out.entries@;
                    out.insert(k, x);
                    proof {
                        tree::lemma_insert_view(was, out.entries@, k, x);
                    }
                },
            }
        }
        i = i + 1;
    }
    Ok(out)
}

} // verus!
