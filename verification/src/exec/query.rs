//! Running a plan from the outside.
use crate::assoc;
use crate::ast::Expr;
use crate::ast_model;
use crate::ast_model::ExprView;
use crate::binding;
use crate::exec::expand;
use crate::exec::expand::{Expansion, ExpansionView};
use crate::exec::flow;
use crate::exec::flow::{Outcome, Rows};
use crate::exec::inner;
use crate::exec::read;
use crate::exec::run;
use crate::iter;
use crate::iter_slot;
use crate::plan;
use crate::plan::{ExecContext, LogicalOp};
use crate::record;
use crate::record::{NamedRecord, Row};
use crate::source;
use crate::source::{Model, Source};
use crate::types::{ErrorView, GraphError, NodeId};
use crate::value;
use crate::value::Value;
use vstd::prelude::*;

verus! {

/// The rows of a query that reads, pulled through iterators.
pub open spec fn pulled(op: LogicalOp, m: Model) -> Rows {
    iter::gathered(iter::stream_of(op, iter::free_context().max_traversal_work, m))
}

/// Runs a plan that reads, without limits. Rows are pulled through iterators, so that what a
/// LIMIT does not need is not computed.
pub fn execute<S: Source>(db: &S, plan: &LogicalOp) -> (r: Outcome)
    requires
        plan::reads_only(*plan),
    ensures
        source::steady(*db) ==> flow::rows_told(r) == pulled(*plan, source::model(*db)),
{
    let ctx = ExecContext::default();
    match iter::build_iter(db, plan, ctx.max_traversal_work) {
        Ok(it) => {
            let mut it = it;
            iter::collect_all(&mut *it)
        },
        Err(e) => Err(e),
    }
}

/// The rows of a query that reads, under limits.
pub open spec fn queried(op: LogicalOp, ctx: ExecContext, m: Model) -> Rows {
    let fault = if ctx.max_traversal_depth == 0 {
        None
    } else {
        plan::depth_fault(op, ctx.max_traversal_depth)
    };
    match fault {
        Some(e) => Err(e),
        None => if plan::slot_supported(op) {
            slot_rows(iter_slot::slots_of(op, op, ctx, m))
        } else {
            run::rows_of(op, ctx, m)
        },
    }
}

/// All rows of a flow by slots, by names.
pub open spec fn slot_rows(s: iter_slot::SlotFlows) -> Rows {
    match s {
        Ok(s) => iter_slot::all_named(
            iter_slot::drained(s.stream.rows, s.stream.fault),
            s.names,
        ),
        Err(e) => Err(e),
    }
}

/// Runs a plan that reads, under limits: by slots where each of its operators can.
pub fn execute_with_ctx<S: Source>(db: &S, plan: &LogicalOp, ctx: &ExecContext) -> (r: Outcome)
    requires
        plan::reads_only(*plan),
    ensures
        source::steady(*db) ==> flow::rows_told(r) == queried(*plan, *ctx, source::model(*db)),
{
    match plan::validate_traversal_depth(plan, ctx) {
        Err(e) => {
            return Err(e);
        },
        Ok(_) => {},
    }
    if !plan::is_slot_supported(plan) {
        return run::exec(db, plan, ctx);
    }
    match iter_slot::build_slot_iter(db, plan, ctx) {
        Ok(it) => {
            let mut it = it;
            iter_slot::collect_to_named(&mut *it)
        },
        Err(e) => Err(e),
    }
}

/// The rows that a query returns: none where its plan writes at its top, as then it has no
/// RETURN.
pub fn returned_rows(plan: &LogicalOp, rs: Vec<NamedRecord>) -> (r: Vec<NamedRecord>)
    ensures
        record::rows(r@) == (if plan::writes(*plan) {
            Seq::<Row>::empty()
        } else {
            record::rows(rs@)
        }),
{
    if plan::is_bare_write(plan) {
        read::no_rows()
    } else {
        rs
    }
}

/// The rows of a subquery for a row outside.
pub fn exec_correlated_subquery<S: Source>(db: &S, plan: &LogicalOp, outer: &NamedRecord) -> (r:
    Outcome)
    requires
        plan::reads_only(*plan),
    ensures
        source::steady(*db) ==> flow::rows_told(r) == run::inner_rows_of(
            *plan,
            outer@,
            iter::free_context(),
            source::model(*db),
        ),
{
    run::exec_correlated(db, plan, outer, &ExecContext::default())
}

/// Whether there are rows.
pub open spec fn any_rows(rs: Rows) -> Result<bool, ErrorView> {
    match rs {
        Ok(rs) => Ok(rs.len() > 0),
        Err(e) => Err(e),
    }
}

/// True when a subquery has a row for a row outside.
pub fn exec_correlated_exists<S: Source>(db: &S, plan: &LogicalOp, outer: &NamedRecord) -> (r:
    Result<bool, GraphError>)
    requires
        plan::reads_only(*plan),
    ensures
        source::steady(*db) ==> source::plain(r) == any_rows(
            run::inner_rows_of(*plan, outer@, iter::free_context(), source::model(*db)),
        ),
{
    match exec_correlated_subquery(db, plan, outer) {
        Ok(rs) => Ok(rs.len() > 0),
        Err(e) => Err(e),
    }
}

/// The answer of a test.
pub type Answer = Result<bool, ErrorView>;

/// The outcome of a test.
pub type Tested = Result<bool, GraphError>;

/// Whether one of the items passes a test: the first that passes or fails to be tested decides.
pub open spec fn first<T>(s: Seq<T>, f: spec_fn(T) -> Answer) -> Answer
    decreases s.len(),
{
    if s.len() == 0 {
        Ok(false)
    } else {
        match f(s[0]) {
            Ok(true) => Ok(true),
            Ok(false) => first(s.drop_first(), f),
            Err(e) => Err(e),
        }
    }
}

/// Whether one of the items passes a test. `g` says what the test of an item gives, provided
/// that `on` holds.
fn find_first<T: View, F: Fn(&T) -> Tested>(
    v: &Vec<T>,
    f: F,
    Ghost(g): Ghost<spec_fn(T::V) -> Answer>,
    Ghost(on): Ghost<bool>,
) -> (r: Tested)
    requires
        forall|x: &T| #[trigger] call_requires(f, (x,)),
        forall|x: &T, o: Tested| #[trigger]
            call_ensures(f, (x,), o) && on ==> source::plain(o) == g(x@),
    ensures
        on ==> source::plain(r) == first(flow::viewed(v@), g),
{
    let ghost s = flow::viewed(v@);
    let mut i: usize = 0;
    assert(s.skip(0) =~= s);
    while i < v.len()
        invariant
            i <= v.len(),
            s == flow::viewed(v@),
            forall|x: &T| #[trigger] call_requires(f, (x,)),
            forall|x: &T, o: Tested| #[trigger]
                call_ensures(f, (x,), o) && on ==> source::plain(o) == g(x@),
            on ==> first(s.skip(i as int), g) == first(s, g),
        decreases v.len() - i,
    {
        assert(s.skip(i as int)[0] == v@[i as int]@);
        assert(s.skip(i as int).drop_first() =~= s.skip(i + 1));
        match f(&v[i]) {
            Ok(false) => {},
            Ok(true) => {
                return Ok(true);
            },
            Err(e) => {
                return Err(e);
            },
        }
        i = i + 1;
    }
    Ok(false)
}

/// What an optional expression says.
pub open spec fn opt_ref(o: Option<&Expr>) -> Option<ExprView> {
    match o {
        Some(e) => Some(e@),
        None => None,
    }
}

/// The test of a row by a predicate and bindings.
pub open spec fn row_test(predicate: Option<ExprView>, bindings: Row, m: Model) -> spec_fn(
    Row,
) -> Answer {
    |rec: Row| matched_if(rec, predicate, bindings, m)
}

/// The test of a node that is bound to a variable of a row.
pub open spec fn node_test(
    rec: Row,
    alias: Seq<char>,
    predicate: Option<ExprView>,
    bindings: Row,
    m: Model,
) -> spec_fn(NodeId) -> Answer {
    |id: NodeId| node_matched(rec, id, alias, predicate, bindings, m)
}

/// The test of a row by the nodes that it expands to.
pub open spec fn expansion_test(x: ExpansionView, bindings: Row, m: Model) -> spec_fn(
    Row,
) -> Answer {
    |rec: Row| expansion_matched(rec, x, bindings, m)
}

/// Whether a row agrees with bindings, as an answer.
pub open spec fn matched(rec: Row, bindings: Row) -> Answer {
    Ok(binding::agrees(rec, bindings))
}

/// Whether a row passes a predicate and agrees with bindings.
pub open spec fn matched_if(rec: Row, predicate: Option<ExprView>, bindings: Row, m: Model) -> Answer {
    match predicate {
        None => matched(rec, bindings),
        Some(p) => match (m.holds)(p, rec) {
            Ok(true) => matched(rec, bindings),
            Ok(false) => Ok(false),
            Err(e) => Err(e),
        },
    }
}

/// Whether a row passes a predicate and agrees with bindings.
fn match_if<S: Source>(
    db: &S,
    rec: &NamedRecord,
    predicate: Option<&Expr>,
    bindings: &Vec<(String, Value)>,
) -> (r: Tested)
    ensures
        source::steady(*db) ==> source::plain(r) == matched_if(
            rec@,
            opt_ref(predicate),
            value::props_view(bindings@),
            source::model(*db),
        ),
{
    match predicate {
        None => {},
        Some(p) => match source::ask_holds(db, p, rec) {
            Ok(true) => {},
            Ok(false) => {
                return Ok(false);
            },
            Err(e) => {
                return Err(e);
            },
        },
    }
    Ok(binding::record_matches_bindings(rec, bindings))
}

/// Whether one of the rows agrees with bindings.
fn match_rows<S: Source>(
    db: &S,
    rs: &Vec<NamedRecord>,
    predicate: Option<&Expr>,
    bindings: &Vec<(String, Value)>,
) -> (r: Tested)
    ensures
        source::steady(*db) ==> source::plain(r) == first(
            record::rows(rs@),
            row_test(opt_ref(predicate), value::props_view(bindings@), source::model(*db)),
        ),
{
    let ghost m = source::model(*db);
    let ghost b = value::props_view(bindings@);
    let ghost p = opt_ref(predicate);
    assert(flow::viewed(rs@) =~= record::rows(rs@));
    let f = |rec: &NamedRecord| -> (o: Tested)
        ensures
            source::steady(*db) ==> source::plain(o) == matched_if(
                rec@,
                opt_ref(predicate),
                value::props_view(bindings@),
                source::model(*db),
            ),
        { match_if(db, rec, predicate, bindings) };
    find_first(rs, f, Ghost(row_test(p, b, m)), Ghost(source::steady(*db)))
}

/// Whether a node agrees with bindings when it is bound to a variable of a row.
pub open spec fn node_matched(
    rec: Row,
    id: NodeId,
    alias: Seq<char>,
    predicate: Option<ExprView>,
    bindings: Row,
    m: Model,
) -> Answer {
    match (m.node)(id) {
        Ok(n) => matched_if(binding::node_row(rec, n, alias), predicate, bindings, m),
        Err(e) => Err(e),
    }
}

/// Whether one of the nodes agrees with bindings when it is bound to a variable of a row.
fn match_nodes<S: Source>(
    db: &S,
    rec: &NamedRecord,
    ids: &Vec<NodeId>,
    alias: &str,
    predicate: Option<&Expr>,
    bindings: &Vec<(String, Value)>,
) -> (r: Tested)
    ensures
        source::steady(*db) ==> source::plain(r) == first(
            ids@,
            node_test(
                rec@,
                alias@,
                opt_ref(predicate),
                value::props_view(bindings@),
                source::model(*db),
            ),
        ),
{
    let ghost m = source::model(*db);
    let ghost b = value::props_view(bindings@);
    let ghost (rv, av) = (rec@, alias@);
    let ghost p = opt_ref(predicate);
    assert(flow::viewed(ids@) =~= ids@);
    let f = |id: &NodeId| -> (o: Tested)
        ensures
            source::steady(*db) ==> source::plain(o) == node_matched(
                rec@,
                *id,
                alias@,
                opt_ref(predicate),
                value::props_view(bindings@),
                source::model(*db),
            ),
        { match_node(db, rec, *id, alias, predicate, bindings) };
    find_first(
        ids,
        f,
        Ghost(node_test(rv, av, p, b, m)),
        Ghost(source::steady(*db)),
    )
}

/// Whether a node agrees with bindings when it is bound to a variable of a row.
fn match_node<S: Source>(
    db: &S,
    rec: &NamedRecord,
    id: NodeId,
    alias: &str,
    predicate: Option<&Expr>,
    bindings: &Vec<(String, Value)>,
) -> (r: Tested)
    ensures
        source::steady(*db) ==> source::plain(r) == node_matched(
            rec@,
            id,
            alias@,
            opt_ref(predicate),
            value::props_view(bindings@),
            source::model(*db),
        ),
{
    match source::ask_node(db, id) {
        Ok(n) => {
            let mut row = rec.dup();
            binding::populate_node_bindings(&mut row, &n, alias);
            match_if(db, &row, predicate, bindings)
        },
        Err(e) => Err(e),
    }
}

/// All nodes that relationships of some types lead to.
pub open spec fn all_targets(src: NodeId, labels: Seq<Seq<char>>, x: ExpansionView, m: Model) -> Result<
    Seq<NodeId>,
    ErrorView,
> {
    flow::each(labels, |label: Seq<char>| inner::targets(src, label, x, m))
}

/// All nodes that relationships of some types lead to.
fn find_all_targets<S: Source>(db: &S, src: NodeId, labels: &Vec<String>, x: &Expansion) -> (r: Result<
    Vec<NodeId>,
    GraphError,
>)
    ensures
        source::steady(*db) ==> source::ids_told(r) == all_targets(
            src,
            ast_model::texts(labels@),
            x@,
            source::model(*db),
        ),
{
    let ghost m = source::model(*db);
    let ghost xv = x@;
    let ghost s = ast_model::texts(labels@);
    let ghost f = |label: Seq<char>| inner::targets(src, label, xv, m);
    let mut out: Vec<NodeId> = Vec::new();
    let mut i: usize = 0;
    assert(s.take(0) =~= Seq::<Seq<char>>::empty());
    while i < labels.len()
        invariant
            i <= labels.len(),
            m == source::model(*db),
            xv == x@,
            s == ast_model::texts(labels@),
            f == (|label: Seq<char>| inner::targets(src, label, xv, m)),
            source::steady(*db) ==> flow::each(s.take(i as int), f) == Ok::<
                Seq<NodeId>,
                ErrorView,
            >(out@),
        decreases labels.len() - i,
    {
        proof {
            flow::lemma_each_step(s, f, i as int);
        }
        assert(s[i as int] == labels@[i as int]@);
        match inner::find_targets(db, src, labels[i].as_str(), x) {
            Ok(ids) => {
                let mut ids = ids;
                let ghost before = out@;
                let ghost more = ids@;
                out.append(&mut ids);
                assert(out@ =~= before + more);
            },
            Err(e) => {
                proof {
                    if source::steady(*db) {
                        flow::lemma_each_stops(s, f, i + 1);
                    }
                }
                return Err(e);
            },
        }
        i = i + 1;
    }
    assert(s.take(s.len() as int) =~= s);
    Ok(out)
}

/// Whether one of the nodes that a row expands to agrees with bindings.
pub open spec fn expansion_matched(rec: Row, x: ExpansionView, bindings: Row, m: Model) -> Answer {
    match binding::node_in(assoc::lookup(rec, x.src_alias)) {
        None => Ok(false),
        Some(src) => match expand::types_from(src, x, m) {
            Err(e) => Err(e),
            Ok(labels) => match all_targets(src, labels, x, m) {
                Err(e) => Err(e),
                Ok(ids) => first(
                    ids,
                    node_test(rec, x.dst_alias, None, bindings, m),
                ),
            },
        },
    }
}

/// Whether one of the nodes that a row expands to agrees with bindings.
fn match_expansion<S: Source>(
    db: &S,
    rec: &NamedRecord,
    x: &Expansion,
    bindings: &Vec<(String, Value)>,
) -> (r: Tested)
    ensures
        source::steady(*db) ==> source::plain(r) == expansion_matched(
            rec@,
            x@,
            value::props_view(bindings@),
            source::model(*db),
        ),
{
    match binding::node_field(rec, x.src_alias.as_str()) {
        None => Ok(false),
        Some(src) => match expand::labels_from(db, src, x) {
            Err(e) => Err(e),
            Ok(labels) => match find_all_targets(db, src, &labels, x) {
                Err(e) => Err(e),
                Ok(ids) => match_nodes(db, rec, &ids, x.dst_alias.as_str(), None, bindings),
            },
        },
    }
}

/// Whether a row of a list passes a test of rows.
pub open spec fn first_row(rs: Rows, f: spec_fn(Row) -> Answer) -> Answer {
    match rs {
        Ok(rs) => first(rs, f),
        Err(e) => Err(e),
    }
}

/// Whether a plan has a row that agrees with bindings. Only as many rows are tried as it takes.
pub open spec fn first_match(op: LogicalOp, bindings: Row, m: Model) -> Answer {
    let ctx = iter::free_context();
    match op {
        LogicalOp::Scan { label, alias } => match (m.nodes_by_label)(label@) {
            Ok(nodes) => first(
                read::node_rows(nodes, alias@),
                row_test(None, bindings, m),
            ),
            Err(e) => Err(e),
        },
        LogicalOp::IndexLookup { label, alias, index_properties, lookups, remaining_filters } =>
        match (m.index_ids)(
            label@,
            ast_model::texts(index_properties@),
            read::lookup_keys(lookups@, m),
        ) {
            Ok(ids) => first(
                ids,
                node_test(
                    Row::empty(),
                    alias@,
                    ast_model::opt_expr_view(remaining_filters),
                    bindings,
                    m,
                ),
            ),
            Err(e) => Err(e),
        },
        LogicalOp::Filter { input, predicate } => first_row(
            run::rows_of(*input, ctx, m),
            row_test(Some(predicate@), bindings, m),
        ),
        LogicalOp::Expand { input, .. } => first_row(
            run::rows_of(*input, ctx, m),
            expansion_test(run::expansion(op, m), bindings, m),
        ),
        _ => first_row(pulled(op, m), row_test(None, bindings, m)),
    }
}

/// Whether one of the rows expands to a node that agrees with bindings.
fn match_expansions<S: Source>(
    db: &S,
    rs: &Vec<NamedRecord>,
    x: &Expansion,
    bindings: &Vec<(String, Value)>,
) -> (r: Tested)
    ensures
        source::steady(*db) ==> source::plain(r) == first(
            record::rows(rs@),
            expansion_test(x@, value::props_view(bindings@), source::model(*db)),
        ),
{
    let ghost m = source::model(*db);
    let ghost b = value::props_view(bindings@);
    let ghost xv = x@;
    assert(flow::viewed(rs@) =~= record::rows(rs@));
    let f = |rec: &NamedRecord| -> (o: Tested)
        ensures
            source::steady(*db) ==> source::plain(o) == expansion_matched(
                rec@,
                x@,
                value::props_view(bindings@),
                source::model(*db),
            ),
        { match_expansion(db, rec, x, bindings) };
    find_first(
        rs,
        f,
        Ghost(expansion_test(xv, b, m)),
        Ghost(source::steady(*db)),
    )
}

/// An optional expression by reference.
fn by_ref(o: &Option<Expr>) -> (r: Option<&Expr>)
    ensures
        opt_ref(r) == ast_model::opt_expr_view(*o),
{
    match o {
        Some(p) => Some(p),
        None => None,
    }
}

/// Whether a plan that reads has a row that agrees with bindings of an outer scope. A binding
/// that a row has no field for is no constraint on it.
pub fn execute_first_match<S: Source>(
    db: &S,
    plan: &LogicalOp,
    correlated_bindings: &Vec<(String, Value)>,
) -> (r: Tested)
    requires
        plan::reads_only(*plan),
    ensures
        source::steady(*db) ==> source::plain(r) == first_match(
            *plan,
            value::props_view(correlated_bindings@),
            source::model(*db),
        ),
{
    let ctx = ExecContext::default();
    match plan {
        LogicalOp::Scan { label, alias } => match source::ask_nodes_by_label(db, label.as_str()) {
            Ok(nodes) => {
                let rs = read::rows_of_nodes(&nodes, alias.as_str());
                match_rows(db, &rs, None, correlated_bindings)
            },
            Err(e) => Err(e),
        },
        LogicalOp::IndexLookup { label, alias, index_properties, lookups, remaining_filters } => {
            let keys = read::resolve_lookups(db, lookups);
            match source::ask_index_ids(db, label.as_str(), index_properties, &keys) {
                Ok(ids) => match_nodes(
                    db,
                    &NamedRecord::new(),
                    &ids,
                    alias.as_str(),
                    by_ref(remaining_filters),
                    correlated_bindings,
                ),
                Err(e) => Err(e),
            }
        },
        LogicalOp::Filter { input, predicate } => match run::exec(db, input, &ctx) {
            Ok(rs) => match_rows(db, &rs, Some(predicate), correlated_bindings),
            Err(e) => Err(e),
        },
        LogicalOp::Expand { input, .. } => match run::exec(db, input, &ctx) {
            Ok(rs) => {
                let x = run::build_expansion(db, plan);
                match_expansions(db, &rs, &x, correlated_bindings)
            },
            Err(e) => Err(e),
        },
        _ => match execute(db, plan) {
            Ok(rs) => match_rows(db, &rs, None, correlated_bindings),
            Err(e) => Err(e),
        },
    }
}

} // verus!
