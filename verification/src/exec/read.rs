//! The reading operators, on rows.
use super::flow;
use super::flow::{Outcome, Rows};
use crate::assoc;
use crate::ast::{Expr, FloatLiteral, LiteralValue};
use crate::ast_model;
use crate::ast_model::{ExprView, FloatLiteralView, LiteralValueView};
use crate::binding;
use crate::float;
use crate::plan;
use crate::plan::{ExecContext, FullTextOp};
use crate::record;
use crate::record::{NamedRecord, Row};
use crate::source;
use crate::source::{Model, Source};
use crate::text;
use crate::types;
use crate::types::{ErrorCode, ErrorKind, ErrorView, GraphError, NodeId, QueryPhase};
use crate::value;
use crate::value::{Float, Node, NodeView, Value, ValueView};
use vstd::prelude::*;

verus! {

/// A single row.
pub fn one_row(rec: NamedRecord) -> (r: Vec<NamedRecord>)
    ensures
        record::rows(r@) == seq![rec@],
{
    let mut out: Vec<NamedRecord> = Vec::new();
    out.push(rec);
    assert(record::rows(out@) =~= seq![rec@]);
    out
}

/// No rows.
pub fn no_rows() -> (r: Vec<NamedRecord>)
    ensures
        record::rows(r@) == Seq::<Row>::empty(),
{
    let out: Vec<NamedRecord> = Vec::new();
    assert(record::rows(out@) =~= Seq::<Row>::empty());
    out
}

/// The row where the predicate holds on it, nothing where it does not.
pub open spec fn kept(rec: Row, predicate: ExprView, m: Model) -> Rows {
    match (m.holds)(predicate, rec) {
        Ok(true) => Ok(seq![rec]),
        Ok(false) => Ok(Seq::empty()),
        Err(e) => Err(e),
    }
}

/// The row where the predicate holds on it or there is none.
pub open spec fn kept_if(rec: Row, predicate: Option<ExprView>, m: Model) -> Rows {
    match predicate {
        Some(p) => kept(rec, p, m),
        None => Ok(seq![rec]),
    }
}

/// The row where the predicate holds on it, nothing where it does not.
pub fn keep<S: Source>(db: &S, rec: NamedRecord, predicate: &Expr) -> (r: Outcome)
    ensures
        source::steady(*db) ==> flow::rows_told(r) == kept(rec@, predicate@, source::model(*db)),
{
    match source::ask_holds(db, predicate, &rec) {
        Ok(true) => Ok(one_row(rec)),
        Ok(false) => Ok(no_rows()),
        Err(e) => Err(e),
    }
}

/// The row where the predicate holds on it or there is none.
pub fn keep_if<S: Source>(db: &S, rec: NamedRecord, predicate: &Option<Expr>) -> (r: Outcome)
    ensures
        source::steady(*db) ==> flow::rows_told(r) == kept_if(
            rec@,
            ast_model::opt_expr_view(*predicate),
            source::model(*db),
        ),
{
    match predicate {
        Some(p) => keep(db, rec, p),
        None => Ok(one_row(rec)),
    }
}

/// The rows on which the predicate holds.
pub open spec fn filtered(rs: Seq<Row>, predicate: ExprView, m: Model) -> Rows {
    flow::each(rs, |rec: Row| kept(rec, predicate, m))
}

/// The rows on which the predicate holds.
pub fn filter_rows<S: Source>(db: &S, rs: &Vec<NamedRecord>, predicate: &Expr) -> (r: Outcome)
    ensures
        source::steady(*db) ==> flow::rows_told(r) == filtered(
            record::rows(rs@),
            predicate@,
            source::model(*db),
        ),
{
    let ghost m = source::model(*db);
    let ghost p = predicate@;
    assert(flow::viewed(rs@) =~= record::rows(rs@));
    let f = |rec: &NamedRecord| -> (o: Outcome)
        ensures
            source::steady(*db) ==> flow::rows_told(o) == kept(
                rec@,
                predicate@,
                source::model(*db),
            ),
        { keep(db, rec.dup(), predicate) };
    flow::gather(rs, f, Ghost(|rec: Row| kept(rec, p, m)), Ghost(source::steady(*db)))
}

/// The rows, unless there are more than the context allows.
pub open spec fn limited(rs: Seq<Row>, ctx: ExecContext) -> Rows {
    match plan::row_limit(rs.len(), ctx) {
        Ok(_) => Ok(rs),
        Err(e) => Err(e),
    }
}

/// What was gathered, unless it is more than the context allows.
pub open spec fn limited_all(rs: Rows, ctx: ExecContext) -> Rows {
    match rs {
        Ok(rs) => limited(rs, ctx),
        Err(e) => Err(e),
    }
}

/// The rows, unless there are more than the context allows.
pub fn limit_rows(rs: Vec<NamedRecord>, ctx: &ExecContext) -> (r: Outcome)
    ensures
        flow::rows_told(r) == limited(record::rows(rs@), *ctx),
{
    match plan::check_row_limit(rs.len(), ctx) {
        Ok(_) => Ok(rs),
        Err(e) => Err(e),
    }
}

/// What was gathered, unless it is more than the context allows.
pub fn limit_all(rs: Outcome, ctx: &ExecContext) -> (r: Outcome)
    ensures
        flow::rows_told(r) == limited_all(flow::rows_told(rs), *ctx),
{
    match rs {
        Ok(rs) => limit_rows(rs, ctx),
        Err(e) => Err(e),
    }
}

/// A row for each node.
pub open spec fn node_rows(nodes: Seq<NodeView>, alias: Seq<char>) -> Seq<Row> {
    Seq::new(nodes.len(), |i: int| binding::node_row(Row::empty(), nodes[i], alias))
}

/// A row for each node.
pub fn rows_of_nodes(nodes: &Vec<Node>, alias: &str) -> (r: Vec<NamedRecord>)
    ensures
        record::rows(r@) == node_rows(value::nodes_view(nodes@), alias@),
{
    let ghost whole = node_rows(value::nodes_view(nodes@), alias@);
    let mut out: Vec<NamedRecord> = Vec::new();
    let mut i: usize = 0;
    while i < nodes.len()
        invariant
            i <= nodes.len(),
            whole == node_rows(value::nodes_view(nodes@), alias@),
            record::rows(out@) == whole.take(i as int),
        decreases nodes.len() - i,
    {
        let ghost before = record::rows(out@);
        let rec = binding::node_to_record(&nodes[i], alias);
        out.push(rec);
        assert(record::rows(out@) =~= before.push(rec@));
        assert(whole.take(i + 1) =~= whole.take(i as int).push(whole[i as int]));
        i = i + 1;
    }
    assert(whole.take(whole.len() as int) =~= whole);
    out
}

/// A row for each node with the label.
pub open spec fn scanned(label: Seq<char>, alias: Seq<char>, ctx: ExecContext, m: Model) -> Rows {
    match (m.nodes_by_label)(label) {
        Ok(nodes) => limited(node_rows(nodes, alias), ctx),
        Err(e) => Err(e),
    }
}

/// A row for each node with the label.
pub fn exec_scan<S: Source>(db: &S, label: &str, alias: &str, ctx: &ExecContext) -> (r: Outcome)
    ensures
        source::steady(*db) ==> flow::rows_told(r) == scanned(
            label@,
            alias@,
            *ctx,
            source::model(*db),
        ),
{
    match source::ask_nodes_by_label(db, label) {
        Ok(nodes) => limit_rows(rows_of_nodes(&nodes, alias), ctx),
        Err(e) => Err(e),
    }
}

/// The node with the id that an expression gives; no row where it gives no id or there is no
/// such node.
pub open spec fn looked_up(alias: Seq<char>, e: ExprView, rec: Row, m: Model) -> Rows {
    match (m.eval)(e, rec) {
        Ok(ValueView::I64(n)) => if n >= 0 {
            match (m.node)(NodeId(n as u64)) {
                Ok(found) => Ok(seq![binding::node_row(Row::empty(), found, alias)]),
                Err(ErrorView::NodeNotFound { .. }) => Ok(Seq::empty()),
                Err(e) => Err(e),
            }
        } else {
            Ok(Seq::empty())
        },
        Ok(_) => Ok(Seq::empty()),
        Err(e) => Err(e),
    }
}

/// The node with the id that an expression gives.
pub fn exec_id_lookup<S: Source>(db: &S, alias: &str, e: &Expr, rec: &NamedRecord) -> (r: Outcome)
    ensures
        source::steady(*db) ==> flow::rows_told(r) == looked_up(
            alias@,
            e@,
            rec@,
            source::model(*db),
        ),
{
    match source::ask_eval(db, e, rec) {
        Ok(v) => match v {
            Value::I64(n) => {
                if n < 0 {
                    return Ok(no_rows());
                }
                match source::ask_node(db, NodeId(n as u64)) {
                    Ok(found) => Ok(one_row(binding::node_to_record(&found, alias))),
                    Err(e) => match e {
                        GraphError::NodeNotFound { .. } => Ok(no_rows()),
                        GraphError::SizeLimit { .. } => Err(e),
                        GraphError::Query(_) => Err(e),
                        GraphError::Transaction { .. } => Err(e),
                    },
                }
            },
            _ => Ok(no_rows()),
        },
        Err(e) => Err(e),
    }
}

/// The value of a literal.
pub open spec fn literal(l: LiteralValueView, m: Model) -> ValueView {
    match l {
        LiteralValueView::Null => ValueView::Null,
        LiteralValueView::Bool(b) => ValueView::Bool(b),
        LiteralValueView::I64(n) => ValueView::I64(n),
        LiteralValueView::F64(f) => ValueView::F64(
            match f {
                FloatLiteralView::Decimal(digits) => (m.decimal)(digits),
                FloatLiteralView::Bits(bits) => Float { bits },
            },
        ),
        LiteralValueView::String(s) => ValueView::String(s),
    }
}

/// The value of a literal.
pub fn literal_to_value<S: Source>(db: &S, l: &LiteralValue) -> (r: Value)
    ensures
        source::steady(*db) ==> r@ == literal(l@, source::model(*db)),
{
    match l {
        LiteralValue::Null => Value::Null,
        LiteralValue::Bool(b) => Value::Bool(*b),
        LiteralValue::I64(n) => Value::I64(*n),
        LiteralValue::F64(f) => match f {
            FloatLiteral::Decimal(digits) => Value::F64(source::ask_decimal(db, digits)),
            FloatLiteral::Bits(bits) => Value::F64(Float { bits: *bits }),
        },
        LiteralValue::String(s) => Value::String(s.clone()),
    }
}

/// The values that an index is asked for.
pub open spec fn lookup_keys(s: Seq<(String, LiteralValue)>, m: Model) -> Row {
    Seq::new(s.len(), |i: int| (s[i].0@, literal(s[i].1@, m)))
}

/// The values that an index is asked for.
pub fn resolve_lookups<S: Source>(db: &S, v: &Vec<(String, LiteralValue)>) -> (r: Vec<
    (String, Value),
>)
    ensures
        source::steady(*db) ==> value::props_view(r@) == lookup_keys(v@, source::model(*db)),
{
    let ghost whole = lookup_keys(v@, source::model(*db));
    let mut out: Vec<(String, Value)> = Vec::new();
    let mut i: usize = 0;
    while i < v.len()
        invariant
            i <= v.len(),
            whole == lookup_keys(v@, source::model(*db)),
            source::steady(*db) ==> value::props_view(out@) == whole.take(i as int),
        decreases v.len() - i,
    {
        let ghost before = value::props_view(out@);
        let x = (v[i].0.clone(), literal_to_value(db, &v[i].1));
        out.push(x);
        assert(value::props_view(out@) =~= before.push((x.0@, x.1@)));
        assert(whole.take(i + 1) =~= whole.take(i as int).push(whole[i as int]));
        i = i + 1;
    }
    assert(whole.take(whole.len() as int) =~= whole);
    out
}

/// The row of a node that an index gave, where the rest of the predicate holds on it.
pub open spec fn indexed_row(id: NodeId, alias: Seq<char>, rest: Option<ExprView>, m: Model) -> Rows {
    match (m.node)(id) {
        Ok(n) => kept_if(binding::node_row(Row::empty(), n, alias), rest, m),
        Err(e) => Err(e),
    }
}

/// The row of a node that an index gave, where the rest of the predicate holds on it.
fn index_row<S: Source>(db: &S, id: NodeId, alias: &str, rest: &Option<Expr>) -> (r: Outcome)
    ensures
        source::steady(*db) ==> flow::rows_told(r) == indexed_row(
            id,
            alias@,
            ast_model::opt_expr_view(*rest),
            source::model(*db),
        ),
{
    match source::ask_node(db, id) {
        Ok(n) => keep_if(db, binding::node_to_record(&n, alias), rest),
        Err(e) => Err(e),
    }
}

/// The rows that an index gives.
pub open spec fn indexed(
    label: Seq<char>,
    alias: Seq<char>,
    properties: Seq<Seq<char>>,
    keys: Row,
    rest: Option<ExprView>,
    m: Model,
) -> Rows {
    match (m.index_ids)(label, properties, keys) {
        Ok(ids) => flow::each(ids, |id: NodeId| indexed_row(id, alias, rest, m)),
        Err(e) => Err(e),
    }
}

/// The rows that an index gives.
pub fn exec_index_lookup<S: Source>(
    db: &S,
    label: &str,
    alias: &str,
    properties: &Vec<String>,
    lookups: &Vec<(String, LiteralValue)>,
    rest: &Option<Expr>,
) -> (r: Outcome)
    ensures
        source::steady(*db) ==> flow::rows_told(r) == indexed(
            label@,
            alias@,
            ast_model::texts(properties@),
            lookup_keys(lookups@, source::model(*db)),
            ast_model::opt_expr_view(*rest),
            source::model(*db),
        ),
{
    let ghost m = source::model(*db);
    let ghost a = alias@;
    let ghost p = ast_model::opt_expr_view(*rest);
    let keys = resolve_lookups(db, lookups);
    match source::ask_index_ids(db, label, properties, &keys) {
        Ok(ids) => {
            assert(flow::viewed(ids@) =~= ids@);
            let f = |id: &NodeId| -> (o: Outcome)
                ensures
                    source::steady(*db) ==> flow::rows_told(o) == indexed_row(
                        *id,
                        alias@,
                        ast_model::opt_expr_view(*rest),
                        source::model(*db),
                    ),
                { index_row(db, *id, alias, rest) };
            flow::gather(
                &ids,
                f,
                Ghost(|id: NodeId| indexed_row(id, a, p, m)),
                Ghost(source::steady(*db)),
            )
        },
        Err(e) => Err(e),
    }
}

/// The name of a value's type, for messages.
pub open spec fn kind_name(v: ValueView) -> Seq<char> {
    match v {
        ValueView::Null => "Null"@,
        ValueView::Bool(_) => "Boolean"@,
        ValueView::I64(_) => "Integer"@,
        ValueView::F64(_) => "Float"@,
        ValueView::String(_) => "String"@,
        ValueView::List(_) => "List"@,
        ValueView::MapValue(_) => "Map"@,
        ValueView::Node(_) => "Node"@,
        ValueView::Edge(_) => "Relationship"@,
        ValueView::Path(_) => "Path"@,
        ValueView::Date(_) => "Date"@,
        ValueView::Time(_) => "Time"@,
        ValueView::LocalTime(_) => "LocalTime"@,
        ValueView::DateTime(_) => "DateTime"@,
        ValueView::LocalDateTime(_) => "LocalDateTime"@,
        ValueView::Duration(_) => "Duration"@,
    }
}

/// The name of a value's type, for messages.
pub fn fts_value_type_name(v: &Value) -> (r: &'static str)
    ensures
        r@ == kind_name(v@),
{
    match v {
        Value::Null => "Null",
        Value::Bool(_) => "Boolean",
        Value::I64(_) => "Integer",
        Value::F64(_) => "Float",
        Value::String(_) => "String",
        Value::List(_) => "List",
        Value::MapValue(_) => "Map",
        Value::Node(_) => "Node",
        Value::Edge(_) => "Relationship",
        Value::Path(_) => "Path",
        Value::Date(_) => "Date",
        Value::Time(_) => "Time",
        Value::LocalTime(_) => "LocalTime",
        Value::DateTime(_) => "DateTime",
        Value::LocalDateTime(_) => "LocalDateTime",
        Value::Duration(_) => "Duration",
    }
}

/// The text stands to the term as the operator says.
pub open spec fn text_matches(s: Seq<char>, op: FullTextOp, term: Seq<char>) -> bool {
    match op {
        FullTextOp::Contains => text::holds_part(s, term),
        FullTextOp::StartsWith => text::begins(s, term),
        FullTextOp::EndsWith => text::ends(s, term),
    }
}

/// A hit of the index is a match: the index has seen to it that the term occurs, but not where.
pub open spec fn anchored(props: Row, property: Seq<char>, op: FullTextOp, term: Seq<char>) -> bool {
    op == FullTextOp::Contains || match assoc::lookup(props, property) {
        Some(ValueView::String(s)) => text_matches(s, op, term),
        _ => false,
    }
}

/// The property is a text that stands to the term as the operator says.
pub open spec fn matches_term(props: Row, property: Seq<char>, op: FullTextOp, term: Seq<
    char,
>) -> bool {
    match assoc::lookup(props, property) {
        Some(ValueView::String(s)) => text_matches(s, op, term),
        _ => false,
    }
}

/// The text of a property.
fn text_property(n: &Node, property: &str) -> (r: Option<String>)
    ensures
        ast_model::opt_text(r) == binding::text_in(assoc::lookup(n@.properties, property@)),
{
    proof {
        assoc::lemma_same_keys(n.properties.entries@, n@.properties);
    }
    match n.properties.get(property) {
        Some(Value::String(s)) => Some(s.clone()),
        _ => None,
    }
}

/// True when the property is a text that stands to the term as the operator says.
fn term_matches(n: &Node, property: &str, op: FullTextOp, term: &str) -> (r: bool)
    ensures
        r == matches_term(n@.properties, property@, op, term@),
{
    match text_property(n, property) {
        Some(s) => match op {
            FullTextOp::Contains => text::contains(s.as_str(), term),
            FullTextOp::StartsWith => text::starts_with(s.as_str(), term),
            FullTextOp::EndsWith => text::ends_with(s.as_str(), term),
        },
        None => false,
    }
}

/// True when a hit of the index is a match.
pub fn fts_anchor_matches(n: &Node, property: &str, op: FullTextOp, term: &str) -> (r: bool)
    ensures
        r == anchored(n@.properties, property@, op, term@),
{
    match op {
        FullTextOp::Contains => true,
        _ => term_matches(n, property, op, term),
    }
}

/// The row of a node with a score, where the rest of the predicate holds on it.
pub open spec fn scored_row(
    n: NodeView,
    alias: Seq<char>,
    score: Float,
    rest: Option<ExprView>,
    m: Model,
) -> Rows {
    kept_if(
        assoc::put(
            binding::node_row(Row::empty(), n, alias),
            text::dotted(alias, "__fts_score"@),
            ValueView::F64(score),
        ),
        rest,
        m,
    )
}

/// The row of a node with a score, where the rest of the predicate holds on it.
fn score_row<S: Source>(
    db: &S,
    n: &Node,
    alias: &str,
    score: Float,
    rest: &Option<Expr>,
) -> (r: Outcome)
    ensures
        source::steady(*db) ==> flow::rows_told(r) == scored_row(
            n@,
            alias@,
            score,
            ast_model::opt_expr_view(*rest),
            source::model(*db),
        ),
{
    let mut rec = binding::node_to_record(n, alias);
    rec.set(text::field(alias, "__fts_score"), Value::F64(score));
    keep_if(db, rec, rest)
}

/// What a full-text lookup looks for.
#[derive(Debug, PartialEq)]
pub struct TextSearch {
    pub label: String,
    pub alias: String,
    pub property: String,
    pub op: FullTextOp,
    pub term: String,
}

/// What a [`TextSearch`] says.
pub struct TextSearchView {
    pub label: Seq<char>,
    pub alias: Seq<char>,
    pub property: Seq<char>,
    pub op: FullTextOp,
    pub term: Seq<char>,
}

impl View for TextSearch {
    type V = TextSearchView;

    open spec fn view(&self) -> TextSearchView {
        TextSearchView {
            label: self.label@,
            alias: self.alias@,
            property: self.property@,
            op: self.op,
            term: self.term@,
        }
    }
}

/// The row of a hit of the index. A rank is the better the lower it is, a score the higher.
pub open spec fn hit_row(hit: (NodeId, Float), x: TextSearchView, rest: Option<ExprView>, m: Model) -> Rows {
    match (m.node)(hit.0) {
        Ok(n) => if anchored(n.properties, x.property, x.op, x.term) {
            scored_row(n, x.alias, float::opposite(hit.1), rest, m)
        } else {
            Ok(Seq::empty())
        },
        Err(e) => Err(e),
    }
}

/// The row of a hit of the index.
fn hit<S: Source>(db: &S, h: &(NodeId, Float), x: &TextSearch, rest: &Option<Expr>) -> (r: Outcome)
    ensures
        source::steady(*db) ==> flow::rows_told(r) == hit_row(
            *h,
            x@,
            ast_model::opt_expr_view(*rest),
            source::model(*db),
        ),
{
    match source::ask_node(db, h.0) {
        Ok(n) => {
            if !fts_anchor_matches(&n, x.property.as_str(), x.op, x.term.as_str()) {
                return Ok(no_rows());
            }
            score_row(db, &n, x.alias.as_str(), float::negate(h.1), rest)
        },
        Err(e) => Err(e),
    }
}

/// The row of a node that was found without the index.
pub open spec fn found_row(n: NodeView, x: TextSearchView, rest: Option<ExprView>, m: Model) -> Rows {
    if matches_term(n.properties, x.property, x.op, x.term) {
        scored_row(n, x.alias, Float { bits: 0 }, rest, m)
    } else {
        Ok(Seq::empty())
    }
}

/// The row of a node that was found without the index.
fn found<S: Source>(db: &S, n: &Node, x: &TextSearch, rest: &Option<Expr>) -> (r: Outcome)
    ensures
        source::steady(*db) ==> flow::rows_told(r) == found_row(
            n@,
            x@,
            ast_model::opt_expr_view(*rest),
            source::model(*db),
        ),
{
    if term_matches(n, x.property.as_str(), x.op, x.term.as_str()) {
        score_row(db, n, x.alias.as_str(), Float { bits: 0 }, rest)
    } else {
        Ok(no_rows())
    }
}

/// The rows found without the index, among all nodes with the label.
pub open spec fn found_rows(x: TextSearchView, rest: Option<ExprView>, m: Model) -> Rows {
    match (m.nodes_by_label)(x.label) {
        Ok(nodes) => flow::each(nodes, |n: NodeView| found_row(n, x, rest, m)),
        Err(e) => Err(e),
    }
}

/// The rows found without the index, among all nodes with the label.
pub fn exec_fulltext_fallback<S: Source>(db: &S, x: &TextSearch, rest: &Option<Expr>) -> (r: Outcome)
    ensures
        source::steady(*db) ==> flow::rows_told(r) == found_rows(
            x@,
            ast_model::opt_expr_view(*rest),
            source::model(*db),
        ),
{
    let ghost m = source::model(*db);
    let ghost y = x@;
    let ghost p = ast_model::opt_expr_view(*rest);
    match source::ask_nodes_by_label(db, x.label.as_str()) {
        Ok(nodes) => {
            assert(flow::viewed(nodes@) =~= value::nodes_view(nodes@));
            let f = |n: &Node| -> (o: Outcome)
                ensures
                    source::steady(*db) ==> flow::rows_told(o) == found_row(
                        n@,
                        x@,
                        ast_model::opt_expr_view(*rest),
                        source::model(*db),
                    ),
                { found(db, n, x, rest) };
            flow::gather(
                &nodes,
                f,
                Ghost(|n: NodeView| found_row(n, y, p, m)),
                Ghost(source::steady(*db)),
            )
        },
        Err(e) => Err(e),
    }
}

/// The rows of a full-text lookup for a term.
pub open spec fn searched(x: TextSearchView, rest: Option<ExprView>, m: Model) -> Rows {
    match (m.fulltext)(x.label, x.property, x.term) {
        Ok(Some(hits)) => flow::each(hits, |h: (NodeId, Float)| hit_row(h, x, rest, m)),
        Ok(None) => found_rows(x, rest, m),
        Err(e) => Err(e),
    }
}

/// The rows of a full-text lookup for a term. Where the term is too short for the index, all
/// nodes with the label are looked at.
pub fn search<S: Source>(db: &S, x: &TextSearch, rest: &Option<Expr>) -> (r: Outcome)
    ensures
        source::steady(*db) ==> flow::rows_told(r) == searched(
            x@,
            ast_model::opt_expr_view(*rest),
            source::model(*db),
        ),
{
    let ghost m = source::model(*db);
    let ghost y = x@;
    let ghost p = ast_model::opt_expr_view(*rest);
    match source::ask_fulltext(db, x.label.as_str(), x.property.as_str(), x.term.as_str()) {
        Ok(Some(hits)) => {
            assert(flow::viewed(hits@) =~= hits@);
            let f = |h: &(NodeId, Float)| -> (o: Outcome)
                ensures
                    source::steady(*db) ==> flow::rows_told(o) == hit_row(
                        *h,
                        x@,
                        ast_model::opt_expr_view(*rest),
                        source::model(*db),
                    ),
                { hit(db, h, x, rest) };
            flow::gather(
                &hits,
                f,
                Ghost(|h: (NodeId, Float)| hit_row(h, y, p, m)),
                Ghost(source::steady(*db)),
            )
        },
        Ok(None) => exec_fulltext_fallback(db, x, rest),
        Err(e) => Err(e),
    }
}

/// The rows of a full-text lookup, whose term an expression gives.
pub open spec fn text_looked_up(
    label: Seq<char>,
    alias: Seq<char>,
    property: Seq<char>,
    op: FullTextOp,
    term: ExprView,
    rest: Option<ExprView>,
    rec: Row,
    m: Model,
) -> Rows {
    match (m.eval)(term, rec) {
        Ok(ValueView::String(s)) => searched(
            TextSearchView { label, alias, property, op, term: s },
            rest,
            m,
        ),
        Ok(ValueView::Null) => Ok(Seq::empty()),
        Ok(other) => Err(
            types::query_error(
                ErrorKind::Type,
                QueryPhase::Runtime,
                ErrorCode::Other,
                "fulltext predicate on '"@ + property + "' requires a String term, got "@
                    + kind_name(other),
                None,
                None,
            ),
        ),
        Err(e) => Err(e),
    }
}

/// The rows of a full-text lookup, whose term an expression gives.
pub fn exec_fulltext_lookup<S: Source>(
    db: &S,
    label: &str,
    alias: &str,
    property: &str,
    op: FullTextOp,
    term: &Expr,
    rest: &Option<Expr>,
    rec: &NamedRecord,
) -> (r: Outcome)
    ensures
        source::steady(*db) ==> flow::rows_told(r) == text_looked_up(
            label@,
            alias@,
            property@,
            op,
            term@,
            ast_model::opt_expr_view(*rest),
            rec@,
            source::model(*db),
        ),
{
    match source::ask_eval(db, term, rec) {
        Ok(v) => match v {
            Value::String(s) => {
                let x = TextSearch {
                    label: text::owned(label),
                    alias: text::owned(alias),
                    property: text::owned(property),
                    op,
                    term: s,
                };
                search(db, &x, rest)
            },
            Value::Null => Ok(no_rows()),
            other => {
                let mut message = text::cat3(
                    "fulltext predicate on '",
                    property,
                    "' requires a String term, got ",
                );
                message.append(fts_value_type_name(&other));
                Err(GraphError::type_error(QueryPhase::Runtime, ErrorCode::Other, message))
            },
        },
        Err(e) => Err(e),
    }
}

/// The row with an item of a list bound to a variable. A node or a relationship is spread over
/// its fields.
pub open spec fn unwound_row(rec: Row, item: ValueView, alias: Seq<char>) -> Row {
    match item {
        ValueView::Node(n) => record::put_all(rec, binding::node_row(Row::empty(), n, alias)),
        ValueView::Edge(e) => {
            let named = assoc::put(rec, alias, ValueView::Edge(e));
            let from = assoc::put(named, text::dotted(alias, "__src"@), binding::id_view(e.src));
            let to = assoc::put(from, text::dotted(alias, "__dst"@), binding::id_view(e.dst));
            let typed = assoc::put(
                to,
                text::dotted(alias, "__type"@),
                ValueView::String(e.label),
            );
            record::put_all(typed, record::fields_of(alias, e.properties))
        },
        _ => assoc::put(rec, alias, item),
    }
}

/// The row with an item of a list bound to a variable.
pub fn unwind_row(rec: &NamedRecord, item: &Value, alias: &str) -> (r: NamedRecord)
    ensures
        r@ == unwound_row(rec@, item@, alias@),
{
    let mut out = rec.dup();
    match item {
        Value::Node(n) => {
            let node_rec = binding::node_to_record(n, alias);
            out.set_all(&node_rec.fields.entries);
        },
        Value::Edge(e) => {
            out.set(text::owned(alias), item.dup());
            out.set(text::field(alias, "__src"), binding::id_value(e.src));
            out.set(text::field(alias, "__dst"), binding::id_value(e.dst));
            out.set(text::field(alias, "__type"), Value::String(e.label.clone()));
            out.set_fields(alias, &e.properties.entries);
        },
        _ => {
            out.set(text::owned(alias), item.dup());
        },
    }
    out
}

/// A row for each item of a list; none for null.
pub open spec fn unwound(rec: Row, v: ValueView, alias: Seq<char>, m: Model) -> Rows {
    match v {
        ValueView::List(items) => Ok(
            Seq::new(items.len(), |i: int| unwound_row(rec, items[i], alias)),
        ),
        ValueView::Null => Ok(Seq::empty()),
        _ => Err(
            types::semantic_error(
                ErrorCode::Other,
                "UNWIND requires a list, got: "@ + (m.show)(v),
            ),
        ),
    }
}

/// A row for each item of a list; none for null.
pub fn unwind_value<S: Source>(db: &S, rec: &NamedRecord, v: &Value, alias: &str) -> (r: Outcome)
    ensures
        source::steady(*db) ==> flow::rows_told(r) == unwound(
            rec@,
            v@,
            alias@,
            source::model(*db),
        ),
{
    match v {
        Value::List(items) => {
            let ghost all = value::values_view(items@);
            let ghost whole = Seq::new(
                all.len(),
                |i: int| unwound_row(rec@, all[i], alias@),
            );
            let mut out: Vec<NamedRecord> = Vec::new();
            let mut i: usize = 0;
            while i < items.len()
                invariant
                    i <= items.len(),
                    all == value::values_view(items@),
                    whole == Seq::new(all.len(), |i: int| unwound_row(rec@, all[i], alias@)),
                    record::rows(out@) == whole.take(i as int),
                decreases items.len() - i,
            {
                let ghost before = record::rows(out@);
                let row = unwind_row(rec, &items[i], alias);
                out.push(row);
                assert(record::rows(out@) =~= before.push(row@));
                assert(whole.take(i + 1) =~= whole.take(i as int).push(whole[i as int]));
                i = i + 1;
            }
            assert(whole.take(whole.len() as int) =~= whole);
            Ok(out)
        },
        Value::Null => Ok(no_rows()),
        _ => Err(
            GraphError::semantic(
                ErrorCode::Other,
                text::cat("UNWIND requires a list, got: ", source::ask_show(db, v).as_str()),
            ),
        ),
    }
}

/// A row for each item of the list that an expression gives.
pub open spec fn unwound_expr(rec: Row, e: ExprView, alias: Seq<char>, m: Model) -> Rows {
    match (m.eval)(e, rec) {
        Ok(v) => unwound(rec, v, alias, m),
        Err(e) => Err(e),
    }
}

/// A row for each item of the list that an expression gives.
fn unwind_one<S: Source>(db: &S, rec: &NamedRecord, e: &Expr, alias: &str) -> (r: Outcome)
    ensures
        source::steady(*db) ==> flow::rows_told(r) == unwound_expr(
            rec@,
            e@,
            alias@,
            source::model(*db),
        ),
{
    match source::ask_eval(db, e, rec) {
        Ok(v) => unwind_value(db, rec, &v, alias),
        Err(e) => Err(e),
    }
}

/// For each row, a row for each item of the list that an expression gives.
pub open spec fn unwound_rows(rs: Seq<Row>, e: ExprView, alias: Seq<char>, m: Model) -> Rows {
    flow::each(rs, |rec: Row| unwound_expr(rec, e, alias, m))
}

/// For each row, a row for each item of the list that an expression gives.
pub fn unwind_rows<S: Source>(db: &S, rs: &Vec<NamedRecord>, e: &Expr, alias: &str) -> (r: Outcome)
    ensures
        source::steady(*db) ==> flow::rows_told(r) == unwound_rows(
            record::rows(rs@),
            e@,
            alias@,
            source::model(*db),
        ),
{
    let ghost m = source::model(*db);
    let ghost x = e@;
    let ghost a = alias@;
    assert(flow::viewed(rs@) =~= record::rows(rs@));
    let f = |rec: &NamedRecord| -> (o: Outcome)
        ensures
            source::steady(*db) ==> flow::rows_told(o) == unwound_expr(
                rec@,
                e@,
                alias@,
                source::model(*db),
            ),
        { unwind_one(db, rec, e, alias) };
    flow::gather(rs, f, Ghost(|rec: Row| unwound_expr(rec, x, a, m)), Ghost(source::steady(*db)))
}

} // verus!
