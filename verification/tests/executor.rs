//! Running plans over a small graph.
use graphdblite::assoc::AssocList;
use graphdblite::ast::{
    Assignment, BinOp, Expr, ExprKind, FloatLiteral, LiteralValue, NodePattern, Pattern,
    PatternElement, RelDirection, RelPattern, RemoveItem, ReturnItem, SetItem, ShortestPathMode,
    SortItem,
};
use graphdblite::binding;
use graphdblite::exec::aggregate;
use graphdblite::exec::arrange;
use graphdblite::exec::assign;
use graphdblite::exec::change;
use graphdblite::exec::change::{Change, Creation, Deletion};
use graphdblite::exec::merge;
use graphdblite::exec::merge::Found;
use graphdblite::exec::merge_lone::{LoneClause, LoneRun};
use graphdblite::exec::merge_rel;
use graphdblite::exec::merge_rel::RelFound;
use graphdblite::exec::merge_run::{Clause, MergeRun};
use graphdblite::exec::merge_set;
use graphdblite::exec::project;
use graphdblite::exec::pull;
use graphdblite::exec::query;
use graphdblite::exec::read;
use graphdblite::exec::read::TextSearch;
use graphdblite::exec::run;
use graphdblite::exec::write_run;
use graphdblite::exec::write_run::{CreateRun, CreateTask, WriteRun};
use graphdblite::iter::{collect_all, EmptyRowIter, LimitIter, RecordIter, SkipIter, VecIter};
use graphdblite::iter_slot;
use graphdblite::iter_slot::{
    collect_to_named, AggregateSlotIter, CappedSlotIter, DistinctSlotIter, EmptyRowSlotIter,
    LimitSlotIter, MaterializedSlotIter, NamedToSlotAdapter, ProjectSlotIter, SkipSlotIter,
    SlotRecordIter, SlotToNamedAdapter, SortSlotIter, UnwindSlotIter, VecSlotIter,
};
use graphdblite::order;
use graphdblite::plan;
use graphdblite::plan::{AggregateExpr, AggregateFunction, ExecContext, FullTextOp, LogicalOp};
use graphdblite::record::{NamedRecord, RecordSchema, SlotRecord};
use graphdblite::source::{PathRequest, Procedure, Source, Step};
use graphdblite::types::{Direction, ErrorCode, GraphError, NodeId, QueryError, Span};
use graphdblite::value;
use graphdblite::value::{Edge, Float, Node, PathValue, Value};

/// A small graph in memory.
struct Graph {
    nodes: Vec<Node>,
    edges: Vec<(Edge, u64)>,
    indexes: Vec<(String, Vec<String>)>,
    words: Vec<(String, String)>,
    procedures: Vec<(String, Procedure)>,
}

fn s(x: &str) -> String {
    x.to_string()
}

fn text(x: &str) -> Value {
    Value::String(s(x))
}

fn float(x: f64) -> Value {
    Value::F64(Float { bits: x.to_bits() })
}

fn props(entries: Vec<(&str, Value)>) -> AssocList<Value> {
    AssocList { entries: entries.into_iter().map(|(k, v)| (s(k), v)).collect() }
}

fn node(id: u64, labels: &[&str], entries: Vec<(&str, Value)>) -> Node {
    Node {
        id: NodeId(id),
        labels: labels.iter().map(|l| s(l)).collect(),
        properties: props(entries),
    }
}

fn edge(src: u64, dst: u64, label: &str, entries: Vec<(&str, Value)>) -> Edge {
    Edge { src: NodeId(src), dst: NodeId(dst), label: s(label), properties: props(entries) }
}

fn row(entries: Vec<(&str, Value)>) -> NamedRecord {
    NamedRecord { fields: props(entries) }
}

fn ex(kind: ExprKind) -> Expr {
    Expr { kind, span: Span::synthetic() }
}

fn var(x: &str) -> Expr {
    ex(ExprKind::Variable(s(x)))
}

fn prop(v: &str, p: &str) -> Expr {
    ex(ExprKind::Property(s(v), s(p)))
}

fn num(n: i64) -> Expr {
    ex(ExprKind::Literal(LiteralValue::I64(n)))
}

fn lit(x: &str) -> Expr {
    ex(ExprKind::Literal(LiteralValue::String(s(x))))
}

fn null() -> Expr {
    ex(ExprKind::Literal(LiteralValue::Null))
}

fn bin(left: Expr, op: BinOp, right: Expr) -> Expr {
    ex(ExprKind::BinaryOp { left: Box::new(left), op, right: Box::new(right) })
}

fn call(name: &str, args: Vec<Expr>) -> Expr {
    ex(ExprKind::FunctionCall { name: s(name), args, distinct: false, original_text: None })
}

fn item(expr: Expr, alias: Option<&str>) -> ReturnItem {
    ReturnItem { expr, alias: alias.map(s) }
}

fn missing(id: NodeId) -> GraphError {
    GraphError::NodeNotFound { id }
}

fn message(e: GraphError) -> String {
    match e {
        GraphError::Query(QueryError::SyntaxError { message, .. })
        | GraphError::Query(QueryError::SemanticError { message, .. })
        | GraphError::Query(QueryError::TypeError { message, .. })
        | GraphError::Query(QueryError::ArgumentError { message, .. })
        | GraphError::Query(QueryError::ConstraintError { message, .. })
        | GraphError::Query(QueryError::EntityNotFound { message, .. })
        | GraphError::Query(QueryError::ProcedureError { message, .. }) => message,
        GraphError::Transaction { message, .. } => message,
        other => panic!("{:?}", other),
    }
}

fn graph() -> Graph {
    Graph {
        nodes: vec![
            node(1, &["Person"], vec![("name", text("Ann")), ("age", Value::I64(40))]),
            node(2, &["Person"], vec![("name", text("Bob")), ("age", Value::I64(30))]),
            node(3, &["Person", "Admin"], vec![("name", text("Cid")), ("age", Value::I64(30))]),
            node(4, &["City"], vec![("name", text("Rome"))]),
        ],
        edges: vec![
            (edge(1, 2, "KNOWS", vec![("since", Value::I64(2000))]), 0),
            (edge(2, 3, "KNOWS", vec![]), 0),
            (edge(1, 4, "LIVES_IN", vec![]), 0),
        ],
        indexes: vec![(s("Person"), vec![s("name")])],
        words: vec![],
        procedures: vec![],
    }
}

impl Graph {
    fn ends(&self, id: NodeId, label: Option<&str>, direction: Direction) -> Vec<(NodeId, String)> {
        let mut out = Vec::new();
        for (e, _) in &self.edges {
            if label.map_or(true, |l| l == e.label) {
                if e.src == id && direction != Direction::Incoming {
                    out.push((e.dst, e.label.clone()));
                } else if e.dst == id && direction != Direction::Outgoing {
                    out.push((e.src, e.label.clone()));
                }
            }
        }
        out
    }

    /// Makes a change. Gives the id of a node that was created.
    fn perform(&mut self, c: &Change) -> NodeId {
        match c {
            Change::AddNode { labels, properties } => {
                let id = NodeId(self.nodes.len() as u64 + 1);
                let properties = AssocList { entries: value::dup_props(&properties.entries) };
                self.nodes.push(Node { id, labels: labels.clone(), properties });
                return id;
            }
            Change::AddEdge { src, dst, label, properties } => {
                let properties = AssocList { entries: value::dup_props(&properties.entries) };
                let seq = self.all_edge_props(*src, *dst, label).unwrap().len() as u64;
                let e = Edge { src: *src, dst: *dst, label: label.clone(), properties };
                self.edges.push((e, seq));
            }
            Change::SetNodeProperty { id, property, value } => {
                for n in self.nodes.iter_mut() {
                    if n.id == *id {
                        if *value == Value::Null {
                            n.properties.swap_remove(property);
                        } else {
                            n.properties.insert(property.clone(), value.dup());
                        }
                    }
                }
            }
            Change::SetEdgeProperty { src, dst, label, seq, property, value } => {
                for (e, n) in self.edges.iter_mut() {
                    let meant = seq.map_or(true, |x| x == *n);
                    if e.src == *src && e.dst == *dst && e.label == *label && meant {
                        e.properties.insert(property.clone(), value.dup());
                    }
                }
            }
            Change::AddLabel { id, label } => {
                for n in self.nodes.iter_mut() {
                    if n.id == *id {
                        n.labels.push(label.clone());
                    }
                }
            }
            _ => {}
        }
        NodeId(0)
    }

    fn perform_all(&mut self, changes: &Vec<Change>) -> NodeId {
        let mut last = NodeId(0);
        for c in changes {
            last = self.perform(c);
        }
        last
    }

    /// The slots of a variable: those that the engine fills, and one for each property of it that
    /// the plan reads.
    fn cluster(&self, whole: &LogicalOp, alias: &str) -> Vec<String> {
        let mut out = vec![s(alias)];
        for k in ["__id", "__label", "__labels", "__src", "__dst", "__type", "__edge_seq"] {
            out.push(format!("{}.{}", alias, k));
        }
        let mut read = vec![];
        read_by_plan(whole, &mut read);
        for (var, p) in read {
            if var == alias {
                out.push(format!("{}.{}", alias, p));
            }
        }
        out
    }
}

/// The properties that an expression reads.
fn read_by_expr(e: &Expr, out: &mut Vec<(String, String)>) {
    match &e.kind {
        ExprKind::Property(var, p) => out.push((var.clone(), p.clone())),
        ExprKind::BinaryOp { left, right, .. } => {
            read_by_expr(left, out);
            read_by_expr(right, out);
        }
        ExprKind::Not(x) | ExprKind::IsNull(x) | ExprKind::IsNotNull(x) => read_by_expr(x, out),
        ExprKind::FunctionCall { args: xs, .. } | ExprKind::List(xs) => {
            for x in xs {
                read_by_expr(x, out);
            }
        }
        _ => {}
    }
}

/// The properties that a plan reads.
fn read_by_plan(op: &LogicalOp, out: &mut Vec<(String, String)>) {
    match op {
        LogicalOp::Filter { input, predicate } => {
            read_by_plan(input, out);
            read_by_expr(predicate, out);
        }
        LogicalOp::Project { input, items, .. } => {
            read_by_plan(input, out);
            for i in items {
                read_by_expr(&i.expr, out);
            }
        }
        LogicalOp::Sort { input, items } => {
            read_by_plan(input, out);
            for i in items {
                read_by_expr(&i.expr, out);
            }
        }
        LogicalOp::Aggregate { input, group_keys, aggregates } => {
            read_by_plan(input, out);
            for k in group_keys {
                read_by_expr(k, out);
            }
            for a in aggregates {
                read_by_expr(&a.input, out);
            }
        }
        LogicalOp::Unwind { input, expr, .. } => {
            read_by_plan(input, out);
            read_by_expr(expr, out);
        }
        LogicalOp::IndexLookup { remaining_filters: Some(e), .. } => read_by_expr(e, out),
        LogicalOp::Expand { input, .. }
        | LogicalOp::Skip { input, .. }
        | LogicalOp::Limit { input, .. }
        | LogicalOp::Distinct { input } => read_by_plan(input, out),
        LogicalOp::CrossProduct { left, right, .. }
        | LogicalOp::CorrelatedJoin { input: left, right, .. }
        | LogicalOp::LeftOuterJoin { input: left, right, .. } => {
            read_by_plan(left, out);
            read_by_plan(right, out);
        }
        _ => {}
    }
}

fn as_number(v: &Value) -> Option<f64> {
    match v {
        Value::I64(n) => Some(*n as f64),
        Value::F64(f) => Some(f64::from_bits(f.bits)),
        _ => None,
    }
}

impl Source for Graph {
    fn eval(&self, e: &Expr, rec: &NamedRecord) -> Result<Value, GraphError> {
        match &e.kind {
            ExprKind::Literal(l) => Ok(match l {
                LiteralValue::Null => Value::Null,
                LiteralValue::Bool(b) => Value::Bool(*b),
                LiteralValue::I64(n) => Value::I64(*n),
                LiteralValue::String(x) => text(x),
                LiteralValue::F64(FloatLiteral::Decimal(d)) => float(d.parse().unwrap()),
                LiteralValue::F64(FloatLiteral::Bits(b)) => Value::F64(Float { bits: *b }),
            }),
            ExprKind::Variable(v) => Ok(match binding::build_compound_binding(rec, v) {
                Some(x) => x,
                None => rec.get(v).map_or(Value::Null, |x| x.dup()),
            }),
            ExprKind::Property(v, p) => {
                Ok(rec.get(&format!("{}.{}", v, p)).map_or(Value::Null, |x| x.dup()))
            }
            ExprKind::List(items) => {
                let mut out = Vec::new();
                for i in items {
                    out.push(self.eval(i, rec)?);
                }
                Ok(Value::List(out))
            }
            ExprKind::MapLiteral(entries) => {
                let mut out = AssocList::new();
                for (k, v) in entries {
                    out.insert(k.clone(), self.eval(v, rec)?);
                }
                Ok(Value::MapValue(out))
            }
            ExprKind::BinaryOp { left, op, right } => {
                let a = self.eval(left, rec)?;
                let b = self.eval(right, rec)?;
                match op {
                    BinOp::Eq => Ok(Value::Bool(order::equal(&a, &b))),
                    BinOp::Gt | BinOp::Lt => match (as_number(&a), as_number(&b)) {
                        (Some(x), Some(y)) => {
                            Ok(Value::Bool(if *op == BinOp::Gt { x > y } else { x < y }))
                        }
                        _ => Ok(Value::Null),
                    },
                    BinOp::Div => match (a, b) {
                        (Value::I64(_), Value::I64(0)) => Err(GraphError::semantic(
                            ErrorCode::Other,
                            s("division by zero"),
                        )),
                        (Value::I64(x), Value::I64(y)) => Ok(Value::I64(x / y)),
                        _ => Ok(Value::Null),
                    },
                    _ => Ok(Value::Null),
                }
            }
            _ => Ok(Value::Null),
        }
    }

    fn holds(&self, e: &Expr, rec: &NamedRecord) -> Result<bool, GraphError> {
        Ok(matches!(self.eval(e, rec)?, Value::Bool(true)))
    }

    fn column_name(&self, e: &Expr) -> String {
        match &e.kind {
            ExprKind::Variable(v) => v.clone(),
            ExprKind::Property(v, p) => format!("{}.{}", v, p),
            ExprKind::FunctionCall { name, .. } => format!("{}(..)", name),
            _ => s("expr"),
        }
    }

    fn spelled(&self, e: &Expr) -> String {
        self.column_name(e)
    }

    fn show(&self, v: &Value) -> String {
        match v {
            Value::I64(n) => n.to_string(),
            Value::String(x) => x.clone(),
            other => format!("{:?}", other),
        }
    }

    fn inspect(&self, v: &Value) -> String {
        format!("{:?}", v)
    }

    fn decimal(&self, digits: &String) -> Float {
        Float { bits: digits.parse::<f64>().unwrap().to_bits() }
    }

    fn combine(&self, f: AggregateFunction, numbers: &Vec<Float>, _share: Float) -> Float {
        let xs: Vec<f64> = numbers.iter().map(|x| f64::from_bits(x.bits)).collect();
        let sum: f64 = xs.iter().sum();
        let out = match f {
            AggregateFunction::Avg => sum / xs.len() as f64,
            _ => sum,
        };
        Float { bits: out.to_bits() }
    }

    fn nodes_by_label(&self, label: &str) -> Result<Vec<Node>, GraphError> {
        Ok(self
            .nodes
            .iter()
            .filter(|n| label.is_empty() || n.labels.iter().any(|l| l == label))
            .map(|n| n.dup())
            .collect())
    }

    fn node(&self, id: NodeId) -> Result<Node, GraphError> {
        self.nodes.iter().find(|n| n.id == id).map(|n| n.dup()).ok_or(missing(id))
    }

    fn index_ids(
        &self,
        label: &str,
        _properties: &Vec<String>,
        keys: &Vec<(String, Value)>,
    ) -> Result<Vec<NodeId>, GraphError> {
        Ok(self
            .nodes
            .iter()
            .filter(|n| n.labels.iter().any(|l| l == label))
            .filter(|n| keys.iter().all(|(k, v)| n.properties.get(k) == Some(v)))
            .map(|n| n.id)
            .collect())
    }

    fn fulltext(
        &self,
        label: &str,
        property: &str,
        term: &str,
    ) -> Result<Option<Vec<(NodeId, Float)>>, GraphError> {
        if term.chars().count() < 3 || !self.words.contains(&(s(label), s(property))) {
            return Ok(None);
        }
        let mut out = Vec::new();
        for n in self.nodes_by_label(label)? {
            if let Some(Value::String(x)) = n.properties.get(property) {
                if x.contains(term) {
                    out.push((n.id, Float { bits: (-1.5f64).to_bits() }));
                }
            }
        }
        Ok(Some(out))
    }

    fn edge_labels(&self, id: NodeId, direction: Direction) -> Result<Vec<String>, GraphError> {
        let mut out: Vec<String> = Vec::new();
        for (_, l) in self.ends(id, None, direction) {
            if !out.contains(&l) {
                out.push(l);
            }
        }
        Ok(out)
    }

    fn neighbors(
        &self,
        id: NodeId,
        label: &str,
        direction: Direction,
    ) -> Result<Vec<NodeId>, GraphError> {
        let mut out: Vec<NodeId> = Vec::new();
        for (n, _) in self.ends(id, Some(label), direction) {
            if !out.contains(&n) {
                out.push(n);
            }
        }
        Ok(out)
    }

    fn traverse(
        &self,
        id: NodeId,
        label: &str,
        direction: Direction,
        min_hops: u32,
        max_hops: u32,
    ) -> Result<Vec<NodeId>, GraphError> {
        let mut out = Vec::new();
        let mut front = vec![id];
        for hop in 1..=max_hops {
            let mut next = Vec::new();
            for n in front {
                next.extend(self.neighbors(n, label, direction)?);
            }
            if hop >= min_hops {
                out.extend(next.iter().copied());
            }
            front = next;
        }
        Ok(out)
    }

    fn paths(&self, ask: &PathRequest) -> Result<Vec<(NodeId, Vec<Step>)>, GraphError> {
        let mut out: Vec<(NodeId, Vec<(u64, u64, String)>)> = Vec::new();
        let mut front: Vec<(NodeId, Vec<(u64, u64, String)>)> = vec![(ask.src, vec![])];
        for hop in 1..=ask.max_hops {
            let mut next = Vec::new();
            for (n, steps) in front {
                for (e, _) in &self.edges {
                    let known = steps.contains(&(e.src.0, e.dst.0, e.label.clone()));
                    if e.src == n && ask.labels.contains(&e.label) && !known {
                        let mut more = steps.clone();
                        more.push((e.src.0, e.dst.0, e.label.clone()));
                        next.push((e.dst, more));
                    }
                }
            }
            if hop >= ask.min_hops {
                out.extend(next.iter().cloned());
            }
            front = next;
        }
        Ok(out
            .into_iter()
            .map(|(n, steps)| {
                let steps = steps
                    .into_iter()
                    .map(|(a, b, l)| Step {
                        edge_src: NodeId(a),
                        edge_dst: NodeId(b),
                        edge_label: l,
                        edge_seq: 0,
                    })
                    .collect();
                (n, steps)
            })
            .collect())
    }

    fn edge_exists(&self, src: NodeId, dst: NodeId, label: &str) -> Result<bool, GraphError> {
        Ok(!self.all_edge_props(src, dst, label)?.is_empty())
    }

    fn edge_properties(
        &self,
        src: NodeId,
        dst: NodeId,
        label: &str,
    ) -> Result<AssocList<Value>, GraphError> {
        let mut all = self.all_edge_props(src, dst, label)?;
        Ok(if all.is_empty() { AssocList::new() } else { all.remove(0).1 })
    }

    fn edge_properties_at(
        &self,
        src: NodeId,
        dst: NodeId,
        label: &str,
        seq: u64,
    ) -> Result<AssocList<Value>, GraphError> {
        for (n, p) in self.all_edge_props(src, dst, label)? {
            if n == seq {
                return Ok(p);
            }
        }
        Ok(AssocList::new())
    }

    fn all_edge_props(
        &self,
        src: NodeId,
        dst: NodeId,
        label: &str,
    ) -> Result<Vec<(u64, AssocList<Value>)>, GraphError> {
        Ok(self
            .edges
            .iter()
            .filter(|(e, _)| e.src == src && e.dst == dst && e.label == label)
            .map(|(e, n)| (*n, e.dup().properties))
            .collect())
    }

    fn shortest_path(
        &self,
        src: NodeId,
        dst: NodeId,
        label: &str,
        direction: Direction,
        max_hops: u32,
    ) -> Result<Option<Vec<NodeId>>, GraphError> {
        let mut all = self.all_shortest_paths(src, dst, label, direction, max_hops)?;
        Ok(if all.is_empty() { None } else { Some(all.remove(0)) })
    }

    fn all_shortest_paths(
        &self,
        src: NodeId,
        dst: NodeId,
        label: &str,
        direction: Direction,
        max_hops: u32,
    ) -> Result<Vec<Vec<NodeId>>, GraphError> {
        let mut front = vec![vec![src]];
        for _ in 0..max_hops {
            let mut next = Vec::new();
            for way in front {
                for n in self.neighbors(way[way.len() - 1], label, direction)? {
                    let mut more = way.clone();
                    more.push(n);
                    next.push(more);
                }
            }
            let hits: Vec<Vec<NodeId>> =
                next.iter().filter(|w| w[w.len() - 1] == dst).cloned().collect();
            if !hits.is_empty() {
                return Ok(hits);
            }
            front = next;
        }
        Ok(vec![])
    }

    fn procedure(&self, name: &str) -> Option<Procedure> {
        self.procedures.iter().find(|(n, _)| n == name).map(|(_, p)| Procedure {
            builtin: p.builtin,
            inputs: p.inputs.clone(),
            rows: p
                .rows
                .iter()
                .map(|r| AssocList { entries: value::dup_props(&r.entries) })
                .collect(),
        })
    }

    fn builtin_rows(
        &self,
        name: &str,
        _args: &Vec<Value>,
    ) -> Result<Vec<AssocList<Value>>, GraphError> {
        let mut out = Vec::new();
        if name == "db.indexes" {
            for (label, properties) in &self.indexes {
                out.push(props(vec![
                    ("label", text(label)),
                    ("property", text(&properties.join(","))),
                    ("kind", text("property")),
                ]));
            }
            for (label, property) in &self.words {
                out.push(props(vec![
                    ("label", text(label)),
                    ("property", text(property)),
                    ("kind", text("fulltext")),
                ]));
            }
        }
        Ok(out)
    }

    fn slots(&self, whole: &LogicalOp, op: &LogicalOp) -> Vec<String> {
        match op {
            LogicalOp::Scan { alias, .. } | LogicalOp::IndexLookup { alias, .. } => {
                self.cluster(whole, alias)
            }
            LogicalOp::Filter { input, .. }
            | LogicalOp::Sort { input, .. }
            | LogicalOp::Skip { input, .. }
            | LogicalOp::Limit { input, .. }
            | LogicalOp::Distinct { input } => self.slots(whole, input),
            LogicalOp::Expand { input, dst_alias, rel_alias, .. } => {
                let mut out = self.slots(whole, input);
                out.extend(self.cluster(whole, dst_alias));
                if let Some(r) = rel_alias {
                    out.extend(self.cluster(whole, r));
                }
                out
            }
            LogicalOp::Unwind { input, alias, .. } => {
                let mut out = self.slots(whole, input);
                out.extend(self.cluster(whole, alias));
                out
            }
            LogicalOp::Project { items, .. } => items
                .iter()
                .map(|i| i.alias.clone().unwrap_or(self.column_name(&i.expr)))
                .collect(),
            LogicalOp::Aggregate { group_keys, aggregates, .. } => {
                let mut out: Vec<String> = group_keys.iter().map(|k| self.column_name(k)).collect();
                for a in aggregates {
                    out.push(a.alias.clone().unwrap_or(s("agg")));
                }
                out
            }
            LogicalOp::CrossProduct { left, right, .. }
            | LogicalOp::CorrelatedJoin { input: left, right, .. }
            | LogicalOp::LeftOuterJoin { input: left, right, .. } => {
                let mut out = self.slots(whole, left);
                out.extend(self.slots(whole, right));
                out
            }
            _ => vec![],
        }
    }

    fn indexes(&self, label: &str) -> Result<Vec<Vec<String>>, GraphError> {
        Ok(self.indexes.iter().filter(|(l, _)| l == label).map(|(_, p)| p.clone()).collect())
    }
}

fn scan(label: &str, alias: &str) -> LogicalOp {
    LogicalOp::Scan { label: s(label), alias: s(alias) }
}

fn filter(input: LogicalOp, predicate: Expr) -> LogicalOp {
    LogicalOp::Filter { input: Box::new(input), predicate }
}

fn expand(input: LogicalOp, src: &str, rel: Option<&str>, dst: &str, types: &[&str]) -> LogicalOp {
    LogicalOp::Expand {
        input: Box::new(input),
        src_alias: s(src),
        dst_alias: s(dst),
        rel_alias: rel.map(s),
        edge_types: types.iter().map(|t| s(t)).collect(),
        direction: Direction::Outgoing,
        min_hops: 1,
        max_hops: 1,
        var_length: false,
        var_length_prop_filters: AssocList::new(),
        result_cap: None,
    }
}

fn project(input: LogicalOp, items: Vec<ReturnItem>) -> LogicalOp {
    LogicalOp::Project { input: Box::new(input), items, emit_compound: true }
}

fn limit(input: LogicalOp, count: u64) -> LogicalOp {
    LogicalOp::Limit { input: Box::new(input), count }
}

fn skip(input: LogicalOp, count: u64) -> LogicalOp {
    LogicalOp::Skip { input: Box::new(input), count }
}

fn sort(input: LogicalOp, expr: Expr, descending: bool) -> LogicalOp {
    LogicalOp::Sort { input: Box::new(input), items: vec![SortItem { expr, descending }] }
}

fn aggregate(
    input: LogicalOp,
    keys: Vec<Expr>,
    function: AggregateFunction,
    of: Expr,
    alias: &str,
) -> LogicalOp {
    LogicalOp::Aggregate {
        input: Box::new(input),
        group_keys: keys,
        aggregates: vec![agg(function, of, alias)],
    }
}

fn agg(function: AggregateFunction, input: Expr, alias: &str) -> AggregateExpr {
    AggregateExpr {
        function,
        input,
        alias: Some(s(alias)),
        distinct: false,
        extra_arg: None,
        original_name: s("f"),
        original_call_text: None,
    }
}

fn column(rows: &Vec<NamedRecord>, key: &str) -> Vec<Value> {
    rows.iter().map(|r| r.get(key).map_or(Value::Null, |v| v.dup())).collect()
}

fn ids(xs: &[i64]) -> Vec<Value> {
    xs.iter().map(|x| Value::I64(*x)).collect()
}

fn ctx() -> ExecContext {
    ExecContext::default()
}

/// A query that runs the same in all three ways.
fn all_ways(g: &Graph, plan: &LogicalOp, key: &str) -> Vec<Value> {
    let a = column(&query::execute(g, plan).unwrap(), key);
    let b = column(&query::execute_with_ctx(g, plan, &ctx()).unwrap(), key);
    let c = column(&run::exec(g, plan, &ctx()).unwrap(), key);
    assert_eq!(a, b);
    assert_eq!(a, c);
    a
}

#[test]
fn scan_gives_a_row_for_each_node() {
    let g = graph();
    assert_eq!(all_ways(&g, &scan("Person", "n"), "n"), ids(&[1, 2, 3]));
    assert_eq!(all_ways(&g, &scan("", "n"), "n"), ids(&[1, 2, 3, 4]));
    let rows = run::exec(&g, &scan("Admin", "n"), &ctx()).unwrap();
    assert_eq!(rows[0].get("n.__label"), Some(&text("Person:Admin")));
    assert_eq!(rows[0].get("n.name"), Some(&text("Cid")));
}

#[test]
fn filter_keeps_what_holds() {
    let g = graph();
    let plan = filter(scan("Person", "n"), bin(prop("n", "age"), BinOp::Lt, num(35)));
    assert_eq!(all_ways(&g, &plan, "n"), ids(&[2, 3]));
}

#[test]
fn sort_is_stable_and_skip_and_limit_count() {
    let g = graph();
    let plan = sort(scan("Person", "n"), prop("n", "age"), false);
    assert_eq!(all_ways(&g, &plan, "n"), ids(&[2, 3, 1]));
    let plan = sort(scan("Person", "n"), prop("n", "age"), true);
    assert_eq!(all_ways(&g, &plan, "n"), ids(&[1, 2, 3]));
    let plan = limit(skip(scan("Person", "n"), 1), 1);
    assert_eq!(all_ways(&g, &plan, "n"), ids(&[2]));
    assert_eq!(all_ways(&g, &skip(scan("Person", "n"), 9), "n"), ids(&[]));
    assert_eq!(all_ways(&g, &limit(scan("Person", "n"), 9), "n"), ids(&[1, 2, 3]));
}

/// What is pulled is sorted by numbers and texts alone.
#[test]
fn pulled_rows_are_sorted_in_the_plain_order() {
    let g = graph();
    let unwound = |xs: Vec<Expr>| LogicalOp::Unwind {
        input: Box::new(LogicalOp::SingleRow),
        expr: ex(ExprKind::List(xs)),
        alias: s("x"),
    };
    let truth = |b: bool| ex(ExprKind::Literal(LiteralValue::Bool(b)));
    let plan = sort(unwound(vec![truth(true), truth(false)]), var("x"), false);
    let pulled = column(&query::execute(&g, &plan).unwrap(), "x");
    assert_eq!(pulled, vec![Value::Bool(true), Value::Bool(false)]);
    let ran = column(&run::exec(&g, &plan, &ctx()).unwrap(), "x");
    assert_eq!(ran, vec![Value::Bool(false), Value::Bool(true)]);
    let mixed = sort(unwound(vec![num(1), null(), lit("a"), num(0)]), var("x"), false);
    let pulled = column(&query::execute(&g, &mixed).unwrap(), "x");
    assert_eq!(pulled, vec![Value::I64(1), text("a"), Value::I64(0), Value::Null]);
    let ran = column(&run::exec(&g, &mixed, &ctx()).unwrap(), "x");
    assert_eq!(ran, vec![text("a"), Value::I64(0), Value::I64(1), Value::Null]);
    let numbers = sort(unwound(vec![num(3), null(), num(1), num(2)]), var("x"), true);
    let want = vec![Value::Null, Value::I64(3), Value::I64(2), Value::I64(1)];
    assert_eq!(column(&query::execute(&g, &numbers).unwrap(), "x"), want);
    assert_eq!(column(&run::exec(&g, &numbers, &ctx()).unwrap(), "x"), want);
}

/// A pulled projection takes what the row holds under the column's name.
#[test]
fn pulled_projections_go_by_the_name_of_the_column() {
    let g = graph();
    let rec = row(vec![
        ("n", Value::I64(1)),
        ("n.name", text("Ann")),
        ("n.__deleted", Value::Bool(true)),
        ("x", Value::I64(7)),
    ]);
    let items = vec![item(prop("n", "name"), Some("x"))];
    let p = pull::project_record(&g, &rec, &items, true).unwrap();
    assert_eq!(p.get("x"), Some(&Value::I64(7)));
    let items = vec![item(prop("n", "name"), None)];
    let p = pull::project_record(&g, &rec, &items, true).unwrap();
    assert_eq!(p.get("n.name"), Some(&text("Ann")));
    let bare = row(vec![("x", Value::I64(7)), ("m.a", Value::I64(8)), ("m.__b", Value::I64(9))]);
    let star = vec![item(ex(ExprKind::Star), None)];
    let p = pull::project_record(&g, &bare, &star, true).unwrap();
    assert_eq!((p.get("x"), p.get("m.a"), p.get("m.__b")), (None, Some(&Value::I64(8)), None));
    let p = project::project_record(&g, &bare, &star, true).unwrap();
    assert_eq!(p.get("x"), Some(&Value::I64(7)));
    let p = pull::project_record(&g, &bare, &star, false).unwrap();
    assert_eq!(p.get("x"), Some(&Value::I64(7)));
}

/// Rows whose keys are equal stand as they stood, whichever way the sort goes.
#[test]
fn sorting_keeps_the_order_of_equal_keys() {
    let g = graph();
    let rows = |xs: &[(i64, i64)]| -> Vec<NamedRecord> {
        xs.iter()
            .map(|(a, b)| row(vec![("a", Value::I64(*a)), ("b", Value::I64(*b))]))
            .collect()
    };
    let given = rows(&[(2, 1), (1, 2), (2, 3), (1, 4), (3, 5)]);
    let items = vec![SortItem { expr: var("a"), descending: false }];
    let out = arrange::sort_rows(&g, given, &items, false);
    assert_eq!(column(&out, "b"), ids(&[2, 4, 1, 3, 5]));
    let given = rows(&[(2, 1), (1, 2), (2, 3), (1, 4), (3, 5)]);
    let items = vec![SortItem { expr: var("a"), descending: true }];
    let out = arrange::sort_rows(&g, given, &items, true);
    assert_eq!(column(&out, "b"), ids(&[5, 1, 3, 2, 4]));
}

/// What a supported plan takes its rows from is supported, down to the scan.
#[test]
fn supported_plans_are_supported_all_the_way_down() {
    let mut op = limit(
        sort(
            project(
                filter(scan("Person", "n"), bin(prop("n", "age"), BinOp::Lt, num(35))),
                vec![item(prop("n", "age"), Some("x"))],
            ),
            prop("n", "age"),
            false,
        ),
        2,
    );
    let mut depth = 0;
    loop {
        assert!(plan::is_slot_supported(&op));
        op = match op {
            LogicalOp::Limit { input, .. }
            | LogicalOp::Sort { input, .. }
            | LogicalOp::Project { input, .. }
            | LogicalOp::Filter { input, .. } => *input,
            _ => break,
        };
        depth += 1;
    }
    assert_eq!(depth, 4);
    assert!(!plan::is_slot_supported(&limit(project(scan("", "n"), vec![item(var("n"), None)]), 1)));
}

#[test]
fn distinct_drops_repetitions() {
    let g = graph();
    let plan = LogicalOp::Distinct {
        input: Box::new(project(scan("Person", "n"), vec![item(prop("n", "age"), Some("age"))])),
    };
    assert_eq!(all_ways(&g, &plan, "age"), ids(&[40, 30]));
}

#[test]
fn expand_follows_relationships() {
    let g = graph();
    let plan = expand(scan("Person", "a"), "a", Some("r"), "b", &["KNOWS"]);
    assert_eq!(all_ways(&g, &plan, "b"), ids(&[2, 3]));
    let rows = run::exec(&g, &plan, &ctx()).unwrap();
    assert_eq!(rows[0].get("r.__type"), Some(&text("KNOWS")));
    assert_eq!(rows[0].get("r.since"), Some(&Value::I64(2000)));
    assert_eq!(rows[0].get("b.name"), Some(&text("Bob")));
    let any = expand(scan("Person", "a"), "a", None, "b", &[]);
    assert_eq!(all_ways(&g, &any, "b"), ids(&[2, 4, 3]));
}

#[test]
fn expand_binds_no_relationship_twice() {
    let mut g = graph();
    g.edges = vec![(edge(1, 2, "KNOWS", vec![]), 0)];
    let one = expand(scan("Person", "a"), "a", Some("r"), "b", &["KNOWS"]);
    let back = match expand(one, "b", Some("q"), "c", &["KNOWS"]) {
        LogicalOp::Expand {
            input,
            src_alias,
            dst_alias,
            rel_alias,
            edge_types,
            min_hops,
            max_hops,
            var_length,
            var_length_prop_filters,
            result_cap,
            ..
        } => LogicalOp::Expand {
            input,
            src_alias,
            dst_alias,
            rel_alias,
            edge_types,
            direction: Direction::Incoming,
            min_hops,
            max_hops,
            var_length,
            var_length_prop_filters,
            result_cap,
        },
        other => other,
    };
    assert_eq!(run::exec(&g, &back, &ctx()).unwrap().len(), 0);
    g.edges.push((edge(1, 2, "KNOWS", vec![]), 1));
    assert_eq!(run::exec(&g, &back, &ctx()).unwrap().len(), 2);
}

#[test]
fn expand_of_a_range_binds_a_list() {
    let g = graph();
    let plan = LogicalOp::Expand {
        input: Box::new(scan("Person", "a")),
        src_alias: s("a"),
        dst_alias: s("b"),
        rel_alias: Some(s("r")),
        edge_types: vec![s("KNOWS")],
        direction: Direction::Outgoing,
        min_hops: 1,
        max_hops: 2,
        var_length: true,
        var_length_prop_filters: AssocList::new(),
        result_cap: None,
    };
    let rows = run::exec(&g, &plan, &ctx()).unwrap();
    assert_eq!(column(&rows, "b"), ids(&[2, 3, 3]));
    match rows[1].get("r") {
        Some(Value::List(v)) => assert_eq!(v.len(), 2),
        other => panic!("{:?}", other),
    }
}

#[test]
fn limit_stops_before_a_failure() {
    let g = graph();
    let divided = bin(num(10), BinOp::Div, bin(num(0), BinOp::Div, num(1)));
    let bad = filter(scan("Person", "n"), bin(divided, BinOp::Eq, num(1)));
    assert!(query::execute(&g, &bad).is_err());
    let zero = limit(filter(scan("Person", "n"), bin(num(1), BinOp::Div, num(0))), 0);
    assert_eq!(query::execute(&g, &zero).unwrap().len(), 0);
    assert_eq!(message(run::exec(&g, &zero, &ctx()).unwrap_err()), "division by zero");
}

#[test]
fn index_lookup_applies_the_rest_of_the_predicate() {
    let g = graph();
    let plan = |rest: Option<Expr>| LogicalOp::IndexLookup {
        label: s("Person"),
        alias: s("n"),
        index_properties: vec![s("name")],
        lookups: vec![(s("name"), LiteralValue::String(s("Bob")))],
        remaining_filters: rest,
    };
    assert_eq!(all_ways(&g, &plan(None), "n"), ids(&[2]));
    let rest = bin(prop("n", "age"), BinOp::Gt, num(35));
    assert_eq!(all_ways(&g, &plan(Some(rest)), "n"), ids(&[]));
}

#[test]
fn id_lookup_gives_nothing_for_a_missing_node() {
    let g = graph();
    let plan = |e: Expr| LogicalOp::IdLookup { alias: s("n"), value_expr: e };
    assert_eq!(column(&run::exec(&g, &plan(num(3)), &ctx()).unwrap(), "n"), ids(&[3]));
    assert_eq!(run::exec(&g, &plan(num(99)), &ctx()).unwrap().len(), 0);
    assert_eq!(run::exec(&g, &plan(lit("x")), &ctx()).unwrap().len(), 0);
}

#[test]
fn projection_names_its_columns() {
    let g = graph();
    let plan = project(
        scan("City", "n"),
        vec![item(prop("n", "name"), Some("city")), item(prop("n", "name"), None)],
    );
    let rows = query::execute_with_ctx(&g, &plan, &ctx()).unwrap();
    assert_eq!(rows.len(), 1);
    assert_eq!(rows[0].get("city"), Some(&text("Rome")));
    assert_eq!(rows[0].get("n.name"), Some(&text("Rome")));
    assert_eq!(rows[0].get("n"), None);
}

#[test]
fn a_returned_variable_is_a_whole_node() {
    let g = graph();
    let plan = project(scan("City", "n"), vec![item(var("n"), None)]);
    let rows = query::execute(&g, &plan).unwrap();
    assert_eq!(rows[0].get("n"), Some(&Value::Node(node(4, &["City"], vec![("name", text("Rome"))]))));
}

#[test]
fn reading_a_property_of_something_deleted_fails() {
    let g = graph();
    let rec = row(vec![
        ("n", Value::I64(1)),
        ("n.name", text("Ann")),
        ("n.__deleted", Value::Bool(true)),
    ]);
    let items = vec![item(prop("n", "name"), None)];
    let e = project::project_record(&g, &rec, &items, true).unwrap_err();
    assert_eq!(
        message(e),
        "DeletedEntityAccess: cannot access property `name` on deleted entity `n`"
    );
}

#[test]
fn aggregates_group_their_rows() {
    let g = graph();
    let plan = aggregate(
        scan("Person", "n"),
        vec![prop("n", "age")],
        AggregateFunction::Count,
        ex(ExprKind::Star),
        "c",
    );
    assert_eq!(all_ways(&g, &plan, "c"), ids(&[1, 2]));
    assert_eq!(all_ways(&g, &plan, "n.age"), ids(&[40, 30]));
    let none = aggregate(
        scan("Nobody", "n"),
        vec![],
        AggregateFunction::Count,
        ex(ExprKind::Star),
        "c",
    );
    assert_eq!(all_ways(&g, &none, "c"), ids(&[0]));
}

#[test]
fn aggregate_functions() {
    let g = graph();
    let rows = run::exec(&g, &scan("Person", "n"), &ctx()).unwrap();
    let of = |f: AggregateFunction| {
        aggregate::compute_aggregate(&g, &agg(f, prop("n", "age"), "x"), &rows).unwrap()
    };
    assert_eq!(of(AggregateFunction::Count), Value::I64(3));
    assert_eq!(of(AggregateFunction::Sum), Value::I64(100));
    assert_eq!(of(AggregateFunction::Min), Value::I64(30));
    assert_eq!(of(AggregateFunction::Max), Value::I64(40));
    assert_eq!(
        of(AggregateFunction::Collect),
        Value::List(vec![Value::I64(40), Value::I64(30), Value::I64(30)])
    );
    assert_eq!(of(AggregateFunction::Avg), float(100.0 / 3.0));
    let mut once = agg(AggregateFunction::Count, prop("n", "age"), "x");
    once.distinct = true;
    assert_eq!(aggregate::compute_aggregate(&g, &once, &rows).unwrap(), Value::I64(2));
    let nothing = agg(AggregateFunction::Sum, prop("n", "none"), "x");
    assert_eq!(aggregate::compute_aggregate(&g, &nothing, &rows).unwrap(), Value::I64(0));
}

#[test]
fn unwind_spreads_lists() {
    let g = graph();
    let list = ex(ExprKind::List(vec![num(7), num(8)]));
    let plan = |e: Expr| LogicalOp::Unwind {
        input: Box::new(LogicalOp::SingleRow),
        expr: e,
        alias: s("x"),
    };
    assert_eq!(all_ways(&g, &plan(list), "x"), ids(&[7, 8]));
    assert_eq!(all_ways(&g, &plan(null()), "x"), ids(&[]));
    let e = run::exec(&g, &plan(num(5)), &ctx()).unwrap_err();
    assert_eq!(message(e), "UNWIND requires a list, got: 5");
    let e = query::execute_with_ctx(&g, &plan(num(5)), &ctx()).unwrap_err();
    assert_eq!(message(e), "UNWIND requires a list, got: 5");
}

#[test]
fn unwound_maps_have_slots_for_their_entries() {
    let g = graph();
    let map = ex(ExprKind::MapLiteral(vec![(s("x"), num(3))]));
    let unwound = LogicalOp::Unwind {
        input: Box::new(LogicalOp::SingleRow),
        expr: ex(ExprKind::List(vec![map])),
        alias: s("m"),
    };
    let plan = project(unwound, vec![item(prop("m", "x"), Some("x"))]);
    let rows = query::execute_with_ctx(&g, &plan, &ctx()).unwrap();
    assert_eq!(column(&rows, "x"), ids(&[3]));
}

#[test]
fn cross_products_and_optional_matches() {
    let g = graph();
    let both = LogicalOp::CrossProduct {
        left: Box::new(scan("City", "c")),
        right: Box::new(scan("Person", "p")),
        same_match: false,
    };
    assert_eq!(all_ways(&g, &both, "p"), ids(&[1, 2, 3]));
    assert_eq!(all_ways(&g, &both, "c"), ids(&[4, 4, 4]));
    let optional = LogicalOp::LeftOuterJoin {
        input: Box::new(scan("Person", "a")),
        right: Box::new(expand(scan("Person", "a"), "a", None, "c", &["LIVES_IN"])),
        optional_aliases: vec![s("c")],
        opt_filter: None,
    };
    let rows = run::exec(&g, &optional, &ctx()).unwrap();
    assert_eq!(column(&rows, "a"), ids(&[1, 2, 3]));
    assert_eq!(column(&rows, "c"), vec![Value::I64(4), Value::Null, Value::Null]);
}

#[test]
fn unions_drop_repetitions_unless_asked_not_to() {
    let g = graph();
    let one = || project(scan("Person", "n"), vec![item(prop("n", "age"), Some("age"))]);
    let plan = |all: bool| LogicalOp::Union { inputs: vec![one(), one()], all };
    assert_eq!(run::exec(&g, &plan(true), &ctx()).unwrap().len(), 6);
    assert_eq!(run::exec(&g, &plan(false), &ctx()).unwrap().len(), 2);
}

#[test]
fn paths_are_built_from_their_parts() {
    let g = graph();
    let plan = LogicalOp::MaterializePath {
        input: Box::new(expand(scan("Person", "a"), "a", Some("r"), "b", &["KNOWS"])),
        path_alias: s("p"),
        node_aliases: vec![s("a"), s("b")],
        rel_aliases: vec![s("r")],
    };
    let rows = run::exec(&g, &plan, &ctx()).unwrap();
    match rows[0].get("p") {
        Some(Value::Path(p)) => {
            assert_eq!(p.nodes.len(), 2);
            assert_eq!(p.edges[0].label, "KNOWS");
        }
        other => panic!("{:?}", other),
    }
}

#[test]
fn shortest_paths_between_bound_nodes() {
    let g = graph();
    let two = LogicalOp::CrossProduct {
        left: Box::new(LogicalOp::IdLookup { alias: s("a"), value_expr: num(1) }),
        right: Box::new(LogicalOp::IdLookup { alias: s("b"), value_expr: num(3) }),
        same_match: false,
    };
    let plan = LogicalOp::ShortestPath {
        input: Box::new(two),
        src_alias: s("a"),
        dst_alias: s("b"),
        path_alias: s("p"),
        edge_type: Some(s("KNOWS")),
        direction: Direction::Outgoing,
        max_hops: 5,
        all_paths: false,
    };
    let rows = run::exec(&g, &plan, &ctx()).unwrap();
    match rows[0].get("p") {
        Some(Value::Path(p)) => {
            let seen: Vec<u64> = p.nodes.iter().map(|n| n.id.0).collect();
            assert_eq!(seen, vec![1, 2, 3]);
        }
        other => panic!("{:?}", other),
    }
}

#[test]
fn limits_of_the_context() {
    let g = graph();
    let mut c = ctx();
    c.max_result_rows = 2;
    let e = query::execute_with_ctx(&g, &project(scan("Person", "n"), vec![item(var("n"), None)]), &c)
        .unwrap_err();
    assert_eq!(message(e), "result set exceeded maximum of 2 rows");
    let mut c = ctx();
    c.max_traversal_depth = 2;
    let far = match expand(scan("Person", "a"), "a", None, "b", &[]) {
        LogicalOp::Expand { input, src_alias, dst_alias, direction, .. } => LogicalOp::Expand {
            input,
            src_alias,
            dst_alias,
            rel_alias: None,
            edge_types: vec![],
            direction,
            min_hops: 1,
            max_hops: 3,
            var_length: true,
            var_length_prop_filters: AssocList::new(),
            result_cap: None,
        },
        other => other,
    };
    assert!(query::execute_with_ctx(&g, &far, &c).is_err());
    c.max_traversal_depth = 3;
    assert!(query::execute_with_ctx(&g, &far, &c).is_ok());
}

#[test]
fn no_operator_gives_more_rows_than_allowed() {
    let g = graph();
    let mut c = ctx();
    c.max_result_rows = 2;
    let list = ex(ExprKind::List(vec![num(1), num(2), num(3)]));
    let unwound = || LogicalOp::Unwind {
        input: Box::new(LogicalOp::SingleRow),
        expr: ex(ExprKind::List(vec![num(1), num(2), num(3)])),
        alias: s("x"),
    };
    let too_many = "result set exceeded maximum of 2 rows";
    assert_eq!(message(run::exec(&g, &unwound(), &c).unwrap_err()), too_many);
    assert_eq!(message(query::execute_with_ctx(&g, &unwound(), &c).unwrap_err()), too_many);
    let outer = NamedRecord::new();
    assert_eq!(message(run::exec_correlated(&g, &unwound(), &outer, &c).unwrap_err()), too_many);
    c.max_result_rows = 3;
    assert_eq!(run::exec(&g, &unwound(), &c).unwrap().len(), 3);
    assert_eq!(query::execute_with_ctx(&g, &unwound(), &c).unwrap().len(), 3);
    // Each operator on its own gives three rows.
    let rows = || vec![row(vec![("x", Value::I64(1))]), row(vec![]), row(vec![])];
    let input = || Box::new(LogicalOp::SingleRow);
    let ops = vec![
        LogicalOp::Filter { input: input(), predicate: ex(ExprKind::Literal(LiteralValue::Bool(true))) },
        project(LogicalOp::SingleRow, vec![item(num(1), Some("y"))]),
        sort(LogicalOp::SingleRow, num(1), false),
        skip(LogicalOp::SingleRow, 0),
        limit(LogicalOp::SingleRow, 5),
        LogicalOp::Unwind { input: input(), expr: list, alias: s("z") },
    ];
    for op in &ops {
        c.max_result_rows = 2;
        assert_eq!(message(run::apply(&g, op, rows(), &c).unwrap_err()), too_many);
    }
    c.max_result_rows = 3;
    assert_eq!(run::apply(&g, &ops[0], rows(), &c).unwrap().len(), 3);
    let all = LogicalOp::Union { inputs: vec![unwound(), LogicalOp::SingleRow], all: true };
    assert!(run::exec(&g, &all, &c).is_err());
    c.max_result_rows = 4;
    assert_eq!(run::exec(&g, &all, &c).unwrap().len(), 4);
}

#[test]
fn a_capped_iterator_fails_behind_its_last_row() {
    let input = || -> Box<dyn SlotRecordIter> {
        Box::new(VecSlotIter::new(vec![slots(ids(&[1])), slots(ids(&[2]))], schema(&["x"])))
    };
    let mut enough = CappedSlotIter { input: input(), max: 2, left: 2 };
    assert_eq!(column(&collect_to_named(&mut enough).unwrap(), "x"), ids(&[1, 2]));
    assert!(enough.next_slot().unwrap().is_none());
    let mut short = CappedSlotIter { input: input(), max: 1, left: 1 };
    assert_eq!(short.next_slot().unwrap(), Some(slots(ids(&[1]))));
    assert!(short.next_slot().is_err());
}

#[test]
fn a_scan_keeps_what_an_operator_above_it_reads() {
    let g = graph();
    let plan = project(
        limit(sort(scan("Person", "n"), prop("n", "age"), false), 2),
        vec![item(prop("n", "name"), Some("name"))],
    );
    let by_slots = query::execute_with_ctx(&g, &plan, &ctx()).unwrap();
    let by_names = run::exec(&g, &plan, &ctx()).unwrap();
    assert_eq!(column(&by_slots, "name"), column(&by_names, "name"));
    assert_eq!(column(&by_slots, "name"), vec![text("Bob"), text("Cid")]);
}

#[test]
fn a_bound_node_reads_back_by_names_and_by_slots() {
    let n = node(7, &["Person", "Admin"], vec![("name", text("Ann")), ("age", Value::I64(3))]);
    let rec = binding::node_to_record(&n, "n");
    assert_eq!(binding::build_compound_binding(&rec, "n"), Some(Value::Node(n.dup())));
    let names = ["n.age", "n.missing", "n.__labels", "n", "n.__id"];
    let cells = binding::node_to_slot_record(&n, "n", &schema(&names));
    for (i, k) in names.iter().enumerate() {
        assert_eq!(cells.slots[i], rec.get(k).map_or(Value::Null, |v| v.dup()));
    }
}

#[test]
fn rows_are_equal_but_for_scores_both_ways() {
    let a = row(vec![("x", Value::I64(1)), ("d.__fts_score", Value::I64(5)), ("y", text("b"))]);
    let b = row(vec![("y", text("b")), ("x", Value::I64(1))]);
    let c = row(vec![("y", text("b"))]);
    assert!(binding::union_rows_equal(&a, &b) && binding::union_rows_equal(&b, &a));
    assert!(!binding::union_rows_equal(&a, &c) && !binding::union_rows_equal(&c, &a));
}

#[test]
fn call_db_indexes_returns_rows_for_each_index() {
    let mut g = graph();
    g.indexes = vec![(s("Person"), vec![s("name")])];
    g.words = vec![(s("Doc"), s("body"))];
    g.procedures = vec![(s("db.indexes"), Procedure { builtin: true, inputs: vec![], rows: vec![] })];
    // CALL db.indexes() YIELD label, property, kind RETURN *
    let plan = project(
        LogicalOp::Call {
            input: Box::new(LogicalOp::SingleRow),
            procedure_name: s("db.indexes"),
            args: vec![],
            yield_items: vec![(s("label"), None), (s("property"), None), (s("kind"), None)],
            yield_star: false,
        },
        vec![item(ex(ExprKind::Star), None)],
    );
    let rows = query::execute_with_ctx(&g, &plan, &ctx()).unwrap();
    assert_eq!(rows.len(), 2);
    assert_eq!(column(&rows, "property"), vec![text("name"), text("body")]);
}

#[test]
fn a_registered_procedure_is_asked_for_matching_rows() {
    let mut g = graph();
    let p = Procedure {
        builtin: false,
        inputs: vec![s("n")],
        rows: vec![
            props(vec![("n", Value::I64(1)), ("out", text("one"))]),
            props(vec![("n", Value::I64(2)), ("out", text("two"))]),
        ],
    };
    g.procedures = vec![(s("my.proc"), p)];
    let plan = |name: &str| LogicalOp::Call {
        input: Box::new(LogicalOp::SingleRow),
        procedure_name: s(name),
        args: vec![num(2)],
        yield_items: vec![(s("out"), Some(s("x")))],
        yield_star: false,
    };
    let rows = run::exec(&g, &plan("my.proc"), &ctx()).unwrap();
    assert_eq!(column(&rows, "x"), vec![text("two")]);
    let e = run::exec(&g, &plan("other"), &ctx()).unwrap_err();
    assert_eq!(message(e), "ProcedureNotFound: unknown procedure `other`");
}

fn docs(body: &str) -> Graph {
    let mut g = graph();
    g.nodes = vec![node(1, &["Doc"], vec![("body", text(body))])];
    g.words = vec![(s("Doc"), s("body"))];
    g
}

#[test]
fn exec_fulltext_lookup_writes_fts_score_flat_key() {
    let g = docs("rust systems programming");
    let term_expr = lit("rust");
    let outer = NamedRecord::new();
    let records = read::exec_fulltext_lookup(
        &g,
        "Doc",
        "n",
        "body",
        FullTextOp::Contains,
        &term_expr,
        &None,
        &outer,
    )
    .unwrap();
    assert_eq!(records.len(), 1);
    let score = records[0].get("n.__fts_score").expect("n.__fts_score flat key must be set");
    match score {
        Value::F64(x) => {
            let x = f64::from_bits(x.bits);
            assert!(x.is_finite() && x > 0.0, "score should be positive, got {}", x)
        }
        other => panic!("n.__fts_score was {:?}, expected F64", other),
    }
}

#[test]
fn exec_fulltext_fallback_writes_zero_fts_score() {
    let g = docs("ab cd");
    let search = TextSearch {
        label: s("Doc"),
        alias: s("n"),
        property: s("body"),
        op: FullTextOp::Contains,
        term: s("ab"),
    };
    let records = read::exec_fulltext_fallback(&g, &search, &None).unwrap();
    assert_eq!(records.len(), 1);
    let score = records[0].get("n.__fts_score").expect("fallback must set n.__fts_score");
    assert_eq!(*score, float(0.0));
}

#[test]
fn fulltext_terms_are_anchored() {
    let g = docs("rust systems");
    let n = &g.nodes[0];
    assert!(read::fts_anchor_matches(n, "body", FullTextOp::StartsWith, "rust"));
    assert!(!read::fts_anchor_matches(n, "body", FullTextOp::EndsWith, "rust"));
    assert!(read::fts_anchor_matches(n, "body", FullTextOp::Contains, "absent"));
}

#[test]
fn subqueries_see_the_row_outside() {
    let g = graph();
    let outer = run::exec(&g, &scan("Person", "a"), &ctx()).unwrap();
    let plan = expand(scan("Person", "a"), "a", None, "b", &["LIVES_IN"]);
    let found: Vec<bool> =
        outer.iter().map(|r| query::exec_correlated_exists(&g, &plan, r).unwrap()).collect();
    assert_eq!(found, vec![true, false, false]);
    let rows = query::exec_correlated_subquery(&g, &plan, &outer[0]).unwrap();
    assert_eq!(column(&rows, "b"), ids(&[4]));
}

#[test]
fn first_match_stops_at_the_first_row() {
    let g = graph();
    let bob = vec![(s("n"), Value::I64(2))];
    let nobody = vec![(s("n"), Value::I64(9))];
    assert!(query::execute_first_match(&g, &scan("Person", "n"), &bob).unwrap());
    assert!(!query::execute_first_match(&g, &scan("Person", "n"), &nobody).unwrap());
    let old = filter(scan("Person", "n"), bin(prop("n", "age"), BinOp::Gt, num(35)));
    assert!(!query::execute_first_match(&g, &old, &bob).unwrap());
    let known = expand(scan("Person", "m"), "m", None, "n", &["KNOWS"]);
    assert!(query::execute_first_match(&g, &known, &bob).unwrap());
    assert!(!query::execute_first_match(&g, &known, &vec![(s("n"), Value::I64(1))]).unwrap());
    let cut = limit(scan("Person", "n"), 1);
    assert!(!query::execute_first_match(&g, &cut, &bob).unwrap());
    let free = vec![(s("other"), Value::I64(5))];
    assert!(query::execute_first_match(&g, &cut, &free).unwrap());
    let broken = filter(scan("Person", "n"), bin(num(1), BinOp::Div, num(0)));
    assert!(query::execute_first_match(&g, &broken, &bob).is_err());
}

#[test]
fn iterators_are_pulled_row_by_row() {
    let rows = |n: i64| (0..n).map(|i| row(vec![("x", Value::I64(i))])).collect::<Vec<NamedRecord>>();
    let mut all = VecIter::new(rows(3));
    assert_eq!(column(&collect_all(&mut all).unwrap(), "x"), ids(&[0, 1, 2]));
    assert_eq!(all.next_record().unwrap(), None);
    let input: Box<dyn RecordIter> = Box::new(VecIter::new(rows(5)));
    let mut cut = LimitIter { input, remaining: 2 };
    assert_eq!(column(&collect_all(&mut cut).unwrap(), "x"), ids(&[0, 1]));
    let input: Box<dyn RecordIter> = Box::new(VecIter::new(rows(3)));
    let mut rest = SkipIter { input, remaining_to_skip: 2 };
    assert_eq!(column(&collect_all(&mut rest).unwrap(), "x"), ids(&[2]));
    let mut single = EmptyRowIter::new();
    assert_eq!(collect_all(&mut single).unwrap(), vec![NamedRecord::new()]);
    let mut again = EmptyRowIter::default();
    assert!(again.next_record().unwrap().is_some());
    assert!(again.next_record().unwrap().is_none());
}

fn schema(names: &[&str]) -> RecordSchema {
    let mut r = RecordSchema::new();
    for n in names {
        r.add_slot(n);
    }
    r
}

fn slots(values: Vec<Value>) -> SlotRecord {
    SlotRecord { slots: values }
}

#[test]
fn slot_iterators_are_pulled_row_by_row() {
    let mut single = EmptyRowSlotIter::new();
    assert_eq!(collect_to_named(&mut single).unwrap(), vec![NamedRecord::new()]);
    assert!(EmptyRowSlotIter::default().next_slot().unwrap().is_some());
    let three = || vec![slots(ids(&[1])), slots(ids(&[1])), slots(ids(&[2]))];
    let mut all = VecSlotIter::new(three(), schema(&["x"]));
    assert_eq!(column(&collect_to_named(&mut all).unwrap(), "x"), ids(&[1, 1, 2]));
    let input: Box<dyn SlotRecordIter> = Box::new(VecSlotIter::new(three(), schema(&["x"])));
    let mut once = DistinctSlotIter::new(input);
    assert_eq!(once.schema().len(), 1);
    assert_eq!(column(&collect_to_named(&mut once).unwrap(), "x"), ids(&[1, 2]));
    let input: Box<dyn SlotRecordIter> = Box::new(VecSlotIter::new(three(), schema(&["x"])));
    let mut cut = LimitSlotIter { input, remaining: 1 };
    assert_eq!(column(&collect_to_named(&mut cut).unwrap(), "x"), ids(&[1]));
    let input: Box<dyn SlotRecordIter> = Box::new(VecSlotIter::new(three(), schema(&["x"])));
    let mut rest = SkipSlotIter { input, remaining_to_skip: 2 };
    assert_eq!(column(&collect_to_named(&mut rest).unwrap(), "x"), ids(&[2]));
}

#[test]
fn slot_operators_are_pulled_row_by_row() {
    let g = graph();
    let input = || -> Box<dyn SlotRecordIter> {
        let rows = vec![slots(ids(&[2])), slots(ids(&[3])), slots(ids(&[1]))];
        Box::new(VecSlotIter::new(rows, schema(&["x"])))
    };
    let items = vec![SortItem { expr: var("x"), descending: true }];
    let mut sorted = SortSlotIter::new(input(), &items, &g);
    assert_eq!(column(&collect_to_named(&mut sorted).unwrap(), "x"), ids(&[3, 2, 1]));
    let items = vec![item(var("x"), Some("y"))];
    let mut projected = ProjectSlotIter::new(input(), &items, schema(&["y"]), &g);
    assert_eq!(column(&collect_to_named(&mut projected).unwrap(), "y"), ids(&[2, 3, 1]));
    let list = ex(ExprKind::List(vec![var("x"), num(9)]));
    let mut unwound = UnwindSlotIter::new(input(), &list, "z", schema(&["x", "z"]), &g);
    let rows = collect_to_named(&mut unwound).unwrap();
    assert_eq!(column(&rows, "x"), ids(&[2, 2, 3, 3, 1, 1]));
    assert_eq!(column(&rows, "z"), ids(&[2, 9, 3, 9, 1, 9]));
    let (keys, sums) = (vec![], vec![agg(AggregateFunction::Sum, var("x"), "s")]);
    let mut summed = AggregateSlotIter::new(input(), &keys, &sums, schema(&["s"]), &g);
    assert_eq!(column(&collect_to_named(&mut summed).unwrap(), "s"), ids(&[6]));
}

#[test]
fn adapters_turn_rows_into_slots_and_back() {
    let rows = vec![row(vec![("x", Value::I64(1)), ("y", Value::I64(2))])];
    let mut laid = MaterializedSlotIter::new(rows, schema(&["y", "z"]));
    let rec = laid.next_slot().unwrap().unwrap();
    assert_eq!(rec, slots(vec![Value::I64(2), Value::Null]));
    let input: Box<dyn SlotRecordIter> =
        Box::new(VecSlotIter::new(vec![slots(ids(&[5]))], schema(&["x"])));
    let mut named = SlotToNamedAdapter::new(input);
    assert_eq!(named.next_record().unwrap(), Some(row(vec![("x", Value::I64(5))])));
    let input: Box<dyn RecordIter> = Box::new(VecIter::new(vec![row(vec![("x", Value::I64(6))])]));
    let mut back = NamedToSlotAdapter::new(input, schema(&["w", "x"]));
    assert_eq!(back.schema().len(), 2);
    assert_eq!(back.next_slot().unwrap(), Some(slots(vec![Value::Null, Value::I64(6)])));
}

#[test]
fn slot_projections_read_what_is_there() {
    let g = graph();
    let counted = aggregate(
        scan("Person", "n"),
        vec![],
        AggregateFunction::Count,
        ex(ExprKind::Star),
        "c",
    );
    let plan = project(counted, vec![item(call("count", vec![ex(ExprKind::Literal(LiteralValue::I64(1)))]), Some("c"))]);
    assert_eq!(column(&query::execute_with_ctx(&g, &plan, &ctx()).unwrap(), "c"), ids(&[3]));
    let rec = row(vec![("n.__deleted", Value::Bool(true)), ("n.x", Value::I64(1))]);
    assert!(iter_slot::property_deleted_var(&rec, &prop("n", "x")));
    assert!(!iter_slot::property_deleted_var(&rec, &prop("m", "x")));
    assert_eq!(iter_slot::column_name_for_item(&g, &item(prop("n", "x"), None)), "n.x");
}

#[test]
fn creations_bind_what_they_create() {
    let g = graph();
    let create = LogicalOp::CreateNode {
        labels: vec![s("Person")],
        alias: Some(s("a")),
        properties: AssocList { entries: vec![(s("name"), lit("Dan")), (s("age"), null())] },
    };
    let c = Creation::fresh();
    let change = change::plan_creation(&g, &create, &c, &NamedRecord::new(), false).unwrap().unwrap();
    assert_eq!(
        change,
        Change::AddNode { labels: vec![s("Person")], properties: props(vec![("name", text("Dan"))]) }
    );
    let c = change::note_creation(&create, c, &change, NodeId(9));
    assert_eq!(c.row.get("a"), Some(&Value::I64(9)));
    assert_eq!(c.row.get("a.__id"), Some(&Value::I64(9)));
    assert_eq!(c.row.get("a.name"), Some(&text("Dan")));
    let link = |dst: &str| LogicalOp::CreateEdge {
        src_alias: s("a"),
        dst_alias: s(dst),
        edge_type: s("LIKES"),
        rel_alias: Some(s("r")),
        properties: AssocList::new(),
    };
    let e = change::plan_creation(&g, &link("b"), &c, &NamedRecord::new(), false).unwrap_err();
    assert_eq!(message(e), "unbound variable: b");
    let change = change::plan_creation(&g, &link("a"), &c, &NamedRecord::new(), false).unwrap().unwrap();
    let c = change::note_creation(&link("a"), c, &change, NodeId(0));
    assert_eq!(c.row.get("r.__type"), Some(&text("LIKES")));
    assert_eq!(c.row.get("r.__dst"), Some(&Value::I64(9)));
}

#[test]
fn a_bound_node_is_not_created_again() {
    let g = graph();
    let rec = row(vec![("a", Value::I64(1)), ("a.age", Value::I64(7)), ("b", text("x"))]);
    let c = Creation::on_row(&rec);
    assert_eq!(c.bindings, vec![(s("a"), NodeId(1))]);
    let create = |alias: &str| LogicalOp::CreateNode {
        labels: vec![],
        alias: Some(s(alias)),
        properties: AssocList { entries: vec![(s("age"), prop("a", "age"))] },
    };
    assert_eq!(change::plan_creation(&g, &create("a"), &c, &rec, true).unwrap(), None);
    assert_eq!(
        change::plan_creation(&g, &create("b"), &c, &rec, true).unwrap(),
        Some(Change::AddNode { labels: vec![], properties: props(vec![("age", Value::I64(7))]) })
    );
}

#[test]
fn deletions_name_relationships_and_nodes() {
    let g = graph();
    let mut d = Deletion::new();
    let mut rec = row(vec![
        ("n", Value::I64(1)),
        ("r", text("KNOWS")),
        ("r.__src", Value::I64(1)),
        ("r.__dst", Value::I64(2)),
        ("r.__type", text("KNOWS")),
        ("r.__edge_seq", Value::I64(4)),
        ("l", Value::List(vec![Value::I64(3), Value::Node(node(4, &[], vec![]))])),
    ]);
    let exprs = vec![var("r"), var("n"), ex(ExprKind::List(vec![num(7)]))];
    change::mark_deleted(&g, &mut rec, &exprs, &mut d).unwrap();
    assert_eq!(d.edges, vec![(NodeId(1), NodeId(2), s("KNOWS"), Some(4))]);
    assert_eq!(d.nodes, vec![NodeId(1), NodeId(7)]);
    assert_eq!(rec.get("n.__deleted"), Some(&Value::Bool(true)));
    change::collect_var_entities(&rec, "l", &mut d);
    assert_eq!(d.nodes, vec![NodeId(1), NodeId(7), NodeId(3), NodeId(4)]);
    let p = PathValue {
        nodes: vec![node(1, &[], vec![]), node(2, &[], vec![])],
        edges: vec![edge(1, 2, "KNOWS", vec![])],
    };
    let mut d = Deletion::new();
    change::collect_value_entities(&Value::Path(p), &mut d);
    assert_eq!(d.edges, vec![(NodeId(1), NodeId(2), s("KNOWS"), None)]);
    assert_eq!(d.nodes, vec![NodeId(1), NodeId(2)]);
}

#[test]
fn connected_nodes_are_not_deleted() {
    assert!(change::check_disconnected(NodeId(5), true, true).is_ok());
    assert!(change::check_disconnected(NodeId(5), false, false).is_ok());
    let e = change::check_disconnected(NodeId(5), false, true).unwrap_err();
    match &e {
        GraphError::Query(QueryError::ConstraintError { code, .. }) => {
            assert_eq!(*code, ErrorCode::DeleteConnectedNode)
        }
        other => panic!("{:?}", other),
    }
    assert_eq!(
        message(e),
        "cannot delete node 5 because it still has relationships. Use DETACH DELETE."
    );
}

#[test]
fn setting_a_property_changes_storage_and_row() {
    let g = graph();
    let set = |v: Expr| Assignment { variable: s("n"), property: s("age"), value: v };
    let rec = row(vec![("n", Value::I64(2)), ("n.age", Value::I64(30))]);
    let p = assign::plan_assignment(&g, &rec, &set(num(31))).unwrap();
    assert_eq!(p.row.get("n.age"), Some(&Value::I64(31)));
    assert_eq!(
        p.changes,
        vec![
            Change::SetNodeProperty { id: NodeId(2), property: s("age"), value: Value::I64(31) },
            Change::Reindex {
                id: NodeId(2),
                labels: vec![s("Person")],
                old: props(vec![("name", text("Bob")), ("age", Value::I64(30))]),
                new: props(vec![("name", text("Bob")), ("age", Value::I64(31))]),
            },
        ]
    );
    let p = assign::plan_assignment(&g, &rec, &set(null())).unwrap();
    assert_eq!(p.row.get("n.age"), None);
    let e = assign::plan_assignment(&g, &rec, &set(ex(ExprKind::MapLiteral(vec![])))).unwrap_err();
    assert_eq!(message(e), "maps, nodes, relationships, and paths cannot be stored as properties");
    let nested = Value::List(vec![Value::List(vec![Value::MapValue(AssocList::new())])]);
    assert!(assign::validate_property_value(&nested).is_err());
    assert!(assign::validate_property_value(&Value::List(vec![Value::Null])).is_ok());
    let gone = row(vec![("n", Value::Null)]);
    assert_eq!(assign::plan_assignment(&g, &gone, &set(num(1))).unwrap().changes, vec![]);
    let nobody = row(vec![("n", Value::I64(77))]);
    assert_eq!(
        assign::plan_assignment(&g, &nobody, &set(num(1))).err(),
        Some(missing(NodeId(77)))
    );
}

fn edge_rec(seq: Option<i64>) -> NamedRecord {
    let mut rec = row(vec![
        ("r", text("KNOWS")),
        ("r.__src", Value::I64(1)),
        ("r.__dst", Value::I64(2)),
        ("r.__type", text("KNOWS")),
        ("r.since", Value::I64(2000)),
    ]);
    if let Some(n) = seq {
        rec.set(s("r.__edge_seq"), Value::I64(n));
    }
    rec
}

#[test]
fn setting_properties_of_relationships() {
    let g = graph();
    let a = Assignment { variable: s("r"), property: s("since"), value: num(1999) };
    let p = assign::plan_assignment(&g, &edge_rec(Some(0)), &a).unwrap();
    assert_eq!(
        p.changes,
        vec![Change::SetEdgeProperty {
            src: NodeId(1),
            dst: NodeId(2),
            label: s("KNOWS"),
            seq: Some(0),
            property: s("since"),
            value: Value::I64(1999),
        }]
    );
    let map = ex(ExprKind::MapLiteral(vec![(s("x"), num(1)), (s("since"), null())]));
    let p = assign::plan_properties(&g, &edge_rec(None), "r", &map, true).unwrap();
    assert_eq!(
        p.changes,
        vec![Change::SetEdgeProperties {
            src: NodeId(1),
            dst: NodeId(2),
            label: s("KNOWS"),
            seq: 0,
            properties: props(vec![("x", Value::I64(1))]),
        }]
    );
    assert_eq!(p.row.get("r.x"), Some(&Value::I64(1)));
    assert_eq!(p.row.get("r.since"), None);
}

#[test]
fn setting_all_properties_of_a_node() {
    let g = graph();
    let rec = row(vec![
        ("n", Value::I64(2)),
        ("n.name", text("Bob")),
        ("n.age", Value::I64(30)),
    ]);
    let map = || ex(ExprKind::MapLiteral(vec![(s("x"), num(1)), (s("age"), null())]));
    let p = assign::plan_properties(&g, &rec, "n", &map(), false).unwrap();
    assert_eq!(p.row.get("n.name"), None);
    assert_eq!(p.row.get("n.x"), Some(&Value::I64(1)));
    let p = assign::plan_properties(&g, &rec, "n", &map(), true).unwrap();
    assert_eq!(
        p.changes[0],
        Change::SetNodeProperties {
            id: NodeId(2),
            properties: props(vec![("name", text("Bob")), ("x", Value::I64(1))]),
        }
    );
    assert_eq!(p.row.get("n.name"), Some(&text("Bob")));
    assert_eq!(p.row.get("n.age"), None);
    assert_eq!(assign::plan_properties(&g, &rec, "n", &null(), true).unwrap().changes, vec![]);
    let e = assign::plan_properties(&g, &rec, "n", &num(1), true).unwrap_err();
    assert_eq!(message(e), "SET properties requires a map value");
}

#[test]
fn setting_and_removing_labels() {
    let g = graph();
    let rec = row(vec![
        ("n", Value::I64(2)),
        ("n.__label", text("Person")),
        ("n.__labels", Value::List(vec![text("Person")])),
    ]);
    let p = assign::plan_labels(&rec, "n", &vec![s("Admin"), s("Person")]);
    assert_eq!(p.changes.len(), 2);
    assert_eq!(p.changes[0], Change::AddLabel { id: NodeId(2), label: s("Admin") });
    assert_eq!(p.row.get("n.__label"), Some(&text("Admin:Person")));
    assert_eq!(
        p.row.get("n.__labels"),
        Some(&Value::List(vec![text("Admin"), text("Person")]))
    );
    let off = RemoveItem::Label { variable: s("n"), labels: vec![s("Person")] };
    let q = assign::plan_removal(&g, &p.row, &off).unwrap();
    assert_eq!(q.changes, vec![Change::RemoveLabel { id: NodeId(2), label: s("Person") }]);
    assert_eq!(q.row.get("n.__labels"), Some(&Value::List(vec![text("Admin")])));
    let off = RemoveItem::Property { variable: s("n"), property: s("age") };
    let q = assign::plan_removal(&g, &rec, &off).unwrap();
    assert_eq!(q.changes[0], Change::RemoveNodeProperty { id: NodeId(2), property: s("age") });
    let off = RemoveItem::Property { variable: s("r"), property: s("since") };
    let q = assign::plan_removal(&g, &edge_rec(None), &off).unwrap();
    assert_eq!(q.row.get("r.since"), None);
    assert_eq!(q.changes.len(), 1);
}

fn node_pattern(variable: Option<&str>, labels: &[&str], entries: Vec<(&str, Expr)>) -> NodePattern {
    NodePattern {
        variable: variable.map(s),
        labels: labels.iter().map(|l| s(l)).collect(),
        properties: AssocList { entries: entries.into_iter().map(|(k, v)| (s(k), v)).collect() },
    }
}

fn rel_pattern(direction: RelDirection, entries: Vec<(&str, Expr)>) -> RelPattern {
    RelPattern {
        variable: Some(s("r")),
        rel_types: vec![s("KNOWS")],
        properties: AssocList { entries: entries.into_iter().map(|(k, v)| (s(k), v)).collect() },
        direction,
        var_length: None,
    }
}

fn found(f: Found) -> Vec<NodeId> {
    match f {
        Found::Nodes(v) => v,
        Found::Missing(c) => panic!("{:?}", c),
    }
}

fn created(f: Found) -> Change {
    match f {
        Found::Missing(c) => c,
        Found::Nodes(v) => panic!("{:?}", v),
    }
}

#[test]
fn merge_finds_a_node_or_creates_it() {
    let g = graph();
    let bob = node_pattern(Some("n"), &["Person"], vec![("name", lit("Bob"))]);
    assert_eq!(found(merge::plan_node_merge(&g, &bob).unwrap()), vec![NodeId(2)]);
    let eve = node_pattern(Some("n"), &["Person", "New"], vec![("name", lit("Eve"))]);
    assert_eq!(
        created(merge::plan_node_merge(&g, &eve).unwrap()),
        Change::AddNode {
            labels: vec![s("Person"), s("New")],
            properties: props(vec![("name", text("Eve"))]),
        }
    );
    let admin = node_pattern(Some("n"), &["Person", "Admin"], vec![("age", num(30))]);
    assert_eq!(found(merge::plan_node_merge(&g, &admin).unwrap()), vec![NodeId(3)]);
    assert_eq!(found(merge::find_or_create_merge_node(&g, &admin).unwrap()), vec![NodeId(2)]);
    let thirty = node_pattern(Some("n"), &["Person"], vec![("age", num(30))]);
    let rec = NamedRecord::new();
    assert_eq!(
        found(merge::plan_row_merge(&g, &thirty, &rec).unwrap()),
        vec![NodeId(2), NodeId(3)]
    );
    let bare = node_pattern(None, &[], vec![("name", lit("Zed"))]);
    assert_eq!(
        created(merge::plan_row_merge(&g, &bare, &rec).unwrap()),
        Change::AddNode { labels: vec![], properties: props(vec![("name", text("Zed"))]) }
    );
    let bad = node_pattern(None, &["Person"], vec![("name", null())]);
    let e = match merge::plan_node_merge(&g, &bad) {
        Err(e) => e,
        Ok(_) => panic!("null is refused"),
    };
    match &e {
        GraphError::Query(QueryError::SemanticError { code, .. }) => {
            assert_eq!(*code, ErrorCode::MergeReadOwnWrites)
        }
        other => panic!("{:?}", other),
    }
    assert_eq!(message(e), "MERGE with null property value");
}

#[test]
fn merge_finds_a_relationship_or_creates_it() {
    let g = graph();
    let rec = row(vec![("a", Value::I64(1)), ("b", Value::I64(2))]);
    let plan = |rel: &RelPattern, x: &str, y: &str| {
        merge_rel::plan_row_rel_merge(&g, &rec, x, rel, y).unwrap()
    };
    let there = rel_pattern(RelDirection::Outgoing, vec![("since", num(2000))]);
    match plan(&there, "a", "b") {
        RelFound::Edges(v) => assert_eq!(v, vec![(NodeId(1), NodeId(2), 0)]),
        _ => panic!("there is one"),
    }
    match plan(&there, "b", "a") {
        RelFound::Missing(c) => assert_eq!(
            c,
            Change::AddEdge {
                src: NodeId(2),
                dst: NodeId(1),
                label: s("KNOWS"),
                properties: props(vec![("since", Value::I64(2000))]),
            }
        ),
        _ => panic!("there is none"),
    }
    let either = rel_pattern(RelDirection::Undirected, vec![]);
    match plan(&either, "b", "a") {
        RelFound::Edges(v) => assert_eq!(v, vec![(NodeId(1), NodeId(2), 0)]),
        _ => panic!("there is one"),
    }
    match plan(&either, "a", "nobody") {
        RelFound::NoEnds => {}
        _ => panic!("there is no node"),
    }
    assert_eq!(merge_rel::plan_edge_merge(&g, &there, NodeId(1), NodeId(2)).unwrap(), None);
    assert!(merge_rel::plan_edge_merge(&g, &there, NodeId(1), NodeId(3)).unwrap().is_some());
    let row = merge_rel::bind_merged_edge(
        &g,
        &rec,
        &there,
        &Some(s("p")),
        NodeId(1),
        NodeId(2),
        Some(0),
    )
    .unwrap();
    assert_eq!(row.get("r.since"), Some(&Value::I64(2000)));
    assert_eq!(row.get("r.__edge_seq"), Some(&Value::I64(0)));
    match row.get("p") {
        Some(Value::Path(p)) => assert_eq!(p.nodes.len(), 2),
        other => panic!("{:?}", other),
    }
    let row =
        merge_rel::bind_merged_node(&g, &NamedRecord::new(), "n", NodeId(4), &None).unwrap();
    assert_eq!(row.get("n.name"), Some(&text("Rome")));
    assert_eq!(row.get("n.__label"), None);
}

fn pattern(elements: Vec<PatternElement>) -> Pattern {
    Pattern { elements, path_variable: None, shortest_path_mode: ShortestPathMode::Off }
}

#[test]
fn merge_patterns_have_a_shape() {
    let n = |v: Option<&str>| PatternElement::Node(node_pattern(v, &[], vec![]));
    let r = || PatternElement::Relationship(rel_pattern(RelDirection::Outgoing, vec![]));
    let fault = |p: Pattern, after: bool| {
        let out = match merge_rel::merge_shape(&p, after) {
            Ok(_) => s("fits"),
            Err(e) => message(e),
        };
        out
    };
    assert_eq!(fault(pattern(vec![n(None)]), true), "fits");
    assert_eq!(fault(pattern(vec![n(Some("a")), r(), n(Some("b"))]), true), "fits");
    assert_eq!(fault(pattern(vec![n(None), r(), n(None)]), false), "fits");
    assert_eq!(
        fault(pattern(vec![n(Some("a")), r()]), true),
        "MERGE pattern must be a single node or (node)-[rel]->(node)"
    );
    assert_eq!(fault(pattern(vec![r()]), true), "expected node pattern");
    assert_eq!(
        fault(pattern(vec![n(Some("a")), n(None), n(None)]), true),
        "expected relationship pattern"
    );
    assert_eq!(fault(pattern(vec![n(Some("a")), r(), r()]), true), "expected node pattern");
    assert_eq!(
        fault(pattern(vec![n(None), r(), n(Some("b"))]), true),
        "MERGE relationship source must have a variable"
    );
    assert_eq!(
        fault(pattern(vec![n(Some("a")), r(), n(None)]), true),
        "MERGE relationship target must have a variable"
    );
}

#[test]
fn merge_sets_properties_of_what_it_found() {
    let g = graph();
    let rec = NamedRecord::new();
    let a = SetItem::Property(Assignment { variable: s("n"), property: s("x"), value: num(1) });
    let v = merge_set::apply_merge_set_item_node(&g, &a, NodeId(4), &rec).unwrap();
    assert_eq!(
        v[0],
        Change::SetNodeProperty { id: NodeId(4), property: s("x"), value: Value::I64(1) }
    );
    let l = SetItem::Label { variable: s("n"), labels: vec![s("Old")] };
    let v = merge_set::apply_merge_set_item_node(&g, &l, NodeId(4), &rec).unwrap();
    assert_eq!(
        v,
        vec![
            Change::AddLabel { id: NodeId(4), label: s("Old") },
            Change::RefreshIndexes { id: NodeId(4) },
        ]
    );
    let map = || ex(ExprKind::MapLiteral(vec![(s("x"), num(1))]));
    let over = SetItem::MapOverwrite { variable: s("n"), value: map() };
    let v = merge_set::apply_merge_set_item_node(&g, &over, NodeId(4), &rec).unwrap();
    assert_eq!(
        v[0],
        Change::SetNodeProperty { id: NodeId(4), property: s("name"), value: Value::Null }
    );
    assert_eq!(
        v[2],
        Change::Reindex {
            id: NodeId(4),
            labels: vec![s("City")],
            old: props(vec![("name", text("Rome"))]),
            new: props(vec![("x", Value::I64(1))]),
        }
    );
    let more = SetItem::MapMerge { variable: s("r"), value: map() };
    let v = merge_set::apply_merge_set_item_edge(&g, &more, NodeId(1), NodeId(2), "KNOWS", None, &rec)
        .unwrap();
    assert_eq!(v.len(), 1);
    let over = SetItem::MapOverwrite { variable: s("r"), value: map() };
    let v =
        merge_set::apply_merge_set_item_edge(&g, &over, NodeId(1), NodeId(2), "KNOWS", Some(0), &rec)
            .unwrap();
    assert_eq!(v.len(), 2);
    let from_node = merge_set::resolve_to_map(&g, &num(4), &rec).unwrap();
    assert_eq!(from_node, props(vec![("name", text("Rome"))]));
    assert_eq!(merge_set::resolve_to_map(&g, &num(99), &rec).unwrap(), AssocList::new());
}

#[test]
fn writes_are_refused_in_a_read_transaction() {
    let plan = LogicalOp::SetLabel {
        input: Box::new(scan("Person", "n")),
        variable: s("n"),
        labels: vec![s("X")],
    };
    let mut c = ctx();
    assert!(plan::check_permitted(&plan, &c).is_ok());
    c.require_read_only = true;
    assert_eq!(
        message(plan::check_permitted(&plan, &c).unwrap_err()),
        "write operations are not permitted inside a read transaction"
    );
    assert!(plan::check_permitted(&scan("Person", "n"), &c).is_ok());
    assert!(plan::is_bare_write(&plan));
    assert!(!plan::is_read_only(&plan));
    assert_eq!(query::returned_rows(&plan, vec![NamedRecord::new()]).len(), 0);
    assert_eq!(query::returned_rows(&scan("", "n"), vec![NamedRecord::new()]).len(), 1);
    let ddl = LogicalOp::CreateIndex { label: s("A"), properties: vec![s("b")] };
    assert!(plan::is_schema_change(&ddl));
    assert!(!plan::is_schema_change(&plan));
}

#[test]
fn plans_that_run_by_slots() {
    assert!(plan::is_slot_supported(&scan("Person", "n")));
    let bare = project(scan("Person", "n"), vec![item(var("n"), None)]);
    assert!(!plan::is_slot_supported(&bare));
    let flat = project(scan("Person", "n"), vec![item(prop("n", "age"), None)]);
    assert!(plan::is_slot_supported(&flat));
    let text_lookup = LogicalOp::FullTextLookup {
        label: s("Doc"),
        alias: s("n"),
        property: s("body"),
        op: FullTextOp::Contains,
        term: lit("x"),
        remaining_filters: None,
    };
    assert!(!plan::is_slot_supported(&text_lookup));
}

#[test]
fn a_set_goes_through_all_rows_and_parts() {
    let mut g = graph();
    let set = |p: &str, v: Expr| Assignment { variable: s("n"), property: s(p), value: v };
    let op = LogicalOp::SetProperty {
        input: Box::new(scan("Person", "n")),
        assignments: vec![set("age", num(1)), set("x", prop("n", "age"))],
    };
    let rows = run::exec(&g, &scan("Person", "n"), &ctx()).unwrap();
    let mut writing = WriteRun::new(rows);
    let mut steps = 0;
    while let Some(changes) = writing.step(&g, &op).unwrap() {
        g.perform_all(&changes);
        steps += 1;
    }
    assert_eq!(steps, 6);
    assert_eq!(column(&writing.rows, "n.age"), ids(&[1, 1, 1]));
    assert_eq!(column(&writing.rows, "n.x"), ids(&[1, 1, 1]));
    assert_eq!(g.nodes[0].properties.get("age"), Some(&Value::I64(1)));
    let off = LogicalOp::Remove {
        input: Box::new(scan("Person", "n")),
        items: vec![RemoveItem::Property { variable: s("n"), property: s("age") }],
    };
    let mut writing = WriteRun::new(writing.rows);
    while let Some(_) = writing.step(&g, &off).unwrap() {}
    assert_eq!(column(&writing.rows, "n.age"), vec![Value::Null, Value::Null, Value::Null]);
    let mut none = WriteRun::new(vec![]);
    assert_eq!(none.step(&g, &off).unwrap(), None);
}

fn create_all(g: &mut Graph, mut creation: CreateRun, ops: &Vec<LogicalOp>) -> Vec<NamedRecord> {
    loop {
        match creation.step(g, ops).unwrap() {
            CreateTask::Make(c) => {
                let id = g.perform(&c);
                creation = creation.note(ops, &c, id);
            }
            CreateTask::GoOn => {}
            CreateTask::Finished => return creation.done,
        }
    }
}

#[test]
fn a_create_goes_through_all_rows() {
    let mut g = graph();
    let make = |alias: &str, value: Expr| LogicalOp::CreateNode {
        labels: vec![s("Copy")],
        alias: Some(s(alias)),
        properties: AssocList { entries: vec![(s("age"), value)] },
    };
    let link = LogicalOp::CreateEdge {
        src_alias: s("a"),
        dst_alias: s("b"),
        edge_type: s("COPY"),
        rel_alias: Some(s("r")),
        properties: AssocList::new(),
    };
    let ops = vec![make("a", num(1)), make("b", prop("a", "age")), link];
    let rows = run::exec(&g, &scan("Person", "a"), &ctx()).unwrap();
    let done = create_all(&mut g, CreateRun::on_rows(rows), &ops);
    assert_eq!(column(&done, "a"), ids(&[1, 2, 3]));
    assert_eq!(column(&done, "b"), ids(&[5, 6, 7]));
    assert_eq!(column(&done, "b.age"), ids(&[40, 30, 30]));
    assert_eq!(g.edges.len(), 6);
    let done = create_all(&mut g, CreateRun::alone(), &ops);
    assert_eq!(done.len(), 1);
    assert_eq!(column(&done, "b.age"), ids(&[1]));
    assert_eq!(g.nodes.len(), 9);
}

#[test]
fn a_delete_marks_all_rows() {
    let g = graph();
    let rows = run::exec(&g, &scan("Person", "n"), &ctx()).unwrap();
    let (rows, d) = write_run::plan_deletion(&g, rows, &vec![var("n")]).unwrap();
    assert_eq!(d.nodes, vec![NodeId(1), NodeId(2), NodeId(3)]);
    assert_eq!(rows[2].get("n.__deleted"), Some(&Value::Bool(true)));
}

fn merge_all(g: &mut Graph, clause: &Clause, rows: Vec<NamedRecord>) -> Vec<NamedRecord> {
    let mut merging = MergeRun::new(rows);
    let mut id = NodeId(0);
    while let Some(changes) = merging.step(g, clause, id).unwrap() {
        id = g.perform_all(&changes);
    }
    merging.done
}

fn set_x(variable: &str, n: i64) -> SetItem {
    SetItem::Property(Assignment { variable: s(variable), property: s("x"), value: num(n) })
}

#[test]
fn a_merge_of_nodes_goes_through_all_rows() {
    let mut g = graph();
    let p = pattern(vec![PatternElement::Node(node_pattern(
        Some("m"),
        &["Person"],
        vec![("age", prop("n", "age"))],
    ))]);
    let (on_create, on_match) = (vec![set_x("m", 1)], vec![set_x("m", 2)]);
    let clause = Clause { pattern: &p, on_create: &on_create, on_match: &on_match, alone: false };
    let rows = vec![
        row(vec![("n.age", Value::I64(30))]),
        row(vec![("n.age", Value::I64(50))]),
        row(vec![("n.age", Value::I64(50))]),
    ];
    let done = merge_all(&mut g, &clause, rows);
    assert_eq!(column(&done, "m"), ids(&[2, 3, 5, 5]));
    assert_eq!(column(&done, "m.x"), ids(&[2, 2, 1, 2]));
}

#[test]
fn a_merge_of_relationships_goes_through_all_rows() {
    let mut g = graph();
    let n = |v: &str| PatternElement::Node(node_pattern(Some(v), &[], vec![]));
    let rel = PatternElement::Relationship(rel_pattern(RelDirection::Outgoing, vec![]));
    let p = pattern(vec![n("a"), rel, n("b")]);
    let (on_create, on_match) = (vec![set_x("r", 1)], vec![set_x("r", 2)]);
    let clause = Clause { pattern: &p, on_create: &on_create, on_match: &on_match, alone: false };
    let rows = vec![
        row(vec![("a", Value::I64(1)), ("b", Value::I64(2))]),
        row(vec![("a", Value::I64(1)), ("b", Value::Null)]),
        row(vec![("a", Value::I64(3)), ("b", Value::I64(1))]),
    ];
    let done = merge_all(&mut g, &clause, rows);
    assert_eq!(column(&done, "a"), ids(&[1, 3]));
    assert_eq!(column(&done, "r.x"), ids(&[2, 1]));
    assert_eq!(g.edges.len(), 4);
}

#[test]
fn a_merge_on_its_own_creates_what_is_missing() {
    let mut g = graph();
    let p = pattern(vec![PatternElement::Node(node_pattern(
        None,
        &["Person"],
        vec![("name", lit("New"))],
    ))]);
    let none = vec![];
    let clause = Clause { pattern: &p, on_create: &none, on_match: &none, alone: true };
    let done = merge_all(&mut g, &clause, vec![NamedRecord::new()]);
    assert_eq!(column(&done, "_merge"), ids(&[5]));
    let done = merge_all(&mut g, &clause, vec![NamedRecord::new()]);
    assert_eq!(column(&done, "_merge"), ids(&[5]));
    let src = node_pattern(Some("a"), &["Person"], vec![("name", lit("Ann"))]);
    let dst = node_pattern(Some("b"), &["City"], vec![("name", lit("Oslo"))]);
    let rel = rel_pattern(RelDirection::Outgoing, vec![]);
    let path = Some(s("p"));
    let on_create = vec![set_x("r", 7)];
    let lone = LoneClause {
        src: &src,
        rel: &rel,
        dst: &dst,
        path_variable: &path,
        on_create: &on_create,
        on_match: &none,
    };
    for _ in 0..2 {
        let mut merging = LoneRun::new();
        let mut id = NodeId(0);
        while merging.done.is_none() {
            let changes = merging.step(&g, &lone, id).unwrap();
            id = g.perform_all(&changes);
        }
        let rec = merging.done.unwrap();
        assert_eq!(rec.get("a"), Some(&Value::I64(1)));
        assert_eq!(rec.get("b"), Some(&Value::I64(6)));
        match rec.get("p") {
            Some(Value::Path(p)) => {
                assert_eq!(p.edges[0].properties.get("x"), Some(&Value::I64(7)))
            }
            other => panic!("{:?}", other),
        }
    }
    assert_eq!(g.edges.len(), 4);
    assert_eq!(g.nodes.len(), 6);
}
