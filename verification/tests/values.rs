//! Values, texts, rows and what rows bind.
use graphdblite::assoc::AssocList;
use graphdblite::ast::{Expr, ExprKind, LiteralValue};
use graphdblite::binding;
use graphdblite::float;
use graphdblite::order;
use graphdblite::order::Place;
use graphdblite::plan;
use graphdblite::plan::{AggregateFunction, ExecContext};
use graphdblite::queue::Queue;
use graphdblite::record;
use graphdblite::record::{NamedRecord, RecordSchema, SlotId, SlotRecord};
use graphdblite::text;
use graphdblite::types::{NodeId, Span};
use graphdblite::value::{Duration, Edge, Float, Node, Value};

fn s(x: &str) -> String {
    x.to_string()
}

fn string(x: &str) -> Value {
    Value::String(s(x))
}

fn number(x: f64) -> Float {
    Float { bits: x.to_bits() }
}

fn props(entries: Vec<(&str, Value)>) -> AssocList<Value> {
    AssocList { entries: entries.into_iter().map(|(k, v)| (s(k), v)).collect() }
}

fn row(entries: Vec<(&str, Value)>) -> NamedRecord {
    NamedRecord { fields: props(entries) }
}

fn place(a: Value, b: Value) -> Place {
    order::compare_values_for_sort(&a, &b)
}

#[test]
fn integers_become_the_nearest_floating_point_number() {
    for n in [
        0i64,
        1,
        -1,
        3,
        1 << 53,
        (1 << 53) + 1,
        (1 << 53) + 3,
        i64::MAX,
        i64::MIN,
        -987654321987654321,
    ] {
        assert_eq!(float::from_int(n).bits, (n as f64).to_bits(), "{}", n);
    }
}

#[test]
fn floating_point_numbers_compare_as_they_should() {
    assert!(float::equal(number(0.0), number(-0.0)));
    assert!(!float::equal(number(f64::NAN), number(f64::NAN)));
    assert!(float::nan(number(f64::NAN)));
    assert!(!float::nan(number(f64::INFINITY)));
    assert_eq!(float::negate(number(1.5)), number(-1.5));
    assert_eq!(float::negate(number(-2.0)), number(2.0));
    assert!(float::rank_of(number(-1.0)) < float::rank_of(number(0.5)));
}

#[test]
fn values_are_ordered_by_type_first() {
    let ranked = vec![
        Value::MapValue(AssocList::new()),
        Value::List(vec![]),
        string("a"),
        Value::Bool(true),
        Value::I64(3),
        Value::Null,
    ];
    for i in 1..ranked.len() {
        assert!(order::type_rank(&ranked[i - 1]) < order::type_rank(&ranked[i]));
        assert_eq!(order::compare_values_for_sort(&ranked[i - 1], &ranked[i]), Place::Before);
        assert_eq!(order::compare_values_for_sort(&ranked[i], &ranked[i - 1]), Place::After);
    }
}

#[test]
fn values_of_a_type_are_ordered_among_themselves() {
    assert_eq!(place(Value::I64(2), Value::I64(3)), Place::Before);
    assert_eq!(place(Value::I64(2), Value::F64(number(1.5))), Place::After);
    assert_eq!(place(Value::F64(number(2.0)), Value::I64(2)), Place::Same);
    assert_eq!(place(string("ab"), string("b")), Place::Before);
    assert_eq!(place(string("a"), string("ab")), Place::Before);
    assert_eq!(place(Value::Bool(false), Value::Bool(true)), Place::Before);
    let list = |v: Vec<i64>| Value::List(v.into_iter().map(Value::I64).collect());
    assert_eq!(place(list(vec![1, 2]), list(vec![1, 3])), Place::Before);
    assert_eq!(place(list(vec![1]), list(vec![1, 0])), Place::Before);
    assert_eq!(place(Value::Null, Value::Null), Place::Same);
    assert_eq!(order::reverse(Place::Before), Place::After);
}

#[test]
fn values_are_equal_by_what_they_hold() {
    let a = Value::MapValue(props(vec![("a", Value::I64(1)), ("b", Value::Null)]));
    let b = Value::MapValue(props(vec![("b", Value::Null), ("a", Value::I64(1))]));
    assert!(order::equal(&a, &b));
    assert!(!order::equal(&Value::I64(1), &Value::F64(number(1.0))));
    assert!(!order::equal(&Value::F64(number(f64::NAN)), &Value::F64(number(f64::NAN))));
    let d = |days: i64| Value::Duration(Duration { months: 0, days, seconds: 0, nanos: 0 });
    assert!(order::equal(&d(1), &d(1)));
    assert!(!order::equal(&d(1), &d(2)));
}

#[test]
fn texts_are_taken_apart_and_put_together() {
    assert!(text::starts_with("graph", "gra"));
    assert!(!text::starts_with("gr", "gra"));
    assert!(text::ends_with("graph", "aph"));
    assert!(text::contains("graph", "rap"));
    assert!(text::contains("graph", ""));
    assert_eq!(text::strip_prefix("n.name", "n."), Some(s("name")));
    assert_eq!(text::strip_prefix("m.name", "n."), None);
    assert_eq!(text::split_once("n.a.b", '.'), Some((s("n"), s("a.b"))));
    assert_eq!(text::split_once("n", '.'), None);
    assert_eq!(text::split("a:b::c", ':'), vec![s("a"), s("b"), s(""), s("c")]);
    assert_eq!(text::join(&vec![s("a"), s("b")], ':'), "a:b");
    assert_eq!(text::field("n", "__id"), "n.__id");
    assert_eq!(text::number(0), "0");
    assert_eq!(text::number(18446744073709551615), "18446744073709551615");
    assert_eq!(text::lower_string("CouNT\u{c9}"), "count\u{c9}");
    assert_eq!(text::cat3("a", "\u{e9}", "c"), "a\u{e9}c");
}

#[test]
fn rows_keep_the_order_of_their_fields() {
    let mut r = row(vec![("a", Value::I64(1)), ("b", Value::I64(2)), ("c", Value::I64(3))]);
    r.set(s("a"), Value::I64(9));
    assert_eq!(r.get("a"), Some(&Value::I64(9)));
    r.remove("a");
    assert_eq!(r, row(vec![("c", Value::I64(3)), ("b", Value::I64(2))]));
    assert!(!r.has("a"));
    let mut t = row(vec![("x", Value::I64(0))]);
    t.set_fields("n", &vec![(s("p"), Value::I64(5))]);
    assert_eq!(t.get("n.p"), Some(&Value::I64(5)));
    t.fill(&vec![(s("x"), Value::I64(7)), (s("y"), Value::I64(8))]);
    assert_eq!(t.get("x"), Some(&Value::I64(0)));
    assert_eq!(t.get("y"), Some(&Value::I64(8)));
}

#[test]
fn slots_are_found_by_their_names() {
    let mut schema = RecordSchema::new();
    assert_eq!(schema.add_slot("a"), SlotId(0));
    assert_eq!(schema.add_slot("b"), SlotId(1));
    assert_eq!(schema.add_slot("a"), SlotId(0));
    assert_eq!(schema.len(), 2);
    assert_eq!(schema.slot("b"), Some(SlotId(1)));
    assert_eq!(schema.slot("c"), None);
    let mut rec = SlotRecord::with_capacity(1);
    rec.set(SlotId(2), Value::I64(4));
    assert_eq!(rec.len(), 3);
    assert_eq!(rec.get(SlotId(0)), Value::Null);
    assert_eq!(rec.get(SlotId(7)), Value::Null);
    let named = record::materialize_named(&schema, &rec);
    assert_eq!(named, row(vec![("a", Value::Null), ("b", Value::Null)]));
    let back = record::named_to_slot(&schema, &row(vec![("b", Value::I64(1)), ("z", Value::I64(2))]));
    assert_eq!(back.slots, vec![Value::Null, Value::I64(1)]);
}

fn ann() -> Node {
    Node {
        id: NodeId(7),
        labels: vec![s("Person"), s("Admin")],
        properties: props(vec![("name", string("Ann"))]),
    }
}

#[test]
fn nodes_are_spread_over_fields_and_put_together_again() {
    let rec = binding::node_to_record(&ann(), "n");
    assert_eq!(rec.get("n"), Some(&Value::I64(7)));
    assert_eq!(rec.get("n.__label"), Some(&string("Person:Admin")));
    assert_eq!(rec.get("n.name"), Some(&string("Ann")));
    assert_eq!(binding::build_compound_binding(&rec, "n"), Some(Value::Node(ann())));
    assert_eq!(binding::build_compound_binding(&rec, "m"), None);
    assert_eq!(binding::compound_binding_vars(&rec), vec![s("n")]);
    let mut schema = RecordSchema::new();
    schema.add_slot("n.name");
    schema.add_slot("n");
    let slots = binding::node_to_slot_record(&ann(), "n", &schema);
    assert_eq!(slots.slots, vec![string("Ann"), Value::I64(7)]);
}

#[test]
fn relationships_are_told_apart() {
    let mut rec = NamedRecord::new();
    let none = AssocList::new();
    binding::bind_edge(&mut rec, "r", NodeId(2), NodeId(1), "KNOWS", Some(0), &none);
    assert_eq!(binding::edge_fields(&rec, "r"), Some((2, 1, s("KNOWS"))));
    assert_eq!(binding::edge_seq(&rec, "r"), Some(0));
    assert!(!binding::has_duplicate_relationships(&rec));
    let e = Edge { src: NodeId(2), dst: NodeId(1), label: s("KNOWS"), properties: AssocList::new() };
    assert_eq!(binding::build_compound_binding(&rec, "r"), Some(Value::Edge(e)));
    binding::bind_edge(&mut rec, "q", NodeId(1), NodeId(2), "KNOWS", Some(0), &none);
    assert!(binding::has_duplicate_relationships(&rec));
    let key = binding::key_of(1, 2, "KNOWS", 0);
    assert!(binding::is_bound_elsewhere(&rec, "q", &key));
    assert_eq!(binding::collect_flat_edge_ids(&rec), vec![
        (1, 2, s("KNOWS"), 0),
        (1, 2, s("KNOWS"), 0),
    ]);
}

#[test]
fn fields_and_bindings_of_rows() {
    assert!(binding::is_user_visible_field("n.name"));
    assert!(!binding::is_user_visible_field("n"));
    assert!(!binding::is_user_visible_field("n.__id"));
    let rec = row(vec![("a", Value::I64(1)), ("b", Value::Null)]);
    assert!(binding::record_matches_bindings(&rec, &vec![(s("a"), Value::I64(1))]));
    assert!(!binding::record_matches_bindings(&rec, &vec![(s("a"), Value::I64(2))]));
    assert!(binding::record_matches_bindings(&rec, &vec![(s("z"), Value::I64(2))]));
    assert!(binding::is_null_field(&rec, "b"));
    let scored = |x: f64| row(vec![("n", Value::I64(1)), ("n.__fts_score", Value::F64(number(x)))]);
    assert!(binding::union_rows_equal(&scored(1.0), &scored(2.0)));
    assert!(!record::same_row(&scored(1.0), &scored(2.0)));
    assert_eq!(binding::value_to_node_id(&Value::I64(3)), Some(NodeId(3)));
    assert_eq!(binding::value_to_node_id(&Value::Node(ann())), Some(NodeId(7)));
    assert_eq!(binding::value_to_node_id(&Value::Null), None);
}

#[test]
fn queues_give_what_was_put_in() {
    let mut q: Queue<NamedRecord> = Queue::new(vec![row(vec![("x", Value::I64(1))]), NamedRecord::new()]);
    assert_eq!(q.pop(), Some(row(vec![("x", Value::I64(1))])));
    assert_eq!(q.pop(), Some(NamedRecord::new()));
    assert_eq!(q.pop(), None);
    let mut none: Queue<NamedRecord> = Queue::empty();
    assert_eq!(none.pop(), None);
}

#[test]
fn aggregate_calls_are_known_by_name() {
    let call = |name: &str| Expr {
        kind: ExprKind::FunctionCall {
            name: s(name),
            args: vec![],
            distinct: false,
            original_text: None,
        },
        span: Span::synthetic(),
    };
    assert!(plan::is_aggregate_call(&call("COUNT")));
    assert!(plan::is_aggregate_call(&call("stDevP")));
    assert!(!plan::is_aggregate_call(&call("length")));
    assert_eq!(plan::agg_fn_name(AggregateFunction::PercentileDisc), "percentileDisc");
    let lit = Expr { kind: ExprKind::Literal(LiteralValue::Null), span: Span::synthetic() };
    assert!(!plan::expr_has_bare_variable(&lit));
    assert!(!plan::expr_has_pattern_subquery(&lit));
}

#[test]
fn row_limits_hold_only_where_they_are_set() {
    let mut ctx = ExecContext::default();
    assert!(plan::check_row_limit(1_000_000, &ctx).is_ok());
    ctx.max_result_rows = 3;
    assert!(plan::check_row_limit(3, &ctx).is_ok());
    assert!(plan::check_row_limit(4, &ctx).is_err());
}
