//! What is read is what is written: operators, chains, lists and names.
use super::grammar;
use super::meaning;
use super::meaning::Level;
use super::peg::{lit, word, PairView, Peg};
use super::rule::Rule;
use super::source;
use crate::ast::{BinOp, QuantifierKind, RelDirection};
use crate::ast_model::{ExprKindView, ExprView, LiteralValueView, SortItemView};
use crate::text;
use crate::types::{ErrorView, Span};
use vstd::prelude::*;

verus! {

/// How an operator is written.
pub open spec fn op_text(op: BinOp) -> Seq<char> {
    match op {
        BinOp::Eq => "="@,
        BinOp::Neq => "<>"@,
        BinOp::Lt => "<"@,
        BinOp::Lte => "<="@,
        BinOp::Gt => ">"@,
        BinOp::Gte => ">="@,
        BinOp::RegexMatch => "=~"@,
        BinOp::Add => "+"@,
        BinOp::Sub => "-"@,
        BinOp::Mul => "*"@,
        BinOp::Div => "/"@,
        BinOp::Mod => "%"@,
        BinOp::Pow => "^"@,
        BinOp::And => "and"@,
        BinOp::Or => "or"@,
        BinOp::Xor => "xor"@,
        BinOp::In => "in"@,
        BinOp::StartsWith => "starts with"@,
        BinOp::EndsWith => "ends with"@,
        BinOp::Contains => "contains"@,
    }
}

/// The length, the first and the second character of how an operator is written; a blank where
/// there is no second one.
spec fn op_shape(op: BinOp) -> (nat, char, char) {
    match op {
        BinOp::Eq => (1, '=', ' '),
        BinOp::Neq => (2, '<', '>'),
        BinOp::Lt => (1, '<', ' '),
        BinOp::Lte => (2, '<', '='),
        BinOp::Gt => (1, '>', ' '),
        BinOp::Gte => (2, '>', '='),
        BinOp::RegexMatch => (2, '=', '~'),
        BinOp::Add => (1, '+', ' '),
        BinOp::Sub => (1, '-', ' '),
        BinOp::Mul => (1, '*', ' '),
        BinOp::Div => (1, '/', ' '),
        BinOp::Mod => (1, '%', ' '),
        BinOp::Pow => (1, '^', ' '),
        BinOp::And => (3, 'a', 'n'),
        BinOp::Or => (2, 'o', 'r'),
        BinOp::Xor => (3, 'x', 'o'),
        BinOp::In => (2, 'i', 'n'),
        BinOp::StartsWith => (11, 's', 't'),
        BinOp::EndsWith => (9, 'e', 'n'),
        BinOp::Contains => (8, 'c', 'o'),
    }
}

/// An operator is written in its shape.
proof fn lemma_op_shape(op: BinOp)
    ensures
        op_text(op).len() == op_shape(op).0,
        op_text(op)[0] == op_shape(op).1,
        op_shape(op).0 > 1 ==> op_text(op)[1] == op_shape(op).2,
{
    match op {
        BinOp::Eq => {
            reveal_strlit("=");
        },
        BinOp::Neq => {
            reveal_strlit("<>");
        },
        BinOp::Lt => {
            reveal_strlit("<");
        },
        BinOp::Lte => {
            reveal_strlit("<=");
        },
        BinOp::Gt => {
            reveal_strlit(">");
        },
        BinOp::Gte => {
            reveal_strlit(">=");
        },
        BinOp::RegexMatch => {
            reveal_strlit("=~");
        },
        BinOp::Add => {
            reveal_strlit("+");
        },
        BinOp::Sub => {
            reveal_strlit("-");
        },
        BinOp::Mul => {
            reveal_strlit("*");
        },
        BinOp::Div => {
            reveal_strlit("/");
        },
        BinOp::Mod => {
            reveal_strlit("%");
        },
        BinOp::Pow => {
            reveal_strlit("^");
        },
        BinOp::And => {
            reveal_strlit("and");
        },
        BinOp::Or => {
            reveal_strlit("or");
        },
        BinOp::Xor => {
            reveal_strlit("xor");
        },
        BinOp::In => {
            reveal_strlit("in");
        },
        BinOp::StartsWith => {
            reveal_strlit("starts with");
        },
        BinOp::EndsWith => {
            reveal_strlit("ends with");
        },
        BinOp::Contains => {
            reveal_strlit("contains");
        },
    }
}

/// Operators of one shape are one operator.
proof fn lemma_shapes_are_told_apart(a: BinOp, b: BinOp)
    requires
        op_shape(a) == op_shape(b),
    ensures
        a == b,
{
}

/// Each operator is written in its own way.
pub proof fn operators_are_told_apart(a: BinOp, b: BinOp)
    requires
        op_text(a) == op_text(b),
    ensures
        a == b,
{
    lemma_op_shape(a);
    lemma_op_shape(b);
    lemma_shapes_are_told_apart(a, b);
}

/// The text is a comparison operator.
pub open spec fn compares(t: Seq<char>) -> bool {
    t == "="@ || t == "<>"@ || t == "<"@ || t == "<="@ || t == ">"@ || t == ">="@ || t == "=~"@
}

/// Writing the operator that was read of a comparison gives back its text, and every text of a
/// comparison operator is read.
pub proof fn a_comparison_operator_reads_as_written(s: Seq<char>, p: PairView)
    requires
        p.children.len() == 0,
    ensures
        meaning::comp_op(s, p) is Ok <==> compares(source::text_of(s, p)),
        meaning::comp_op(s, p) matches Ok(op) ==> op_text(op) == source::text_of(s, p),
{
}

/// Two comparison operators read alike only where they are written alike.
pub proof fn comparison_operators_are_told_apart(s: Seq<char>, p: PairView, t: Seq<char>, q: PairView)
    requires
        p.children.len() == 0,
        q.children.len() == 0,
        meaning::comp_op(s, p) is Ok,
        meaning::comp_op(t, q) is Ok,
    ensures
        meaning::comp_op(s, p) == meaning::comp_op(t, q) <==> source::text_of(s, p)
            == source::text_of(t, q),
{
    a_comparison_operator_reads_as_written(s, p);
    a_comparison_operator_reads_as_written(t, q);
    if source::text_of(s, p) == source::text_of(t, q) {
        operators_are_told_apart(meaning::comp_op(s, p)->Ok_0, meaning::comp_op(t, q)->Ok_0);
    }
}

/// The words that an operator is written with.
pub open spec fn op_words(op: BinOp) -> Peg {
    match op {
        BinOp::And => word("and"),
        BinOp::Or => word("or"),
        BinOp::Xor => word("xor"),
        BinOp::Pow => lit("^"),
        BinOp::StartsWith => word("starts").next(word("with")),
        BinOp::EndsWith => word("ends").next(word("with")),
        BinOp::Contains => word("contains"),
        _ => Peg::End,
    }
}

/// An operator on texts is the one whose words its node stands for.
pub proof fn a_text_operator_reads_as_written(s: Seq<char>, p: PairView)
    requires
        p.children.len() > 0,
    ensures
        meaning::string_pred_op(p) matches Ok(op) ==> grammar::body_of(p.children[0].rule)
            == op_words(op) && (op == BinOp::StartsWith || op == BinOp::EndsWith || op
            == BinOp::Contains),
        meaning::comp_op(s, p) == meaning::string_pred_op(p) || meaning::comp_op(s, p) is Err,
        p.children[0].rule == Rule::StartsWithOp || p.children[0].rule == Rule::EndsWithOp
            || p.children[0].rule == Rule::ContainsOp ==> meaning::string_pred_op(p) is Ok
            && meaning::comp_op(s, p) is Ok,
{
    reveal(grammar::body_of);
}

/// Writing the operator that was read of a sum or a product gives back its text, and every such
/// text is read.
pub proof fn an_arithmetic_operator_reads_as_written(level: Level, s: Seq<char>, k: PairView)
    requires
        level == Level::Add || level == Level::Mul,
    ensures
        meaning::operator(level, s, k) matches Ok(o) ==> o is Some && op_text(o->0)
            == source::text_of(s, k),
        meaning::operator(Level::Add, s, k) is Ok <==> (source::text_of(s, k) == "+"@
            || source::text_of(s, k) == "-"@),
        meaning::operator(Level::Mul, s, k) is Ok <==> (source::text_of(s, k) == "*"@
            || source::text_of(s, k) == "/"@ || source::text_of(s, k) == "%"@),
{
}

/// The rule of the operator of a level that is written as a word or a single sign.
pub open spec fn level_rule(level: Level) -> Rule {
    match level {
        Level::Or => Rule::OrOp,
        Level::Xor => Rule::XorOp,
        Level::And => Rule::AndOp,
        Level::Add => Rule::AddOp,
        Level::Mul => Rule::MulOp,
        Level::Pow => Rule::ExpOp,
    }
}

/// An operator that is a word is the one whose word its node stands for; other nodes between
/// operands are passed over.
pub proof fn a_word_operator_reads_as_written(level: Level, s: Seq<char>, k: PairView)
    requires
        level != Level::Add && level != Level::Mul,
    ensures
        meaning::operator(level, s, k) is Ok,
        meaning::operator(level, s, k)->Ok_0 matches Some(op) ==> grammar::body_of(k.rule)
            == op_words(op),
        meaning::operator(level, s, k)->Ok_0 is Some <==> k.rule == level_rule(level),
{
    reveal(grammar::body_of);
}

/// The levels bind in turn: OR over XOR over AND over NOT; sums over products over powers.
pub proof fn levels_bind_in_turn(s: Seq<char>, p: PairView, d: nat)
    ensures
        meaning::operand(Level::Or, s, p, d) == meaning::chain(Level::Xor, s, p, d),
        meaning::operand(Level::Xor, s, p, d) == meaning::chain(Level::And, s, p, d),
        meaning::operand(Level::And, s, p, d) == meaning::bool_factor(s, p, d),
        meaning::operand(Level::Add, s, p, d) == meaning::chain(Level::Mul, s, p, d),
        meaning::operand(Level::Mul, s, p, d) == meaning::chain(Level::Pow, s, p, d),
        meaning::operand(Level::Pow, s, p, d) == meaning::atom(s, p, d),
{
}

/// The rest of a chain with an operator and an operand more.
proof fn lemma_chain_grows(
    level: Level,
    s: Seq<char>,
    kids: Seq<PairView>,
    i: int,
    left: ExprView,
    o: PairView,
    x: PairView,
    d: nat,
)
    requires
        0 <= i <= kids.len(),
        meaning::chain_from(level, s, kids, i, left, d) is Ok,
        meaning::operator(level, s, o) matches Ok(Some(_)),
    ensures
        meaning::chain_from(level, s, kids.push(o).push(x), i, left, d) == (match meaning::operand(
            level,
            s,
            x,
            d,
        ) {
            Err(e) => Err(e),
            Ok(right) => Ok(
                meaning::binary(
                    meaning::chain_from(level, s, kids, i, left, d)->Ok_0,
                    meaning::operator(level, s, o)->Ok_0->0,
                    right,
                ),
            ),
        }),
    decreases kids.len() - i,
{
    let all = kids.push(o).push(x);
    if i == kids.len() {
        assert(all[i] == o);
        assert(all[i + 1] == x);
        match meaning::operand(level, s, x, d) {
            Ok(right) => {
                let b = meaning::binary(left, meaning::operator(level, s, o)->Ok_0->0, right);
                assert(meaning::chain_from(level, s, all, i + 2, b, d) == Ok::<
                    ExprView,
                    ErrorView,
                >(b));
            },
            Err(_) => {},
        }
    } else {
        assert(all[i] == kids[i]);
        match meaning::operator(level, s, kids[i]) {
            Err(_) => {},
            Ok(None) => {
                lemma_chain_grows(level, s, kids, i + 1, left, o, x, d);
            },
            Ok(Some(op)) => {
                assert(all[i + 1] == kids[i + 1]);
                match meaning::operand(level, s, kids[i + 1], d) {
                    Err(_) => {},
                    Ok(right) => {
                        lemma_chain_grows(
                            level,
                            s,
                            kids,
                            i + 2,
                            meaning::binary(left, op, right),
                            o,
                            x,
                            d,
                        );
                    },
                }
            },
        }
    }
}

/// A chain of one operand means that operand.
pub proof fn a_lone_operand_means_itself(level: Level, s: Seq<char>, p: PairView, d: nat)
    requires
        p.children.len() == 1,
    ensures
        meaning::chain(level, s, p, d) == meaning::operand(level, s, p.children[0], d),
{
}

/// A chain goes from the left: with an operator and an operand more it means the operation on
/// what it meant before and the operand.
pub proof fn chains_go_from_the_left(
    level: Level,
    s: Seq<char>,
    p: PairView,
    q: PairView,
    o: PairView,
    x: PairView,
    d: nat,
)
    requires
        meaning::chain(level, s, p, d) is Ok,
        meaning::operator(level, s, o) matches Ok(Some(_)),
        meaning::operand(level, s, x, d) is Ok,
        q.children == p.children.push(o).push(x),
    ensures
        meaning::chain(level, s, q, d) matches Ok(e) && e.kind == (ExprKindView::BinaryOp {
            left: Box::new(meaning::chain(level, s, p, d)->Ok_0),
            op: meaning::operator(level, s, o)->Ok_0->0,
            right: Box::new(meaning::operand(level, s, x, d)->Ok_0),
        }),
{
    let left = meaning::operand(level, s, p.children[0], d)->Ok_0;
    assert(q.children[0] == p.children[0]);
    lemma_chain_grows(level, s, p.children, 1, left, o, x, d);
}

/// The operand that was read last of comparisons.
pub open spec fn last_operand(s: Seq<char>, kids: Seq<PairView>, d: nat) -> Result<
    ExprView,
    ErrorView,
> {
    if kids.len() == 1 {
        meaning::predicate(s, kids[0], d)
    } else {
        meaning::predicate(s, kids.last().children[1], d)
    }
}

/// Comparisons with one more.
proof fn lemma_comparisons_grow(
    s: Seq<char>,
    kids: Seq<PairView>,
    i: int,
    prev: ExprView,
    acc: Option<ExprView>,
    k: PairView,
    d: nat,
)
    requires
        1 <= i <= kids.len(),
        meaning::comparisons_from(s, kids, i, prev, acc, d) is Ok,
        meaning::comparison(s, k.children, d) is Ok,
        i == kids.len() ==> last_operand(s, kids, d) == Ok::<ExprView, ErrorView>(prev),
        acc is None <==> i == 1,
    ensures
        ({
            let (op, right) = meaning::comparison(s, k.children, d)->Ok_0;
            let so_far = meaning::comparisons_from(s, kids, i, prev, acc, d)->Ok_0;
            let last = last_operand(s, kids, d)->Ok_0;
            &&& last_operand(s, kids, d) is Ok
            &&& meaning::comparisons_from(s, kids.push(k), i, prev, acc, d) == Ok::<
                ExprView,
                ErrorView,
            >(
                if kids.len() == 1 {
                    meaning::binary(last, op, right)
                } else {
                    meaning::binary(so_far, BinOp::And, meaning::binary(last, op, right))
                },
            )
        }),
    decreases kids.len() - i,
{
    let all = kids.push(k);
    let (op, right) = meaning::comparison(s, k.children, d)->Ok_0;
    if i == kids.len() {
        assert(all[i] == k);
        let next = meaning::conjoined(acc, meaning::binary(prev, op, right));
        assert(meaning::comparisons_from(s, all, i + 1, right, Some(next), d) == Ok::<
            ExprView,
            ErrorView,
        >(next));
    } else {
        assert(all[i] == kids[i]);
        let (o, r) = meaning::comparison(s, kids[i].children, d)->Ok_0;
        let next = meaning::conjoined(acc, meaning::binary(prev, o, r));
        if i + 1 == kids.len() {
            assert(kids.last() == kids[i]);
        }
        lemma_comparisons_grow(s, kids, i + 1, r, Some(next), k, d);
    }
}

/// One comparison means the operation that its operator is written for, on what stands to its
/// left and to its right.
pub proof fn one_comparison_means_what_is_written(
    s: Seq<char>,
    p: PairView,
    d: nat,
)
    requires
        p.children.len() == 2,
        p.children[1].children.len() == 2,
        p.children[1].children[0].children.len() == 0,
        meaning::comparisons(s, p, d) is Ok,
    ensures
        ({
            let o = p.children[1].children[0];
            let e = meaning::comparisons(s, p, d)->Ok_0;
            &&& e.kind matches ExprKindView::BinaryOp { left, op, right }
            &&& op_text(op) == source::text_of(s, o)
            &&& meaning::predicate(s, p.children[0], d) == Ok::<ExprView, ErrorView>(*left)
            &&& meaning::predicate(s, p.children[1].children[1], d) == Ok::<ExprView, ErrorView>(
                *right,
            )
        }),
{
    a_comparison_operator_reads_as_written(s, p.children[1].children[0]);
    let first = meaning::predicate(s, p.children[0], d)->Ok_0;
    let kids = p.children;
    assert(meaning::comparison(s, kids[1].children, d) is Ok);
    let (op, right) = meaning::comparison(s, kids[1].children, d)->Ok_0;
    let next = meaning::conjoined(None, meaning::binary(first, op, right));
    assert(meaning::comparisons_from(s, kids, 2, right, Some(next), d) == Ok::<
        ExprView,
        ErrorView,
    >(next));
}

/// Comparisons in a row all have to hold: with one more they mean what they meant before AND the
/// comparison of the operand read last with the new one.
pub proof fn comparisons_in_a_row_all_hold(
    s: Seq<char>,
    p: PairView,
    q: PairView,
    k: PairView,
    d: nat,
)
    requires
        p.children.len() >= 2,
        meaning::comparisons(s, p, d) is Ok,
        meaning::comparison(s, k.children, d) is Ok,
        q.children == p.children.push(k),
    ensures
        last_operand(s, p.children, d) is Ok,
        meaning::comparisons(s, q, d) matches Ok(e) && e.kind matches ExprKindView::BinaryOp {
            left,
            op,
            right,
        } && *left == meaning::comparisons(s, p, d)->Ok_0 && op == BinOp::And && right.kind == (
        ExprKindView::BinaryOp {
            left: Box::new(last_operand(s, p.children, d)->Ok_0),
            op: meaning::comp_op(s, k.children[0])->Ok_0,
            right: Box::new(meaning::predicate(s, k.children[1], d)->Ok_0),
        }),
{
    assert(q.children[0] == p.children[0]);
    let first = meaning::predicate(s, p.children[0], d)->Ok_0;
    lemma_comparisons_grow(s, p.children, 1, first, None, k, d);
}

/// How often NOT stands around an expression, down to a given one.
pub open spec fn without_nots(e: ExprView, n: nat) -> Option<ExprView>
    decreases n,
{
    if n == 0 {
        Some(e)
    } else {
        match e.kind {
            ExprKindView::Not(x) => without_nots(*x, (n - 1) as nat),
            _ => None,
        }
    }
}

/// An expression under so many negations is the expression once they are taken away.
pub proof fn negations_stand_around_the_expression(e: ExprView, n: nat, span: Span)
    ensures
        without_nots(meaning::negated(e, n, span), n) == Some(e),
    decreases n,
{
    if n > 0 {
        negations_stand_around_the_expression(e, (n - 1) as nat, span);
    }
}

/// The nodes of a rule.
pub open spec fn of_rule(r: Rule) -> spec_fn(PairView) -> bool {
    |k: PairView| k.rule == r
}

/// Counting nodes of a rule counts each of them.
pub proof fn each_node_of_a_rule_counts(kids: Seq<PairView>, r: Rule, i: int)
    requires
        0 <= i <= kids.len(),
    ensures
        meaning::count_of(kids, r, i) == kids.take(i).filter(of_rule(r)).len(),
    decreases i,
{
    reveal(Seq::filter);
    if i > 0 {
        each_node_of_a_rule_counts(kids, r, i - 1);
        assert(kids.take(i).drop_last() =~= kids.take(i - 1));
        assert(kids.take(i).last() == kids[i - 1]);
    }
}

/// The texts of the nodes of a rule, in their order.
pub proof fn each_node_of_a_rule_gives_its_text(s: Seq<char>, kids: Seq<PairView>, r: Rule, i: int)
    requires
        0 <= i <= kids.len(),
    ensures
        meaning::texts_of(s, kids, r, i) == kids.take(i).filter(of_rule(r)).map_values(
            |k: PairView| source::text_of(s, k),
        ),
    decreases i,
{
    reveal(Seq::filter);
    let f = |k: PairView| source::text_of(s, k);
    if i > 0 {
        each_node_of_a_rule_gives_its_text(s, kids, r, i - 1);
        assert(kids.take(i).drop_last() =~= kids.take(i - 1));
        assert(kids.take(i).last() == kids[i - 1]);
        let before = kids.take(i - 1).filter(of_rule(r));
        if kids[i - 1].rule == r {
            assert(before.push(kids[i - 1]).map_values(f) =~= before.map_values(f).push(
                f(kids[i - 1]),
            ));
        }
    } else {
        assert(kids.take(0).filter(of_rule(r)).map_values(f) =~= Seq::<Seq<char>>::empty());
    }
}

/// The first node of a rule from a place on is the first.
pub proof fn the_first_of_a_rule_is_first(kids: Seq<PairView>, r: Rule, i: int)
    requires
        0 <= i <= kids.len(),
    ensures
        ({
            let at = meaning::first_place(kids, r, i);
            &&& i <= at <= kids.len()
            &&& at < kids.len() ==> kids[at].rule == r
            &&& forall|j: int| i <= j < at ==> (#[trigger] kids[j]).rule != r
        }),
    decreases kids.len() - i,
{
    if i < kids.len() && kids[i].rule != r {
        the_first_of_a_rule_is_first(kids, r, i + 1);
    }
}

/// The last node of a rule before a place is the last; there is none where none has the rule.
pub proof fn the_last_of_a_rule_is_last(kids: Seq<PairView>, r: Rule, i: int)
    requires
        0 <= i <= kids.len(),
    ensures
        ({
            let at = meaning::last_place(kids, r, i);
            if 0 <= at < kids.len() {
                at < i && kids[at].rule == r && forall|j: int|
                    at < j < i ==> (#[trigger] kids[j]).rule != r
            } else {
                forall|j: int| 0 <= j < i ==> (#[trigger] kids[j]).rule != r
            }
        }),
    decreases i,
{
    if i > 0 && kids[i - 1].rule != r {
        the_last_of_a_rule_is_last(kids, r, i - 1);
    }
}

/// A factor is negated as often as NOT is written before it.
pub proof fn not_is_read_as_often_as_written(s: Seq<char>, p: PairView, d: nat)
    requires
        meaning::bool_factor(s, p, d) is Ok,
    ensures
        exists|i: int|
            0 <= i < p.children.len() && (#[trigger] p.children[i]).rule == Rule::BoolPrimary
                && without_nots(
                meaning::bool_factor(s, p, d)->Ok_0,
                p.children.filter(of_rule(Rule::NotOp)).len(),
            ) == Some(meaning::bool_primary(s, p.children[i], d)->Ok_0) && meaning::bool_primary(
                s,
                p.children[i],
                d,
            ) is Ok,
{
    let n = p.children.len() as int;
    the_last_of_a_rule_is_last(p.children, Rule::BoolPrimary, n);
    each_node_of_a_rule_counts(p.children, Rule::NotOp, n);
    assert(p.children.take(n) =~= p.children);
    let i = meaning::last_place(p.children, Rule::BoolPrimary, n);
    let e = meaning::bool_primary(s, p.children[i], d)->Ok_0;
    negations_stand_around_the_expression(
        e,
        meaning::count_of(p.children, Rule::NotOp, n),
        source::span_of(s, p),
    );
}

/// A test behind a value means the test that is written: IS NULL, IS NOT NULL, IN, or one of the
/// operators on texts.
pub proof fn a_test_reads_as_written(
    s: Seq<char>,
    left: ExprView,
    span: Span,
    p: PairView,
    d: nat,
)
    requires
        meaning::suffixed(s, left, span, p, d) is Ok,
    ensures
        ({
            let e = meaning::suffixed(s, left, span, p, d)->Ok_0;
            let body = grammar::body_of(p.rule);
            &&& body == word("is").next(word("null")) ==> e.kind == ExprKindView::IsNull(
                Box::new(left),
            )
            &&& body == word("is").next(word("not")).next(word("null")) ==> e.kind
                == ExprKindView::IsNotNull(Box::new(left))
            &&& p.rule == Rule::InSuffix ==> (e.kind matches ExprKindView::BinaryOp {
                left: l,
                op,
                right,
            } && *l == left && op == BinOp::In && exists|i: int|
                0 <= i < p.children.len() && (#[trigger] p.children[i]).rule == Rule::AddExpr
                    && meaning::chain(Level::Add, s, p.children[i], d) == Ok::<
                    ExprView,
                    ErrorView,
                >(*right))
            &&& p.rule == Rule::StringPredSuffix ==> (p.children.len() >= 2 && (
            e.kind matches ExprKindView::BinaryOp { left: l, op, right } && *l == left
                && meaning::string_pred_op(p.children[0]) == Ok::<BinOp, ErrorView>(op)
                && meaning::chain(Level::Add, s, p.children[1], d) == Ok::<ExprView, ErrorView>(
                *right,
            )))
        }),
{
    reveal(grammar::body_of);
    the_first_of_a_rule_is_first(p.children, Rule::AddExpr, 0);
    if p.rule == Rule::InSuffix {
        let i = meaning::first_place(p.children, Rule::AddExpr, 0);
        assert(p.children[i].rule == Rule::AddExpr);
    }
}

/// The name of a quantifier.
pub open spec fn quantifier_text(k: QuantifierKind) -> Seq<char> {
    match k {
        QuantifierKind::All => "all"@,
        QuantifierKind::Any => "any"@,
        QuantifierKind::NoneOf => "none"@,
        QuantifierKind::Single => "single"@,
    }
}

/// A quantifier is the one that is named, in whatever case, and all four names are read.
pub proof fn a_quantifier_reads_as_written(t: Seq<char>)
    ensures
        meaning::quantifier_kind(t) matches Ok(k) ==> quantifier_text(k) == text::lower_text(t),
        meaning::quantifier_kind(t) is Ok <==> (text::lower_text(t) == "all"@ || text::lower_text(t)
            == "any"@ || text::lower_text(t) == "none"@ || text::lower_text(t) == "single"@),
{
}

/// The expression begins with the text.
pub open spec fn begins_with(body: Peg, t: Seq<char>) -> bool
    decreases body,
{
    match body {
        Peg::Chain(a, _) => begins_with(*a, t),
        Peg::Lit(x) => x@ == t,
        _ => false,
    }
}

/// The expression ends with the text.
pub open spec fn ends_with(body: Peg, t: Seq<char>) -> bool
    decreases body,
{
    match body {
        Peg::Chain(_, b) => ends_with(*b, t),
        Peg::Lit(x) => x@ == t,
        _ => false,
    }
}

/// The nodes that stand for an arrow.
pub open spec fn is_arrow(r: Rule) -> bool {
    match r {
        Rule::RelBoth => true,
        Rule::RelRight => true,
        Rule::RelLeft => true,
        Rule::RelUndirected => true,
        Rule::RelBothBare => true,
        Rule::RelRightBare => true,
        Rule::RelLeftBare => true,
        Rule::RelUndirectedBare => true,
        _ => false,
    }
}

/// An arrow points the way that it is written: out with a head on its right only, in with a head
/// on its left only, and either way with heads on both ends or none.
pub proof fn an_arrow_points_as_written(r: Rule)
    requires
        is_arrow(r),
    ensures
        ({
            let body = grammar::body_of(r);
            let left = begins_with(body, "<"@);
            let right = ends_with(body, ">"@);
            meaning::direction_of(r) == Some(
                if right && !left {
                    RelDirection::Outgoing
                } else if left && !right {
                    RelDirection::Incoming
                } else {
                    RelDirection::Undirected
                },
            )
        }),
{
    reveal(grammar::body_of);
    reveal_with_fuel(begins_with, 10);
    reveal_with_fuel(ends_with, 10);
    reveal_strlit("<");
    reveal_strlit(">");
    reveal_strlit("-");
    assert("<"@[0] != "-"@[0]);
    assert(">"@[0] != "-"@[0]);
}

/// A sort key goes down where it says so, and up where it says so or says nothing.
pub proof fn a_sort_key_goes_as_written(s: Seq<char>, kids: Seq<PairView>, d: nat)
    requires
        1 <= kids.len() <= 2,
        kids[0].rule == Rule::Expr,
        kids.len() == 2 ==> kids[1].rule == Rule::SortDirection,
        meaning::expr(s, kids[0], d) is Ok,
    ensures
        meaning::sort_from(s, kids, 0, None, false, d) matches Ok(x) && x.expr == meaning::expr(
            s,
            kids[0],
            d,
        )->Ok_0 && x.descending == (kids.len() == 2 && (text::lower_text(
            source::text_of(s, kids[1]),
        ) == "desc"@ || text::lower_text(source::text_of(s, kids[1])) == "descending"@)),
{
    let x = meaning::expr(s, kids[0], d)->Ok_0;
    let a = meaning::sort_from(s, kids, 1, Some(x), false, d);
    assert(meaning::sort_from(s, kids, 0, None, false, d) == a);
    if kids.len() == 2 {
        let down = meaning::is_descending(source::text_of(s, kids[1]));
        assert(meaning::sort_from(s, kids, 2, Some(x), down, d) == Ok::<SortItemView, ErrorView>(
            SortItemView { expr: x, descending: down },
        ));
    }
}

/// A truth value reads as written, and null as null.
pub proof fn truth_and_null_read_as_written(s: Seq<char>, k: PairView)
    ensures
        k.rule == Rule::BoolLiteral && text::lower_text(source::text_of(s, k)) == "true"@
            ==> meaning::constant(s, k) == Ok::<LiteralValueView, ErrorView>(
            LiteralValueView::Bool(true),
        ),
        k.rule == Rule::BoolLiteral && text::lower_text(source::text_of(s, k)) == "false"@
            ==> meaning::constant(s, k) == Ok::<LiteralValueView, ErrorView>(
            LiteralValueView::Bool(false),
        ),
        k.rule == Rule::NullLiteral ==> meaning::constant(s, k) == Ok::<LiteralValueView, ErrorView>(
            LiteralValueView::Null,
        ),
{
    reveal_strlit("true");
    reveal_strlit("false");
    assert("true"@.len() != "false"@.len());
}

} // verus!
