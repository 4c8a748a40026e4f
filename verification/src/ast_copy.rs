//! Copies of syntax trees.
use crate::ast::{
    Assignment,
    Clause,
    CreateStatement,
    DeleteStatement,
    Expr,
    ExprKind,
    FloatLiteral,
    IntermediateClause,
    IntermediateMatch,
    LiteralValue,
    MatchCreateStatement,
    MatchMergeStatement,
    MatchStatement,
    MergeStatement,
    MultiClauseStatement,
    NodePattern,
    OptionalMatch,
    Pattern,
    PatternElement,
    RelPattern,
    RemoveItem,
    RemoveStatement,
    ReturnClause,
    ReturnItem,
    ReturnStatement,
    SetItem,
    SetStatement,
    SortItem,
    Statement,
    UnwindBody,
    UnwindClause,
    UnwindStatement,
    WithClause,
};
use crate::assoc::AssocList;
use crate::ast_model;
use vstd::prelude::*;

verus! {

/// A copy of an optional string.
pub fn dup_opt_text(o: &Option<String>) -> (r: Option<String>)
    ensures
        r == *o,
{
    match o {
        Some(s) => Some(s.clone()),
        None => None,
    }
}

/// A copy of a list of strings.
pub fn dup_texts(v: &Vec<String>) -> (r: Vec<String>)
    ensures
        r@ == v@,
        ast_model::texts(r@) == ast_model::texts(v@),
{
    let mut out: Vec<String> = Vec::new();
    let mut i: usize = 0;
    while i < v.len()
        invariant
            i <= v.len(),
            out@ == v@.take(i as int),
        decreases v.len() - i,
    {
        out.push(v[i].clone());
        i = i + 1;
    }
    out
}

impl Expr {
    /// A copy that says the same.
    pub fn dup(&self) -> (r: Expr)
        ensures
            r@ == self@,
        decreases self,
    {
        Expr {
            kind: self.kind.dup(),
            span: self.span,
        }
    }
}

impl LiteralValue {
    /// A copy that says the same.
    pub fn dup(&self) -> (r: LiteralValue)
        ensures
            r@ == self@,
        decreases self,
    {
        match self {
            LiteralValue::Null => LiteralValue::Null,
            LiteralValue::Bool(a) => LiteralValue::Bool(*a),
            LiteralValue::I64(a) => LiteralValue::I64(*a),
            LiteralValue::F64(a) => LiteralValue::F64(a.dup()),
            LiteralValue::String(a) => LiteralValue::String(a.clone()),
        }
    }
}

impl FloatLiteral {
    /// A copy that says the same.
    pub fn dup(&self) -> (r: FloatLiteral)
        ensures
            r@ == self@,
        decreases self,
    {
        match self {
            FloatLiteral::Decimal(a) => FloatLiteral::Decimal(a.clone()),
            FloatLiteral::Bits(a) => FloatLiteral::Bits(*a),
        }
    }
}

impl ExprKind {
    /// A copy that says the same.
    pub fn dup(&self) -> (r: ExprKind)
        ensures
            r@ == self@,
        decreases self,
    {
        match self {
            ExprKind::Literal(a) => ExprKind::Literal(a.dup()),
            ExprKind::Property(a, b) => ExprKind::Property(a.clone(), b.clone()),
            ExprKind::Variable(a) => ExprKind::Variable(a.clone()),
            ExprKind::HasLabel(a, b) => ExprKind::HasLabel(a.clone(), dup_texts(b)),
            ExprKind::PatternPredicate(a) => ExprKind::PatternPredicate(a.dup()),
            ExprKind::Star => ExprKind::Star,
            ExprKind::Parameter(a) => ExprKind::Parameter(a.clone()),
            ExprKind::BinaryOp { left, op, right } => ExprKind::BinaryOp {
                left: Box::new(left.dup()),
                op: *op,
                right: Box::new(right.dup()),
            },
            ExprKind::Not(a) => ExprKind::Not(Box::new(a.dup())),
            ExprKind::IsNull(a) => ExprKind::IsNull(Box::new(a.dup())),
            ExprKind::IsNotNull(a) => ExprKind::IsNotNull(Box::new(a.dup())),
            ExprKind::FunctionCall { name, args, distinct, original_text } => ExprKind::FunctionCall {
                name: name.clone(),
                args: dup_exprs(args),
                distinct: *distinct,
                original_text: dup_opt_text(original_text),
            },
            ExprKind::Case { operand, alternatives, default } => ExprKind::Case {
                operand: dup_opt_box(operand),
                alternatives: dup_alternatives(alternatives),
                default: dup_opt_box(default),
            },
            ExprKind::List(a) => ExprKind::List(dup_exprs(a)),
            ExprKind::ListComprehension { variable, list_expr, filter, map_expr } => ExprKind::ListComprehension {
                variable: variable.clone(),
                list_expr: Box::new(list_expr.dup()),
                filter: dup_opt_box(filter),
                map_expr: dup_opt_box(map_expr),
            },
            ExprKind::PatternComprehension { path_variable, pattern, where_clause, map_expr } => ExprKind::PatternComprehension {
                path_variable: dup_opt_text(path_variable),
                pattern: pattern.dup(),
                where_clause: dup_opt_box(where_clause),
                map_expr: Box::new(map_expr.dup()),
            },
            ExprKind::Quantifier { kind, variable, list_expr, predicate } => ExprKind::Quantifier {
                kind: *kind,
                variable: variable.clone(),
                list_expr: Box::new(list_expr.dup()),
                predicate: Box::new(predicate.dup()),
            },
            ExprKind::Exists { patterns, where_clause } => ExprKind::Exists {
                patterns: dup_patterns(patterns),
                where_clause: dup_opt_box(where_clause),
            },
            ExprKind::ExistsSubquery(a) => ExprKind::ExistsSubquery(Box::new(a.dup())),
            ExprKind::MapLiteral(a) => ExprKind::MapLiteral(dup_pairs(a)),
            ExprKind::Index { expr, index } => ExprKind::Index {
                expr: Box::new(expr.dup()),
                index: Box::new(index.dup()),
            },
            ExprKind::DotAccess { expr, key } => ExprKind::DotAccess {
                expr: Box::new(expr.dup()),
                key: key.clone(),
            },
            ExprKind::Slice { expr, start, end } => ExprKind::Slice {
                expr: Box::new(expr.dup()),
                start: dup_opt_box(start),
                end: dup_opt_box(end),
            },
        }
    }
}

impl Pattern {
    /// A copy that says the same.
    pub fn dup(&self) -> (r: Pattern)
        ensures
            r@ == self@,
        decreases self,
    {
        Pattern {
            elements: dup_pattern_elements(&self.elements),
            path_variable: dup_opt_text(&self.path_variable),
            shortest_path_mode: self.shortest_path_mode,
        }
    }
}

impl PatternElement {
    /// A copy that says the same.
    pub fn dup(&self) -> (r: PatternElement)
        ensures
            r@ == self@,
        decreases self,
    {
        match self {
            PatternElement::Node(a) => PatternElement::Node(a.dup()),
            PatternElement::Relationship(a) => PatternElement::Relationship(a.dup()),
        }
    }
}

impl NodePattern {
    /// A copy that says the same.
    pub fn dup(&self) -> (r: NodePattern)
        ensures
            r@ == self@,
        decreases self,
    {
        NodePattern {
            variable: dup_opt_text(&self.variable),
            labels: dup_texts(&self.labels),
            properties: AssocList { entries: dup_pairs(&self.properties.entries) },
        }
    }
}

impl RelPattern {
    /// A copy that says the same.
    pub fn dup(&self) -> (r: RelPattern)
        ensures
            r@ == self@,
        decreases self,
    {
        RelPattern {
            variable: dup_opt_text(&self.variable),
            rel_types: dup_texts(&self.rel_types),
            properties: AssocList { entries: dup_pairs(&self.properties.entries) },
            direction: self.direction,
            var_length: self.var_length,
        }
    }
}

impl ReturnItem {
    /// A copy that says the same.
    pub fn dup(&self) -> (r: ReturnItem)
        ensures
            r@ == self@,
        decreases self,
    {
        ReturnItem {
            expr: self.expr.dup(),
            alias: dup_opt_text(&self.alias),
        }
    }
}

impl ReturnClause {
    /// A copy that says the same.
    pub fn dup(&self) -> (r: ReturnClause)
        ensures
            r@ == self@,
        decreases self,
    {
        ReturnClause {
            items: dup_return_items(&self.items),
            distinct: self.distinct,
        }
    }
}

impl SortItem {
    /// A copy that says the same.
    pub fn dup(&self) -> (r: SortItem)
        ensures
            r@ == self@,
        decreases self,
    {
        SortItem {
            expr: self.expr.dup(),
            descending: self.descending,
        }
    }
}

impl OptionalMatch {
    /// A copy that says the same.
    pub fn dup(&self) -> (r: OptionalMatch)
        ensures
            r@ == self@,
        decreases self,
    {
        OptionalMatch {
            patterns: dup_patterns(&self.patterns),
            where_clause: dup_opt_expr(&self.where_clause),
        }
    }
}

impl WithClause {
    /// A copy that says the same.
    pub fn dup(&self) -> (r: WithClause)
        ensures
            r@ == self@,
        decreases self,
    {
        WithClause {
            items: dup_return_items(&self.items),
            distinct: self.distinct,
            order_by: dup_sort_items(&self.order_by),
            skip: dup_opt_expr(&self.skip),
            limit: dup_opt_expr(&self.limit),
            where_clause: dup_opt_expr(&self.where_clause),
        }
    }
}

impl UnwindClause {
    /// A copy that says the same.
    pub fn dup(&self) -> (r: UnwindClause)
        ensures
            r@ == self@,
        decreases self,
    {
        UnwindClause {
            expr: self.expr.dup(),
            alias: self.alias.clone(),
        }
    }
}

impl IntermediateMatch {
    /// A copy that says the same.
    pub fn dup(&self) -> (r: IntermediateMatch)
        ensures
            r@ == self@,
        decreases self,
    {
        IntermediateMatch {
            patterns: dup_patterns(&self.patterns),
            optional_patterns: dup_optional_matchs(&self.optional_patterns),
            where_clause: dup_opt_expr(&self.where_clause),
        }
    }
}

impl IntermediateClause {
    /// A copy that says the same.
    pub fn dup(&self) -> (r: IntermediateClause)
        ensures
            r@ == self@,
        decreases self,
    {
        match self {
            IntermediateClause::With(a) => IntermediateClause::With(a.dup()),
            IntermediateClause::Unwind(a) => IntermediateClause::Unwind(a.dup()),
            IntermediateClause::Match(a) => IntermediateClause::Match(a.dup()),
        }
    }
}

impl Assignment {
    /// A copy that says the same.
    pub fn dup(&self) -> (r: Assignment)
        ensures
            r@ == self@,
        decreases self,
    {
        Assignment {
            variable: self.variable.clone(),
            property: self.property.clone(),
            value: self.value.dup(),
        }
    }
}

impl SetItem {
    /// A copy that says the same.
    pub fn dup(&self) -> (r: SetItem)
        ensures
            r@ == self@,
        decreases self,
    {
        match self {
            SetItem::Property(a) => SetItem::Property(a.dup()),
            SetItem::Label { variable, labels } => SetItem::Label {
                variable: variable.clone(),
                labels: dup_texts(labels),
            },
            SetItem::MapOverwrite { variable, value } => SetItem::MapOverwrite {
                variable: variable.clone(),
                value: value.dup(),
            },
            SetItem::MapMerge { variable, value } => SetItem::MapMerge {
                variable: variable.clone(),
                value: value.dup(),
            },
        }
    }
}

impl RemoveItem {
    /// A copy that says the same.
    pub fn dup(&self) -> (r: RemoveItem)
        ensures
            r@ == self@,
        decreases self,
    {
        match self {
            RemoveItem::Property { variable, property } => RemoveItem::Property {
                variable: variable.clone(),
                property: property.clone(),
            },
            RemoveItem::Label { variable, labels } => RemoveItem::Label {
                variable: variable.clone(),
                labels: dup_texts(labels),
            },
        }
    }
}

impl MatchStatement {
    /// A copy that says the same.
    pub fn dup(&self) -> (r: MatchStatement)
        ensures
            r@ == self@,
        decreases self,
    {
        MatchStatement {
            patterns: dup_patterns(&self.patterns),
            optional_patterns: dup_optional_matchs(&self.optional_patterns),
            where_clause: dup_opt_expr(&self.where_clause),
            intermediate_clauses: dup_intermediate_clauses(&self.intermediate_clauses),
            return_clause: self.return_clause.dup(),
            order_by: dup_sort_items(&self.order_by),
            skip: dup_opt_expr(&self.skip),
            limit: dup_opt_expr(&self.limit),
        }
    }
}

impl CreateStatement {
    /// A copy that says the same.
    pub fn dup(&self) -> (r: CreateStatement)
        ensures
            r@ == self@,
        decreases self,
    {
        CreateStatement {
            patterns: dup_patterns(&self.patterns),
            return_clause: dup_opt_return_clause(&self.return_clause),
            order_by: dup_sort_items(&self.order_by),
            skip: dup_opt_expr(&self.skip),
            limit: dup_opt_expr(&self.limit),
        }
    }
}

impl MatchCreateStatement {
    /// A copy that says the same.
    pub fn dup(&self) -> (r: MatchCreateStatement)
        ensures
            r@ == self@,
        decreases self,
    {
        MatchCreateStatement {
            patterns: dup_patterns(&self.patterns),
            where_clause: dup_opt_expr(&self.where_clause),
            create_patterns: dup_patterns(&self.create_patterns),
            return_clause: dup_opt_return_clause(&self.return_clause),
            order_by: dup_sort_items(&self.order_by),
            skip: dup_opt_expr(&self.skip),
            limit: dup_opt_expr(&self.limit),
        }
    }
}

impl MatchMergeStatement {
    /// A copy that says the same.
    pub fn dup(&self) -> (r: MatchMergeStatement)
        ensures
            r@ == self@,
        decreases self,
    {
        MatchMergeStatement {
            patterns: dup_patterns(&self.patterns),
            where_clause: dup_opt_expr(&self.where_clause),
            merge_pattern: self.merge_pattern.dup(),
            on_create: dup_set_items(&self.on_create),
            on_match: dup_set_items(&self.on_match),
            return_clause: dup_opt_return_clause(&self.return_clause),
            order_by: dup_sort_items(&self.order_by),
            skip: dup_opt_expr(&self.skip),
            limit: dup_opt_expr(&self.limit),
        }
    }
}

impl DeleteStatement {
    /// A copy that says the same.
    pub fn dup(&self) -> (r: DeleteStatement)
        ensures
            r@ == self@,
        decreases self,
    {
        DeleteStatement {
            patterns: dup_patterns(&self.patterns),
            optional_patterns: dup_optional_matchs(&self.optional_patterns),
            where_clause: dup_opt_expr(&self.where_clause),
            detach: self.detach,
            exprs: dup_exprs(&self.exprs),
            return_clause: dup_opt_return_clause(&self.return_clause),
            order_by: dup_sort_items(&self.order_by),
            skip: dup_opt_expr(&self.skip),
            limit: dup_opt_expr(&self.limit),
        }
    }
}

impl SetStatement {
    /// A copy that says the same.
    pub fn dup(&self) -> (r: SetStatement)
        ensures
            r@ == self@,
        decreases self,
    {
        SetStatement {
            patterns: dup_patterns(&self.patterns),
            optional_patterns: dup_optional_matchs(&self.optional_patterns),
            where_clause: dup_opt_expr(&self.where_clause),
            items: dup_set_items(&self.items),
            intermediate_clauses: dup_intermediate_clauses(&self.intermediate_clauses),
            return_clause: dup_opt_return_clause(&self.return_clause),
            order_by: dup_sort_items(&self.order_by),
            skip: dup_opt_expr(&self.skip),
            limit: dup_opt_expr(&self.limit),
        }
    }
}

impl RemoveStatement {
    /// A copy that says the same.
    pub fn dup(&self) -> (r: RemoveStatement)
        ensures
            r@ == self@,
        decreases self,
    {
        RemoveStatement {
            patterns: dup_patterns(&self.patterns),
            optional_patterns: dup_optional_matchs(&self.optional_patterns),
            where_clause: dup_opt_expr(&self.where_clause),
            items: dup_remove_items(&self.items),
            return_clause: dup_opt_return_clause(&self.return_clause),
            order_by: dup_sort_items(&self.order_by),
            skip: dup_opt_expr(&self.skip),
            limit: dup_opt_expr(&self.limit),
        }
    }
}

impl MergeStatement {
    /// A copy that says the same.
    pub fn dup(&self) -> (r: MergeStatement)
        ensures
            r@ == self@,
        decreases self,
    {
        MergeStatement {
            pattern: self.pattern.dup(),
            on_create: dup_set_items(&self.on_create),
            on_match: dup_set_items(&self.on_match),
            return_clause: dup_opt_return_clause(&self.return_clause),
            order_by: dup_sort_items(&self.order_by),
            skip: dup_opt_expr(&self.skip),
            limit: dup_opt_expr(&self.limit),
        }
    }
}

impl UnwindBody {
    /// A copy that says the same.
    pub fn dup(&self) -> (r: UnwindBody)
        ensures
            r@ == self@,
        decreases self,
    {
        match self {
            UnwindBody::Return { where_clause, intermediate_clauses, return_clause, order_by, skip, limit } => UnwindBody::Return {
                where_clause: dup_opt_expr(where_clause),
                intermediate_clauses: dup_intermediate_clauses(intermediate_clauses),
                return_clause: return_clause.dup(),
                order_by: dup_sort_items(order_by),
                skip: dup_opt_expr(skip),
                limit: dup_opt_expr(limit),
            },
            UnwindBody::Create { patterns, intermediate_clauses, return_clause, order_by, skip, limit } => UnwindBody::Create {
                patterns: dup_patterns(patterns),
                intermediate_clauses: dup_intermediate_clauses(intermediate_clauses),
                return_clause: dup_opt_return_clause(return_clause),
                order_by: dup_sort_items(order_by),
                skip: dup_opt_expr(skip),
                limit: dup_opt_expr(limit),
            },
        }
    }
}

impl UnwindStatement {
    /// A copy that says the same.
    pub fn dup(&self) -> (r: UnwindStatement)
        ensures
            r@ == self@,
        decreases self,
    {
        UnwindStatement {
            expr: self.expr.dup(),
            alias: self.alias.clone(),
            body: self.body.dup(),
        }
    }
}

impl ReturnStatement {
    /// A copy that says the same.
    pub fn dup(&self) -> (r: ReturnStatement)
        ensures
            r@ == self@,
        decreases self,
    {
        ReturnStatement {
            return_clause: self.return_clause.dup(),
            order_by: dup_sort_items(&self.order_by),
            skip: dup_opt_expr(&self.skip),
            limit: dup_opt_expr(&self.limit),
        }
    }
}

impl Clause {
    /// A copy that says the same.
    pub fn dup(&self) -> (r: Clause)
        ensures
            r@ == self@,
        decreases self,
    {
        match self {
            Clause::Match { patterns, optional_patterns, where_clause } => Clause::Match {
                patterns: dup_patterns(patterns),
                optional_patterns: dup_optional_matchs(optional_patterns),
                where_clause: dup_opt_expr(where_clause),
            },
            Clause::Create { patterns } => Clause::Create {
                patterns: dup_patterns(patterns),
            },
            Clause::Merge { pattern, on_create, on_match } => Clause::Merge {
                pattern: pattern.dup(),
                on_create: dup_set_items(on_create),
                on_match: dup_set_items(on_match),
            },
            Clause::With(a) => Clause::With(a.dup()),
            Clause::Unwind(a) => Clause::Unwind(a.dup()),
            Clause::SetItems { items } => Clause::SetItems {
                items: dup_set_items(items),
            },
            Clause::Remove { items } => Clause::Remove {
                items: dup_remove_items(items),
            },
            Clause::Call { procedure_name, args, implicit_args, yield_items, yield_star } => Clause::Call {
                procedure_name: procedure_name.clone(),
                args: dup_exprs(args),
                implicit_args: *implicit_args,
                yield_items: dup_opt_yields(yield_items),
                yield_star: *yield_star,
            },
            Clause::Delete { exprs, detach } => Clause::Delete {
                exprs: dup_exprs(exprs),
                detach: *detach,
            },
        }
    }
}

impl MultiClauseStatement {
    /// A copy that says the same.
    pub fn dup(&self) -> (r: MultiClauseStatement)
        ensures
            r@ == self@,
        decreases self,
    {
        MultiClauseStatement {
            clauses: dup_clauses(&self.clauses),
            return_clause: dup_opt_return_clause(&self.return_clause),
            order_by: dup_sort_items(&self.order_by),
            skip: dup_opt_expr(&self.skip),
            limit: dup_opt_expr(&self.limit),
        }
    }
}

impl Statement {
    /// A copy that says the same.
    pub fn dup(&self) -> (r: Statement)
        ensures
            r@ == self@,
        decreases self,
    {
        match self {
            Statement::Match(a) => Statement::Match(a.dup()),
            Statement::Create(a) => Statement::Create(a.dup()),
            Statement::MatchCreate(a) => Statement::MatchCreate(a.dup()),
            Statement::MatchMerge(a) => Statement::MatchMerge(a.dup()),
            Statement::Delete(a) => Statement::Delete(a.dup()),
            Statement::SetProps(a) => Statement::SetProps(a.dup()),
            Statement::Remove(a) => Statement::Remove(a.dup()),
            Statement::Merge(a) => Statement::Merge(a.dup()),
            Statement::Unwind(a) => Statement::Unwind(a.dup()),
            Statement::Return(a) => Statement::Return(a.dup()),
            Statement::MultiClause(a) => Statement::MultiClause(a.dup()),
            Statement::Explain(a) => Statement::Explain(Box::new(a.dup())),
            Statement::Union { statements, all } => Statement::Union {
                statements: dup_statements(statements),
                all: *all,
            },
            Statement::Call { procedure_name, args, implicit_args, yield_items, yield_star, return_clause, order_by, skip, limit } => Statement::Call {
                procedure_name: procedure_name.clone(),
                args: dup_exprs(args),
                implicit_args: *implicit_args,
                yield_items: dup_opt_yields(yield_items),
                yield_star: *yield_star,
                return_clause: dup_opt_return_clause(return_clause),
                order_by: dup_sort_items(order_by),
                skip: dup_opt_box(skip),
                limit: dup_opt_box(limit),
            },
        }
    }
}

/// A copy that says the same.
pub fn dup_opt_box(o: &Option<Box<Expr>>) -> (r: Option<Box<Expr>>)
    ensures
        ast_model::opt_box_view(r) == ast_model::opt_box_view(*o),
    decreases o,
{
    match o {
        Some(y) => Some(Box::new(y.dup())),
        None => None,
    }
}

/// A copy that says the same.
pub fn dup_opt_expr(o: &Option<Expr>) -> (r: Option<Expr>)
    ensures
        ast_model::opt_expr_view(r) == ast_model::opt_expr_view(*o),
    decreases o,
{
    match o {
        Some(y) => Some(y.dup()),
        None => None,
    }
}

/// A copy that says the same.
pub fn dup_opt_return_clause(o: &Option<ReturnClause>) -> (r: Option<ReturnClause>)
    ensures
        ast_model::opt_return_clause_view(r) == ast_model::opt_return_clause_view(*o),
    decreases o,
{
    match o {
        Some(y) => Some(y.dup()),
        None => None,
    }
}

/// A copy that says the same.
pub fn dup_opt_yields(o: &Option<Vec<(String, Option<String>)>>) -> (r: Option<Vec<(String, Option<String>)>>)
    ensures
        ast_model::opt_yields_view(r) == ast_model::opt_yields_view(*o),
    decreases o,
{
    match o {
        Some(y) => Some(dup_yields(y)),
        None => None,
    }
}

/// A copy of the list that says the same.
pub fn dup_exprs(v: &Vec<Expr>) -> (r: Vec<Expr>)
    ensures
        ast_model::exprs_view(r@) == ast_model::exprs_view(v@),
    decreases v,
{
    let mut out: Vec<Expr> = Vec::new();
    let mut i: usize = 0;
    while i < v.len()
        invariant
            i <= v.len(),
            out.len() == i,
            decreases_to!(v => v@),
            forall|j: int| 0 <= j < i ==> #[trigger] ast_model::exprs_view(out@)[j] == ast_model::exprs_view(v@)[j],
        decreases v.len() - i,
    {
        let x = v[i].dup();
        let ghost before = out@;
        out.push(x);
        proof {
            assert forall|j: int| 0 <= j < i + 1 implies #[trigger] ast_model::exprs_view(out@)[j] == ast_model::exprs_view(v@)[j] by {
                if j < i {
                    assert(out@[j] == before[j]);
                    assert(ast_model::exprs_view(before)[j] == ast_model::exprs_view(v@)[j]);
                }
            }
        }
        i = i + 1;
    }
    assert(ast_model::exprs_view(out@) =~= ast_model::exprs_view(v@));
    out
}

/// A copy of the list that says the same.
pub fn dup_alternatives(v: &Vec<(Box<Expr>, Box<Expr>)>) -> (r: Vec<(Box<Expr>, Box<Expr>)>)
    ensures
        ast_model::alternatives_view(r@) == ast_model::alternatives_view(v@),
    decreases v,
{
    let mut out: Vec<(Box<Expr>, Box<Expr>)> = Vec::new();
    let mut i: usize = 0;
    while i < v.len()
        invariant
            i <= v.len(),
            out.len() == i,
            decreases_to!(v => v@),
            forall|j: int| 0 <= j < i ==> #[trigger] ast_model::alternatives_view(out@)[j] == ast_model::alternatives_view(v@)[j],
        decreases v.len() - i,
    {
        let x = (Box::new(v[i].0.dup()), Box::new(v[i].1.dup()));
        let ghost before = out@;
        out.push(x);
        proof {
            assert forall|j: int| 0 <= j < i + 1 implies #[trigger] ast_model::alternatives_view(out@)[j] == ast_model::alternatives_view(v@)[j] by {
                if j < i {
                    assert(out@[j] == before[j]);
                    assert(ast_model::alternatives_view(before)[j] == ast_model::alternatives_view(v@)[j]);
                }
            }
        }
        i = i + 1;
    }
    assert(ast_model::alternatives_view(out@) =~= ast_model::alternatives_view(v@));
    out
}

/// A copy of the list that says the same.
pub fn dup_patterns(v: &Vec<Pattern>) -> (r: Vec<Pattern>)
    ensures
        ast_model::patterns_view(r@) == ast_model::patterns_view(v@),
    decreases v,
{
    let mut out: Vec<Pattern> = Vec::new();
    let mut i: usize = 0;
    while i < v.len()
        invariant
            i <= v.len(),
            out.len() == i,
            decreases_to!(v => v@),
            forall|j: int| 0 <= j < i ==> #[trigger] ast_model::patterns_view(out@)[j] == ast_model::patterns_view(v@)[j],
        decreases v.len() - i,
    {
        let x = v[i].dup();
        let ghost before = out@;
        out.push(x);
        proof {
            assert forall|j: int| 0 <= j < i + 1 implies #[trigger] ast_model::patterns_view(out@)[j] == ast_model::patterns_view(v@)[j] by {
                if j < i {
                    assert(out@[j] == before[j]);
                    assert(ast_model::patterns_view(before)[j] == ast_model::patterns_view(v@)[j]);
                }
            }
        }
        i = i + 1;
    }
    assert(ast_model::patterns_view(out@) =~= ast_model::patterns_view(v@));
    out
}

/// A copy of the list that says the same.
pub fn dup_pairs(v: &Vec<(String, Expr)>) -> (r: Vec<(String, Expr)>)
    ensures
        ast_model::pairs_view(r@) == ast_model::pairs_view(v@),
    decreases v,
{
    let mut out: Vec<(String, Expr)> = Vec::new();
    let mut i: usize = 0;
    while i < v.len()
        invariant
            i <= v.len(),
            out.len() == i,
            decreases_to!(v => v@),
            forall|j: int| 0 <= j < i ==> #[trigger] ast_model::pairs_view(out@)[j] == ast_model::pairs_view(v@)[j],
        decreases v.len() - i,
    {
        let x = (v[i].0.clone(), v[i].1.dup());
        let ghost before = out@;
        out.push(x);
        proof {
            assert forall|j: int| 0 <= j < i + 1 implies #[trigger] ast_model::pairs_view(out@)[j] == ast_model::pairs_view(v@)[j] by {
                if j < i {
                    assert(out@[j] == before[j]);
                    assert(ast_model::pairs_view(before)[j] == ast_model::pairs_view(v@)[j]);
                }
            }
        }
        i = i + 1;
    }
    assert(ast_model::pairs_view(out@) =~= ast_model::pairs_view(v@));
    out
}

/// A copy of the list that says the same.
pub fn dup_pattern_elements(v: &Vec<PatternElement>) -> (r: Vec<PatternElement>)
    ensures
        ast_model::pattern_elements_view(r@) == ast_model::pattern_elements_view(v@),
    decreases v,
{
    let mut out: Vec<PatternElement> = Vec::new();
    let mut i: usize = 0;
    while i < v.len()
        invariant
            i <= v.len(),
            out.len() == i,
            decreases_to!(v => v@),
            forall|j: int| 0 <= j < i ==> #[trigger] ast_model::pattern_elements_view(out@)[j] == ast_model::pattern_elements_view(v@)[j],
        decreases v.len() - i,
    {
        let x = v[i].dup();
        let ghost before = out@;
        out.push(x);
        proof {
            assert forall|j: int| 0 <= j < i + 1 implies #[trigger] ast_model::pattern_elements_view(out@)[j] == ast_model::pattern_elements_view(v@)[j] by {
                if j < i {
                    assert(out@[j] == before[j]);
                    assert(ast_model::pattern_elements_view(before)[j] == ast_model::pattern_elements_view(v@)[j]);
                }
            }
        }
        i = i + 1;
    }
    assert(ast_model::pattern_elements_view(out@) =~= ast_model::pattern_elements_view(v@));
    out
}

/// A copy of the list that says the same.
pub fn dup_return_items(v: &Vec<ReturnItem>) -> (r: Vec<ReturnItem>)
    ensures
        ast_model::return_items_view(r@) == ast_model::return_items_view(v@),
    decreases v,
{
    let mut out: Vec<ReturnItem> = Vec::new();
    let mut i: usize = 0;
    while i < v.len()
        invariant
            i <= v.len(),
            out.len() == i,
            decreases_to!(v => v@),
            forall|j: int| 0 <= j < i ==> #[trigger] ast_model::return_items_view(out@)[j] == ast_model::return_items_view(v@)[j],
        decreases v.len() - i,
    {
        let x = v[i].dup();
        let ghost before = out@;
        out.push(x);
        proof {
            assert forall|j: int| 0 <= j < i + 1 implies #[trigger] ast_model::return_items_view(out@)[j] == ast_model::return_items_view(v@)[j] by {
                if j < i {
                    assert(out@[j] == before[j]);
                    assert(ast_model::return_items_view(before)[j] == ast_model::return_items_view(v@)[j]);
                }
            }
        }
        i = i + 1;
    }
    assert(ast_model::return_items_view(out@) =~= ast_model::return_items_view(v@));
    out
}

/// A copy of the list that says the same.
pub fn dup_sort_items(v: &Vec<SortItem>) -> (r: Vec<SortItem>)
    ensures
        ast_model::sort_items_view(r@) == ast_model::sort_items_view(v@),
    decreases v,
{
    let mut out: Vec<SortItem> = Vec::new();
    let mut i: usize = 0;
    while i < v.len()
        invariant
            i <= v.len(),
            out.len() == i,
            decreases_to!(v => v@),
            forall|j: int| 0 <= j < i ==> #[trigger] ast_model::sort_items_view(out@)[j] == ast_model::sort_items_view(v@)[j],
        decreases v.len() - i,
    {
        let x = v[i].dup();
        let ghost before = out@;
        out.push(x);
        proof {
            assert forall|j: int| 0 <= j < i + 1 implies #[trigger] ast_model::sort_items_view(out@)[j] == ast_model::sort_items_view(v@)[j] by {
                if j < i {
                    assert(out@[j] == before[j]);
                    assert(ast_model::sort_items_view(before)[j] == ast_model::sort_items_view(v@)[j]);
                }
            }
        }
        i = i + 1;
    }
    assert(ast_model::sort_items_view(out@) =~= ast_model::sort_items_view(v@));
    out
}

/// A copy of the list that says the same.
pub fn dup_optional_matchs(v: &Vec<OptionalMatch>) -> (r: Vec<OptionalMatch>)
    ensures
        ast_model::optional_matchs_view(r@) == ast_model::optional_matchs_view(v@),
    decreases v,
{
    let mut out: Vec<OptionalMatch> = Vec::new();
    let mut i: usize = 0;
    while i < v.len()
        invariant
            i <= v.len(),
            out.len() == i,
            decreases_to!(v => v@),
            forall|j: int| 0 <= j < i ==> #[trigger] ast_model::optional_matchs_view(out@)[j] == ast_model::optional_matchs_view(v@)[j],
        decreases v.len() - i,
    {
        let x = v[i].dup();
        let ghost before = out@;
        out.push(x);
        proof {
            assert forall|j: int| 0 <= j < i + 1 implies #[trigger] ast_model::optional_matchs_view(out@)[j] == ast_model::optional_matchs_view(v@)[j] by {
                if j < i {
                    assert(out@[j] == before[j]);
                    assert(ast_model::optional_matchs_view(before)[j] == ast_model::optional_matchs_view(v@)[j]);
                }
            }
        }
        i = i + 1;
    }
    assert(ast_model::optional_matchs_view(out@) =~= ast_model::optional_matchs_view(v@));
    out
}

/// A copy of the list that says the same.
pub fn dup_intermediate_clauses(v: &Vec<IntermediateClause>) -> (r: Vec<IntermediateClause>)
    ensures
        ast_model::intermediate_clauses_view(r@) == ast_model::intermediate_clauses_view(v@),
    decreases v,
{
    let mut out: Vec<IntermediateClause> = Vec::new();
    let mut i: usize = 0;
    while i < v.len()
        invariant
            i <= v.len(),
            out.len() == i,
            decreases_to!(v => v@),
            forall|j: int| 0 <= j < i ==> #[trigger] ast_model::intermediate_clauses_view(out@)[j] == ast_model::intermediate_clauses_view(v@)[j],
        decreases v.len() - i,
    {
        let x = v[i].dup();
        let ghost before = out@;
        out.push(x);
        proof {
            assert forall|j: int| 0 <= j < i + 1 implies #[trigger] ast_model::intermediate_clauses_view(out@)[j] == ast_model::intermediate_clauses_view(v@)[j] by {
                if j < i {
                    assert(out@[j] == before[j]);
                    assert(ast_model::intermediate_clauses_view(before)[j] == ast_model::intermediate_clauses_view(v@)[j]);
                }
            }
        }
        i = i + 1;
    }
    assert(ast_model::intermediate_clauses_view(out@) =~= ast_model::intermediate_clauses_view(v@));
    out
}

/// A copy of the list that says the same.
pub fn dup_set_items(v: &Vec<SetItem>) -> (r: Vec<SetItem>)
    ensures
        ast_model::set_items_view(r@) == ast_model::set_items_view(v@),
    decreases v,
{
    let mut out: Vec<SetItem> = Vec::new();
    let mut i: usize = 0;
    while i < v.len()
        invariant
            i <= v.len(),
            out.len() == i,
            decreases_to!(v => v@),
            forall|j: int| 0 <= j < i ==> #[trigger] ast_model::set_items_view(out@)[j] == ast_model::set_items_view(v@)[j],
        decreases v.len() - i,
    {
        let x = v[i].dup();
        let ghost before = out@;
        out.push(x);
        proof {
            assert forall|j: int| 0 <= j < i + 1 implies #[trigger] ast_model::set_items_view(out@)[j] == ast_model::set_items_view(v@)[j] by {
                if j < i {
                    assert(out@[j] == before[j]);
                    assert(ast_model::set_items_view(before)[j] == ast_model::set_items_view(v@)[j]);
                }
            }
        }
        i = i + 1;
    }
    assert(ast_model::set_items_view(out@) =~= ast_model::set_items_view(v@));
    out
}

/// A copy of the list that says the same.
pub fn dup_remove_items(v: &Vec<RemoveItem>) -> (r: Vec<RemoveItem>)
    ensures
        ast_model::remove_items_view(r@) == ast_model::remove_items_view(v@),
    decreases v,
{
    let mut out: Vec<RemoveItem> = Vec::new();
    let mut i: usize = 0;
    while i < v.len()
        invariant
            i <= v.len(),
            out.len() == i,
            decreases_to!(v => v@),
            forall|j: int| 0 <= j < i ==> #[trigger] ast_model::remove_items_view(out@)[j] == ast_model::remove_items_view(v@)[j],
        decreases v.len() - i,
    {
        let x = v[i].dup();
        let ghost before = out@;
        out.push(x);
        proof {
            assert forall|j: int| 0 <= j < i + 1 implies #[trigger] ast_model::remove_items_view(out@)[j] == ast_model::remove_items_view(v@)[j] by {
                if j < i {
                    assert(out@[j] == before[j]);
                    assert(ast_model::remove_items_view(before)[j] == ast_model::remove_items_view(v@)[j]);
                }
            }
        }
        i = i + 1;
    }
    assert(ast_model::remove_items_view(out@) =~= ast_model::remove_items_view(v@));
    out
}

/// A copy of the list that says the same.
pub fn dup_yields(v: &Vec<(String, Option<String>)>) -> (r: Vec<(String, Option<String>)>)
    ensures
        ast_model::yields_view(r@) == ast_model::yields_view(v@),
    decreases v,
{
    let mut out: Vec<(String, Option<String>)> = Vec::new();
    let mut i: usize = 0;
    while i < v.len()
        invariant
            i <= v.len(),
            out.len() == i,
            decreases_to!(v => v@),
            forall|j: int| 0 <= j < i ==> #[trigger] ast_model::yields_view(out@)[j] == ast_model::yields_view(v@)[j],
        decreases v.len() - i,
    {
        let x = (v[i].0.clone(), dup_opt_text(&v[i].1));
        let ghost before = out@;
        out.push(x);
        proof {
            assert forall|j: int| 0 <= j < i + 1 implies #[trigger] ast_model::yields_view(out@)[j] == ast_model::yields_view(v@)[j] by {
                if j < i {
                    assert(out@[j] == before[j]);
                    assert(ast_model::yields_view(before)[j] == ast_model::yields_view(v@)[j]);
                }
            }
        }
        i = i + 1;
    }
    assert(ast_model::yields_view(out@) =~= ast_model::yields_view(v@));
    out
}

/// A copy of the list that says the same.
pub fn dup_clauses(v: &Vec<Clause>) -> (r: Vec<Clause>)
    ensures
        ast_model::clauses_view(r@) == ast_model::clauses_view(v@),
    decreases v,
{
    let mut out: Vec<Clause> = Vec::new();
    let mut i: usize = 0;
    while i < v.len()
        invariant
            i <= v.len(),
            out.len() == i,
            decreases_to!(v => v@),
            forall|j: int| 0 <= j < i ==> #[trigger] ast_model::clauses_view(out@)[j] == ast_model::clauses_view(v@)[j],
        decreases v.len() - i,
    {
        let x = v[i].dup();
        let ghost before = out@;
        out.push(x);
        proof {
            assert forall|j: int| 0 <= j < i + 1 implies #[trigger] ast_model::clauses_view(out@)[j] == ast_model::clauses_view(v@)[j] by {
                if j < i {
                    assert(out@[j] == before[j]);
                    assert(ast_model::clauses_view(before)[j] == ast_model::clauses_view(v@)[j]);
                }
            }
        }
        i = i + 1;
    }
    assert(ast_model::clauses_view(out@) =~= ast_model::clauses_view(v@));
    out
}

/// A copy of the list that says the same.
pub fn dup_statements(v: &Vec<Statement>) -> (r: Vec<Statement>)
    ensures
        ast_model::statements_view(r@) == ast_model::statements_view(v@),
    decreases v,
{
    let mut out: Vec<Statement> = Vec::new();
    let mut i: usize = 0;
    while i < v.len()
        invariant
            i <= v.len(),
            out.len() == i,
            decreases_to!(v => v@),
            forall|j: int| 0 <= j < i ==> #[trigger] ast_model::statements_view(out@)[j] == ast_model::statements_view(v@)[j],
        decreases v.len() - i,
    {
        let x = v[i].dup();
        let ghost before = out@;
        out.push(x);
        proof {
            assert forall|j: int| 0 <= j < i + 1 implies #[trigger] ast_model::statements_view(out@)[j] == ast_model::statements_view(v@)[j] by {
                if j < i {
                    assert(out@[j] == before[j]);
                    assert(ast_model::statements_view(before)[j] == ast_model::statements_view(v@)[j]);
                }
            }
        }
        i = i + 1;
    }
    assert(ast_model::statements_view(out@) =~= ast_model::statements_view(v@));
    out
}

} // verus!
