//! The mathematical content of the syntax tree: the same shapes over sequences, so that two
//! trees that say the same thing are equal.
use crate::ast::{
    Assignment,
    BinOp,
    Clause,
    CreateStatement,
    DeleteStatement,
    Expr,
    ExprKind,
    FloatLiteral,
    IntermediateClause,
    IntermediateMatch,
    LiteralValue,
    MatchCreateStatement,
    MatchMergeStatement,
    MatchStatement,
    MergeStatement,
    MultiClauseStatement,
    NodePattern,
    OptionalMatch,
    Pattern,
    PatternElement,
    QuantifierKind,
    RelDirection,
    RelPattern,
    RemoveItem,
    RemoveStatement,
    ReturnClause,
    ReturnItem,
    ReturnStatement,
    SetItem,
    SetStatement,
    ShortestPathMode,
    SortItem,
    Statement,
    UnwindBody,
    UnwindClause,
    UnwindStatement,
    WithClause,
};
use crate::types::Span;
use vstd::prelude::*;

verus! {

/// The texts of a list of strings.
pub open spec fn texts(s: Seq<String>) -> Seq<Seq<char>> {
    Seq::new(s.len(), |i: int| s[i]@)
}

/// The text of an optional string.
pub open spec fn opt_text(o: Option<String>) -> Option<Seq<char>> {
    match o {
        Some(s) => Some(s@),
        None => None,
    }
}

/// What a [`Expr`] says.
pub struct ExprView {
    pub kind: ExprKindView,
    pub span: Span,
}

/// What a [`LiteralValue`] says.
pub enum LiteralValueView {
    Null,
    Bool(bool),
    I64(i64),
    F64(FloatLiteralView),
    String(Seq<char>),
}

/// What a [`FloatLiteral`] says.
pub enum FloatLiteralView {
    Decimal(Seq<char>),
    Bits(u64),
}

/// What a [`ExprKind`] says.
pub enum ExprKindView {
    Literal(LiteralValueView),
    Property(Seq<char>, Seq<char>),
    Variable(Seq<char>),
    HasLabel(Seq<char>, Seq<Seq<char>>),
    PatternPredicate(PatternView),
    Star,
    Parameter(Seq<char>),
    BinaryOp { left: Box<ExprView>, op: BinOp, right: Box<ExprView> },
    Not(Box<ExprView>),
    IsNull(Box<ExprView>),
    IsNotNull(Box<ExprView>),
    FunctionCall { name: Seq<char>, args: Seq<ExprView>, distinct: bool, original_text: Option<Seq<char>> },
    Case { operand: Option<Box<ExprView>>, alternatives: Seq<(ExprView, ExprView)>, default: Option<Box<ExprView>> },
    List(Seq<ExprView>),
    ListComprehension { variable: Seq<char>, list_expr: Box<ExprView>, filter: Option<Box<ExprView>>, map_expr: Option<Box<ExprView>> },
    PatternComprehension { path_variable: Option<Seq<char>>, pattern: PatternView, where_clause: Option<Box<ExprView>>, map_expr: Box<ExprView> },
    Quantifier { kind: QuantifierKind, variable: Seq<char>, list_expr: Box<ExprView>, predicate: Box<ExprView> },
    Exists { patterns: Seq<PatternView>, where_clause: Option<Box<ExprView>> },
    ExistsSubquery(Box<StatementView>),
    MapLiteral(Seq<(Seq<char>, ExprView)>),
    Index { expr: Box<ExprView>, index: Box<ExprView> },
    DotAccess { expr: Box<ExprView>, key: Seq<char> },
    Slice { expr: Box<ExprView>, start: Option<Box<ExprView>>, end: Option<Box<ExprView>> },
}

/// What a [`Pattern`] says.
pub struct PatternView {
    pub elements: Seq<PatternElementView>,
    pub path_variable: Option<Seq<char>>,
    pub shortest_path_mode: ShortestPathMode,
}

/// What a [`PatternElement`] says.
pub enum PatternElementView {
    Node(NodePatternView),
    Relationship(RelPatternView),
}

/// What a [`NodePattern`] says.
pub struct NodePatternView {
    pub variable: Option<Seq<char>>,
    pub labels: Seq<Seq<char>>,
    pub properties: Seq<(Seq<char>, ExprView)>,
}

/// What a [`RelPattern`] says.
pub struct RelPatternView {
    pub variable: Option<Seq<char>>,
    pub rel_types: Seq<Seq<char>>,
    pub properties: Seq<(Seq<char>, ExprView)>,
    pub direction: RelDirection,
    pub var_length: Option<(u32, u32)>,
}

/// What a [`ReturnItem`] says.
pub struct ReturnItemView {
    pub expr: ExprView,
    pub alias: Option<Seq<char>>,
}

/// What a [`ReturnClause`] says.
pub struct ReturnClauseView {
    pub items: Seq<ReturnItemView>,
    pub distinct: bool,
}

/// What a [`SortItem`] says.
pub struct SortItemView {
    pub expr: ExprView,
    pub descending: bool,
}

/// What a [`OptionalMatch`] says.
pub struct OptionalMatchView {
    pub patterns: Seq<PatternView>,
    pub where_clause: Option<ExprView>,
}

/// What a [`WithClause`] says.
pub struct WithClauseView {
    pub items: Seq<ReturnItemView>,
    pub distinct: bool,
    pub order_by: Seq<SortItemView>,
    pub skip: Option<ExprView>,
    pub limit: Option<ExprView>,
    pub where_clause: Option<ExprView>,
}

/// What a [`UnwindClause`] says.
pub struct UnwindClauseView {
    pub expr: ExprView,
    pub alias: Seq<char>,
}

/// What a [`IntermediateMatch`] says.
pub struct IntermediateMatchView {
    pub patterns: Seq<PatternView>,
    pub optional_patterns: Seq<OptionalMatchView>,
    pub where_clause: Option<ExprView>,
}

/// What a [`IntermediateClause`] says.
pub enum IntermediateClauseView {
    With(WithClauseView),
    Unwind(UnwindClauseView),
    Match(IntermediateMatchView),
}

/// What a [`Assignment`] says.
pub struct AssignmentView {
    pub variable: Seq<char>,
    pub property: Seq<char>,
    pub value: ExprView,
}

/// What a [`SetItem`] says.
pub enum SetItemView {
    Property(AssignmentView),
    Label { variable: Seq<char>, labels: Seq<Seq<char>> },
    MapOverwrite { variable: Seq<char>, value: ExprView },
    MapMerge { variable: Seq<char>, value: ExprView },
}

/// What a [`RemoveItem`] says.
pub enum RemoveItemView {
    Property { variable: Seq<char>, property: Seq<char> },
    Label { variable: Seq<char>, labels: Seq<Seq<char>> },
}

/// What a [`MatchStatement`] says.
pub struct MatchStatementView {
    pub patterns: Seq<PatternView>,
    pub optional_patterns: Seq<OptionalMatchView>,
    pub where_clause: Option<ExprView>,
    pub intermediate_clauses: Seq<IntermediateClauseView>,
    pub return_clause: ReturnClauseView,
    pub order_by: Seq<SortItemView>,
    pub skip: Option<ExprView>,
    pub limit: Option<ExprView>,
}

/// What a [`CreateStatement`] says.
pub struct CreateStatementView {
    pub patterns: Seq<PatternView>,
    pub return_clause: Option<ReturnClauseView>,
    pub order_by: Seq<SortItemView>,
    pub skip: Option<ExprView>,
    pub limit: Option<ExprView>,
}

/// What a [`MatchCreateStatement`] says.
pub struct MatchCreateStatementView {
    pub patterns: Seq<PatternView>,
    pub where_clause: Option<ExprView>,
    pub create_patterns: Seq<PatternView>,
    pub return_clause: Option<ReturnClauseView>,
    pub order_by: Seq<SortItemView>,
    pub skip: Option<ExprView>,
    pub limit: Option<ExprView>,
}

/// What a [`MatchMergeStatement`] says.
pub struct MatchMergeStatementView {
    pub patterns: Seq<PatternView>,
    pub where_clause: Option<ExprView>,
    pub merge_pattern: PatternView,
    pub on_create: Seq<SetItemView>,
    pub on_match: Seq<SetItemView>,
    pub return_clause: Option<ReturnClauseView>,
    pub order_by: Seq<SortItemView>,
    pub skip: Option<ExprView>,
    pub limit: Option<ExprView>,
}

/// What a [`DeleteStatement`] says.
pub struct DeleteStatementView {
    pub patterns: Seq<PatternView>,
    pub optional_patterns: Seq<OptionalMatchView>,
    pub where_clause: Option<ExprView>,
    pub detach: bool,
    pub exprs: Seq<ExprView>,
    pub return_clause: Option<ReturnClauseView>,
    pub order_by: Seq<SortItemView>,
    pub skip: Option<ExprView>,
    pub limit: Option<ExprView>,
}

/// What a [`SetStatement`] says.
pub struct SetStatementView {
    pub patterns: Seq<PatternView>,
    pub optional_patterns: Seq<OptionalMatchView>,
    pub where_clause: Option<ExprView>,
    pub items: Seq<SetItemView>,
    pub intermediate_clauses: Seq<IntermediateClauseView>,
    pub return_clause: Option<ReturnClauseView>,
    pub order_by: Seq<SortItemView>,
    pub skip: Option<ExprView>,
    pub limit: Option<ExprView>,
}

/// What a [`RemoveStatement`] says.
pub struct RemoveStatementView {
    pub patterns: Seq<PatternView>,
    pub optional_patterns: Seq<OptionalMatchView>,
    pub where_clause: Option<ExprView>,
    pub items: Seq<RemoveItemView>,
    pub return_clause: Option<ReturnClauseView>,
    pub order_by: Seq<SortItemView>,
    pub skip: Option<ExprView>,
    pub limit: Option<ExprView>,
}

/// What a [`MergeStatement`] says.
pub struct MergeStatementView {
    pub pattern: PatternView,
    pub on_create: Seq<SetItemView>,
    pub on_match: Seq<SetItemView>,
    pub return_clause: Option<ReturnClauseView>,
    pub order_by: Seq<SortItemView>,
    pub skip: Option<ExprView>,
    pub limit: Option<ExprView>,
}

/// What a [`UnwindBody`] says.
pub enum UnwindBodyView {
    Return { where_clause: Option<ExprView>, intermediate_clauses: Seq<IntermediateClauseView>, return_clause: ReturnClauseView, order_by: Seq<SortItemView>, skip: Option<ExprView>, limit: Option<ExprView> },
    Create { patterns: Seq<PatternView>, intermediate_clauses: Seq<IntermediateClauseView>, return_clause: Option<ReturnClauseView>, order_by: Seq<SortItemView>, skip: Option<ExprView>, limit: Option<ExprView> },
}

/// What a [`UnwindStatement`] says.
pub struct UnwindStatementView {
    pub expr: ExprView,
    pub alias: Seq<char>,
    pub body: UnwindBodyView,
}

/// What a [`ReturnStatement`] says.
pub struct ReturnStatementView {
    pub return_clause: ReturnClauseView,
    pub order_by: Seq<SortItemView>,
    pub skip: Option<ExprView>,
    pub limit: Option<ExprView>,
}

/// What a [`Clause`] says.
pub enum ClauseView {
    Match { patterns: Seq<PatternView>, optional_patterns: Seq<OptionalMatchView>, where_clause: Option<ExprView> },
    Create { patterns: Seq<PatternView> },
    Merge { pattern: PatternView, on_create: Seq<SetItemView>, on_match: Seq<SetItemView> },
    With(WithClauseView),
    Unwind(UnwindClauseView),
    SetItems { items: Seq<SetItemView> },
    Remove { items: Seq<RemoveItemView> },
    Call { procedure_name: Seq<char>, args: Seq<ExprView>, implicit_args: bool, yield_items: Option<Seq<(Seq<char>, Option<Seq<char>>)>>, yield_star: bool },
    Delete { exprs: Seq<ExprView>, detach: bool },
}

/// What a [`MultiClauseStatement`] says.
pub struct MultiClauseStatementView {
    pub clauses: Seq<ClauseView>,
    pub return_clause: Option<ReturnClauseView>,
    pub order_by: Seq<SortItemView>,
    pub skip: Option<ExprView>,
    pub limit: Option<ExprView>,
}

/// What a [`Statement`] says.
pub enum StatementView {
    Match(MatchStatementView),
    Create(CreateStatementView),
    MatchCreate(MatchCreateStatementView),
    MatchMerge(MatchMergeStatementView),
    Delete(DeleteStatementView),
    SetProps(SetStatementView),
    Remove(RemoveStatementView),
    Merge(MergeStatementView),
    Unwind(UnwindStatementView),
    Return(ReturnStatementView),
    MultiClause(MultiClauseStatementView),
    Explain(Box<StatementView>),
    Union { statements: Seq<StatementView>, all: bool },
    Call { procedure_name: Seq<char>, args: Seq<ExprView>, implicit_args: bool, yield_items: Option<Seq<(Seq<char>, Option<Seq<char>>)>>, yield_star: bool, return_clause: Option<ReturnClauseView>, order_by: Seq<SortItemView>, skip: Option<Box<ExprView>>, limit: Option<Box<ExprView>> },
}

pub open spec fn expr_view(x: Expr) -> ExprView
    decreases x,
{
    ExprView {
        kind: expr_kind_view(x.kind),
        span: x.span,
    }
}

pub open spec fn literal_value_view(x: LiteralValue) -> LiteralValueView
    decreases x,
{
    match x {
        LiteralValue::Null => LiteralValueView::Null,
        LiteralValue::Bool(a) => LiteralValueView::Bool(a),
        LiteralValue::I64(a) => LiteralValueView::I64(a),
        LiteralValue::F64(a) => LiteralValueView::F64(float_literal_view(a)),
        LiteralValue::String(a) => LiteralValueView::String(a@),
    }
}

pub open spec fn float_literal_view(x: FloatLiteral) -> FloatLiteralView
    decreases x,
{
    match x {
        FloatLiteral::Decimal(a) => FloatLiteralView::Decimal(a@),
        FloatLiteral::Bits(a) => FloatLiteralView::Bits(a),
    }
}

pub open spec fn expr_kind_view(x: ExprKind) -> ExprKindView
    decreases x,
{
    match x {
        ExprKind::Literal(a) => ExprKindView::Literal(literal_value_view(a)),
        ExprKind::Property(a, b) => ExprKindView::Property(a@, b@),
        ExprKind::Variable(a) => ExprKindView::Variable(a@),
        ExprKind::HasLabel(a, b) => ExprKindView::HasLabel(a@, texts(b@)),
        ExprKind::PatternPredicate(a) => ExprKindView::PatternPredicate(pattern_view(a)),
        ExprKind::Star => ExprKindView::Star,
        ExprKind::Parameter(a) => ExprKindView::Parameter(a@),
        ExprKind::BinaryOp { left, op, right } => ExprKindView::BinaryOp {
            left: Box::new(expr_view(*left)),
            op,
            right: Box::new(expr_view(*right)),
        },
        ExprKind::Not(a) => ExprKindView::Not(Box::new(expr_view(*a))),
        ExprKind::IsNull(a) => ExprKindView::IsNull(Box::new(expr_view(*a))),
        ExprKind::IsNotNull(a) => ExprKindView::IsNotNull(Box::new(expr_view(*a))),
        ExprKind::FunctionCall { name, args, distinct, original_text } => ExprKindView::FunctionCall {
            name: name@,
            args: exprs_view(args@),
            distinct,
            original_text: opt_text(original_text),
        },
        ExprKind::Case { operand, alternatives, default } => ExprKindView::Case {
            operand: opt_box_view(operand),
            alternatives: alternatives_view(alternatives@),
            default: opt_box_view(default),
        },
        ExprKind::List(a) => ExprKindView::List(exprs_view(a@)),
        ExprKind::ListComprehension { variable, list_expr, filter, map_expr } => ExprKindView::ListComprehension {
            variable: variable@,
            list_expr: Box::new(expr_view(*list_expr)),
            filter: opt_box_view(filter),
            map_expr: opt_box_view(map_expr),
        },
        ExprKind::PatternComprehension { path_variable, pattern, where_clause, map_expr } => ExprKindView::PatternComprehension {
            path_variable: opt_text(path_variable),
            pattern: pattern_view(pattern),
            where_clause: opt_box_view(where_clause),
            map_expr: Box::new(expr_view(*map_expr)),
        },
        ExprKind::Quantifier { kind, variable, list_expr, predicate } => ExprKindView::Quantifier {
            kind,
            variable: variable@,
            list_expr: Box::new(expr_view(*list_expr)),
            predicate: Box::new(expr_view(*predicate)),
        },
        ExprKind::Exists { patterns, where_clause } => ExprKindView::Exists {
            patterns: patterns_view(patterns@),
            where_clause: opt_box_view(where_clause),
        },
        ExprKind::ExistsSubquery(a) => ExprKindView::ExistsSubquery(Box::new(statement_view(*a))),
        ExprKind::MapLiteral(a) => ExprKindView::MapLiteral(pairs_view(a@)),
        ExprKind::Index { expr, index } => ExprKindView::Index {
            expr: Box::new(expr_view(*expr)),
            index: Box::new(expr_view(*index)),
        },
        ExprKind::DotAccess { expr, key } => ExprKindView::DotAccess {
            expr: Box::new(expr_view(*expr)),
            key: key@,
        },
        ExprKind::Slice { expr, start, end } => ExprKindView::Slice {
            expr: Box::new(expr_view(*expr)),
            start: opt_box_view(start),
            end: opt_box_view(end),
        },
    }
}

pub open spec fn pattern_view(x: Pattern) -> PatternView
    decreases x,
{
    PatternView {
        elements: pattern_elements_view(x.elements@),
        path_variable: opt_text(x.path_variable),
        shortest_path_mode: x.shortest_path_mode,
    }
}

pub open spec fn pattern_element_view(x: PatternElement) -> PatternElementView
    decreases x,
{
    match x {
        PatternElement::Node(a) => PatternElementView::Node(node_pattern_view(a)),
        PatternElement::Relationship(a) => PatternElementView::Relationship(rel_pattern_view(a)),
    }
}

pub open spec fn node_pattern_view(x: NodePattern) -> NodePatternView
    decreases x,
{
    NodePatternView {
        variable: opt_text(x.variable),
        labels: texts(x.labels@),
        properties: pairs_view(x.properties.entries@),
    }
}

pub open spec fn rel_pattern_view(x: RelPattern) -> RelPatternView
    decreases x,
{
    RelPatternView {
        variable: opt_text(x.variable),
        rel_types: texts(x.rel_types@),
        properties: pairs_view(x.properties.entries@),
        direction: x.direction,
        var_length: x.var_length,
    }
}

pub open spec fn return_item_view(x: ReturnItem) -> ReturnItemView
    decreases x,
{
    ReturnItemView {
        expr: expr_view(x.expr),
        alias: opt_text(x.alias),
    }
}

pub open spec fn return_clause_view(x: ReturnClause) -> ReturnClauseView
    decreases x,
{
    ReturnClauseView {
        items: return_items_view(x.items@),
        distinct: x.distinct,
    }
}

pub open spec fn sort_item_view(x: SortItem) -> SortItemView
    decreases x,
{
    SortItemView {
        expr: expr_view(x.expr),
        descending: x.descending,
    }
}

pub open spec fn optional_match_view(x: OptionalMatch) -> OptionalMatchView
    decreases x,
{
    OptionalMatchView {
        patterns: patterns_view(x.patterns@),
        where_clause: opt_expr_view(x.where_clause),
    }
}

pub open spec fn with_clause_view(x: WithClause) -> WithClauseView
    decreases x,
{
    WithClauseView {
        items: return_items_view(x.items@),
        distinct: x.distinct,
        order_by: sort_items_view(x.order_by@),
        skip: opt_expr_view(x.skip),
        limit: opt_expr_view(x.limit),
        where_clause: opt_expr_view(x.where_clause),
    }
}

pub open spec fn unwind_clause_view(x: UnwindClause) -> UnwindClauseView
    decreases x,
{
    UnwindClauseView {
        expr: expr_view(x.expr),
        alias: x.alias@,
    }
}

pub open spec fn intermediate_match_view(x: IntermediateMatch) -> IntermediateMatchView
    decreases x,
{
    IntermediateMatchView {
        patterns: patterns_view(x.patterns@),
        optional_patterns: optional_matchs_view(x.optional_patterns@),
        where_clause: opt_expr_view(x.where_clause),
    }
}

pub open spec fn intermediate_clause_view(x: IntermediateClause) -> IntermediateClauseView
    decreases x,
{
    match x {
        IntermediateClause::With(a) => IntermediateClauseView::With(with_clause_view(a)),
        IntermediateClause::Unwind(a) => IntermediateClauseView::Unwind(unwind_clause_view(a)),
        IntermediateClause::Match(a) => IntermediateClauseView::Match(intermediate_match_view(a)),
    }
}

pub open spec fn assignment_view(x: Assignment) -> AssignmentView
    decreases x,
{
    AssignmentView {
        variable: x.variable@,
        property: x.property@,
        value: expr_view(x.value),
    }
}

pub open spec fn set_item_view(x: SetItem) -> SetItemView
    decreases x,
{
    match x {
        SetItem::Property(a) => SetItemView::Property(assignment_view(a)),
        SetItem::Label { variable, labels } => SetItemView::Label {
            variable: variable@,
            labels: texts(labels@),
        },
        SetItem::MapOverwrite { variable, value } => SetItemView::MapOverwrite {
            variable: variable@,
            value: expr_view(value),
        },
        SetItem::MapMerge { variable, value } => SetItemView::MapMerge {
            variable: variable@,
            value: expr_view(value),
        },
    }
}

pub open spec fn remove_item_view(x: RemoveItem) -> RemoveItemView
    decreases x,
{
    match x {
        RemoveItem::Property { variable, property } => RemoveItemView::Property {
            variable: variable@,
            property: property@,
        },
        RemoveItem::Label { variable, labels } => RemoveItemView::Label {
            variable: variable@,
            labels: texts(labels@),
        },
    }
}

pub open spec fn match_statement_view(x: MatchStatement) -> MatchStatementView
    decreases x,
{
    MatchStatementView {
        patterns: patterns_view(x.patterns@),
        optional_patterns: optional_matchs_view(x.optional_patterns@),
        where_clause: opt_expr_view(x.where_clause),
        intermediate_clauses: intermediate_clauses_view(x.intermediate_clauses@),
        return_clause: return_clause_view(x.return_clause),
        order_by: sort_items_view(x.order_by@),
        skip: opt_expr_view(x.skip),
        limit: opt_expr_view(x.limit),
    }
}

pub open spec fn create_statement_view(x: CreateStatement) -> CreateStatementView
    decreases x,
{
    CreateStatementView {
        patterns: patterns_view(x.patterns@),
        return_clause: opt_return_clause_view(x.return_clause),
        order_by: sort_items_view(x.order_by@),
        skip: opt_expr_view(x.skip),
        limit: opt_expr_view(x.limit),
    }
}

pub open spec fn match_create_statement_view(x: MatchCreateStatement) -> MatchCreateStatementView
    decreases x,
{
    MatchCreateStatementView {
        patterns: patterns_view(x.patterns@),
        where_clause: opt_expr_view(x.where_clause),
        create_patterns: patterns_view(x.create_patterns@),
        return_clause: opt_return_clause_view(x.return_clause),
        order_by: sort_items_view(x.order_by@),
        skip: opt_expr_view(x.skip),
        limit: opt_expr_view(x.limit),
    }
}

pub open spec fn match_merge_statement_view(x: MatchMergeStatement) -> MatchMergeStatementView
    decreases x,
{
    MatchMergeStatementView {
        patterns: patterns_view(x.patterns@),
        where_clause: opt_expr_view(x.where_clause),
        merge_pattern: pattern_view(x.merge_pattern),
        on_create: set_items_view(x.on_create@),
        on_match: set_items_view(x.on_match@),
        return_clause: opt_return_clause_view(x.return_clause),
        order_by: sort_items_view(x.order_by@),
        skip: opt_expr_view(x.skip),
        limit: opt_expr_view(x.limit),
    }
}

pub open spec fn delete_statement_view(x: DeleteStatement) -> DeleteStatementView
    decreases x,
{
    DeleteStatementView {
        patterns: patterns_view(x.patterns@),
        optional_patterns: optional_matchs_view(x.optional_patterns@),
        where_clause: opt_expr_view(x.where_clause),
        detach: x.detach,
        exprs: exprs_view(x.exprs@),
        return_clause: opt_return_clause_view(x.return_clause),
        order_by: sort_items_view(x.order_by@),
        skip: opt_expr_view(x.skip),
        limit: opt_expr_view(x.limit),
    }
}

pub open spec fn set_statement_view(x: SetStatement) -> SetStatementView
    decreases x,
{
    SetStatementView {
        patterns: patterns_view(x.patterns@),
        optional_patterns: optional_matchs_view(x.optional_patterns@),
        where_clause: opt_expr_view(x.where_clause),
        items: set_items_view(x.items@),
        intermediate_clauses: intermediate_clauses_view(x.intermediate_clauses@),
        return_clause: opt_return_clause_view(x.return_clause),
        order_by: sort_items_view(x.order_by@),
        skip: opt_expr_view(x.skip),
        limit: opt_expr_view(x.limit),
    }
}

pub open spec fn remove_statement_view(x: RemoveStatement) -> RemoveStatementView
    decreases x,
{
    RemoveStatementView {
        patterns: patterns_view(x.patterns@),
        optional_patterns: optional_matchs_view(x.optional_patterns@),
        where_clause: opt_expr_view(x.where_clause),
        items: remove_items_view(x.items@),
        return_clause: opt_return_clause_view(x.return_clause),
        order_by: sort_items_view(x.order_by@),
        skip: opt_expr_view(x.skip),
        limit: opt_expr_view(x.limit),
    }
}

pub open spec fn merge_statement_view(x: MergeStatement) -> MergeStatementView
    decreases x,
{
    MergeStatementView {
        pattern: pattern_view(x.pattern),
        on_create: set_items_view(x.on_create@),
        on_match: set_items_view(x.on_match@),
        return_clause: opt_return_clause_view(x.return_clause),
        order_by: sort_items_view(x.order_by@),
        skip: opt_expr_view(x.skip),
        limit: opt_expr_view(x.limit),
    }
}

pub open spec fn unwind_body_view(x: UnwindBody) -> UnwindBodyView
    decreases x,
{
    match x {
        UnwindBody::Return { where_clause, intermediate_clauses, return_clause, order_by, skip, limit } => UnwindBodyView::Return {
            where_clause: opt_expr_view(where_clause),
            intermediate_clauses: intermediate_clauses_view(intermediate_clauses@),
            return_clause: return_clause_view(return_clause),
            order_by: sort_items_view(order_by@),
            skip: opt_expr_view(skip),
            limit: opt_expr_view(limit),
        },
        UnwindBody::Create { patterns, intermediate_clauses, return_clause, order_by, skip, limit } => UnwindBodyView::Create {
            patterns: patterns_view(patterns@),
            intermediate_clauses: intermediate_clauses_view(intermediate_clauses@),
            return_clause: opt_return_clause_view(return_clause),
            order_by: sort_items_view(order_by@),
            skip: opt_expr_view(skip),
            limit: opt_expr_view(limit),
        },
    }
}

pub open spec fn unwind_statement_view(x: UnwindStatement) -> UnwindStatementView
    decreases x,
{
    UnwindStatementView {
        expr: expr_view(x.expr),
        alias: x.alias@,
        body: unwind_body_view(x.body),
    }
}

pub open spec fn return_statement_view(x: ReturnStatement) -> ReturnStatementView
    decreases x,
{
    ReturnStatementView {
        return_clause: return_clause_view(x.return_clause),
        order_by: sort_items_view(x.order_by@),
        skip: opt_expr_view(x.skip),
        limit: opt_expr_view(x.limit),
    }
}

pub open spec fn clause_view(x: Clause) -> ClauseView
    decreases x,
{
    match x {
        Clause::Match { patterns, optional_patterns, where_clause } => ClauseView::Match {
            patterns: patterns_view(patterns@),
            optional_patterns: optional_matchs_view(optional_patterns@),
            where_clause: opt_expr_view(where_clause),
        },
        Clause::Create { patterns } => ClauseView::Create {
            patterns: patterns_view(patterns@),
        },
        Clause::Merge { pattern, on_create, on_match } => ClauseView::Merge {
            pattern: pattern_view(pattern),
            on_create: set_items_view(on_create@),
            on_match: set_items_view(on_match@),
        },
        Clause::With(a) => ClauseView::With(with_clause_view(a)),
        Clause::Unwind(a) => ClauseView::Unwind(unwind_clause_view(a)),
        Clause::SetItems { items } => ClauseView::SetItems {
            items: set_items_view(items@),
        },
        Clause::Remove { items } => ClauseView::Remove {
            items: remove_items_view(items@),
        },
        Clause::Call { procedure_name, args, implicit_args, yield_items, yield_star } => ClauseView::Call {
            procedure_name: procedure_name@,
            args: exprs_view(args@),
            implicit_args,
            yield_items: opt_yields_view(yield_items),
            yield_star,
        },
        Clause::Delete { exprs, detach } => ClauseView::Delete {
            exprs: exprs_view(exprs@),
            detach,
        },
    }
}

pub open spec fn multi_clause_statement_view(x: MultiClauseStatement) -> MultiClauseStatementView
    decreases x,
{
    MultiClauseStatementView {
        clauses: clauses_view(x.clauses@),
        return_clause: opt_return_clause_view(x.return_clause),
        order_by: sort_items_view(x.order_by@),
        skip: opt_expr_view(x.skip),
        limit: opt_expr_view(x.limit),
    }
}

pub open spec fn statement_view(x: Statement) -> StatementView
    decreases x,
{
    match x {
        Statement::Match(a) => StatementView::Match(match_statement_view(a)),
        Statement::Create(a) => StatementView::Create(create_statement_view(a)),
        Statement::MatchCreate(a) => StatementView::MatchCreate(match_create_statement_view(a)),
        Statement::MatchMerge(a) => StatementView::MatchMerge(match_merge_statement_view(a)),
        Statement::Delete(a) => StatementView::Delete(delete_statement_view(a)),
        Statement::SetProps(a) => StatementView::SetProps(set_statement_view(a)),
        Statement::Remove(a) => StatementView::Remove(remove_statement_view(a)),
        Statement::Merge(a) => StatementView::Merge(merge_statement_view(a)),
        Statement::Unwind(a) => StatementView::Unwind(unwind_statement_view(a)),
        Statement::Return(a) => StatementView::Return(return_statement_view(a)),
        Statement::MultiClause(a) => StatementView::MultiClause(multi_clause_statement_view(a)),
        Statement::Explain(a) => StatementView::Explain(Box::new(statement_view(*a))),
        Statement::Union { statements, all } => StatementView::Union {
            statements: statements_view(statements@),
            all,
        },
        Statement::Call { procedure_name, args, implicit_args, yield_items, yield_star, return_clause, order_by, skip, limit } => StatementView::Call {
            procedure_name: procedure_name@,
            args: exprs_view(args@),
            implicit_args,
            yield_items: opt_yields_view(yield_items),
            yield_star,
            return_clause: opt_return_clause_view(return_clause),
            order_by: sort_items_view(order_by@),
            skip: opt_box_view(skip),
            limit: opt_box_view(limit),
        },
    }
}

pub open spec fn exprs_view(s: Seq<Expr>) -> Seq<ExprView>
    decreases s,
{
    Seq::new(
        s.len(),
        |i: int| if 0 <= i < s.len() { expr_view(s[i]) } else { arbitrary() },
    )
}

pub open spec fn alternatives_view(s: Seq<(Box<Expr>, Box<Expr>)>) -> Seq<(ExprView, ExprView)>
    decreases s,
{
    Seq::new(
        s.len(),
        |i: int| if 0 <= i < s.len() { (expr_view(*s[i].0), expr_view(*s[i].1)) } else { arbitrary() },
    )
}

pub open spec fn patterns_view(s: Seq<Pattern>) -> Seq<PatternView>
    decreases s,
{
    Seq::new(
        s.len(),
        |i: int| if 0 <= i < s.len() { pattern_view(s[i]) } else { arbitrary() },
    )
}

pub open spec fn pairs_view(s: Seq<(String, Expr)>) -> Seq<(Seq<char>, ExprView)>
    decreases s,
{
    Seq::new(
        s.len(),
        |i: int| if 0 <= i < s.len() { (s[i].0@, expr_view(s[i].1)) } else { arbitrary() },
    )
}

pub open spec fn pattern_elements_view(s: Seq<PatternElement>) -> Seq<PatternElementView>
    decreases s,
{
    Seq::new(
        s.len(),
        |i: int| if 0 <= i < s.len() { pattern_element_view(s[i]) } else { arbitrary() },
    )
}

pub open spec fn return_items_view(s: Seq<ReturnItem>) -> Seq<ReturnItemView>
    decreases s,
{
    Seq::new(
        s.len(),
        |i: int| if 0 <= i < s.len() { return_item_view(s[i]) } else { arbitrary() },
    )
}

pub open spec fn sort_items_view(s: Seq<SortItem>) -> Seq<SortItemView>
    decreases s,
{
    Seq::new(
        s.len(),
        |i: int| if 0 <= i < s.len() { sort_item_view(s[i]) } else { arbitrary() },
    )
}

pub open spec fn optional_matchs_view(s: Seq<OptionalMatch>) -> Seq<OptionalMatchView>
    decreases s,
{
    Seq::new(
        s.len(),
        |i: int| if 0 <= i < s.len() { optional_match_view(s[i]) } else { arbitrary() },
    )
}

pub open spec fn intermediate_clauses_view(s: Seq<IntermediateClause>) -> Seq<IntermediateClauseView>
    decreases s,
{
    Seq::new(
        s.len(),
        |i: int| if 0 <= i < s.len() { intermediate_clause_view(s[i]) } else { arbitrary() },
    )
}

pub open spec fn set_items_view(s: Seq<SetItem>) -> Seq<SetItemView>
    decreases s,
{
    Seq::new(
        s.len(),
        |i: int| if 0 <= i < s.len() { set_item_view(s[i]) } else { arbitrary() },
    )
}

pub open spec fn remove_items_view(s: Seq<RemoveItem>) -> Seq<RemoveItemView>
    decreases s,
{
    Seq::new(
        s.len(),
        |i: int| if 0 <= i < s.len() { remove_item_view(s[i]) } else { arbitrary() },
    )
}

pub open spec fn yields_view(s: Seq<(String, Option<String>)>) -> Seq<(Seq<char>, Option<Seq<char>>)>
    decreases s,
{
    Seq::new(
        s.len(),
        |i: int| if 0 <= i < s.len() { (s[i].0@, opt_text(s[i].1)) } else { arbitrary() },
    )
}

pub open spec fn clauses_view(s: Seq<Clause>) -> Seq<ClauseView>
    decreases s,
{
    Seq::new(
        s.len(),
        |i: int| if 0 <= i < s.len() { clause_view(s[i]) } else { arbitrary() },
    )
}

pub open spec fn statements_view(s: Seq<Statement>) -> Seq<StatementView>
    decreases s,
{
    Seq::new(
        s.len(),
        |i: int| if 0 <= i < s.len() { statement_view(s[i]) } else { arbitrary() },
    )
}

pub open spec fn opt_box_view(o: Option<Box<Expr>>) -> Option<Box<ExprView>>
    decreases o,
{
    match o {
        Some(y) => Some(Box::new(expr_view(*y))),
        None => None,
    }
}

pub open spec fn opt_expr_view(o: Option<Expr>) -> Option<ExprView>
    decreases o,
{
    match o {
        Some(y) => Some(expr_view(y)),
        None => None,
    }
}

pub open spec fn opt_return_clause_view(o: Option<ReturnClause>) -> Option<ReturnClauseView>
    decreases o,
{
    match o {
        Some(y) => Some(return_clause_view(y)),
        None => None,
    }
}

pub open spec fn opt_yields_view(o: Option<Vec<(String, Option<String>)>>) -> Option<Seq<(Seq<char>, Option<Seq<char>>)>>
    decreases o,
{
    match o {
        Some(y) => Some(yields_view(y@)),
        None => None,
    }
}

impl View for Expr {
    type V = ExprView;

    open spec fn view(&self) -> ExprView {
        expr_view(*self)
    }
}

impl View for LiteralValue {
    type V = LiteralValueView;

    open spec fn view(&self) -> LiteralValueView {
        literal_value_view(*self)
    }
}

impl View for FloatLiteral {
    type V = FloatLiteralView;

    open spec fn view(&self) -> FloatLiteralView {
        float_literal_view(*self)
    }
}

impl View for ExprKind {
    type V = ExprKindView;

    open spec fn view(&self) -> ExprKindView {
        expr_kind_view(*self)
    }
}

impl View for Pattern {
    type V = PatternView;

    open spec fn view(&self) -> PatternView {
        pattern_view(*self)
    }
}

impl View for PatternElement {
    type V = PatternElementView;

    open spec fn view(&self) -> PatternElementView {
        pattern_element_view(*self)
    }
}

impl View for NodePattern {
    type V = NodePatternView;

    open spec fn view(&self) -> NodePatternView {
        node_pattern_view(*self)
    }
}

impl View for RelPattern {
    type V = RelPatternView;

    open spec fn view(&self) -> RelPatternView {
        rel_pattern_view(*self)
    }
}

impl View for ReturnItem {
    type V = ReturnItemView;

    open spec fn view(&self) -> ReturnItemView {
        return_item_view(*self)
    }
}

impl View for ReturnClause {
    type V = ReturnClauseView;

    open spec fn view(&self) -> ReturnClauseView {
        return_clause_view(*self)
    }
}

impl View for SortItem {
    type V = SortItemView;

    open spec fn view(&self) -> SortItemView {
        sort_item_view(*self)
    }
}

impl View for OptionalMatch {
    type V = OptionalMatchView;

    open spec fn view(&self) -> OptionalMatchView {
        optional_match_view(*self)
    }
}

impl View for WithClause {
    type V = WithClauseView;

    open spec fn view(&self) -> WithClauseView {
        with_clause_view(*self)
    }
}

impl View for UnwindClause {
    type V = UnwindClauseView;

    open spec fn view(&self) -> UnwindClauseView {
        unwind_clause_view(*self)
    }
}

impl View for IntermediateMatch {
    type V = IntermediateMatchView;

    open spec fn view(&self) -> IntermediateMatchView {
        intermediate_match_view(*self)
    }
}

impl View for IntermediateClause {
    type V = IntermediateClauseView;

    open spec fn view(&self) -> IntermediateClauseView {
        intermediate_clause_view(*self)
    }
}

impl View for Assignment {
    type V = AssignmentView;

    open spec fn view(&self) -> AssignmentView {
        assignment_view(*self)
    }
}

impl View for SetItem {
    type V = SetItemView;

    open spec fn view(&self) -> SetItemView {
        set_item_view(*self)
    }
}

impl View for RemoveItem {
    type V = RemoveItemView;

    open spec fn view(&self) -> RemoveItemView {
        remove_item_view(*self)
    }
}

impl View for MatchStatement {
    type V = MatchStatementView;

    open spec fn view(&self) -> MatchStatementView {
        match_statement_view(*self)
    }
}

impl View for CreateStatement {
    type V = CreateStatementView;

    open spec fn view(&self) -> CreateStatementView {
        create_statement_view(*self)
    }
}

impl View for MatchCreateStatement {
    type V = MatchCreateStatementView;

    open spec fn view(&self) -> MatchCreateStatementView {
        match_create_statement_view(*self)
    }
}

impl View for MatchMergeStatement {
    type V = MatchMergeStatementView;

    open spec fn view(&self) -> MatchMergeStatementView {
        match_merge_statement_view(*self)
    }
}

impl View for DeleteStatement {
    type V = DeleteStatementView;

    open spec fn view(&self) -> DeleteStatementView {
        delete_statement_view(*self)
    }
}

impl View for SetStatement {
    type V = SetStatementView;

    open spec fn view(&self) -> SetStatementView {
        set_statement_view(*self)
    }
}

impl View for RemoveStatement {
    type V = RemoveStatementView;

    open spec fn view(&self) -> RemoveStatementView {
        remove_statement_view(*self)
    }
}

impl View for MergeStatement {
    type V = MergeStatementView;

    open spec fn view(&self) -> MergeStatementView {
        merge_statement_view(*self)
    }
}

impl View for UnwindBody {
    type V = UnwindBodyView;

    open spec fn view(&self) -> UnwindBodyView {
        unwind_body_view(*self)
    }
}

impl View for UnwindStatement {
    type V = UnwindStatementView;

    open spec fn view(&self) -> UnwindStatementView {
        unwind_statement_view(*self)
    }
}

impl View for ReturnStatement {
    type V = ReturnStatementView;

    open spec fn view(&self) -> ReturnStatementView {
        return_statement_view(*self)
    }
}

impl View for Clause {
    type V = ClauseView;

    open spec fn view(&self) -> ClauseView {
        clause_view(*self)
    }
}

impl View for MultiClauseStatement {
    type V = MultiClauseStatementView;

    open spec fn view(&self) -> MultiClauseStatementView {
        multi_clause_statement_view(*self)
    }
}

impl View for Statement {
    type V = StatementView;

    open spec fn view(&self) -> StatementView {
        statement_view(*self)
    }
}

pub broadcast proof fn lemma_exprs_empty()
    ensures
        #[trigger] exprs_view(Seq::<Expr>::empty()) == Seq::<ExprView>::empty(),
{
    assert(exprs_view(Seq::<Expr>::empty()) =~= Seq::<ExprView>::empty());
}

pub broadcast proof fn lemma_exprs_push(s: Seq<Expr>, x: Expr)
    ensures
        #[trigger] exprs_view(s.push(x)) == exprs_view(s).push(expr_view(x)),
{
    assert(exprs_view(s.push(x)) =~= exprs_view(s).push(expr_view(x)));
}

pub broadcast proof fn lemma_alternatives_empty()
    ensures
        #[trigger] alternatives_view(Seq::<(Box<Expr>, Box<Expr>)>::empty()) == Seq::<(ExprView, ExprView)>::empty(),
{
    assert(alternatives_view(Seq::<(Box<Expr>, Box<Expr>)>::empty()) =~= Seq::<(ExprView, ExprView)>::empty());
}

pub broadcast proof fn lemma_alternatives_push(s: Seq<(Box<Expr>, Box<Expr>)>, x: (Box<Expr>, Box<Expr>))
    ensures
        #[trigger] alternatives_view(s.push(x)) == alternatives_view(s).push((expr_view(*x.0), expr_view(*x.1))),
{
    assert(alternatives_view(s.push(x)) =~= alternatives_view(s).push((expr_view(*x.0), expr_view(*x.1))));
}

pub broadcast proof fn lemma_patterns_empty()
    ensures
        #[trigger] patterns_view(Seq::<Pattern>::empty()) == Seq::<PatternView>::empty(),
{
    assert(patterns_view(Seq::<Pattern>::empty()) =~= Seq::<PatternView>::empty());
}

pub broadcast proof fn lemma_patterns_push(s: Seq<Pattern>, x: Pattern)
    ensures
        #[trigger] patterns_view(s.push(x)) == patterns_view(s).push(pattern_view(x)),
{
    assert(patterns_view(s.push(x)) =~= patterns_view(s).push(pattern_view(x)));
}

pub broadcast proof fn lemma_pairs_empty()
    ensures
        #[trigger] pairs_view(Seq::<(String, Expr)>::empty()) == Seq::<(Seq<char>, ExprView)>::empty(),
{
    assert(pairs_view(Seq::<(String, Expr)>::empty()) =~= Seq::<(Seq<char>, ExprView)>::empty());
}

pub broadcast proof fn lemma_pairs_push(s: Seq<(String, Expr)>, x: (String, Expr))
    ensures
        #[trigger] pairs_view(s.push(x)) == pairs_view(s).push((x.0@, expr_view(x.1))),
{
    assert(pairs_view(s.push(x)) =~= pairs_view(s).push((x.0@, expr_view(x.1))));
}

pub broadcast proof fn lemma_pattern_elements_empty()
    ensures
        #[trigger] pattern_elements_view(Seq::<PatternElement>::empty()) == Seq::<PatternElementView>::empty(),
{
    assert(pattern_elements_view(Seq::<PatternElement>::empty()) =~= Seq::<PatternElementView>::empty());
}

pub broadcast proof fn lemma_pattern_elements_push(s: Seq<PatternElement>, x: PatternElement)
    ensures
        #[trigger] pattern_elements_view(s.push(x)) == pattern_elements_view(s).push(pattern_element_view(x)),
{
    assert(pattern_elements_view(s.push(x)) =~= pattern_elements_view(s).push(pattern_element_view(x)));
}

pub broadcast proof fn lemma_return_items_empty()
    ensures
        #[trigger] return_items_view(Seq::<ReturnItem>::empty()) == Seq::<ReturnItemView>::empty(),
{
    assert(return_items_view(Seq::<ReturnItem>::empty()) =~= Seq::<ReturnItemView>::empty());
}

pub broadcast proof fn lemma_return_items_push(s: Seq<ReturnItem>, x: ReturnItem)
    ensures
        #[trigger] return_items_view(s.push(x)) == return_items_view(s).push(return_item_view(x)),
{
    assert(return_items_view(s.push(x)) =~= return_items_view(s).push(return_item_view(x)));
}

pub broadcast proof fn lemma_sort_items_empty()
    ensures
        #[trigger] sort_items_view(Seq::<SortItem>::empty()) == Seq::<SortItemView>::empty(),
{
    assert(sort_items_view(Seq::<SortItem>::empty()) =~= Seq::<SortItemView>::empty());
}

pub broadcast proof fn lemma_sort_items_push(s: Seq<SortItem>, x: SortItem)
    ensures
        #[trigger] sort_items_view(s.push(x)) == sort_items_view(s).push(sort_item_view(x)),
{
    assert(sort_items_view(s.push(x)) =~= sort_items_view(s).push(sort_item_view(x)));
}

pub broadcast proof fn lemma_optional_matchs_empty()
    ensures
        #[trigger] optional_matchs_view(Seq::<OptionalMatch>::empty()) == Seq::<OptionalMatchView>::empty(),
{
    assert(optional_matchs_view(Seq::<OptionalMatch>::empty()) =~= Seq::<OptionalMatchView>::empty());
}

pub broadcast proof fn lemma_optional_matchs_push(s: Seq<OptionalMatch>, x: OptionalMatch)
    ensures
        #[trigger] optional_matchs_view(s.push(x)) == optional_matchs_view(s).push(optional_match_view(x)),
{
    assert(optional_matchs_view(s.push(x)) =~= optional_matchs_view(s).push(optional_match_view(x)));
}

pub broadcast proof fn lemma_intermediate_clauses_empty()
    ensures
        #[trigger] intermediate_clauses_view(Seq::<IntermediateClause>::empty()) == Seq::<IntermediateClauseView>::empty(),
{
    assert(intermediate_clauses_view(Seq::<IntermediateClause>::empty()) =~= Seq::<IntermediateClauseView>::empty());
}

pub broadcast proof fn lemma_intermediate_clauses_push(s: Seq<IntermediateClause>, x: IntermediateClause)
    ensures
        #[trigger] intermediate_clauses_view(s.push(x)) == intermediate_clauses_view(s).push(intermediate_clause_view(x)),
{
    assert(intermediate_clauses_view(s.push(x)) =~= intermediate_clauses_view(s).push(intermediate_clause_view(x)));
}

pub broadcast proof fn lemma_set_items_empty()
    ensures
        #[trigger] set_items_view(Seq::<SetItem>::empty()) == Seq::<SetItemView>::empty(),
{
    assert(set_items_view(Seq::<SetItem>::empty()) =~= Seq::<SetItemView>::empty());
}

pub broadcast proof fn lemma_set_items_push(s: Seq<SetItem>, x: SetItem)
    ensures
        #[trigger] set_items_view(s.push(x)) == set_items_view(s).push(set_item_view(x)),
{
    assert(set_items_view(s.push(x)) =~= set_items_view(s).push(set_item_view(x)));
}

pub broadcast proof fn lemma_remove_items_empty()
    ensures
        #[trigger] remove_items_view(Seq::<RemoveItem>::empty()) == Seq::<RemoveItemView>::empty(),
{
    assert(remove_items_view(Seq::<RemoveItem>::empty()) =~= Seq::<RemoveItemView>::empty());
}

pub broadcast proof fn lemma_remove_items_push(s: Seq<RemoveItem>, x: RemoveItem)
    ensures
        #[trigger] remove_items_view(s.push(x)) == remove_items_view(s).push(remove_item_view(x)),
{
    assert(remove_items_view(s.push(x)) =~= remove_items_view(s).push(remove_item_view(x)));
}

pub broadcast proof fn lemma_yields_empty()
    ensures
        #[trigger] yields_view(Seq::<(String, Option<String>)>::empty()) == Seq::<(Seq<char>, Option<Seq<char>>)>::empty(),
{
    assert(yields_view(Seq::<(String, Option<String>)>::empty()) =~= Seq::<(Seq<char>, Option<Seq<char>>)>::empty());
}

pub broadcast proof fn lemma_yields_push(s: Seq<(String, Option<String>)>, x: (String, Option<String>))
    ensures
        #[trigger] yields_view(s.push(x)) == yields_view(s).push((x.0@, opt_text(x.1))),
{
    assert(yields_view(s.push(x)) =~= yields_view(s).push((x.0@, opt_text(x.1))));
}

pub broadcast proof fn lemma_clauses_empty()
    ensures
        #[trigger] clauses_view(Seq::<Clause>::empty()) == Seq::<ClauseView>::empty(),
{
    assert(clauses_view(Seq::<Clause>::empty()) =~= Seq::<ClauseView>::empty());
}

pub broadcast proof fn lemma_clauses_push(s: Seq<Clause>, x: Clause)
    ensures
        #[trigger] clauses_view(s.push(x)) == clauses_view(s).push(clause_view(x)),
{
    assert(clauses_view(s.push(x)) =~= clauses_view(s).push(clause_view(x)));
}

pub broadcast proof fn lemma_statements_empty()
    ensures
        #[trigger] statements_view(Seq::<Statement>::empty()) == Seq::<StatementView>::empty(),
{
    assert(statements_view(Seq::<Statement>::empty()) =~= Seq::<StatementView>::empty());
}

pub broadcast proof fn lemma_statements_push(s: Seq<Statement>, x: Statement)
    ensures
        #[trigger] statements_view(s.push(x)) == statements_view(s).push(statement_view(x)),
{
    assert(statements_view(s.push(x)) =~= statements_view(s).push(statement_view(x)));
}

pub broadcast proof fn lemma_texts_empty()
    ensures
        #[trigger] texts(Seq::<String>::empty()) == Seq::<Seq<char>>::empty(),
{
    assert(texts(Seq::<String>::empty()) =~= Seq::<Seq<char>>::empty());
}

pub broadcast proof fn lemma_texts_push(s: Seq<String>, x: String)
    ensures
        #[trigger] texts(s.push(x)) == texts(s).push(x@),
{
    assert(texts(s.push(x)) =~= texts(s).push(x@));
}

/// Views of growing lists.
pub broadcast group group_list_views {
    lemma_exprs_empty,
    lemma_exprs_push,
    lemma_alternatives_empty,
    lemma_alternatives_push,
    lemma_patterns_empty,
    lemma_patterns_push,
    lemma_pairs_empty,
    lemma_pairs_push,
    lemma_pattern_elements_empty,
    lemma_pattern_elements_push,
    lemma_return_items_empty,
    lemma_return_items_push,
    lemma_sort_items_empty,
    lemma_sort_items_push,
    lemma_optional_matchs_empty,
    lemma_optional_matchs_push,
    lemma_intermediate_clauses_empty,
    lemma_intermediate_clauses_push,
    lemma_set_items_empty,
    lemma_set_items_push,
    lemma_remove_items_empty,
    lemma_remove_items_push,
    lemma_yields_empty,
    lemma_yields_push,
    lemma_clauses_empty,
    lemma_clauses_push,
    lemma_statements_empty,
    lemma_statements_push,
    lemma_texts_empty,
    lemma_texts_push,
}

} // verus!
