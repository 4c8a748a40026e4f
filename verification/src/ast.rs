//! The abstract syntax of queries.
use crate::assoc::AssocList;
use crate::types::Span;
use vstd::prelude::*;

verus! {

/// A binary operator.
#[derive(Clone, Copy, Debug, PartialEq, Eq, Structural)]
pub enum BinOp {
    Eq,
    Neq,
    Lt,
    Gt,
    Lte,
    Gte,
    And,
    Or,
    Xor,
    Add,
    Sub,
    Mul,
    Div,
    Mod,
    Pow,
    In,
    StartsWith,
    EndsWith,
    Contains,
    RegexMatch,
}

/// Which quantifier a predicate over a list uses.
#[derive(Clone, Copy, Debug, PartialEq, Eq, Structural)]
pub enum QuantifierKind {
    NoneOf,
    Single,
    Any,
    All,
}

/// Whether a pattern asks for shortest paths.
#[derive(Clone, Copy, Debug, PartialEq, Eq, Structural)]
pub enum ShortestPathMode {
    Off,
    Single,
    All,
}

/// The direction of a relationship pattern, as written.
#[derive(Clone, Copy, Debug, PartialEq, Eq, Structural)]
pub enum RelDirection {
    Outgoing,
    Incoming,
    Undirected,
}

/// An expression and where it stands in the query text.
#[derive(Debug, PartialEq)]
pub struct Expr {
    pub kind: ExprKind,
    pub span: Span,
}

/// A literal constant.
#[derive(Debug, PartialEq)]
pub enum LiteralValue {
    /// The null literal.
    Null,
    /// `true` or `false`.
    Bool(bool),
    /// An integer.
    I64(i64),
    /// A floating point number.
    F64(FloatLiteral),
    /// A string, with its escapes resolved.
    String(String),
}

/// A floating point constant. The conversion from decimal text to a binary value is left
/// to the evaluator.
#[derive(Debug, PartialEq)]
pub enum FloatLiteral {
    /// The digits as they stand in the query text, without the sign of a negative zero.
    Decimal(String),
    /// A binary64 value, by its bit pattern.
    Bits(u64),
}

/// The form of an expression.
#[derive(Debug, PartialEq)]
pub enum ExprKind {
    /// A literal.
    Literal(LiteralValue),
    /// `variable.property`.
    Property(String, String),
    /// A bare variable.
    Variable(String),
    /// `variable:Label:Label`.
    HasLabel(String, Vec<String>),
    /// A pattern used as a condition.
    PatternPredicate(Pattern),
    /// `*`.
    Star,
    /// `$name`.
    Parameter(String),
    /// A binary operation.
    BinaryOp { left: Box<Expr>, op: BinOp, right: Box<Expr> },
    /// `NOT expr`.
    Not(Box<Expr>),
    /// `expr IS NULL`.
    IsNull(Box<Expr>),
    /// `expr IS NOT NULL`.
    IsNotNull(Box<Expr>),
    /// A function call; `original_text` is the call as written.
    FunctionCall { name: String, args: Vec<Expr>, distinct: bool, original_text: Option<String> },
    /// A CASE expression, with or without an operand.
    Case { operand: Option<Box<Expr>>, alternatives: Vec<(Box<Expr>, Box<Expr>)>, default: Option<Box<Expr>> },
    /// A list literal.
    List(Vec<Expr>),
    /// `[variable IN list WHERE filter | map]`.
    ListComprehension { variable: String, list_expr: Box<Expr>, filter: Option<Box<Expr>>, map_expr: Option<Box<Expr>> },
    /// `[path = pattern WHERE condition | map]`.
    PatternComprehension { path_variable: Option<String>, pattern: Pattern, where_clause: Option<Box<Expr>>, map_expr: Box<Expr> },
    /// `none/single/any/all (variable IN list WHERE predicate)`.
    Quantifier { kind: QuantifierKind, variable: String, list_expr: Box<Expr>, predicate: Box<Expr> },
    /// `EXISTS { patterns WHERE condition }`.
    Exists { patterns: Vec<Pattern>, where_clause: Option<Box<Expr>> },
    /// `EXISTS { MATCH ... }`.
    ExistsSubquery(Box<Statement>),
    /// A map literal, in source order.
    MapLiteral(Vec<(String, Expr)>),
    /// `expr[index]`.
    Index { expr: Box<Expr>, index: Box<Expr> },
    /// `expr.key` on anything but a bare variable.
    DotAccess { expr: Box<Expr>, key: String },
    /// `expr[start..end]`.
    Slice { expr: Box<Expr>, start: Option<Box<Expr>>, end: Option<Box<Expr>> },
}

/// A path pattern: nodes and relationships in turn.
#[derive(Debug, PartialEq)]
pub struct Pattern {
    pub elements: Vec<PatternElement>,
    pub path_variable: Option<String>,
    pub shortest_path_mode: ShortestPathMode,
}

/// One element of a pattern.
#[derive(Debug, PartialEq)]
pub enum PatternElement {
    /// A node.
    Node(NodePattern),
    /// A relationship.
    Relationship(RelPattern),
}

/// `(variable:Label {key: value})`.
#[derive(Debug, PartialEq)]
pub struct NodePattern {
    pub variable: Option<String>,
    pub labels: Vec<String>,
    pub properties: AssocList<Expr>,
}

/// `-[variable:TYPE*min..max {key: value}]->`.
#[derive(Debug, PartialEq)]
pub struct RelPattern {
    pub variable: Option<String>,
    pub rel_types: Vec<String>,
    pub properties: AssocList<Expr>,
    pub direction: RelDirection,
    pub var_length: Option<(u32, u32)>,
}

/// `expr AS alias`.
#[derive(Debug, PartialEq)]
pub struct ReturnItem {
    pub expr: Expr,
    pub alias: Option<String>,
}

/// A RETURN clause.
#[derive(Debug, PartialEq)]
pub struct ReturnClause {
    pub items: Vec<ReturnItem>,
    pub distinct: bool,
}

/// `expr DESC`.
#[derive(Debug, PartialEq)]
pub struct SortItem {
    pub expr: Expr,
    pub descending: bool,
}

/// An OPTIONAL MATCH clause.
#[derive(Debug, PartialEq)]
pub struct OptionalMatch {
    pub patterns: Vec<Pattern>,
    pub where_clause: Option<Expr>,
}

/// A WITH clause.
#[derive(Debug, PartialEq)]
pub struct WithClause {
    pub items: Vec<ReturnItem>,
    pub distinct: bool,
    pub order_by: Vec<SortItem>,
    pub skip: Option<Expr>,
    pub limit: Option<Expr>,
    pub where_clause: Option<Expr>,
}

/// `UNWIND expr AS alias`.
#[derive(Debug, PartialEq)]
pub struct UnwindClause {
    pub expr: Expr,
    pub alias: String,
}

/// A MATCH between two projections.
#[derive(Debug, PartialEq)]
pub struct IntermediateMatch {
    pub patterns: Vec<Pattern>,
    pub optional_patterns: Vec<OptionalMatch>,
    pub where_clause: Option<Expr>,
}

/// A clause between the first MATCH and the RETURN.
#[derive(Debug, PartialEq)]
pub enum IntermediateClause {
    /// WITH.
    With(WithClause),
    /// UNWIND.
    Unwind(UnwindClause),
    /// MATCH.
    Match(IntermediateMatch),
}

/// `variable.property = value`.
#[derive(Debug, PartialEq)]
pub struct Assignment {
    pub variable: String,
    pub property: String,
    pub value: Expr,
}

/// One item of a SET clause.
#[derive(Debug, PartialEq)]
pub enum SetItem {
    /// `variable.property = value`.
    Property(Assignment),
    /// `variable:Label:Label`.
    Label { variable: String, labels: Vec<String> },
    /// `variable = map`.
    MapOverwrite { variable: String, value: Expr },
    /// `variable += map`.
    MapMerge { variable: String, value: Expr },
}

/// One item of a REMOVE clause.
#[derive(Debug, PartialEq)]
pub enum RemoveItem {
    /// `variable.property`.
    Property { variable: String, property: String },
    /// `variable:Label:Label`.
    Label { variable: String, labels: Vec<String> },
}

/// MATCH ... RETURN.
#[derive(Debug, PartialEq)]
pub struct MatchStatement {
    pub patterns: Vec<Pattern>,
    pub optional_patterns: Vec<OptionalMatch>,
    pub where_clause: Option<Expr>,
    pub intermediate_clauses: Vec<IntermediateClause>,
    pub return_clause: ReturnClause,
    pub order_by: Vec<SortItem>,
    pub skip: Option<Expr>,
    pub limit: Option<Expr>,
}

/// CREATE.
#[derive(Debug, PartialEq)]
pub struct CreateStatement {
    pub patterns: Vec<Pattern>,
    pub return_clause: Option<ReturnClause>,
    pub order_by: Vec<SortItem>,
    pub skip: Option<Expr>,
    pub limit: Option<Expr>,
}

/// MATCH ... CREATE.
#[derive(Debug, PartialEq)]
pub struct MatchCreateStatement {
    pub patterns: Vec<Pattern>,
    pub where_clause: Option<Expr>,
    pub create_patterns: Vec<Pattern>,
    pub return_clause: Option<ReturnClause>,
    pub order_by: Vec<SortItem>,
    pub skip: Option<Expr>,
    pub limit: Option<Expr>,
}

/// MATCH ... MERGE.
#[derive(Debug, PartialEq)]
pub struct MatchMergeStatement {
    pub patterns: Vec<Pattern>,
    pub where_clause: Option<Expr>,
    pub merge_pattern: Pattern,
    pub on_create: Vec<SetItem>,
    pub on_match: Vec<SetItem>,
    pub return_clause: Option<ReturnClause>,
    pub order_by: Vec<SortItem>,
    pub skip: Option<Expr>,
    pub limit: Option<Expr>,
}

/// MATCH ... DELETE.
#[derive(Debug, PartialEq)]
pub struct DeleteStatement {
    pub patterns: Vec<Pattern>,
    pub optional_patterns: Vec<OptionalMatch>,
    pub where_clause: Option<Expr>,
    pub detach: bool,
    pub exprs: Vec<Expr>,
    pub return_clause: Option<ReturnClause>,
    pub order_by: Vec<SortItem>,
    pub skip: Option<Expr>,
    pub limit: Option<Expr>,
}

/// MATCH ... SET.
#[derive(Debug, PartialEq)]
pub struct SetStatement {
    pub patterns: Vec<Pattern>,
    pub optional_patterns: Vec<OptionalMatch>,
    pub where_clause: Option<Expr>,
    pub items: Vec<SetItem>,
    pub intermediate_clauses: Vec<IntermediateClause>,
    pub return_clause: Option<ReturnClause>,
    pub order_by: Vec<SortItem>,
    pub skip: Option<Expr>,
    pub limit: Option<Expr>,
}

/// MATCH ... REMOVE.
#[derive(Debug, PartialEq)]
pub struct RemoveStatement {
    pub patterns: Vec<Pattern>,
    pub optional_patterns: Vec<OptionalMatch>,
    pub where_clause: Option<Expr>,
    pub items: Vec<RemoveItem>,
    pub return_clause: Option<ReturnClause>,
    pub order_by: Vec<SortItem>,
    pub skip: Option<Expr>,
    pub limit: Option<Expr>,
}

/// MERGE.
#[derive(Debug, PartialEq)]
pub struct MergeStatement {
    pub pattern: Pattern,
    pub on_create: Vec<SetItem>,
    pub on_match: Vec<SetItem>,
    pub return_clause: Option<ReturnClause>,
    pub order_by: Vec<SortItem>,
    pub skip: Option<Expr>,
    pub limit: Option<Expr>,
}

/// What follows the UNWIND of an UNWIND statement.
#[derive(Debug, PartialEq)]
pub enum UnwindBody {
    /// Projections up to a RETURN.
    Return { where_clause: Option<Expr>, intermediate_clauses: Vec<IntermediateClause>, return_clause: ReturnClause, order_by: Vec<SortItem>, skip: Option<Expr>, limit: Option<Expr> },
    /// A CREATE and what follows it.
    Create { patterns: Vec<Pattern>, intermediate_clauses: Vec<IntermediateClause>, return_clause: Option<ReturnClause>, order_by: Vec<SortItem>, skip: Option<Expr>, limit: Option<Expr> },
}

/// UNWIND ... .
#[derive(Debug, PartialEq)]
pub struct UnwindStatement {
    pub expr: Expr,
    pub alias: String,
    pub body: UnwindBody,
}

/// A RETURN on its own.
#[derive(Debug, PartialEq)]
pub struct ReturnStatement {
    pub return_clause: ReturnClause,
    pub order_by: Vec<SortItem>,
    pub skip: Option<Expr>,
    pub limit: Option<Expr>,
}

/// One clause of a multi-clause statement.
#[derive(Debug, PartialEq)]
pub enum Clause {
    /// MATCH.
    Match { patterns: Vec<Pattern>, optional_patterns: Vec<OptionalMatch>, where_clause: Option<Expr> },
    /// CREATE.
    Create { patterns: Vec<Pattern> },
    /// MERGE.
    Merge { pattern: Pattern, on_create: Vec<SetItem>, on_match: Vec<SetItem> },
    /// WITH.
    With(WithClause),
    /// UNWIND.
    Unwind(UnwindClause),
    /// SET.
    SetItems { items: Vec<SetItem> },
    /// REMOVE.
    Remove { items: Vec<RemoveItem> },
    /// CALL.
    Call { procedure_name: String, args: Vec<Expr>, implicit_args: bool, yield_items: Option<Vec<(String, Option<String>)>>, yield_star: bool },
    /// DELETE.
    Delete { exprs: Vec<Expr>, detach: bool },
}

/// Reading and writing clauses in any order.
#[derive(Debug, PartialEq)]
pub struct MultiClauseStatement {
    pub clauses: Vec<Clause>,
    pub return_clause: Option<ReturnClause>,
    pub order_by: Vec<SortItem>,
    pub skip: Option<Expr>,
    pub limit: Option<Expr>,
}

/// A parsed statement.
#[derive(Debug, PartialEq)]
pub enum Statement {
    /// MATCH ... RETURN.
    Match(MatchStatement),
    /// CREATE.
    Create(CreateStatement),
    /// MATCH ... CREATE.
    MatchCreate(MatchCreateStatement),
    /// MATCH ... MERGE.
    MatchMerge(MatchMergeStatement),
    /// DELETE.
    Delete(DeleteStatement),
    /// SET.
    SetProps(SetStatement),
    /// REMOVE.
    Remove(RemoveStatement),
    /// MERGE.
    Merge(MergeStatement),
    /// UNWIND.
    Unwind(UnwindStatement),
    /// RETURN.
    Return(ReturnStatement),
    /// Several clauses.
    MultiClause(MultiClauseStatement),
    /// EXPLAIN.
    Explain(Box<Statement>),
    /// UNION of statements; `all` keeps duplicate rows.
    Union { statements: Vec<Statement>, all: bool },
    /// CALL.
    Call { procedure_name: String, args: Vec<Expr>, implicit_args: bool, yield_items: Option<Vec<(String, Option<String>)>>, yield_star: bool, return_clause: Option<ReturnClause>, order_by: Vec<SortItem>, skip: Option<Box<Expr>>, limit: Option<Box<Expr>> },
}

impl Expr {
    /// An expression that stands at `span`.
    pub fn new(kind: ExprKind, span: Span) -> (r: Expr)
        ensures
            r.kind == kind,
            r.span == span,
    {
        Expr { kind, span }
    }

    /// An expression that stands nowhere in the query text.
    pub fn synthetic(kind: ExprKind) -> (r: Expr)
        ensures
            r.kind == kind,
            r.span == Span::none(),
    {
        Expr { kind, span: Span::synthetic() }
    }
}

} // verus!
