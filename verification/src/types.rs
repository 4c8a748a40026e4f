//! Identifiers, source positions and errors.
use crate::ast_model;
use vstd::prelude::*;

verus! {

/// Identifies a node.
#[derive(Clone, Copy, Debug, PartialEq, Eq, Structural)]
pub struct NodeId(pub u64);

impl View for NodeId {
    type V = NodeId;

    open spec fn view(&self) -> NodeId {
        *self
    }
}

/// The direction in which relationships are followed.
#[derive(Clone, Copy, Debug, PartialEq, Eq, Structural)]
pub enum Direction {
    Outgoing,
    Incoming,
    Both,
}

/// A range of the query text: byte offsets, and the line and column of its start.
#[derive(Clone, Copy, Debug, PartialEq, Eq, Structural)]
pub struct Span {
    pub start: usize,
    pub end: usize,
    pub line: u32,
    pub col: u32,
}

impl Span {
    /// The span of something that stands nowhere in the text: lines count from one, so line
    /// zero is free to mean this.
    pub open spec fn none() -> Span {
        Span { start: 0, end: 0, line: 0, col: 0 }
    }

    /// The span of something that stands nowhere in the text.
    pub fn synthetic() -> (r: Span)
        ensures
            r == Span::none(),
    {
        Span { start: 0, end: 0, line: 0, col: 0 }
    }

    /// True of a span that stands nowhere in the text.
    pub fn is_synthetic(&self) -> (r: bool)
        ensures
            r == (self.line == 0),
    {
        self.line == 0
    }
}

/// When in the life of a query an error came up.
#[derive(Clone, Copy, Debug, PartialEq, Eq, Structural)]
pub enum QueryPhase {
    Parse,
    SemanticAnalysis,
    Runtime,
}

/// A machine-readable reason.
#[derive(Clone, Copy, Debug, PartialEq, Eq, Structural)]
pub enum ErrorCode {
    UnexpectedSyntax,
    InvalidUnicodeLiteral,
    InvalidClauseComposition,
    NumberOutOfRange,
    MergeReadOwnWrites,
    DeleteConnectedNode,
    InvalidPropertyType,
    Other,
}

/// What is wrong with a query.
#[derive(Debug, PartialEq)]
pub enum QueryError {
    SyntaxError {
        phase: QueryPhase,
        code: ErrorCode,
        message: String,
        hint: Option<String>,
        span: Option<Span>,
    },
    SemanticError {
        phase: QueryPhase,
        code: ErrorCode,
        message: String,
        hint: Option<String>,
        span: Option<Span>,
    },
    TypeError {
        phase: QueryPhase,
        code: ErrorCode,
        message: String,
        hint: Option<String>,
        span: Option<Span>,
    },
    ArgumentError {
        phase: QueryPhase,
        code: ErrorCode,
        message: String,
        hint: Option<String>,
        span: Option<Span>,
    },
    ConstraintError {
        phase: QueryPhase,
        code: ErrorCode,
        message: String,
        hint: Option<String>,
        span: Option<Span>,
    },
    EntityNotFound {
        phase: QueryPhase,
        code: ErrorCode,
        message: String,
        hint: Option<String>,
        span: Option<Span>,
    },
    ProcedureError {
        phase: QueryPhase,
        code: ErrorCode,
        message: String,
        hint: Option<String>,
        span: Option<Span>,
    },
}

/// Why an operation failed.
#[derive(Debug, PartialEq)]
pub enum GraphError {
    /// Something is larger than its limit.
    SizeLimit { what: String, limit: usize, actual: usize, hint: Option<String> },
    /// The query is wrong.
    Query(QueryError),
    /// The operation does not fit the transaction.
    Transaction { message: String, hint: Option<String> },
    /// There is no such node.
    NodeNotFound { id: NodeId },
}

/// The kinds of query error.
pub enum ErrorKind {
    Syntax,
    Semantic,
    Type,
    Argument,
    Constraint,
    EntityNotFound,
    Procedure,
}

/// What a [`GraphError`] says.
pub enum ErrorView {
    SizeLimit { what: Seq<char>, limit: usize, actual: usize, hint: Option<Seq<char>> },
    Query {
        kind: ErrorKind,
        phase: QueryPhase,
        code: ErrorCode,
        message: Seq<char>,
        hint: Option<Seq<char>>,
        span: Option<Span>,
    },
    Transaction { message: Seq<char>, hint: Option<Seq<char>> },
    NodeNotFound { id: NodeId },
}

impl View for QueryError {
    type V = ErrorView;

    open spec fn view(&self) -> ErrorView {
        match *self {
            QueryError::SyntaxError { phase, code, message, hint, span } => query_error(
                ErrorKind::Syntax, phase, code, message@, ast_model::opt_text(hint), span,
            ),
            QueryError::SemanticError { phase, code, message, hint, span } => query_error(
                ErrorKind::Semantic, phase, code, message@, ast_model::opt_text(hint), span,
            ),
            QueryError::TypeError { phase, code, message, hint, span } => query_error(
                ErrorKind::Type, phase, code, message@, ast_model::opt_text(hint), span,
            ),
            QueryError::ArgumentError { phase, code, message, hint, span } => query_error(
                ErrorKind::Argument, phase, code, message@, ast_model::opt_text(hint), span,
            ),
            QueryError::ConstraintError { phase, code, message, hint, span } => query_error(
                ErrorKind::Constraint, phase, code, message@, ast_model::opt_text(hint), span,
            ),
            QueryError::EntityNotFound { phase, code, message, hint, span } => query_error(
                ErrorKind::EntityNotFound, phase, code, message@, ast_model::opt_text(hint), span,
            ),
            QueryError::ProcedureError { phase, code, message, hint, span } => query_error(
                ErrorKind::Procedure, phase, code, message@, ast_model::opt_text(hint), span,
            ),
        }
    }
}

impl View for GraphError {
    type V = ErrorView;

    open spec fn view(&self) -> ErrorView {
        match *self {
            GraphError::SizeLimit { what, limit, actual, hint } => ErrorView::SizeLimit {
                what: what@,
                limit,
                actual,
                hint: ast_model::opt_text(hint),
            },
            GraphError::Query(e) => e@,
            GraphError::Transaction { message, hint } => ErrorView::Transaction {
                message: message@,
                hint: ast_model::opt_text(hint),
            },
            GraphError::NodeNotFound { id } => ErrorView::NodeNotFound { id },
        }
    }
}

/// A query error of the given kind.
pub open spec fn query_error(
    kind: ErrorKind,
    phase: QueryPhase,
    code: ErrorCode,
    message: Seq<char>,
    hint: Option<Seq<char>>,
    span: Option<Span>,
) -> ErrorView {
    ErrorView::Query { kind, phase, code, message, hint, span }
}

/// A syntax error with a bare message.
pub open spec fn syntax_error(message: Seq<char>) -> ErrorView {
    query_error(ErrorKind::Syntax, QueryPhase::Parse, ErrorCode::Other, message, None, None)
}

/// A syntax error with a reason.
pub open spec fn coded_error(phase: QueryPhase, code: ErrorCode, message: Seq<char>) -> ErrorView {
    query_error(ErrorKind::Syntax, phase, code, message, None, None)
}

/// A semantic error.
pub open spec fn semantic_error(code: ErrorCode, message: Seq<char>) -> ErrorView {
    query_error(ErrorKind::Semantic, QueryPhase::Runtime, code, message, None, None)
}

/// An error in an argument.
pub open spec fn argument_error(phase: QueryPhase, message: Seq<char>) -> ErrorView {
    query_error(ErrorKind::Argument, phase, ErrorCode::Other, message, None, None)
}

/// What the outcome of a fallible operation says.
pub open spec fn outcome<T: View>(r: Result<T, GraphError>) -> Result<T::V, ErrorView> {
    match r {
        Ok(x) => Ok(x@),
        Err(e) => Err(e@),
    }
}

/// What the outcome of a check says.
pub open spec fn verdict(r: Result<(), GraphError>) -> Result<(), ErrorView> {
    match r {
        Ok(_) => Ok(()),
        Err(e) => Err(e@),
    }
}

impl GraphError {
    /// A syntax error with a bare message.
    pub fn syntax(message: String) -> (r: GraphError)
        ensures
            r@ == syntax_error(message@),
    {
        GraphError::Query(
            QueryError::SyntaxError {
                phase: QueryPhase::Parse,
                code: ErrorCode::Other,
                message,
                hint: None,
                span: None,
            },
        )
    }

    /// A syntax error with a reason.
    pub fn query(phase: QueryPhase, code: ErrorCode, message: String) -> (r: GraphError)
        ensures
            r@ == coded_error(phase, code, message@),
    {
        GraphError::Query(
            QueryError::SyntaxError { phase, code, message, hint: None, span: None },
        )
    }

    /// A semantic error with a reason.
    pub fn semantic(code: ErrorCode, message: String) -> (r: GraphError)
        ensures
            r@ == semantic_error(code, message@),
    {
        GraphError::Query(
            QueryError::SemanticError {
                phase: QueryPhase::Runtime,
                code,
                message,
                hint: None,
                span: None,
            },
        )
    }

    /// An error in an argument.
    pub fn argument(phase: QueryPhase, message: String) -> (r: GraphError)
        ensures
            r@ == argument_error(phase, message@),
    {
        GraphError::Query(
            QueryError::ArgumentError {
                phase,
                code: ErrorCode::Other,
                message,
                hint: None,
                span: None,
            },
        )
    }

    /// A value of the wrong type.
    pub fn type_error(phase: QueryPhase, code: ErrorCode, message: String) -> (r: GraphError)
        ensures
            r@ == query_error(ErrorKind::Type, phase, code, message@, None, None),
    {
        GraphError::Query(QueryError::TypeError { phase, code, message, hint: None, span: None })
    }

    /// A violated constraint.
    pub fn constraint(code: ErrorCode, message: String) -> (r: GraphError)
        ensures
            r@ == query_error(
                ErrorKind::Constraint, QueryPhase::Runtime, code, message@, None, None,
            ),
    {
        GraphError::Query(
            QueryError::ConstraintError {
                phase: QueryPhase::Runtime,
                code,
                message,
                hint: None,
                span: None,
            },
        )
    }
}

} // verus!
