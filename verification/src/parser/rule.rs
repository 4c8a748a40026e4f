//! The rules of the grammar and what they are called.
use vstd::prelude::*;

verus! {

/// A rule of the grammar.
#[derive(Clone, Copy, Debug, PartialEq, Eq, Structural)]
pub enum Rule {
    Statement,
    UnionStmt,
    UnionOp,
    SingleStmt,
    ExplainStmt,
    MatchStmt,
    MatchPart,
    OptionalMatchClause,
    DeleteStmt,
    SetStmt,
    RemoveStmt,
    CreateStmt,
    MergeStmt,
    UnwindStmt,
    UnwindReturn,
    UnwindCreate,
    WithStmt,
    ReturnStmt,
    CallStmt,
    ProcedureName,
    YieldClause,
    YieldStar,
    YieldItems,
    YieldItem,
    MultiClauseStmt,
    MultiMatchClause,
    MultiCreateClause,
    MultiMergeClause,
    MultiSetClause,
    MultiRemoveClause,
    MultiDeleteClause,
    MultiCallClause,
    MatchCreateStmt,
    MatchMergeStmt,
    DetachKeyword,
    DeleteExprList,
    OnCreateClause,
    OnMatchClause,
    AssignmentList,
    SetItem,
    SetLabel,
    SetMapMerge,
    SetMap,
    Assignment,
    ExprPropertyAccess,
    PropertyAccess,
    RemoveItemList,
    RemoveItem,
    RemoveLabel,
    RemoveProperty,
    WhereClause,
    WithClause,
    UnwindClause,
    ReturnClause,
    DistinctKeyword,
    ReturnItems,
    ReturnItem,
    Alias,
    OrderByClause,
    SortItems,
    SortItem,
    SortDirection,
    SkipClause,
    LimitClause,
    PatternList,
    PatternItem,
    PathPattern,
    ShortestPathFn,
    AllShortestPathsFn,
    Pattern,
    CreatePatternList,
    CreatePattern,
    NodePattern,
    LabelSpec,
    RelPattern,
    RelBoth,
    RelRight,
    RelLeft,
    RelUndirected,
    RelBothBare,
    RelRightBare,
    RelLeftBare,
    RelUndirectedBare,
    RelDetail,
    RelTypeSpec,
    VarLength,
    IntRange,
    FixedLength,
    Integer,
    PropertyMap,
    PropertyPair,
    Ident,
    SymbolicName,
    PlainIdent,
    BoolExpr,
    Expr,
    OrOp,
    XorTerm,
    XorOp,
    BoolTerm,
    AndOp,
    BoolFactor,
    NotOp,
    BoolPrimary,
    CmpOrValue,
    CmpSuffix,
    CompOp,
    PredicateExpr,
    IsNotNullSuffix,
    IsNullSuffix,
    InSuffix,
    StringPredSuffix,
    StringPredOp,
    StartsWithOp,
    EndsWithOp,
    ContainsOp,
    CmpPrimary,
    ExistsSubquery,
    ExistsFullSubquery,
    PatternPredicate,
    AddExpr,
    AddOp,
    MulExpr,
    MulOp,
    ExpExpr,
    ExpOp,
    InExpr,
    AtomExpr,
    UnaryMinusExpr,
    Star,
    Variable,
    Parameter,
    ParameterName,
    HasLabelExpr,
    Subscript,
    SubscriptInner,
    SliceFull,
    SliceFrom,
    SliceTo,
    DotAccess,
    CaseExpr,
    CaseOperand,
    CaseWhenClause,
    CaseElseClause,
    QuantifierExpr,
    QuantifierName,
    FunctionArgs,
    ExprList,
    DottedFunctionCall,
    DottedFunctionName,
    FunctionCall,
    FunctionName,
    UnknownFunctionCall,
    Literal,
    FloatLiteral,
    IntegerLiteral,
    StringLiteral,
    SingleQuoted,
    SingleInner,
    DoubleQuoted,
    DoubleInner,
    BoolLiteral,
    NullLiteral,
    ListLiteral,
    ListComprehension,
    ListCompWhere,
    ListCompMap,
    PatternComprehension,
    MapLiteral,
    MapPair,
}

/// The name of a rule.
#[verifier::opaque]
pub open spec fn name_of(rule: Rule) -> Seq<char> {
    match rule {
        Rule::Statement => "statement"@,
        Rule::UnionStmt => "union_stmt"@,
        Rule::UnionOp => "union_op"@,
        Rule::SingleStmt => "single_stmt"@,
        Rule::ExplainStmt => "explain_stmt"@,
        Rule::MatchStmt => "match_stmt"@,
        Rule::MatchPart => "match_part"@,
        Rule::OptionalMatchClause => "optional_match_clause"@,
        Rule::DeleteStmt => "delete_stmt"@,
        Rule::SetStmt => "set_stmt"@,
        Rule::RemoveStmt => "remove_stmt"@,
        Rule::CreateStmt => "create_stmt"@,
        Rule::MergeStmt => "merge_stmt"@,
        Rule::UnwindStmt => "unwind_stmt"@,
        Rule::UnwindReturn => "unwind_return"@,
        Rule::UnwindCreate => "unwind_create"@,
        Rule::WithStmt => "with_stmt"@,
        Rule::ReturnStmt => "return_stmt"@,
        Rule::CallStmt => "call_stmt"@,
        Rule::ProcedureName => "procedure_name"@,
        Rule::YieldClause => "yield_clause"@,
        Rule::YieldStar => "yield_star"@,
        Rule::YieldItems => "yield_items"@,
        Rule::YieldItem => "yield_item"@,
        Rule::MultiClauseStmt => "multi_clause_stmt"@,
        Rule::MultiMatchClause => "multi_match_clause"@,
        Rule::MultiCreateClause => "multi_create_clause"@,
        Rule::MultiMergeClause => "multi_merge_clause"@,
        Rule::MultiSetClause => "multi_set_clause"@,
        Rule::MultiRemoveClause => "multi_remove_clause"@,
        Rule::MultiDeleteClause => "multi_delete_clause"@,
        Rule::MultiCallClause => "multi_call_clause"@,
        Rule::MatchCreateStmt => "match_create_stmt"@,
        Rule::MatchMergeStmt => "match_merge_stmt"@,
        Rule::DetachKeyword => "detach_keyword"@,
        Rule::DeleteExprList => "delete_expr_list"@,
        Rule::OnCreateClause => "on_create_clause"@,
        Rule::OnMatchClause => "on_match_clause"@,
        Rule::AssignmentList => "assignment_list"@,
        Rule::SetItem => "set_item"@,
        Rule::SetLabel => "set_label"@,
        Rule::SetMapMerge => "set_map_merge"@,
        Rule::SetMap => "set_map"@,
        Rule::Assignment => "assignment"@,
        Rule::ExprPropertyAccess => "expr_property_access"@,
        Rule::PropertyAccess => "property_access"@,
        Rule::RemoveItemList => "remove_item_list"@,
        Rule::RemoveItem => "remove_item"@,
        Rule::RemoveLabel => "remove_label"@,
        Rule::RemoveProperty => "remove_property"@,
        Rule::WhereClause => "where_clause"@,
        Rule::WithClause => "with_clause"@,
        Rule::UnwindClause => "unwind_clause"@,
        Rule::ReturnClause => "return_clause"@,
        Rule::DistinctKeyword => "distinct_keyword"@,
        Rule::ReturnItems => "return_items"@,
        Rule::ReturnItem => "return_item"@,
        Rule::Alias => "alias"@,
        Rule::OrderByClause => "order_by_clause"@,
        Rule::SortItems => "sort_items"@,
        Rule::SortItem => "sort_item"@,
        Rule::SortDirection => "sort_direction"@,
        Rule::SkipClause => "skip_clause"@,
        Rule::LimitClause => "limit_clause"@,
        Rule::PatternList => "pattern_list"@,
        Rule::PatternItem => "pattern_item"@,
        Rule::PathPattern => "path_pattern"@,
        Rule::ShortestPathFn => "shortest_path_fn"@,
        Rule::AllShortestPathsFn => "all_shortest_paths_fn"@,
        Rule::Pattern => "pattern"@,
        Rule::CreatePatternList => "create_pattern_list"@,
        Rule::CreatePattern => "create_pattern"@,
        Rule::NodePattern => "node_pattern"@,
        Rule::LabelSpec => "label_spec"@,
        Rule::RelPattern => "rel_pattern"@,
        Rule::RelBoth => "rel_both"@,
        Rule::RelRight => "rel_right"@,
        Rule::RelLeft => "rel_left"@,
        Rule::RelUndirected => "rel_undirected"@,
        Rule::RelBothBare => "rel_both_bare"@,
        Rule::RelRightBare => "rel_right_bare"@,
        Rule::RelLeftBare => "rel_left_bare"@,
        Rule::RelUndirectedBare => "rel_undirected_bare"@,
        Rule::RelDetail => "rel_detail"@,
        Rule::RelTypeSpec => "rel_type_spec"@,
        Rule::VarLength => "var_length"@,
        Rule::IntRange => "int_range"@,
        Rule::FixedLength => "fixed_length"@,
        Rule::Integer => "integer"@,
        Rule::PropertyMap => "property_map"@,
        Rule::PropertyPair => "property_pair"@,
        Rule::Ident => "ident"@,
        Rule::SymbolicName => "symbolic_name"@,
        Rule::PlainIdent => "plain_ident"@,
        Rule::BoolExpr => "bool_expr"@,
        Rule::Expr => "expr"@,
        Rule::OrOp => "or_op"@,
        Rule::XorTerm => "xor_term"@,
        Rule::XorOp => "xor_op"@,
        Rule::BoolTerm => "bool_term"@,
        Rule::AndOp => "and_op"@,
        Rule::BoolFactor => "bool_factor"@,
        Rule::NotOp => "not_op"@,
        Rule::BoolPrimary => "bool_primary"@,
        Rule::CmpOrValue => "cmp_or_value"@,
        Rule::CmpSuffix => "cmp_suffix"@,
        Rule::CompOp => "comp_op"@,
        Rule::PredicateExpr => "predicate_expr"@,
        Rule::IsNotNullSuffix => "is_not_null_suffix"@,
        Rule::IsNullSuffix => "is_null_suffix"@,
        Rule::InSuffix => "in_suffix"@,
        Rule::StringPredSuffix => "string_pred_suffix"@,
        Rule::StringPredOp => "string_pred_op"@,
        Rule::StartsWithOp => "starts_with_op"@,
        Rule::EndsWithOp => "ends_with_op"@,
        Rule::ContainsOp => "contains_op"@,
        Rule::CmpPrimary => "cmp_primary"@,
        Rule::ExistsSubquery => "exists_subquery"@,
        Rule::ExistsFullSubquery => "exists_full_subquery"@,
        Rule::PatternPredicate => "pattern_predicate"@,
        Rule::AddExpr => "add_expr"@,
        Rule::AddOp => "add_op"@,
        Rule::MulExpr => "mul_expr"@,
        Rule::MulOp => "mul_op"@,
        Rule::ExpExpr => "exp_expr"@,
        Rule::ExpOp => "exp_op"@,
        Rule::InExpr => "in_expr"@,
        Rule::AtomExpr => "atom_expr"@,
        Rule::UnaryMinusExpr => "unary_minus_expr"@,
        Rule::Star => "star"@,
        Rule::Variable => "variable"@,
        Rule::Parameter => "parameter"@,
        Rule::ParameterName => "parameter_name"@,
        Rule::HasLabelExpr => "has_label_expr"@,
        Rule::Subscript => "subscript"@,
        Rule::SubscriptInner => "subscript_inner"@,
        Rule::SliceFull => "slice_full"@,
        Rule::SliceFrom => "slice_from"@,
        Rule::SliceTo => "slice_to"@,
        Rule::DotAccess => "dot_access"@,
        Rule::CaseExpr => "case_expr"@,
        Rule::CaseOperand => "case_operand"@,
        Rule::CaseWhenClause => "case_when_clause"@,
        Rule::CaseElseClause => "case_else_clause"@,
        Rule::QuantifierExpr => "quantifier_expr"@,
        Rule::QuantifierName => "quantifier_name"@,
        Rule::FunctionArgs => "function_args"@,
        Rule::ExprList => "expr_list"@,
        Rule::DottedFunctionCall => "dotted_function_call"@,
        Rule::DottedFunctionName => "dotted_function_name"@,
        Rule::FunctionCall => "function_call"@,
        Rule::FunctionName => "function_name"@,
        Rule::UnknownFunctionCall => "unknown_function_call"@,
        Rule::Literal => "literal"@,
        Rule::FloatLiteral => "float_literal"@,
        Rule::IntegerLiteral => "integer_literal"@,
        Rule::StringLiteral => "string_literal"@,
        Rule::SingleQuoted => "single_quoted"@,
        Rule::SingleInner => "single_inner"@,
        Rule::DoubleQuoted => "double_quoted"@,
        Rule::DoubleInner => "double_inner"@,
        Rule::BoolLiteral => "bool_literal"@,
        Rule::NullLiteral => "null_literal"@,
        Rule::ListLiteral => "list_literal"@,
        Rule::ListComprehension => "list_comprehension"@,
        Rule::ListCompWhere => "list_comp_where"@,
        Rule::ListCompMap => "list_comp_map"@,
        Rule::PatternComprehension => "pattern_comprehension"@,
        Rule::MapLiteral => "map_literal"@,
        Rule::MapPair => "map_pair"@,
    }
}

/// The name of a rule.
pub fn rule_name(rule: Rule) -> (r: &'static str)
    ensures
        r@ == name_of(rule),
{
    proof {
        reveal(name_of);
    }
    match rule {
        Rule::Statement => "statement",
        Rule::UnionStmt => "union_stmt",
        Rule::UnionOp => "union_op",
        Rule::SingleStmt => "single_stmt",
        Rule::ExplainStmt => "explain_stmt",
        Rule::MatchStmt => "match_stmt",
        Rule::MatchPart => "match_part",
        Rule::OptionalMatchClause => "optional_match_clause",
        Rule::DeleteStmt => "delete_stmt",
        Rule::SetStmt => "set_stmt",
        Rule::RemoveStmt => "remove_stmt",
        Rule::CreateStmt => "create_stmt",
        Rule::MergeStmt => "merge_stmt",
        Rule::UnwindStmt => "unwind_stmt",
        Rule::UnwindReturn => "unwind_return",
        Rule::UnwindCreate => "unwind_create",
        Rule::WithStmt => "with_stmt",
        Rule::ReturnStmt => "return_stmt",
        Rule::CallStmt => "call_stmt",
        Rule::ProcedureName => "procedure_name",
        Rule::YieldClause => "yield_clause",
        Rule::YieldStar => "yield_star",
        Rule::YieldItems => "yield_items",
        Rule::YieldItem => "yield_item",
        Rule::MultiClauseStmt => "multi_clause_stmt",
        Rule::MultiMatchClause => "multi_match_clause",
        Rule::MultiCreateClause => "multi_create_clause",
        Rule::MultiMergeClause => "multi_merge_clause",
        Rule::MultiSetClause => "multi_set_clause",
        Rule::MultiRemoveClause => "multi_remove_clause",
        Rule::MultiDeleteClause => "multi_delete_clause",
        Rule::MultiCallClause => "multi_call_clause",
        Rule::MatchCreateStmt => "match_create_stmt",
        Rule::MatchMergeStmt => "match_merge_stmt",
        Rule::DetachKeyword => "detach_keyword",
        Rule::DeleteExprList => "delete_expr_list",
        Rule::OnCreateClause => "on_create_clause",
        Rule::OnMatchClause => "on_match_clause",
        Rule::AssignmentList => "assignment_list",
        Rule::SetItem => "set_item",
        Rule::SetLabel => "set_label",
        Rule::SetMapMerge => "set_map_merge",
        Rule::SetMap => "set_map",
        Rule::Assignment => "assignment",
        Rule::ExprPropertyAccess => "expr_property_access",
        Rule::PropertyAccess => "property_access",
        Rule::RemoveItemList => "remove_item_list",
        Rule::RemoveItem => "remove_item",
        Rule::RemoveLabel => "remove_label",
        Rule::RemoveProperty => "remove_property",
        Rule::WhereClause => "where_clause",
        Rule::WithClause => "with_clause",
        Rule::UnwindClause => "unwind_clause",
        Rule::ReturnClause => "return_clause",
        Rule::DistinctKeyword => "distinct_keyword",
        Rule::ReturnItems => "return_items",
        Rule::ReturnItem => "return_item",
        Rule::Alias => "alias",
        Rule::OrderByClause => "order_by_clause",
        Rule::SortItems => "sort_items",
        Rule::SortItem => "sort_item",
        Rule::SortDirection => "sort_direction",
        Rule::SkipClause => "skip_clause",
        Rule::LimitClause => "limit_clause",
        Rule::PatternList => "pattern_list",
        Rule::PatternItem => "pattern_item",
        Rule::PathPattern => "path_pattern",
        Rule::ShortestPathFn => "shortest_path_fn",
        Rule::AllShortestPathsFn => "all_shortest_paths_fn",
        Rule::Pattern => "pattern",
        Rule::CreatePatternList => "create_pattern_list",
        Rule::CreatePattern => "create_pattern",
        Rule::NodePattern => "node_pattern",
        Rule::LabelSpec => "label_spec",
        Rule::RelPattern => "rel_pattern",
        Rule::RelBoth => "rel_both",
        Rule::RelRight => "rel_right",
        Rule::RelLeft => "rel_left",
        Rule::RelUndirected => "rel_undirected",
        Rule::RelBothBare => "rel_both_bare",
        Rule::RelRightBare => "rel_right_bare",
        Rule::RelLeftBare => "rel_left_bare",
        Rule::RelUndirectedBare => "rel_undirected_bare",
        Rule::RelDetail => "rel_detail",
        Rule::RelTypeSpec => "rel_type_spec",
        Rule::VarLength => "var_length",
        Rule::IntRange => "int_range",
        Rule::FixedLength => "fixed_length",
        Rule::Integer => "integer",
        Rule::PropertyMap => "property_map",
        Rule::PropertyPair => "property_pair",
        Rule::Ident => "ident",
        Rule::SymbolicName => "symbolic_name",
        Rule::PlainIdent => "plain_ident",
        Rule::BoolExpr => "bool_expr",
        Rule::Expr => "expr",
        Rule::OrOp => "or_op",
        Rule::XorTerm => "xor_term",
        Rule::XorOp => "xor_op",
        Rule::BoolTerm => "bool_term",
        Rule::AndOp => "and_op",
        Rule::BoolFactor => "bool_factor",
        Rule::NotOp => "not_op",
        Rule::BoolPrimary => "bool_primary",
        Rule::CmpOrValue => "cmp_or_value",
        Rule::CmpSuffix => "cmp_suffix",
        Rule::CompOp => "comp_op",
        Rule::PredicateExpr => "predicate_expr",
        Rule::IsNotNullSuffix => "is_not_null_suffix",
        Rule::IsNullSuffix => "is_null_suffix",
        Rule::InSuffix => "in_suffix",
        Rule::StringPredSuffix => "string_pred_suffix",
        Rule::StringPredOp => "string_pred_op",
        Rule::StartsWithOp => "starts_with_op",
        Rule::EndsWithOp => "ends_with_op",
        Rule::ContainsOp => "contains_op",
        Rule::CmpPrimary => "cmp_primary",
        Rule::ExistsSubquery => "exists_subquery",
        Rule::ExistsFullSubquery => "exists_full_subquery",
        Rule::PatternPredicate => "pattern_predicate",
        Rule::AddExpr => "add_expr",
        Rule::AddOp => "add_op",
        Rule::MulExpr => "mul_expr",
        Rule::MulOp => "mul_op",
        Rule::ExpExpr => "exp_expr",
        Rule::ExpOp => "exp_op",
        Rule::InExpr => "in_expr",
        Rule::AtomExpr => "atom_expr",
        Rule::UnaryMinusExpr => "unary_minus_expr",
        Rule::Star => "star",
        Rule::Variable => "variable",
        Rule::Parameter => "parameter",
        Rule::ParameterName => "parameter_name",
        Rule::HasLabelExpr => "has_label_expr",
        Rule::Subscript => "subscript",
        Rule::SubscriptInner => "subscript_inner",
        Rule::SliceFull => "slice_full",
        Rule::SliceFrom => "slice_from",
        Rule::SliceTo => "slice_to",
        Rule::DotAccess => "dot_access",
        Rule::CaseExpr => "case_expr",
        Rule::CaseOperand => "case_operand",
        Rule::CaseWhenClause => "case_when_clause",
        Rule::CaseElseClause => "case_else_clause",
        Rule::QuantifierExpr => "quantifier_expr",
        Rule::QuantifierName => "quantifier_name",
        Rule::FunctionArgs => "function_args",
        Rule::ExprList => "expr_list",
        Rule::DottedFunctionCall => "dotted_function_call",
        Rule::DottedFunctionName => "dotted_function_name",
        Rule::FunctionCall => "function_call",
        Rule::FunctionName => "function_name",
        Rule::UnknownFunctionCall => "unknown_function_call",
        Rule::Literal => "literal",
        Rule::FloatLiteral => "float_literal",
        Rule::IntegerLiteral => "integer_literal",
        Rule::StringLiteral => "string_literal",
        Rule::SingleQuoted => "single_quoted",
        Rule::SingleInner => "single_inner",
        Rule::DoubleQuoted => "double_quoted",
        Rule::DoubleInner => "double_inner",
        Rule::BoolLiteral => "bool_literal",
        Rule::NullLiteral => "null_literal",
        Rule::ListLiteral => "list_literal",
        Rule::ListComprehension => "list_comprehension",
        Rule::ListCompWhere => "list_comp_where",
        Rule::ListCompMap => "list_comp_map",
        Rule::PatternComprehension => "pattern_comprehension",
        Rule::MapLiteral => "map_literal",
        Rule::MapPair => "map_pair",
    }
}

/// How a rule is described to the user; a rule without a description goes by its name.
#[verifier::opaque]
pub open spec fn description_of(rule: Rule) -> Seq<char> {
    match rule {
        Rule::Statement | Rule::UnionStmt | Rule::SingleStmt | Rule::ExplainStmt => "a Cypher statement (MATCH, CREATE, DELETE, MERGE, EXPLAIN ...)"@,
        Rule::UnionOp => "UNION or UNION ALL"@,
        Rule::Expr | Rule::AddExpr | Rule::MulExpr | Rule::AtomExpr => "an expression (property, literal, or function call)"@,
        Rule::BoolExpr | Rule::BoolPrimary | Rule::BoolFactor | Rule::BoolTerm | Rule::XorTerm => "a condition"@,
        Rule::Ident => "an identifier"@,
        Rule::Pattern | Rule::PatternList | Rule::PatternItem => "a graph pattern like (n:Label)"@,
        Rule::PathPattern | Rule::ShortestPathFn | Rule::AllShortestPathsFn => "a path pattern like p = shortestPath((a)-[*]->(b))"@,
        Rule::NodePattern => "a node pattern like (n:Label {prop: value})"@,
        Rule::RelPattern | Rule::RelRight | Rule::RelLeft | Rule::RelUndirected => "a relationship pattern like -[:TYPE]->"@,
        Rule::DistinctKeyword => "DISTINCT"@,
        Rule::ReturnClause => "a RETURN clause"@,
        Rule::ReturnItems | Rule::ReturnItem => "a RETURN expression"@,
        Rule::WhereClause => "a WHERE clause"@,
        Rule::WithClause => "a WITH clause"@,
        Rule::OrderByClause => "an ORDER BY clause"@,
        Rule::SkipClause => "a SKIP clause"@,
        Rule::LimitClause => "a LIMIT clause"@,
        Rule::Literal => "a value (string, number, boolean, or null)"@,
        Rule::IntegerLiteral | Rule::Integer => "an integer"@,
        Rule::FloatLiteral => "a number"@,
        Rule::StringLiteral => "a string (e.g. 'hello')"@,
        Rule::PropertyAccess => "a property access like n.name"@,
        Rule::PropertyMap => "a property map like {name: 'Alice'}"@,
        Rule::LabelSpec => "a label like :Person"@,
        Rule::FunctionCall => "a function call like count(*)"@,
        Rule::CaseWhenClause => "a WHEN condition"@,
        Rule::CaseElseClause => "an ELSE value"@,
        Rule::CaseExpr => "a CASE expression"@,
        Rule::ExistsSubquery => "an EXISTS { } subquery"@,
        Rule::ExistsFullSubquery => "an EXISTS { MATCH ... } subquery"@,
        Rule::PatternComprehension => "a pattern comprehension like [(n)-->() | expr]"@,
        Rule::ListComprehension => "a list comprehension like [x IN list | expr]"@,
        Rule::CompOp => "a comparison operator (=, <>, <, >)"@,
        Rule::Alias => "an alias (AS name)"@,
        Rule::Assignment | Rule::AssignmentList => "a property assignment like n.prop = value"@,
        Rule::SetItem | Rule::SetLabel | Rule::SetMap | Rule::SetMapMerge => "a SET item (property, label, or map)"@,
        Rule::DetachKeyword => "DETACH"@,
        Rule::SymbolicName => "a name (e.g. Person, alice, my_label)"@,
        Rule::MultiCreateClause => "a CREATE clause"@,
        Rule::MultiMergeClause => "a MERGE clause"@,
        Rule::UnwindClause => "an UNWIND clause"@,
        Rule::MultiCallClause => "a CALL clause"@,
        Rule::MultiSetClause => "a SET clause"@,
        Rule::MultiRemoveClause => "a REMOVE clause"@,
        Rule::OptionalMatchClause => "an OPTIONAL MATCH clause"@,
        _ => name_of(rule),
    }
}

/// How a rule is described to the user.
pub fn humanize_rule_name(rule: Rule) -> (r: &'static str)
    ensures
        r@ == description_of(rule),
{
    proof {
        reveal(description_of);
    }
    match rule {
        Rule::Statement | Rule::UnionStmt | Rule::SingleStmt | Rule::ExplainStmt => "a Cypher statement (MATCH, CREATE, DELETE, MERGE, EXPLAIN ...)",
        Rule::UnionOp => "UNION or UNION ALL",
        Rule::Expr | Rule::AddExpr | Rule::MulExpr | Rule::AtomExpr => "an expression (property, literal, or function call)",
        Rule::BoolExpr | Rule::BoolPrimary | Rule::BoolFactor | Rule::BoolTerm | Rule::XorTerm => "a condition",
        Rule::Ident => "an identifier",
        Rule::Pattern | Rule::PatternList | Rule::PatternItem => "a graph pattern like (n:Label)",
        Rule::PathPattern | Rule::ShortestPathFn | Rule::AllShortestPathsFn => "a path pattern like p = shortestPath((a)-[*]->(b))",
        Rule::NodePattern => "a node pattern like (n:Label {prop: value})",
        Rule::RelPattern | Rule::RelRight | Rule::RelLeft | Rule::RelUndirected => "a relationship pattern like -[:TYPE]->",
        Rule::DistinctKeyword => "DISTINCT",
        Rule::ReturnClause => "a RETURN clause",
        Rule::ReturnItems | Rule::ReturnItem => "a RETURN expression",
        Rule::WhereClause => "a WHERE clause",
        Rule::WithClause => "a WITH clause",
        Rule::OrderByClause => "an ORDER BY clause",
        Rule::SkipClause => "a SKIP clause",
        Rule::LimitClause => "a LIMIT clause",
        Rule::Literal => "a value (string, number, boolean, or null)",
        Rule::IntegerLiteral | Rule::Integer => "an integer",
        Rule::FloatLiteral => "a number",
        Rule::StringLiteral => "a string (e.g. 'hello')",
        Rule::PropertyAccess => "a property access like n.name",
        Rule::PropertyMap => "a property map like {name: 'Alice'}",
        Rule::LabelSpec => "a label like :Person",
        Rule::FunctionCall => "a function call like count(*)",
        Rule::CaseWhenClause => "a WHEN condition",
        Rule::CaseElseClause => "an ELSE value",
        Rule::CaseExpr => "a CASE expression",
        Rule::ExistsSubquery => "an EXISTS { } subquery",
        Rule::ExistsFullSubquery => "an EXISTS { MATCH ... } subquery",
        Rule::PatternComprehension => "a pattern comprehension like [(n)-->() | expr]",
        Rule::ListComprehension => "a list comprehension like [x IN list | expr]",
        Rule::CompOp => "a comparison operator (=, <>, <, >)",
        Rule::Alias => "an alias (AS name)",
        Rule::Assignment | Rule::AssignmentList => "a property assignment like n.prop = value",
        Rule::SetItem | Rule::SetLabel | Rule::SetMap | Rule::SetMapMerge => "a SET item (property, label, or map)",
        Rule::DetachKeyword => "DETACH",
        Rule::SymbolicName => "a name (e.g. Person, alice, my_label)",
        Rule::MultiCreateClause => "a CREATE clause",
        Rule::MultiMergeClause => "a MERGE clause",
        Rule::UnwindClause => "an UNWIND clause",
        Rule::MultiCallClause => "a CALL clause",
        Rule::MultiSetClause => "a SET clause",
        Rule::MultiRemoveClause => "a REMOVE clause",
        Rule::OptionalMatchClause => "an OPTIONAL MATCH clause",
        _ => rule_name(rule),
    }
}

} // verus!
