//! The grammar of the query language.
use super::peg::{lit, list_of, many, maybe, one, rule, unless, word, Class, Peg};
use super::rule::Rule;
use vstd::prelude::*;

verus! {

/// The end of a statement.
#[verifier::allow_in_spec]
pub fn stmt_end() -> Peg
    returns
        (lit(";").or(Peg::End).or(word("union"))),
{
    lit(";").or(Peg::End).or(word("union"))
}

/// RETURN and what orders and cuts its rows.
#[verifier::allow_in_spec]
pub fn tail() -> Peg
    returns
        (rule(Rule::ReturnClause)
            .opt(rule(Rule::OrderByClause))
            .opt(rule(Rule::SkipClause))
            .opt(rule(Rule::LimitClause))),
{
    rule(Rule::ReturnClause)
        .opt(rule(Rule::OrderByClause))
        .opt(rule(Rule::SkipClause))
        .opt(rule(Rule::LimitClause))
}

/// A clause between the first and the last of a reading statement.
#[verifier::allow_in_spec]
pub fn between() -> Peg
    returns
        (rule(Rule::WithClause).or(rule(Rule::MatchPart)).or(rule(Rule::UnwindClause))),
{
    rule(Rule::WithClause).or(rule(Rule::MatchPart)).or(rule(Rule::UnwindClause))
}

/// MATCH with its condition and its optional parts.
#[verifier::allow_in_spec]
pub fn match_head() -> Peg
    returns
        (word("match")
            .next(rule(Rule::PatternList))
            .opt(rule(Rule::WhereClause))
            .rep(rule(Rule::OptionalMatchClause))),
{
    word("match")
        .next(rule(Rule::PatternList))
        .opt(rule(Rule::WhereClause))
        .rep(rule(Rule::OptionalMatchClause))
}

/// CALL without what follows it.
#[verifier::allow_in_spec]
pub fn call_head() -> Peg
    returns
        (word("call")
            .next(rule(Rule::ProcedureName))
            .opt(lit("(").opt(list_of(Rule::Expr)).next(lit(")")))
            .opt(rule(Rule::YieldClause))),
{
    word("call")
        .next(rule(Rule::ProcedureName))
        .opt(lit("(").opt(list_of(Rule::Expr)).next(lit(")")))
        .opt(rule(Rule::YieldClause))
}

/// One clause of a multi-clause statement.
#[verifier::allow_in_spec]
pub fn multi_clause() -> Peg
    returns
        (rule(Rule::MultiMatchClause)
            .or(rule(Rule::MultiCreateClause))
            .or(rule(Rule::MultiMergeClause))
            .or(rule(Rule::UnwindClause))
            .or(rule(Rule::WithClause))
            .or(rule(Rule::MultiSetClause))
            .or(rule(Rule::MultiRemoveClause))
            .or(rule(Rule::MultiDeleteClause))
            .or(rule(Rule::MultiCallClause))),
{
    rule(Rule::MultiMatchClause)
        .or(rule(Rule::MultiCreateClause))
        .or(rule(Rule::MultiMergeClause))
        .or(rule(Rule::UnwindClause))
        .or(rule(Rule::WithClause))
        .or(rule(Rule::MultiSetClause))
        .or(rule(Rule::MultiRemoveClause))
        .or(rule(Rule::MultiDeleteClause))
        .or(rule(Rule::MultiCallClause))
}

/// A plain name.
#[verifier::allow_in_spec]
pub fn name() -> Peg
    returns
        (one(Class::NameStart).close(many(one(Class::NameChar)))),
{
    one(Class::NameStart).close(many(one(Class::NameChar)))
}

/// A clause after the first MATCH of an EXISTS subquery.
#[verifier::allow_in_spec]
pub fn exists_part() -> Peg
    returns
        (word("match")
            .next(rule(Rule::PatternList))
            .opt(rule(Rule::WhereClause))
            .or(rule(Rule::WithClause))
            .or(rule(Rule::UnwindClause))
            .or(rule(Rule::MultiSetClause))
            .or(rule(Rule::MultiDeleteClause))
            .or(rule(Rule::MultiRemoveClause))
            .or(rule(Rule::MultiCreateClause))
            .or(rule(Rule::MultiMergeClause))),
{
    word("match")
        .next(rule(Rule::PatternList))
        .opt(rule(Rule::WhereClause))
        .or(rule(Rule::WithClause))
        .or(rule(Rule::UnwindClause))
        .or(rule(Rule::MultiSetClause))
        .or(rule(Rule::MultiDeleteClause))
        .or(rule(Rule::MultiRemoveClause))
        .or(rule(Rule::MultiCreateClause))
        .or(rule(Rule::MultiMergeClause))
}

/// The arguments of a call.
#[verifier::allow_in_spec]
pub fn call_args() -> Peg
    returns
        (lit("(").next(rule(Rule::FunctionArgs)).next(lit(")"))),
{
    lit("(").next(rule(Rule::FunctionArgs)).next(lit(")"))
}

/// A plain name in ASCII.
#[verifier::allow_in_spec]
pub fn ascii_name() -> Peg
    returns
        (one(Class::AsciiStart).close(many(one(Class::AsciiChar)))),
{
    one(Class::AsciiStart).close(many(one(Class::AsciiChar)))
}

/// An optional minus.
#[verifier::allow_in_spec]
pub fn sign() -> Peg
    returns
        (maybe(lit("-"))),
{
    maybe(lit("-"))
}

/// The exponent of a number.
#[verifier::allow_in_spec]
pub fn exponent() -> Peg
    returns
        (lit("e")
            .or(lit("E"))
            .close(maybe(lit("+").or(lit("-"))))
            .close(one(Class::Digit).close(many(one(Class::Digit))))),
{
    lit("e")
        .or(lit("E"))
        .close(maybe(lit("+").or(lit("-"))))
        .close(one(Class::Digit).close(many(one(Class::Digit))))
}

/// What a rule of the grammar matches.
#[verifier::opaque]
pub open spec fn body_of(r: Rule) -> Peg {
    match r {
        Rule::Statement => Peg::Gap.close(rule(Rule::UnionStmt).opt(lit(";")).next(Peg::End)),
        Rule::UnionStmt => rule(Rule::SingleStmt).rep(rule(Rule::UnionOp).next(rule(Rule::SingleStmt))),
        Rule::UnionOp => word("union").opt(word("all")),
        Rule::SingleStmt => rule(Rule::ExplainStmt)
            .or(rule(Rule::MatchStmt).see(stmt_end()))
            .or(rule(Rule::DeleteStmt).see(stmt_end()))
            .or(rule(Rule::SetStmt).see(stmt_end()))
            .or(rule(Rule::RemoveStmt).see(stmt_end()))
            .or(rule(Rule::CreateStmt).see(stmt_end()))
            .or(rule(Rule::MergeStmt).see(stmt_end()))
            .or(rule(Rule::UnwindStmt).see(stmt_end()))
            .or(rule(Rule::WithStmt).see(stmt_end()))
            .or(rule(Rule::ReturnStmt).see(stmt_end()))
            .or(rule(Rule::CallStmt).see(stmt_end()))
            .or(rule(Rule::MultiClauseStmt))
            .or(rule(Rule::MatchCreateStmt))
            .or(rule(Rule::MatchMergeStmt)),
        Rule::ExplainStmt => word("explain")
            .next(
                rule(Rule::MatchStmt)
                    .see(stmt_end())
                    .or(rule(Rule::UnwindStmt).see(stmt_end()))
                    .or(rule(Rule::WithStmt).see(stmt_end()))
                    .or(rule(Rule::DeleteStmt).see(stmt_end()))
                    .or(rule(Rule::SetStmt).see(stmt_end()))
                    .or(rule(Rule::RemoveStmt).see(stmt_end()))
                    .or(rule(Rule::CreateStmt).see(stmt_end()))
                    .or(rule(Rule::MergeStmt).see(stmt_end()))
                    .or(rule(Rule::ReturnStmt).see(stmt_end()))
                    .or(rule(Rule::CallStmt).see(stmt_end()))
                    .or(rule(Rule::MultiClauseStmt))
                    .or(rule(Rule::MatchCreateStmt)),
            ),
        Rule::MatchStmt => rule(Rule::MatchPart).rep(between()).next(tail()),
        Rule::MatchPart => match_head()
            .or(rule(Rule::OptionalMatchClause).rep(rule(Rule::OptionalMatchClause))),
        Rule::OptionalMatchClause => word("optional")
            .next(word("match"))
            .next(rule(Rule::PatternList))
            .opt(rule(Rule::WhereClause)),
        Rule::DeleteStmt => match_head()
            .opt(rule(Rule::DetachKeyword))
            .next(word("delete"))
            .next(rule(Rule::DeleteExprList))
            .opt(tail()),
        Rule::SetStmt => match_head()
            .next(word("set"))
            .next(rule(Rule::AssignmentList))
            .rep(rule(Rule::WithClause).or(rule(Rule::MatchPart)))
            .opt(tail()),
        Rule::RemoveStmt => match_head().next(word("remove")).next(rule(Rule::RemoveItemList)).opt(tail()),
        Rule::CreateStmt => word("create").next(rule(Rule::CreatePatternList)).opt(tail()),
        Rule::MergeStmt => word("merge")
            .next(rule(Rule::PatternItem))
            .rep(rule(Rule::OnCreateClause).or(rule(Rule::OnMatchClause)))
            .opt(tail()),
        Rule::UnwindStmt => word("unwind")
            .next(rule(Rule::Expr))
            .next(word("as"))
            .next(rule(Rule::Ident))
            .next(rule(Rule::UnwindCreate).or(rule(Rule::UnwindReturn))),
        Rule::UnwindReturn => maybe(rule(Rule::WhereClause).gap()).rep(between()).next(tail()),
        Rule::UnwindCreate => word("create").next(rule(Rule::CreatePatternList)).rep(between()).opt(tail()),
        Rule::WithStmt => rule(Rule::WithClause).rep(between()).next(tail()),
        Rule::ReturnStmt => tail(),
        Rule::CallStmt => call_head().opt(tail()),
        Rule::ProcedureName => name().close(many(lit(".").close(name()))),
        Rule::YieldClause => word("yield").next(rule(Rule::YieldStar).or(rule(Rule::YieldItems))),
        Rule::YieldStar => lit("*"),
        Rule::YieldItems => list_of(Rule::YieldItem),
        Rule::YieldItem => rule(Rule::Ident).opt(word("as").next(rule(Rule::Ident))),
        Rule::MultiClauseStmt => multi_clause().rep(multi_clause()).opt(tail()),
        Rule::MultiMatchClause => match_head()
            .or(rule(Rule::OptionalMatchClause).rep(rule(Rule::OptionalMatchClause))),
        Rule::MultiCreateClause => word("create").next(rule(Rule::CreatePatternList)),
        Rule::MultiMergeClause => word("merge")
            .next(rule(Rule::PatternItem))
            .rep(rule(Rule::OnCreateClause).or(rule(Rule::OnMatchClause))),
        Rule::MultiSetClause => word("set").next(rule(Rule::AssignmentList)),
        Rule::MultiRemoveClause => word("remove").next(rule(Rule::RemoveItemList)),
        Rule::MultiDeleteClause => maybe(rule(Rule::DetachKeyword).gap())
            .next(word("delete"))
            .next(rule(Rule::DeleteExprList)),
        Rule::MultiCallClause => call_head(),
        Rule::MatchCreateStmt => word("match")
            .next(rule(Rule::PatternList))
            .opt(rule(Rule::WhereClause))
            .next(word("create"))
            .next(rule(Rule::CreatePatternList))
            .opt(tail()),
        Rule::MatchMergeStmt => word("match")
            .next(rule(Rule::PatternList))
            .opt(rule(Rule::WhereClause))
            .next(word("merge"))
            .next(rule(Rule::PatternItem))
            .rep(rule(Rule::OnCreateClause).or(rule(Rule::OnMatchClause)))
            .opt(tail()),
        Rule::DetachKeyword => word("detach"),
        Rule::DeleteExprList => list_of(Rule::Expr),
        Rule::OnCreateClause => word("on").next(word("create")).next(word("set")).next(rule(Rule::AssignmentList)),
        Rule::OnMatchClause => word("on").next(word("match")).next(word("set")).next(rule(Rule::AssignmentList)),
        Rule::AssignmentList => list_of(Rule::SetItem),
        Rule::SetItem => rule(Rule::SetLabel)
            .or(rule(Rule::SetMapMerge))
            .or(rule(Rule::Assignment))
            .or(rule(Rule::SetMap)),
        Rule::SetLabel => rule(Rule::Ident).next(rule(Rule::LabelSpec)),
        Rule::SetMapMerge => rule(Rule::Ident).next(lit("+=")).next(rule(Rule::Expr)),
        Rule::SetMap => rule(Rule::Ident).next(lit("=")).next(rule(Rule::Expr)),
        Rule::Assignment => rule(Rule::ExprPropertyAccess)
            .or(rule(Rule::PropertyAccess))
            .next(lit("="))
            .next(rule(Rule::Expr)),
        Rule::ExprPropertyAccess => lit("(")
            .next(rule(Rule::Expr))
            .next(lit(")"))
            .next(lit("."))
            .next(rule(Rule::SymbolicName)),
        Rule::PropertyAccess => rule(Rule::Ident).close(lit(".")).close(rule(Rule::Ident)),
        Rule::RemoveItemList => list_of(Rule::RemoveItem),
        Rule::RemoveItem => rule(Rule::RemoveLabel).or(rule(Rule::RemoveProperty)),
        Rule::RemoveLabel => rule(Rule::Ident).next(rule(Rule::LabelSpec)),
        Rule::RemoveProperty => rule(Rule::PropertyAccess),
        Rule::WhereClause => word("where").next(rule(Rule::BoolExpr)),
        Rule::WithClause => word("with")
            .opt(rule(Rule::DistinctKeyword))
            .next(rule(Rule::ReturnItems))
            .opt(rule(Rule::OrderByClause))
            .opt(rule(Rule::SkipClause))
            .opt(rule(Rule::LimitClause))
            .opt(rule(Rule::WhereClause)),
        Rule::UnwindClause => word("unwind").next(rule(Rule::Expr)).next(word("as")).next(rule(Rule::Ident)),
        Rule::ReturnClause => word("return").opt(rule(Rule::DistinctKeyword)).next(rule(Rule::ReturnItems)),
        Rule::DistinctKeyword => word("distinct"),
        Rule::ReturnItems => list_of(Rule::ReturnItem),
        Rule::ReturnItem => rule(Rule::Expr).opt(rule(Rule::Alias)),
        Rule::Alias => word("as").next(rule(Rule::Ident)),
        Rule::OrderByClause => word("order").next(word("by")).next(rule(Rule::SortItems)),
        Rule::SortItems => list_of(Rule::SortItem),
        Rule::SortItem => rule(Rule::Expr).opt(rule(Rule::SortDirection)),
        Rule::SortDirection => word("descending").or(word("desc")).or(word("ascending")).or(word("asc")),
        Rule::SkipClause => word("skip").next(rule(Rule::Expr)),
        Rule::LimitClause => word("limit").next(rule(Rule::Expr)),
        Rule::PatternList => list_of(Rule::PatternItem),
        Rule::PatternItem => rule(Rule::PathPattern).or(rule(Rule::Pattern)),
        Rule::PathPattern => rule(Rule::Ident)
            .next(lit("="))
            .next(
                rule(Rule::ShortestPathFn)
                    .or(rule(Rule::AllShortestPathsFn))
                    .or(rule(Rule::Pattern)),
            ),
        Rule::ShortestPathFn => word("shortestpath").next(lit("(")).next(rule(Rule::Pattern)).next(lit(")")),
        Rule::AllShortestPathsFn => word("allshortestpaths").next(lit("(")).next(rule(Rule::Pattern)).next(lit(")")),
        Rule::Pattern => rule(Rule::NodePattern).rep(rule(Rule::RelPattern).next(rule(Rule::NodePattern))),
        Rule::CreatePatternList => list_of(Rule::CreatePattern),
        Rule::CreatePattern => rule(Rule::NodePattern).rep(rule(Rule::RelPattern).next(rule(Rule::NodePattern))),
        Rule::NodePattern => lit("(")
            .opt(rule(Rule::Ident))
            .opt(rule(Rule::LabelSpec))
            .opt(rule(Rule::PropertyMap))
            .next(lit(")")),
        Rule::LabelSpec => lit(":").next(rule(Rule::SymbolicName)).rep(lit(":").next(rule(Rule::SymbolicName))),
        Rule::RelPattern => rule(Rule::RelBoth)
            .or(rule(Rule::RelRight))
            .or(rule(Rule::RelLeft))
            .or(rule(Rule::RelUndirected))
            .or(rule(Rule::RelBothBare))
            .or(rule(Rule::RelRightBare))
            .or(rule(Rule::RelLeftBare))
            .or(rule(Rule::RelUndirectedBare)),
        Rule::RelBoth => lit("<")
            .next(lit("-"))
            .next(lit("["))
            .next(rule(Rule::RelDetail))
            .next(lit("]"))
            .next(lit("-"))
            .next(lit(">")),
        Rule::RelRight => lit("-")
            .next(lit("["))
            .next(rule(Rule::RelDetail))
            .next(lit("]"))
            .next(lit("-"))
            .next(lit(">")),
        Rule::RelLeft => lit("<")
            .next(lit("-"))
            .next(lit("["))
            .next(rule(Rule::RelDetail))
            .next(lit("]"))
            .next(lit("-")),
        Rule::RelUndirected => lit("-").next(lit("[")).next(rule(Rule::RelDetail)).next(lit("]")).next(lit("-")),
        Rule::RelBothBare => lit("<").next(lit("-")).next(lit("-")).next(lit(">")),
        Rule::RelRightBare => lit("-").next(lit("-")).next(lit(">")),
        Rule::RelLeftBare => lit("<").next(lit("-")).next(lit("-")),
        Rule::RelUndirectedBare => lit("-").next(lit("-")),
        Rule::RelDetail => maybe(rule(Rule::Ident).gap())
            .opt(rule(Rule::RelTypeSpec))
            .opt(rule(Rule::VarLength))
            .opt(rule(Rule::PropertyMap)),
        Rule::RelTypeSpec => lit(":")
            .next(rule(Rule::SymbolicName))
            .rep(lit("|").opt(lit(":")).next(rule(Rule::SymbolicName))),
        Rule::VarLength => lit("*")
            .opt(rule(Rule::IntRange).or(rule(Rule::FixedLength)))
            .opt(rule(Rule::PropertyMap)),
        Rule::IntRange => maybe(rule(Rule::Integer).gap()).next(lit("..")).opt(rule(Rule::Integer)),
        Rule::FixedLength => one(Class::Digit).close(many(one(Class::Digit))),
        Rule::Integer => one(Class::Digit).close(many(one(Class::Digit))),
        Rule::PropertyMap => lit("{").opt(list_of(Rule::PropertyPair)).next(lit("}")),
        Rule::PropertyPair => rule(Rule::Ident).next(lit(":")).next(rule(Rule::Expr)),
        Rule::Ident => lit("`").close(many(one(Class::NotBacktick))).close(lit("`")).or(name()),
        Rule::SymbolicName => name(),
        Rule::PlainIdent => name(),
        Rule::BoolExpr => rule(Rule::Expr),
        Rule::Expr => rule(Rule::XorTerm).rep(rule(Rule::OrOp).next(rule(Rule::XorTerm))),
        Rule::OrOp => word("or"),
        Rule::XorTerm => rule(Rule::BoolTerm).rep(rule(Rule::XorOp).next(rule(Rule::BoolTerm))),
        Rule::XorOp => word("xor"),
        Rule::BoolTerm => rule(Rule::BoolFactor).rep(rule(Rule::AndOp).next(rule(Rule::BoolFactor))),
        Rule::AndOp => word("and"),
        Rule::BoolFactor => many(rule(Rule::NotOp).gap()).next(rule(Rule::BoolPrimary)),
        Rule::NotOp => word("not"),
        Rule::BoolPrimary => rule(Rule::CmpOrValue),
        Rule::CmpOrValue => rule(Rule::PredicateExpr).rep(rule(Rule::CmpSuffix)),
        Rule::CmpSuffix => rule(Rule::CompOp).next(rule(Rule::PredicateExpr)),
        Rule::CompOp => lit("<>")
            .or(lit("<="))
            .or(lit(">="))
            .or(lit("=~"))
            .or(lit("="))
            .or(lit("<"))
            .or(lit(">")),
        Rule::PredicateExpr => rule(Rule::CmpPrimary)
            .opt(
                rule(Rule::IsNotNullSuffix)
                    .or(rule(Rule::IsNullSuffix))
                    .or(rule(Rule::InSuffix))
                    .or(rule(Rule::StringPredSuffix)),
            ),
        Rule::IsNotNullSuffix => word("is").next(word("not")).next(word("null")),
        Rule::IsNullSuffix => word("is").next(word("null")),
        Rule::InSuffix => word("in").next(rule(Rule::AddExpr)),
        Rule::StringPredSuffix => rule(Rule::StringPredOp).next(rule(Rule::AddExpr)),
        Rule::StringPredOp => rule(Rule::StartsWithOp).or(rule(Rule::EndsWithOp)).or(rule(Rule::ContainsOp)),
        Rule::StartsWithOp => word("starts").next(word("with")),
        Rule::EndsWithOp => word("ends").next(word("with")),
        Rule::ContainsOp => word("contains"),
        Rule::CmpPrimary => rule(Rule::ExistsFullSubquery)
            .or(rule(Rule::ExistsSubquery))
            .or(rule(Rule::PatternPredicate))
            .or(rule(Rule::AddExpr)),
        Rule::ExistsSubquery => word("exists")
            .next(lit("{"))
            .next(rule(Rule::PatternList))
            .opt(rule(Rule::WhereClause))
            .next(lit("}")),
        Rule::ExistsFullSubquery => word("exists")
            .next(lit("{"))
            .next(word("match"))
            .next(rule(Rule::PatternList))
            .opt(rule(Rule::WhereClause))
            .rep(exists_part())
            .opt(tail())
            .next(lit("}")),
        Rule::PatternPredicate => rule(Rule::NodePattern)
            .next(
                rule(Rule::RelPattern)
                    .next(rule(Rule::NodePattern))
                    .rep(rule(Rule::RelPattern).next(rule(Rule::NodePattern))),
            ),
        Rule::AddExpr => rule(Rule::MulExpr).rep(rule(Rule::AddOp).next(rule(Rule::MulExpr))),
        Rule::AddOp => lit("+").or(lit("-")),
        Rule::MulExpr => rule(Rule::ExpExpr).rep(rule(Rule::MulOp).next(rule(Rule::ExpExpr))),
        Rule::MulOp => lit("*").or(lit("/")).or(lit("%")),
        Rule::ExpExpr => rule(Rule::AtomExpr).rep(rule(Rule::ExpOp).next(rule(Rule::AtomExpr))),
        Rule::ExpOp => lit("^"),
        Rule::InExpr => rule(Rule::AddExpr).opt(word("in").next(rule(Rule::AddExpr))),
        Rule::AtomExpr => rule(Rule::CaseExpr)
            .or(rule(Rule::QuantifierExpr))
            .or(rule(Rule::DottedFunctionCall))
            .or(rule(Rule::FunctionCall))
            .or(rule(Rule::UnknownFunctionCall))
            .or(rule(Rule::Literal))
            .or(rule(Rule::Parameter))
            .or(rule(Rule::PatternComprehension))
            .or(rule(Rule::ListComprehension))
            .or(rule(Rule::ListLiteral))
            .or(rule(Rule::MapLiteral))
            .or(rule(Rule::HasLabelExpr))
            .or(rule(Rule::PropertyAccess))
            .or(rule(Rule::Variable))
            .or(lit("(").next(rule(Rule::Expr)).next(lit(")")))
            .or(rule(Rule::UnaryMinusExpr))
            .or(rule(Rule::Star))
            .rep(rule(Rule::Subscript).or(rule(Rule::DotAccess))),
        Rule::UnaryMinusExpr => lit("-").next(rule(Rule::AtomExpr)),
        Rule::Star => lit("*"),
        Rule::Variable => rule(Rule::Ident),
        Rule::Parameter => lit("$").close(rule(Rule::ParameterName)),
        Rule::ParameterName => one(Class::NameChar).close(many(one(Class::NameChar))),
        Rule::HasLabelExpr => rule(Rule::Ident).next(rule(Rule::LabelSpec)),
        Rule::Subscript => lit("[").next(rule(Rule::SubscriptInner)).next(lit("]")),
        Rule::SubscriptInner => rule(Rule::SliceFull)
            .or(rule(Rule::SliceFrom))
            .or(rule(Rule::SliceTo))
            .or(rule(Rule::Expr)),
        Rule::SliceFull => rule(Rule::Expr).next(lit("..")).next(rule(Rule::Expr)),
        Rule::SliceFrom => rule(Rule::Expr).next(lit("..")),
        Rule::SliceTo => lit("..").next(rule(Rule::Expr)),
        Rule::DotAccess => unless(lit("..")).next(lit(".")).next(rule(Rule::Ident)),
        Rule::CaseExpr => word("case")
            .opt(rule(Rule::CaseOperand))
            .next(rule(Rule::CaseWhenClause).rep(rule(Rule::CaseWhenClause)))
            .opt(rule(Rule::CaseElseClause))
            .next(word("end")),
        Rule::CaseOperand => unless(word("when")).next(rule(Rule::Expr)),
        Rule::CaseWhenClause => word("when").next(rule(Rule::Expr)).next(word("then")).next(rule(Rule::Expr)),
        Rule::CaseElseClause => word("else").next(rule(Rule::Expr)),
        Rule::QuantifierExpr => rule(Rule::QuantifierName)
            .next(lit("("))
            .next(rule(Rule::Ident))
            .next(word("in"))
            .next(rule(Rule::Expr))
            .next(rule(Rule::WhereClause))
            .next(lit(")")),
        Rule::QuantifierName => word("none").or(word("single")).or(word("any")).or(word("all")),
        Rule::FunctionArgs => rule(Rule::Star)
            .see(lit(")"))
            .or(maybe(maybe(rule(Rule::DistinctKeyword).gap()).next(rule(Rule::ExprList)))),
        Rule::ExprList => list_of(Rule::Expr),
        Rule::DottedFunctionCall => rule(Rule::DottedFunctionName).next(call_args()),
        Rule::DottedFunctionName => ascii_name()
            .close(lit(".").close(ascii_name()).close(many(lit(".").close(ascii_name())))),
        Rule::FunctionCall => rule(Rule::FunctionName).next(call_args()),
        Rule::FunctionName => word("count")
            .or(word("sum"))
            .or(word("avg"))
            .or(word("min"))
            .or(word("max"))
            .or(word("collect"))
            .or(word("percentiledisc"))
            .or(word("percentilecont"))
            .or(word("stdev"))
            .or(word("stdevp")),
        Rule::UnknownFunctionCall => unless(rule(Rule::FunctionName).next(lit("(")))
            .next(rule(Rule::PlainIdent))
            .next(call_args()),
        Rule::Literal => rule(Rule::FloatLiteral)
            .or(rule(Rule::IntegerLiteral))
            .or(rule(Rule::StringLiteral))
            .or(rule(Rule::BoolLiteral))
            .or(rule(Rule::NullLiteral)),
        Rule::FloatLiteral => sign()
            .close(
                many(one(Class::Digit))
                    .close(lit("."))
                    .close(one(Class::Digit).close(many(one(Class::Digit))))
                    .close(maybe(exponent()))
                    .or(one(Class::Digit).close(many(one(Class::Digit))).close(exponent())),
            ),
        Rule::IntegerLiteral => sign()
            .close(
                lit("0x")
                    .or(lit("0X"))
                    .close(one(Class::HexDigit).close(many(one(Class::HexDigit))))
                    .or(
                        lit("0o")
                            .or(lit("0O"))
                            .close(one(Class::OctalDigit).close(many(one(Class::OctalDigit)))),
                    )
                    .or(one(Class::Digit).close(many(one(Class::Digit)))),
            ),
        Rule::StringLiteral => rule(Rule::SingleQuoted).or(rule(Rule::DoubleQuoted)),
        Rule::SingleQuoted => lit("'").close(rule(Rule::SingleInner)).close(lit("'")),
        Rule::SingleInner => many(lit("\\").close(one(Class::Any)).or(one(Class::NotSingleQuote))),
        Rule::DoubleQuoted => lit("\"").close(rule(Rule::DoubleInner)).close(lit("\"")),
        Rule::DoubleInner => many(lit("\\").close(one(Class::Any)).or(one(Class::NotDoubleQuote))),
        Rule::BoolLiteral => word("true").or(word("false")),
        Rule::NullLiteral => word("null"),
        Rule::ListLiteral => lit("[").opt(list_of(Rule::Expr)).next(lit("]")),
        Rule::ListComprehension => lit("[")
            .next(rule(Rule::Ident))
            .next(word("in"))
            .next(rule(Rule::Expr))
            .opt(rule(Rule::ListCompWhere))
            .opt(rule(Rule::ListCompMap))
            .next(lit("]")),
        Rule::ListCompWhere => word("where").next(rule(Rule::BoolExpr)),
        Rule::ListCompMap => lit("|").next(rule(Rule::Expr)),
        Rule::PatternComprehension => lit("[")
            .opt(rule(Rule::Ident).next(lit("=")))
            .next(rule(Rule::Pattern))
            .opt(word("where").next(rule(Rule::BoolExpr)))
            .next(lit("|"))
            .next(rule(Rule::Expr))
            .next(lit("]")),
        Rule::MapLiteral => lit("{").opt(list_of(Rule::MapPair)).next(lit("}")),
        Rule::MapPair => rule(Rule::Ident).next(lit(":")).next(rule(Rule::Expr)),
    }
}

/// What a rule of the grammar matches.
pub fn rule_body(r: Rule) -> (p: Peg)
    ensures
        p == body_of(r),
{
    proof {
        reveal(body_of);
    }
    match r {
        Rule::Statement => Peg::Gap.close(rule(Rule::UnionStmt).opt(lit(";")).next(Peg::End)),
        Rule::UnionStmt => rule(Rule::SingleStmt).rep(rule(Rule::UnionOp).next(rule(Rule::SingleStmt))),
        Rule::UnionOp => word("union").opt(word("all")),
        Rule::SingleStmt => rule(Rule::ExplainStmt)
            .or(rule(Rule::MatchStmt).see(stmt_end()))
            .or(rule(Rule::DeleteStmt).see(stmt_end()))
            .or(rule(Rule::SetStmt).see(stmt_end()))
            .or(rule(Rule::RemoveStmt).see(stmt_end()))
            .or(rule(Rule::CreateStmt).see(stmt_end()))
            .or(rule(Rule::MergeStmt).see(stmt_end()))
            .or(rule(Rule::UnwindStmt).see(stmt_end()))
            .or(rule(Rule::WithStmt).see(stmt_end()))
            .or(rule(Rule::ReturnStmt).see(stmt_end()))
            .or(rule(Rule::CallStmt).see(stmt_end()))
            .or(rule(Rule::MultiClauseStmt))
            .or(rule(Rule::MatchCreateStmt))
            .or(rule(Rule::MatchMergeStmt)),
        Rule::ExplainStmt => word("explain")
            .next(
                rule(Rule::MatchStmt)
                    .see(stmt_end())
                    .or(rule(Rule::UnwindStmt).see(stmt_end()))
                    .or(rule(Rule::WithStmt).see(stmt_end()))
                    .or(rule(Rule::DeleteStmt).see(stmt_end()))
                    .or(rule(Rule::SetStmt).see(stmt_end()))
                    .or(rule(Rule::RemoveStmt).see(stmt_end()))
                    .or(rule(Rule::CreateStmt).see(stmt_end()))
                    .or(rule(Rule::MergeStmt).see(stmt_end()))
                    .or(rule(Rule::ReturnStmt).see(stmt_end()))
                    .or(rule(Rule::CallStmt).see(stmt_end()))
                    .or(rule(Rule::MultiClauseStmt))
                    .or(rule(Rule::MatchCreateStmt)),
            ),
        Rule::MatchStmt => rule(Rule::MatchPart).rep(between()).next(tail()),
        Rule::MatchPart => match_head()
            .or(rule(Rule::OptionalMatchClause).rep(rule(Rule::OptionalMatchClause))),
        Rule::OptionalMatchClause => word("optional")
            .next(word("match"))
            .next(rule(Rule::PatternList))
            .opt(rule(Rule::WhereClause)),
        Rule::DeleteStmt => match_head()
            .opt(rule(Rule::DetachKeyword))
            .next(word("delete"))
            .next(rule(Rule::DeleteExprList))
            .opt(tail()),
        Rule::SetStmt => match_head()
            .next(word("set"))
            .next(rule(Rule::AssignmentList))
            .rep(rule(Rule::WithClause).or(rule(Rule::MatchPart)))
            .opt(tail()),
        Rule::RemoveStmt => match_head().next(word("remove")).next(rule(Rule::RemoveItemList)).opt(tail()),
        Rule::CreateStmt => word("create").next(rule(Rule::CreatePatternList)).opt(tail()),
        Rule::MergeStmt => word("merge")
            .next(rule(Rule::PatternItem))
            .rep(rule(Rule::OnCreateClause).or(rule(Rule::OnMatchClause)))
            .opt(tail()),
        Rule::UnwindStmt => word("unwind")
            .next(rule(Rule::Expr))
            .next(word("as"))
            .next(rule(Rule::Ident))
            .next(rule(Rule::UnwindCreate).or(rule(Rule::UnwindReturn))),
        Rule::UnwindReturn => maybe(rule(Rule::WhereClause).gap()).rep(between()).next(tail()),
        Rule::UnwindCreate => word("create").next(rule(Rule::CreatePatternList)).rep(between()).opt(tail()),
        Rule::WithStmt => rule(Rule::WithClause).rep(between()).next(tail()),
        Rule::ReturnStmt => tail(),
        Rule::CallStmt => call_head().opt(tail()),
        Rule::ProcedureName => name().close(many(lit(".").close(name()))),
        Rule::YieldClause => word("yield").next(rule(Rule::YieldStar).or(rule(Rule::YieldItems))),
        Rule::YieldStar => lit("*"),
        Rule::YieldItems => list_of(Rule::YieldItem),
        Rule::YieldItem => rule(Rule::Ident).opt(word("as").next(rule(Rule::Ident))),
        Rule::MultiClauseStmt => multi_clause().rep(multi_clause()).opt(tail()),
        Rule::MultiMatchClause => match_head()
            .or(rule(Rule::OptionalMatchClause).rep(rule(Rule::OptionalMatchClause))),
        Rule::MultiCreateClause => word("create").next(rule(Rule::CreatePatternList)),
        Rule::MultiMergeClause => word("merge")
            .next(rule(Rule::PatternItem))
            .rep(rule(Rule::OnCreateClause).or(rule(Rule::OnMatchClause))),
        Rule::MultiSetClause => word("set").next(rule(Rule::AssignmentList)),
        Rule::MultiRemoveClause => word("remove").next(rule(Rule::RemoveItemList)),
        Rule::MultiDeleteClause => maybe(rule(Rule::DetachKeyword).gap())
            .next(word("delete"))
            .next(rule(Rule::DeleteExprList)),
        Rule::MultiCallClause => call_head(),
        Rule::MatchCreateStmt => word("match")
            .next(rule(Rule::PatternList))
            .opt(rule(Rule::WhereClause))
            .next(word("create"))
            .next(rule(Rule::CreatePatternList))
            .opt(tail()),
        Rule::MatchMergeStmt => word("match")
            .next(rule(Rule::PatternList))
            .opt(rule(Rule::WhereClause))
            .next(word("merge"))
            .next(rule(Rule::PatternItem))
            .rep(rule(Rule::OnCreateClause).or(rule(Rule::OnMatchClause)))
            .opt(tail()),
        Rule::DetachKeyword => word("detach"),
        Rule::DeleteExprList => list_of(Rule::Expr),
        Rule::OnCreateClause => word("on").next(word("create")).next(word("set")).next(rule(Rule::AssignmentList)),
        Rule::OnMatchClause => word("on").next(word("match")).next(word("set")).next(rule(Rule::AssignmentList)),
        Rule::AssignmentList => list_of(Rule::SetItem),
        Rule::SetItem => rule(Rule::SetLabel)
            .or(rule(Rule::SetMapMerge))
            .or(rule(Rule::Assignment))
            .or(rule(Rule::SetMap)),
        Rule::SetLabel => rule(Rule::Ident).next(rule(Rule::LabelSpec)),
        Rule::SetMapMerge => rule(Rule::Ident).next(lit("+=")).next(rule(Rule::Expr)),
        Rule::SetMap => rule(Rule::Ident).next(lit("=")).next(rule(Rule::Expr)),
        Rule::Assignment => rule(Rule::ExprPropertyAccess)
            .or(rule(Rule::PropertyAccess))
            .next(lit("="))
            .next(rule(Rule::Expr)),
        Rule::ExprPropertyAccess => lit("(")
            .next(rule(Rule::Expr))
            .next(lit(")"))
            .next(lit("."))
            .next(rule(Rule::SymbolicName)),
        Rule::PropertyAccess => rule(Rule::Ident).close(lit(".")).close(rule(Rule::Ident)),
        Rule::RemoveItemList => list_of(Rule::RemoveItem),
        Rule::RemoveItem => rule(Rule::RemoveLabel).or(rule(Rule::RemoveProperty)),
        Rule::RemoveLabel => rule(Rule::Ident).next(rule(Rule::LabelSpec)),
        Rule::RemoveProperty => rule(Rule::PropertyAccess),
        Rule::WhereClause => word("where").next(rule(Rule::BoolExpr)),
        Rule::WithClause => word("with")
            .opt(rule(Rule::DistinctKeyword))
            .next(rule(Rule::ReturnItems))
            .opt(rule(Rule::OrderByClause))
            .opt(rule(Rule::SkipClause))
            .opt(rule(Rule::LimitClause))
            .opt(rule(Rule::WhereClause)),
        Rule::UnwindClause => word("unwind").next(rule(Rule::Expr)).next(word("as")).next(rule(Rule::Ident)),
        Rule::ReturnClause => word("return").opt(rule(Rule::DistinctKeyword)).next(rule(Rule::ReturnItems)),
        Rule::DistinctKeyword => word("distinct"),
        Rule::ReturnItems => list_of(Rule::ReturnItem),
        Rule::ReturnItem => rule(Rule::Expr).opt(rule(Rule::Alias)),
        Rule::Alias => word("as").next(rule(Rule::Ident)),
        Rule::OrderByClause => word("order").next(word("by")).next(rule(Rule::SortItems)),
        Rule::SortItems => list_of(Rule::SortItem),
        Rule::SortItem => rule(Rule::Expr).opt(rule(Rule::SortDirection)),
        Rule::SortDirection => word("descending").or(word("desc")).or(word("ascending")).or(word("asc")),
        Rule::SkipClause => word("skip").next(rule(Rule::Expr)),
        Rule::LimitClause => word("limit").next(rule(Rule::Expr)),
        Rule::PatternList => list_of(Rule::PatternItem),
        Rule::PatternItem => rule(Rule::PathPattern).or(rule(Rule::Pattern)),
        Rule::PathPattern => rule(Rule::Ident)
            .next(lit("="))
            .next(
                rule(Rule::ShortestPathFn)
                    .or(rule(Rule::AllShortestPathsFn))
                    .or(rule(Rule::Pattern)),
            ),
        Rule::ShortestPathFn => word("shortestpath").next(lit("(")).next(rule(Rule::Pattern)).next(lit(")")),
        Rule::AllShortestPathsFn => word("allshortestpaths").next(lit("(")).next(rule(Rule::Pattern)).next(lit(")")),
        Rule::Pattern => rule(Rule::NodePattern).rep(rule(Rule::RelPattern).next(rule(Rule::NodePattern))),
        Rule::CreatePatternList => list_of(Rule::CreatePattern),
        Rule::CreatePattern => rule(Rule::NodePattern).rep(rule(Rule::RelPattern).next(rule(Rule::NodePattern))),
        Rule::NodePattern => lit("(")
            .opt(rule(Rule::Ident))
            .opt(rule(Rule::LabelSpec))
            .opt(rule(Rule::PropertyMap))
            .next(lit(")")),
        Rule::LabelSpec => lit(":").next(rule(Rule::SymbolicName)).rep(lit(":").next(rule(Rule::SymbolicName))),
        Rule::RelPattern => rule(Rule::RelBoth)
            .or(rule(Rule::RelRight))
            .or(rule(Rule::RelLeft))
            .or(rule(Rule::RelUndirected))
            .or(rule(Rule::RelBothBare))
            .or(rule(Rule::RelRightBare))
            .or(rule(Rule::RelLeftBare))
            .or(rule(Rule::RelUndirectedBare)),
        Rule::RelBoth => lit("<")
            .next(lit("-"))
            .next(lit("["))
            .next(rule(Rule::RelDetail))
            .next(lit("]"))
            .next(lit("-"))
            .next(lit(">")),
        Rule::RelRight => lit("-")
            .next(lit("["))
            .next(rule(Rule::RelDetail))
            .next(lit("]"))
            .next(lit("-"))
            .next(lit(">")),
        Rule::RelLeft => lit("<")
            .next(lit("-"))
            .next(lit("["))
            .next(rule(Rule::RelDetail))
            .next(lit("]"))
            .next(lit("-")),
        Rule::RelUndirected => lit("-").next(lit("[")).next(rule(Rule::RelDetail)).next(lit("]")).next(lit("-")),
        Rule::RelBothBare => lit("<").next(lit("-")).next(lit("-")).next(lit(">")),
        Rule::RelRightBare => lit("-").next(lit("-")).next(lit(">")),
        Rule::RelLeftBare => lit("<").next(lit("-")).next(lit("-")),
        Rule::RelUndirectedBare => lit("-").next(lit("-")),
        Rule::RelDetail => maybe(rule(Rule::Ident).gap())
            .opt(rule(Rule::RelTypeSpec))
            .opt(rule(Rule::VarLength))
            .opt(rule(Rule::PropertyMap)),
        Rule::RelTypeSpec => lit(":")
            .next(rule(Rule::SymbolicName))
            .rep(lit("|").opt(lit(":")).next(rule(Rule::SymbolicName))),
        Rule::VarLength => lit("*")
            .opt(rule(Rule::IntRange).or(rule(Rule::FixedLength)))
            .opt(rule(Rule::PropertyMap)),
        Rule::IntRange => maybe(rule(Rule::Integer).gap()).next(lit("..")).opt(rule(Rule::Integer)),
        Rule::FixedLength => one(Class::Digit).close(many(one(Class::Digit))),
        Rule::Integer => one(Class::Digit).close(many(one(Class::Digit))),
        Rule::PropertyMap => lit("{").opt(list_of(Rule::PropertyPair)).next(lit("}")),
        Rule::PropertyPair => rule(Rule::Ident).next(lit(":")).next(rule(Rule::Expr)),
        Rule::Ident => lit("`").close(many(one(Class::NotBacktick))).close(lit("`")).or(name()),
        Rule::SymbolicName => name(),
        Rule::PlainIdent => name(),
        Rule::BoolExpr => rule(Rule::Expr),
        Rule::Expr => rule(Rule::XorTerm).rep(rule(Rule::OrOp).next(rule(Rule::XorTerm))),
        Rule::OrOp => word("or"),
        Rule::XorTerm => rule(Rule::BoolTerm).rep(rule(Rule::XorOp).next(rule(Rule::BoolTerm))),
        Rule::XorOp => word("xor"),
        Rule::BoolTerm => rule(Rule::BoolFactor).rep(rule(Rule::AndOp).next(rule(Rule::BoolFactor))),
        Rule::AndOp => word("and"),
        Rule::BoolFactor => many(rule(Rule::NotOp).gap()).next(rule(Rule::BoolPrimary)),
        Rule::NotOp => word("not"),
        Rule::BoolPrimary => rule(Rule::CmpOrValue),
        Rule::CmpOrValue => rule(Rule::PredicateExpr).rep(rule(Rule::CmpSuffix)),
        Rule::CmpSuffix => rule(Rule::CompOp).next(rule(Rule::PredicateExpr)),
        Rule::CompOp => lit("<>")
            .or(lit("<="))
            .or(lit(">="))
            .or(lit("=~"))
            .or(lit("="))
            .or(lit("<"))
            .or(lit(">")),
        Rule::PredicateExpr => rule(Rule::CmpPrimary)
            .opt(
                rule(Rule::IsNotNullSuffix)
                    .or(rule(Rule::IsNullSuffix))
                    .or(rule(Rule::InSuffix))
                    .or(rule(Rule::StringPredSuffix)),
            ),
        Rule::IsNotNullSuffix => word("is").next(word("not")).next(word("null")),
        Rule::IsNullSuffix => word("is").next(word("null")),
        Rule::InSuffix => word("in").next(rule(Rule::AddExpr)),
        Rule::StringPredSuffix => rule(Rule::StringPredOp).next(rule(Rule::AddExpr)),
        Rule::StringPredOp => rule(Rule::StartsWithOp).or(rule(Rule::EndsWithOp)).or(rule(Rule::ContainsOp)),
        Rule::StartsWithOp => word("starts").next(word("with")),
        Rule::EndsWithOp => word("ends").next(word("with")),
        Rule::ContainsOp => word("contains"),
        Rule::CmpPrimary => rule(Rule::ExistsFullSubquery)
            .or(rule(Rule::ExistsSubquery))
            .or(rule(Rule::PatternPredicate))
            .or(rule(Rule::AddExpr)),
        Rule::ExistsSubquery => word("exists")
            .next(lit("{"))
            .next(rule(Rule::PatternList))
            .opt(rule(Rule::WhereClause))
            .next(lit("}")),
        Rule::ExistsFullSubquery => word("exists")
            .next(lit("{"))
            .next(word("match"))
            .next(rule(Rule::PatternList))
            .opt(rule(Rule::WhereClause))
            .rep(exists_part())
            .opt(tail())
            .next(lit("}")),
        Rule::PatternPredicate => rule(Rule::NodePattern)
            .next(
                rule(Rule::RelPattern)
                    .next(rule(Rule::NodePattern))
                    .rep(rule(Rule::RelPattern).next(rule(Rule::NodePattern))),
            ),
        Rule::AddExpr => rule(Rule::MulExpr).rep(rule(Rule::AddOp).next(rule(Rule::MulExpr))),
        Rule::AddOp => lit("+").or(lit("-")),
        Rule::MulExpr => rule(Rule::ExpExpr).rep(rule(Rule::MulOp).next(rule(Rule::ExpExpr))),
        Rule::MulOp => lit("*").or(lit("/")).or(lit("%")),
        Rule::ExpExpr => rule(Rule::AtomExpr).rep(rule(Rule::ExpOp).next(rule(Rule::AtomExpr))),
        Rule::ExpOp => lit("^"),
        Rule::InExpr => rule(Rule::AddExpr).opt(word("in").next(rule(Rule::AddExpr))),
        Rule::AtomExpr => rule(Rule::CaseExpr)
            .or(rule(Rule::QuantifierExpr))
            .or(rule(Rule::DottedFunctionCall))
            .or(rule(Rule::FunctionCall))
            .or(rule(Rule::UnknownFunctionCall))
            .or(rule(Rule::Literal))
            .or(rule(Rule::Parameter))
            .or(rule(Rule::PatternComprehension))
            .or(rule(Rule::ListComprehension))
            .or(rule(Rule::ListLiteral))
            .or(rule(Rule::MapLiteral))
            .or(rule(Rule::HasLabelExpr))
            .or(rule(Rule::PropertyAccess))
            .or(rule(Rule::Variable))
            .or(lit("(").next(rule(Rule::Expr)).next(lit(")")))
            .or(rule(Rule::UnaryMinusExpr))
            .or(rule(Rule::Star))
            .rep(rule(Rule::Subscript).or(rule(Rule::DotAccess))),
        Rule::UnaryMinusExpr => lit("-").next(rule(Rule::AtomExpr)),
        Rule::Star => lit("*"),
        Rule::Variable => rule(Rule::Ident),
        Rule::Parameter => lit("$").close(rule(Rule::ParameterName)),
        Rule::ParameterName => one(Class::NameChar).close(many(one(Class::NameChar))),
        Rule::HasLabelExpr => rule(Rule::Ident).next(rule(Rule::LabelSpec)),
        Rule::Subscript => lit("[").next(rule(Rule::SubscriptInner)).next(lit("]")),
        Rule::SubscriptInner => rule(Rule::SliceFull)
            .or(rule(Rule::SliceFrom))
            .or(rule(Rule::SliceTo))
            .or(rule(Rule::Expr)),
        Rule::SliceFull => rule(Rule::Expr).next(lit("..")).next(rule(Rule::Expr)),
        Rule::SliceFrom => rule(Rule::Expr).next(lit("..")),
        Rule::SliceTo => lit("..").next(rule(Rule::Expr)),
        Rule::DotAccess => unless(lit("..")).next(lit(".")).next(rule(Rule::Ident)),
        Rule::CaseExpr => word("case")
            .opt(rule(Rule::CaseOperand))
            .next(rule(Rule::CaseWhenClause).rep(rule(Rule::CaseWhenClause)))
            .opt(rule(Rule::CaseElseClause))
            .next(word("end")),
        Rule::CaseOperand => unless(word("when")).next(rule(Rule::Expr)),
        Rule::CaseWhenClause => word("when").next(rule(Rule::Expr)).next(word("then")).next(rule(Rule::Expr)),
        Rule::CaseElseClause => word("else").next(rule(Rule::Expr)),
        Rule::QuantifierExpr => rule(Rule::QuantifierName)
            .next(lit("("))
            .next(rule(Rule::Ident))
            .next(word("in"))
            .next(rule(Rule::Expr))
            .next(rule(Rule::WhereClause))
            .next(lit(")")),
        Rule::QuantifierName => word("none").or(word("single")).or(word("any")).or(word("all")),
        Rule::FunctionArgs => rule(Rule::Star)
            .see(lit(")"))
            .or(maybe(maybe(rule(Rule::DistinctKeyword).gap()).next(rule(Rule::ExprList)))),
        Rule::ExprList => list_of(Rule::Expr),
        Rule::DottedFunctionCall => rule(Rule::DottedFunctionName).next(call_args()),
        Rule::DottedFunctionName => ascii_name()
            .close(lit(".").close(ascii_name()).close(many(lit(".").close(ascii_name())))),
        Rule::FunctionCall => rule(Rule::FunctionName).next(call_args()),
        Rule::FunctionName => word("count")
            .or(word("sum"))
            .or(word("avg"))
            .or(word("min"))
            .or(word("max"))
            .or(word("collect"))
            .or(word("percentiledisc"))
            .or(word("percentilecont"))
            .or(word("stdev"))
            .or(word("stdevp")),
        Rule::UnknownFunctionCall => unless(rule(Rule::FunctionName).next(lit("(")))
            .next(rule(Rule::PlainIdent))
            .next(call_args()),
        Rule::Literal => rule(Rule::FloatLiteral)
            .or(rule(Rule::IntegerLiteral))
            .or(rule(Rule::StringLiteral))
            .or(rule(Rule::BoolLiteral))
            .or(rule(Rule::NullLiteral)),
        Rule::FloatLiteral => sign()
            .close(
                many(one(Class::Digit))
                    .close(lit("."))
                    .close(one(Class::Digit).close(many(one(Class::Digit))))
                    .close(maybe(exponent()))
                    .or(one(Class::Digit).close(many(one(Class::Digit))).close(exponent())),
            ),
        Rule::IntegerLiteral => sign()
            .close(
                lit("0x")
                    .or(lit("0X"))
                    .close(one(Class::HexDigit).close(many(one(Class::HexDigit))))
                    .or(
                        lit("0o")
                            .or(lit("0O"))
                            .close(one(Class::OctalDigit).close(many(one(Class::OctalDigit)))),
                    )
                    .or(one(Class::Digit).close(many(one(Class::Digit)))),
            ),
        Rule::StringLiteral => rule(Rule::SingleQuoted).or(rule(Rule::DoubleQuoted)),
        Rule::SingleQuoted => lit("'").close(rule(Rule::SingleInner)).close(lit("'")),
        Rule::SingleInner => many(lit("\\").close(one(Class::Any)).or(one(Class::NotSingleQuote))),
        Rule::DoubleQuoted => lit("\"").close(rule(Rule::DoubleInner)).close(lit("\"")),
        Rule::DoubleInner => many(lit("\\").close(one(Class::Any)).or(one(Class::NotDoubleQuote))),
        Rule::BoolLiteral => word("true").or(word("false")),
        Rule::NullLiteral => word("null"),
        Rule::ListLiteral => lit("[").opt(list_of(Rule::Expr)).next(lit("]")),
        Rule::ListComprehension => lit("[")
            .next(rule(Rule::Ident))
            .next(word("in"))
            .next(rule(Rule::Expr))
            .opt(rule(Rule::ListCompWhere))
            .opt(rule(Rule::ListCompMap))
            .next(lit("]")),
        Rule::ListCompWhere => word("where").next(rule(Rule::BoolExpr)),
        Rule::ListCompMap => lit("|").next(rule(Rule::Expr)),
        Rule::PatternComprehension => lit("[")
            .opt(rule(Rule::Ident).next(lit("=")))
            .next(rule(Rule::Pattern))
            .opt(word("where").next(rule(Rule::BoolExpr)))
            .next(lit("|"))
            .next(rule(Rule::Expr))
            .next(lit("]")),
        Rule::MapLiteral => lit("{").opt(list_of(Rule::MapPair)).next(lit("}")),
        Rule::MapPair => rule(Rule::Ident).next(lit(":")).next(rule(Rule::Expr)),
    }
}

} // verus!
