//! The bound on how many rules begin at one place is never reached.
use super::grammar;
use super::peg;
use super::peg::{FarView, Frame, Peg, MAX_CHAIN};
use super::rule::Rule;
use vstd::prelude::*;

verus! {

/// Matching comes to a place where a rule should begin and no more rules may.
pub open spec fn runs_out(e: Peg, s: Seq<char>, at: int, frame: Frame, far: FarView) -> bool
    decreases s.len() - frame.start, frame.chain, e, s.len() - at,
{
    if !(frame.start <= at <= s.len()) {
        false
    } else {
        match e {
            Peg::Rule(r) => {
                let inner = if at > frame.start {
                    Frame { rule: r, start: at as usize, chain: MAX_CHAIN }
                } else {
                    Frame { rule: r, start: at as usize, chain: (frame.chain - 1) as u32 }
                };
                if at > usize::MAX {
                    false
                } else if at <= frame.start && frame.chain == 0 {
                    true
                } else {
                    runs_out(grammar::body_of(r), s, at, inner, far)
                }
            },
            Peg::Chain(a, b) => runs_out(*a, s, at, frame, far) || match peg::matches(
                *a,
                s,
                at,
                frame,
                far,
            ) {
                (Some((mid, _)), f) => runs_out(*b, s, mid, frame, f),
                (None, _) => false,
            },
            Peg::Either(a, b) => runs_out(*a, s, at, frame, far) || match peg::matches(
                *a,
                s,
                at,
                frame,
                far,
            ) {
                (Some(_), _) => false,
                (None, f) => runs_out(*b, s, at, frame, f),
            },
            Peg::Maybe(a) => runs_out(*a, s, at, frame, far),
            Peg::Many(a) => runs_out(*a, s, at, frame, far) || match peg::matches(
                *a,
                s,
                at,
                frame,
                far,
            ) {
                (Some((mid, _)), f) => at < mid <= s.len() && runs_out(e, s, mid, frame, f),
                (None, _) => false,
            },
            Peg::Ahead(a) => runs_out(*a, s, at, frame, far),
            Peg::Unless(a) => runs_out(*a, s, at, frame, far),
            _ => false,
        }
    }
}

/// How many rules can begin where the rule does, it included.
spec fn rank(r: Rule) -> int {
    match r {
        Rule::ReturnItems | Rule::SortItems | Rule::SubscriptInner | Rule::FunctionArgs => 17,
        Rule::DeleteExprList | Rule::ReturnItem | Rule::SortItem | Rule::BoolExpr
        | Rule::SliceFull | Rule::SliceFrom | Rule::CaseOperand | Rule::ExprList => 16,
        Rule::Expr => 15,
        Rule::XorTerm => 14,
        Rule::BoolTerm => 13,
        Rule::BoolFactor => 12,
        Rule::BoolPrimary => 11,
        Rule::CmpOrValue => 10,
        Rule::PredicateExpr => 9,
        Rule::CmpPrimary | Rule::InExpr => 8,
        Rule::AddExpr => 7,
        Rule::Statement | Rule::MulExpr => 6,
        Rule::UnionStmt | Rule::AssignmentList | Rule::RemoveItemList | Rule::ExpExpr => 5,
        Rule::SingleStmt | Rule::SetItem | Rule::RemoveItem | Rule::PatternList | Rule::AtomExpr => 4,
        Rule::MatchStmt | Rule::UnwindReturn | Rule::YieldItems | Rule::MultiClauseStmt
        | Rule::Assignment | Rule::RemoveProperty | Rule::PatternItem | Rule::CreatePatternList
        | Rule::StringPredSuffix | Rule::Literal => 3,
        Rule::MatchPart | Rule::WithStmt | Rule::ReturnStmt | Rule::YieldItem
        | Rule::MultiMatchClause | Rule::MultiDeleteClause | Rule::SetLabel | Rule::SetMapMerge
        | Rule::SetMap | Rule::PropertyAccess | Rule::RemoveLabel | Rule::PathPattern
        | Rule::Pattern | Rule::CreatePattern | Rule::RelPattern | Rule::RelDetail
        | Rule::IntRange | Rule::PropertyPair | Rule::CmpSuffix | Rule::StringPredOp
        | Rule::PatternPredicate | Rule::Variable | Rule::HasLabelExpr | Rule::QuantifierExpr
        | Rule::DottedFunctionCall | Rule::FunctionCall | Rule::UnknownFunctionCall
        | Rule::StringLiteral | Rule::MapPair => 2,
        _ => 1,
    }
}

/// The rule matches no empty text.
spec fn solid(r: Rule) -> bool {
    match r {
        Rule::RelDetail | Rule::FunctionArgs | Rule::SingleInner | Rule::DoubleInner => false,
        _ => true,
    }
}

/// The expression matches no empty text.
spec fn moves(e: Peg) -> bool
    decreases e,
{
    match e {
        Peg::Lit(t) => t@.len() > 0,
        Peg::Word(w) => w@.len() > 0,
        Peg::One(_) => true,
        Peg::Rule(r) => solid(r),
        Peg::Chain(a, b) => moves(*a) || moves(*b),
        Peg::Either(a, b) => moves(*a) && moves(*b),
        _ => false,
    }
}

/// Fewer than `n` rules begin, one inside the other, where the expression does.
spec fn narrow(e: Peg, n: int) -> bool
    decreases e,
{
    match e {
        Peg::Rule(r) => rank(r) < n,
        Peg::Chain(a, b) => narrow(*a, n) && (moves(*a) || narrow(*b, n)),
        Peg::Either(a, b) => narrow(*a, n) && narrow(*b, n),
        Peg::Maybe(a) => narrow(*a, n),
        Peg::Many(a) => narrow(*a, n),
        Peg::Ahead(a) => narrow(*a, n),
        Peg::Unless(a) => narrow(*a, n),
        _ => true,
    }
}

/// The body of a rule is as narrow as its rank says.
spec fn holds_its_rank(r: Rule) -> bool {
    narrow(grammar::body_of(r), rank(r)) && (solid(r) ==> moves(grammar::body_of(r)))
}

/// No text in the grammar is empty.
proof fn lemma_texts()
    ensures
        "$"@.len() > 0,
        "%"@.len() > 0,
        "'"@.len() > 0,
        "("@.len() > 0,
        ")"@.len() > 0,
        "*"@.len() > 0,
        "+"@.len() > 0,
        "+="@.len() > 0,
        ","@.len() > 0,
        "-"@.len() > 0,
        "."@.len() > 0,
        ".."@.len() > 0,
        "/"@.len() > 0,
        "0O"@.len() > 0,
        "0X"@.len() > 0,
        "0o"@.len() > 0,
        "0x"@.len() > 0,
        ":"@.len() > 0,
        ";"@.len() > 0,
        "<"@.len() > 0,
        "<="@.len() > 0,
        "<>"@.len() > 0,
        "="@.len() > 0,
        "=~"@.len() > 0,
        ">"@.len() > 0,
        ">="@.len() > 0,
        "E"@.len() > 0,
        "["@.len() > 0,
        "\""@.len() > 0,
        "\\"@.len() > 0,
        "]"@.len() > 0,
        "^"@.len() > 0,
        "`"@.len() > 0,
        "e"@.len() > 0,
        "{"@.len() > 0,
        "|"@.len() > 0,
        "}"@.len() > 0,
        "all"@.len() > 0,
        "allshortestpaths"@.len() > 0,
        "and"@.len() > 0,
        "any"@.len() > 0,
        "as"@.len() > 0,
        "asc"@.len() > 0,
        "ascending"@.len() > 0,
        "avg"@.len() > 0,
        "by"@.len() > 0,
        "call"@.len() > 0,
        "case"@.len() > 0,
        "collect"@.len() > 0,
        "contains"@.len() > 0,
        "count"@.len() > 0,
        "create"@.len() > 0,
        "delete"@.len() > 0,
        "desc"@.len() > 0,
        "descending"@.len() > 0,
        "detach"@.len() > 0,
        "distinct"@.len() > 0,
        "else"@.len() > 0,
        "end"@.len() > 0,
        "ends"@.len() > 0,
        "exists"@.len() > 0,
        "explain"@.len() > 0,
        "false"@.len() > 0,
        "in"@.len() > 0,
        "is"@.len() > 0,
        "limit"@.len() > 0,
        "match"@.len() > 0,
        "max"@.len() > 0,
        "merge"@.len() > 0,
        "min"@.len() > 0,
        "none"@.len() > 0,
        "not"@.len() > 0,
        "null"@.len() > 0,
        "on"@.len() > 0,
        "optional"@.len() > 0,
        "or"@.len() > 0,
        "order"@.len() > 0,
        "percentilecont"@.len() > 0,
        "percentiledisc"@.len() > 0,
        "remove"@.len() > 0,
        "return"@.len() > 0,
        "set"@.len() > 0,
        "shortestpath"@.len() > 0,
        "single"@.len() > 0,
        "skip"@.len() > 0,
        "starts"@.len() > 0,
        "stdev"@.len() > 0,
        "stdevp"@.len() > 0,
        "sum"@.len() > 0,
        "then"@.len() > 0,
        "true"@.len() > 0,
        "union"@.len() > 0,
        "unwind"@.len() > 0,
        "when"@.len() > 0,
        "where"@.len() > 0,
        "with"@.len() > 0,
        "xor"@.len() > 0,
        "yield"@.len() > 0,
{
    reveal_strlit("$");
    reveal_strlit("%");
    reveal_strlit("'");
    reveal_strlit("(");
    reveal_strlit(")");
    reveal_strlit("*");
    reveal_strlit("+");
    reveal_strlit("+=");
    reveal_strlit(",");
    reveal_strlit("-");
    reveal_strlit(".");
    reveal_strlit("..");
    reveal_strlit("/");
    reveal_strlit("0O");
    reveal_strlit("0X");
    reveal_strlit("0o");
    reveal_strlit("0x");
    reveal_strlit(":");
    reveal_strlit(";");
    reveal_strlit("<");
    reveal_strlit("<=");
    reveal_strlit("<>");
    reveal_strlit("=");
    reveal_strlit("=~");
    reveal_strlit(">");
    reveal_strlit(">=");
    reveal_strlit("E");
    reveal_strlit("[");
    reveal_strlit("\"");
    reveal_strlit("\\");
    reveal_strlit("]");
    reveal_strlit("^");
    reveal_strlit("`");
    reveal_strlit("e");
    reveal_strlit("{");
    reveal_strlit("|");
    reveal_strlit("}");
    reveal_strlit("all");
    reveal_strlit("allshortestpaths");
    reveal_strlit("and");
    reveal_strlit("any");
    reveal_strlit("as");
    reveal_strlit("asc");
    reveal_strlit("ascending");
    reveal_strlit("avg");
    reveal_strlit("by");
    reveal_strlit("call");
    reveal_strlit("case");
    reveal_strlit("collect");
    reveal_strlit("contains");
    reveal_strlit("count");
    reveal_strlit("create");
    reveal_strlit("delete");
    reveal_strlit("desc");
    reveal_strlit("descending");
    reveal_strlit("detach");
    reveal_strlit("distinct");
    reveal_strlit("else");
    reveal_strlit("end");
    reveal_strlit("ends");
    reveal_strlit("exists");
    reveal_strlit("explain");
    reveal_strlit("false");
    reveal_strlit("in");
    reveal_strlit("is");
    reveal_strlit("limit");
    reveal_strlit("match");
    reveal_strlit("max");
    reveal_strlit("merge");
    reveal_strlit("min");
    reveal_strlit("none");
    reveal_strlit("not");
    reveal_strlit("null");
    reveal_strlit("on");
    reveal_strlit("optional");
    reveal_strlit("or");
    reveal_strlit("order");
    reveal_strlit("percentilecont");
    reveal_strlit("percentiledisc");
    reveal_strlit("remove");
    reveal_strlit("return");
    reveal_strlit("set");
    reveal_strlit("shortestpath");
    reveal_strlit("single");
    reveal_strlit("skip");
    reveal_strlit("starts");
    reveal_strlit("stdev");
    reveal_strlit("stdevp");
    reveal_strlit("sum");
    reveal_strlit("then");
    reveal_strlit("true");
    reveal_strlit("union");
    reveal_strlit("unwind");
    reveal_strlit("when");
    reveal_strlit("where");
    reveal_strlit("with");
    reveal_strlit("xor");
    reveal_strlit("yield");
}

/// Rules hold their rank.
#[verifier::rlimit(40)]
proof fn lemma_bodies_0(r: Rule)
    ensures
        match r {
            Rule::Statement | Rule::UnionStmt | Rule::UnionOp | Rule::SingleStmt
            | Rule::ExplainStmt | Rule::MatchStmt | Rule::MatchPart | Rule::OptionalMatchClause
            | Rule::DeleteStmt | Rule::SetStmt | Rule::RemoveStmt | Rule::CreateStmt
            | Rule::MergeStmt | Rule::UnwindStmt | Rule::UnwindReturn | Rule::UnwindCreate
            | Rule::WithStmt => holds_its_rank(r),
            _ => true,
        },
{
    reveal(grammar::body_of);
    reveal_with_fuel(narrow, 20);
    reveal_with_fuel(moves, 20);
    lemma_texts();
}

/// Rules hold their rank.
#[verifier::rlimit(40)]
proof fn lemma_bodies_1(r: Rule)
    ensures
        match r {
            Rule::ReturnStmt | Rule::CallStmt | Rule::ProcedureName | Rule::YieldClause
            | Rule::YieldStar | Rule::YieldItems | Rule::YieldItem | Rule::MultiClauseStmt
            | Rule::MultiMatchClause | Rule::MultiCreateClause | Rule::MultiMergeClause
            | Rule::MultiSetClause | Rule::MultiRemoveClause | Rule::MultiDeleteClause
            | Rule::MultiCallClause | Rule::MatchCreateStmt | Rule::MatchMergeStmt => holds_its_rank(r),
            _ => true,
        },
{
    reveal(grammar::body_of);
    reveal_with_fuel(narrow, 20);
    reveal_with_fuel(moves, 20);
    lemma_texts();
}

/// Rules hold their rank.
#[verifier::rlimit(40)]
proof fn lemma_bodies_2(r: Rule)
    ensures
        match r {
            Rule::DetachKeyword | Rule::DeleteExprList | Rule::OnCreateClause
            | Rule::OnMatchClause | Rule::AssignmentList | Rule::SetItem | Rule::SetLabel
            | Rule::SetMapMerge | Rule::SetMap | Rule::Assignment | Rule::ExprPropertyAccess
            | Rule::PropertyAccess | Rule::RemoveItemList | Rule::RemoveItem | Rule::RemoveLabel
            | Rule::RemoveProperty | Rule::WhereClause => holds_its_rank(r),
            _ => true,
        },
{
    reveal(grammar::body_of);
    reveal_with_fuel(narrow, 20);
    reveal_with_fuel(moves, 20);
    lemma_texts();
}

/// Rules hold their rank.
#[verifier::rlimit(40)]
proof fn lemma_bodies_3(r: Rule)
    ensures
        match r {
            Rule::WithClause | Rule::UnwindClause | Rule::ReturnClause | Rule::DistinctKeyword
            | Rule::ReturnItems | Rule::ReturnItem | Rule::Alias | Rule::OrderByClause
            | Rule::SortItems | Rule::SortItem | Rule::SortDirection | Rule::SkipClause
            | Rule::LimitClause | Rule::PatternList | Rule::PatternItem | Rule::PathPattern
            | Rule::ShortestPathFn => holds_its_rank(r),
            _ => true,
        },
{
    reveal(grammar::body_of);
    reveal_with_fuel(narrow, 20);
    reveal_with_fuel(moves, 20);
    lemma_texts();
}

/// Rules hold their rank.
#[verifier::rlimit(40)]
proof fn lemma_bodies_4(r: Rule)
    ensures
        match r {
            Rule::AllShortestPathsFn | Rule::Pattern | Rule::CreatePatternList
            | Rule::CreatePattern | Rule::NodePattern | Rule::LabelSpec | Rule::RelPattern
            | Rule::RelBoth | Rule::RelRight | Rule::RelLeft | Rule::RelUndirected
            | Rule::RelBothBare | Rule::RelRightBare | Rule::RelLeftBare
            | Rule::RelUndirectedBare | Rule::RelDetail | Rule::RelTypeSpec => holds_its_rank(r),
            _ => true,
        },
{
    reveal(grammar::body_of);
    reveal_with_fuel(narrow, 20);
    reveal_with_fuel(moves, 20);
    lemma_texts();
}

/// Rules hold their rank.
#[verifier::rlimit(40)]
proof fn lemma_bodies_5(r: Rule)
    ensures
        match r {
            Rule::VarLength | Rule::IntRange | Rule::FixedLength | Rule::Integer
            | Rule::PropertyMap | Rule::PropertyPair | Rule::Ident | Rule::SymbolicName
            | Rule::PlainIdent | Rule::BoolExpr | Rule::Expr | Rule::OrOp | Rule::XorTerm
            | Rule::XorOp | Rule::BoolTerm | Rule::AndOp | Rule::BoolFactor => holds_its_rank(r),
            _ => true,
        },
{
    reveal(grammar::body_of);
    reveal_with_fuel(narrow, 20);
    reveal_with_fuel(moves, 20);
    lemma_texts();
}

/// Rules hold their rank.
#[verifier::rlimit(40)]
proof fn lemma_bodies_6(r: Rule)
    ensures
        match r {
            Rule::NotOp | Rule::BoolPrimary | Rule::CmpOrValue | Rule::CmpSuffix | Rule::CompOp
            | Rule::PredicateExpr | Rule::IsNotNullSuffix | Rule::IsNullSuffix | Rule::InSuffix
            | Rule::StringPredSuffix | Rule::StringPredOp | Rule::StartsWithOp
            | Rule::EndsWithOp | Rule::ContainsOp | Rule::CmpPrimary | Rule::ExistsSubquery
            | Rule::ExistsFullSubquery => holds_its_rank(r),
            _ => true,
        },
{
    reveal(grammar::body_of);
    reveal_with_fuel(narrow, 20);
    reveal_with_fuel(moves, 20);
    lemma_texts();
}

/// Rules hold their rank.
#[verifier::rlimit(40)]
proof fn lemma_bodies_7(r: Rule)
    ensures
        match r {
            Rule::PatternPredicate | Rule::AddExpr | Rule::AddOp | Rule::MulExpr | Rule::MulOp
            | Rule::ExpExpr | Rule::ExpOp | Rule::InExpr | Rule::AtomExpr | Rule::UnaryMinusExpr
            | Rule::Star | Rule::Variable | Rule::Parameter | Rule::ParameterName
            | Rule::HasLabelExpr | Rule::Subscript | Rule::SubscriptInner => holds_its_rank(r),
            _ => true,
        },
{
    reveal(grammar::body_of);
    reveal_with_fuel(narrow, 20);
    reveal_with_fuel(moves, 20);
    lemma_texts();
}

/// Rules hold their rank.
#[verifier::rlimit(40)]
proof fn lemma_bodies_8(r: Rule)
    ensures
        match r {
            Rule::SliceFull | Rule::SliceFrom | Rule::SliceTo | Rule::DotAccess | Rule::CaseExpr
            | Rule::CaseOperand | Rule::CaseWhenClause | Rule::CaseElseClause
            | Rule::QuantifierExpr | Rule::QuantifierName | Rule::FunctionArgs | Rule::ExprList
            | Rule::DottedFunctionCall | Rule::DottedFunctionName | Rule::FunctionCall
            | Rule::FunctionName | Rule::UnknownFunctionCall => holds_its_rank(r),
            _ => true,
        },
{
    reveal(grammar::body_of);
    reveal_with_fuel(narrow, 20);
    reveal_with_fuel(moves, 20);
    lemma_texts();
}

/// Rules hold their rank.
#[verifier::rlimit(40)]
proof fn lemma_bodies_9(r: Rule)
    ensures
        match r {
            Rule::Literal | Rule::FloatLiteral | Rule::IntegerLiteral | Rule::StringLiteral
            | Rule::SingleQuoted | Rule::SingleInner | Rule::DoubleQuoted | Rule::DoubleInner
            | Rule::BoolLiteral | Rule::NullLiteral | Rule::ListLiteral
            | Rule::ListComprehension | Rule::ListCompWhere | Rule::ListCompMap
            | Rule::PatternComprehension | Rule::MapLiteral | Rule::MapPair => holds_its_rank(r),
            _ => true,
        },
{
    reveal(grammar::body_of);
    reveal_with_fuel(narrow, 20);
    reveal_with_fuel(moves, 20);
    lemma_texts();
}

/// Every rule holds its rank.
proof fn lemma_ranks(r: Rule)
    ensures
        holds_its_rank(r),
        1 <= rank(r) < MAX_CHAIN,
{
    lemma_bodies_0(r);
    lemma_bodies_1(r);
    lemma_bodies_2(r);
    lemma_bodies_3(r);
    lemma_bodies_4(r);
    lemma_bodies_5(r);
    lemma_bodies_6(r);
    lemma_bodies_7(r);
    lemma_bodies_8(r);
    lemma_bodies_9(r);
}

/// A gap does not end before it begins.
proof fn lemma_gap(s: Seq<char>, at: int)
    requires
        0 <= at <= s.len(),
    ensures
        at <= peg::gap_end(s, at) <= s.len(),
    decreases s.len() - at,
{
    if at < s.len() && peg::blank(s[at]) {
        lemma_gap(s, at + 1);
    } else if peg::comment_at(s, at) && peg::line_end(s, at) > at && peg::line_end(s, at)
        <= s.len() {
        lemma_gap(s, peg::line_end(s, at));
    }
}

/// A match does not end before it begins, and where no empty text matches it ends behind.
proof fn lemma_moves(e: Peg, s: Seq<char>, at: int, frame: Frame, far: FarView)
    ensures
        peg::matches(e, s, at, frame, far).0 matches Some((end, _)) ==> {
            &&& at <= end <= s.len()
            &&& moves(e) ==> at < end
        },
    decreases s.len() - frame.start, frame.chain, e, s.len() - at,
{
    if frame.start <= at <= s.len() {
        match e {
            Peg::Gap => {
                lemma_gap(s, at);
            },
            Peg::Rule(r) => {
                let inner = if at > frame.start {
                    Frame { rule: r, start: at as usize, chain: MAX_CHAIN }
                } else {
                    Frame { rule: r, start: at as usize, chain: (frame.chain - 1) as u32 }
                };
                if !((at <= frame.start && frame.chain == 0) || at > usize::MAX) {
                    lemma_ranks(r);
                    lemma_moves(grammar::body_of(r), s, at, inner, far);
                }
            },
            Peg::Chain(a, b) => {
                lemma_moves(*a, s, at, frame, far);
                match peg::matches(*a, s, at, frame, far) {
                    (Some((mid, _)), f) => {
                        lemma_moves(*b, s, mid, frame, f);
                    },
                    (None, _) => {},
                }
            },
            Peg::Either(a, b) => {
                lemma_moves(*a, s, at, frame, far);
                match peg::matches(*a, s, at, frame, far) {
                    (Some(_), _) => {},
                    (None, f) => {
                        lemma_moves(*b, s, at, frame, f);
                    },
                }
            },
            Peg::Maybe(a) => {
                lemma_moves(*a, s, at, frame, far);
            },
            Peg::Many(a) => {
                lemma_moves(*a, s, at, frame, far);
                match peg::matches(*a, s, at, frame, far) {
                    (Some((mid, _)), f) => {
                        if at < mid <= s.len() {
                            lemma_moves(e, s, mid, frame, f);
                        }
                    },
                    (None, _) => {},
                }
            },
            _ => {},
        }
    }
}

/// Where no more rules begin than may, matching does not run out of them.
proof fn lemma_never_out(e: Peg, s: Seq<char>, at: int, frame: Frame, far: FarView, n: int)
    requires
        at <= frame.start ==> narrow(e, n) && n <= frame.chain,
    ensures
        !runs_out(e, s, at, frame, far),
    decreases s.len() - frame.start, frame.chain, e, s.len() - at,
{
    if frame.start <= at <= s.len() {
        match e {
            Peg::Rule(r) => {
                let inner = if at > frame.start {
                    Frame { rule: r, start: at as usize, chain: MAX_CHAIN }
                } else {
                    Frame { rule: r, start: at as usize, chain: (frame.chain - 1) as u32 }
                };
                lemma_ranks(r);
                if at <= usize::MAX {
                    lemma_never_out(grammar::body_of(r), s, at, inner, far, rank(r));
                }
            },
            Peg::Chain(a, b) => {
                lemma_never_out(*a, s, at, frame, far, n);
                lemma_moves(*a, s, at, frame, far);
                match peg::matches(*a, s, at, frame, far) {
                    (Some((mid, _)), f) => {
                        lemma_never_out(*b, s, mid, frame, f, n);
                    },
                    (None, _) => {},
                }
            },
            Peg::Either(a, b) => {
                lemma_never_out(*a, s, at, frame, far, n);
                match peg::matches(*a, s, at, frame, far) {
                    (Some(_), _) => {},
                    (None, f) => {
                        lemma_never_out(*b, s, at, frame, f, n);
                    },
                }
            },
            Peg::Maybe(a) => {
                lemma_never_out(*a, s, at, frame, far, n);
            },
            Peg::Many(a) => {
                lemma_never_out(*a, s, at, frame, far, n);
                match peg::matches(*a, s, at, frame, far) {
                    (Some((mid, _)), f) => {
                        if at < mid <= s.len() {
                            lemma_never_out(e, s, mid, frame, f, n);
                        }
                    },
                    (None, _) => {},
                }
            },
            Peg::Ahead(a) => {
                lemma_never_out(*a, s, at, frame, far, n);
            },
            Peg::Unless(a) => {
                lemma_never_out(*a, s, at, frame, far, n);
            },
            _ => {},
        }
    }
}

/// Whatever the text, matching a statement never comes to a place where a rule should begin
/// and no more rules may: the bound on rules that begin at one place refuses nothing.
pub proof fn no_text_runs_out_of_rules(s: Seq<char>)
    ensures
        !runs_out(
            Peg::Rule(Rule::Statement),
            s,
            0,
            super::outset(),
            FarView { at: 0, rule: Rule::Statement },
        ),
{
    lemma_ranks(Rule::Statement);
    lemma_never_out(
        Peg::Rule(Rule::Statement),
        s,
        0,
        super::outset(),
        FarView { at: 0, rule: Rule::Statement },
        MAX_CHAIN as int,
    );
}

} // verus!
