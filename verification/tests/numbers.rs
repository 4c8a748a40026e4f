//! Floating point literals at the ends of their range.
use graphdblite::ast::{ExprKind, FloatLiteral, LiteralValue, Statement};
use graphdblite::parser::decimal;
use graphdblite::parser::parse;
use graphdblite::types::{GraphError, QueryError};

fn literal(digits: &str) -> Result<String, String> {
    match parse(&format!("MATCH (n) WHERE n.x = {} RETURN n", digits)) {
        Ok(Statement::Match(m)) => match m.where_clause.unwrap().kind {
            ExprKind::BinaryOp { right, .. } => match right.kind {
                ExprKind::Literal(LiteralValue::F64(FloatLiteral::Decimal(d))) => Ok(d),
                other => panic!("{:?}", other),
            },
            other => panic!("{:?}", other),
        },
        Ok(other) => panic!("{:?}", other),
        Err(GraphError::Query(QueryError::SyntaxError { message, .. })) => Err(message),
        Err(other) => panic!("{:?}", other),
    }
}

fn overflow() -> Result<String, String> {
    Err("floating point value overflow".to_string())
}

/// Half way between the largest number and the power of two behind it.
const LIMIT: &str = "179769313486231580793728971405303415079934132710037826936173778980444\
                     968292764750946649017977587207096330286416692887910946555547851940402\
                     630657488671505820681908902000708383676273854845817711531764475730270\
                     069855571366959622842914819860834936475292719074168444365510704342711\
                     559699508093042880177904174497792";

#[test]
fn a_number_beyond_all_others_is_refused() {
    assert_eq!(literal("1e400"), overflow());
    assert_eq!(literal("-1e400"), overflow());
    assert_eq!(literal("1e309"), overflow());
    assert_eq!(literal("1e99999999999999999999999999999999999999999999"), overflow());
    assert_eq!(literal("1797693134862315907729305190789e279"), overflow());
    match parse("RETURN 1e400") {
        Err(GraphError::Query(QueryError::SyntaxError { message, .. })) => {
            assert_eq!(message, "floating point value overflow");
        }
        other => panic!("{:?}", other),
    }
}

#[test]
fn a_number_is_refused_from_the_limit_on() {
    assert_eq!(literal(&format!("{}.0", LIMIT)), overflow());
    assert_eq!(literal(&format!("{}.00e0", LIMIT)), overflow());
    let below = format!("{}91.9", &LIMIT[..LIMIT.len() - 2]);
    assert_eq!(literal(&below), Ok(below.clone()));
    assert!(below.parse::<f64>().unwrap().is_finite());
    assert!(LIMIT.parse::<f64>().unwrap().is_infinite());
}

#[test]
fn numbers_within_range_are_kept_as_they_stand() {
    for d in [
        "1.5",
        "1e308",
        "1.7976931348623157e308",
        "-1.7976931348623157e308",
        "0.00001e312",
        "-2.5e-3",
        "4.9e-324",
        "1e-400",
        "0e400",
        "0.0",
        ".5",
    ] {
        assert_eq!(literal(d), Ok(d.to_string()));
        assert!(d.parse::<f64>().unwrap().is_finite());
    }
}

#[test]
fn a_negative_zero_loses_its_sign() {
    assert_eq!(literal("-0.0"), Ok("0.0".to_string()));
    assert_eq!(literal("-0e5"), Ok("0e5".to_string()));
    assert_eq!(literal("-1e-400"), Ok("1e-400".to_string()));
    assert_eq!(literal("-0.01e-400"), Ok("0.01e-400".to_string()));
    assert_eq!(literal("-2.4e-324"), Ok("2.4e-324".to_string()));
    assert_eq!(literal("-2.5e-324"), Ok("-2.5e-324".to_string()));
    assert_eq!(literal("-1e-9999999999999999999999"), Ok("1e-9999999999999999999999".to_string()));
    assert_eq!(literal("-0.1"), Ok("-0.1".to_string()));
}

/// The range agrees with what reading the digits gives.
#[test]
fn the_range_is_that_of_binary64() {
    for d in [
        "1e307",
        "17.9e307",
        "1.8e308",
        "1.79769313486231570e308",
        "1.79769313486231580e308",
        "1.79769313486231590e308",
        "99999e303",
        "99999e304",
        "0.000000001e317",
        "0.000000001e318",
    ] {
        assert_eq!(decimal::is_too_large(d), d.parse::<f64>().unwrap().is_infinite());
    }
    for d in ["-1e-300", "-1e-323", "-2.47e-324", "-2.4703e-324", "-2.471e-324", "-1e-325"] {
        let kept = decimal::drop_signed_zero(d.to_string());
        assert_eq!(kept.starts_with('-'), d.parse::<f64>().unwrap() != 0.0);
    }
}
