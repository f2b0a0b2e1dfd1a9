use calc::ast::Expr;
use calc::error::{EvalError, LexerError, Location, ParseError};
use calc::parser::Parser;

fn parse(input: &str) -> Expr {
    Parser::new(input)
        .expect("Failed to create parser")
        .parse()
        .expect("Failed to parse")
}

fn eval_to(input: &str) -> Result<f64, EvalError> {
    parse(input).eval().map(|v| f64::from_bits(v.bits))
}

#[test]
fn test_precedence_and_associativity() {
    assert_eq!(eval_to("2 + 3 * 4").unwrap(), 14.0);
    assert_eq!(eval_to("10 - 2 - 3").unwrap(), 5.0);
    assert_eq!(eval_to("8 - 2 * 3").unwrap(), 2.0);
    assert_eq!(eval_to("2 * -3").unwrap(), -6.0);
    assert_eq!(eval_to("100 / 10 / 5").unwrap(), 2.0);
}

#[test]
fn test_grouping() {
    assert_eq!(eval_to("(2 + 3) * 4").unwrap(), 20.0);
    assert_eq!(eval_to("((2))").unwrap(), 2.0);
}

#[test]
fn test_render_round_trip() {
    let rendered = parse("2 + 3 * 4").to_string();
    assert_eq!(rendered, "(2) + ((3) * (4))");
    // Deterministic: a second parse of the same text renders identically.
    assert_eq!(parse("2 + 3 * 4").to_string(), rendered);
}

#[test]
fn test_division_by_zero_from_text() {
    assert!(matches!(eval_to("10 / 0"), Err(EvalError::DivisionByZero)));
}

#[test]
fn test_double_negation() {
    let expr = parse("--5");
    match &expr {
        Expr::Neg(a) => match &**a {
            Expr::Neg(b) => match &**b {
                Expr::Number(v) => assert_eq!(f64::from_bits(v.bits), 5.0),
                other => panic!("expected a number inside, got {:?}", other),
            },
            other => panic!("expected an inner negation, got {:?}", other),
        },
        other => panic!("expected a negation, got {:?}", other),
    }
    assert_eq!(expr.eval().map(|v| f64::from_bits(v.bits)).unwrap(), 5.0);
}

#[test]
fn test_unbalanced_paren_location_at_end() {
    let mut parser = Parser::new("(2 + 3").expect("Failed to create parser");
    let err = parser.parse().unwrap_err();
    assert!(err.message.contains("Expected RightParen"));
    assert_eq!(err.location.line, 1);
    assert_eq!(err.location.column, 7);
}

#[test]
fn test_decimal_literals() {
    assert_eq!(eval_to("2.5 * 2").unwrap(), 5.0);
    assert_eq!(eval_to("0.1 + 0.2").unwrap(), 0.1f64 + 0.2f64);
}

#[test]
fn test_render_decimal() {
    assert_eq!(parse("2.5").to_string(), "2.5");
}

#[test]
fn test_error_constructors() {
    let loc = Location::new(3, 9);
    assert_eq!((loc.line, loc.column), (3, 9));
    let le = LexerError::new("bad", loc);
    assert_eq!(le.message, "bad");
    assert_eq!(le.location, loc);
    let pe = ParseError::new("worse", loc);
    assert_eq!(pe.message, "worse");
    assert_eq!(pe.location, loc);
    let lifted = ParseError::from_lexer_error(le);
    assert_eq!(lifted.message, "bad");
    assert_eq!(lifted.location, loc);
}

#[test]
fn test_multiline_parse_error_location() {
    let mut parser = Parser::new("1 +\n+").expect("Failed to create parser");
    let err = parser.parse().unwrap_err();
    assert_eq!(err.location.line, 2);
    assert_eq!(err.location.column, 1);
}
