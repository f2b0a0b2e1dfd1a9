use calc::ast::Expr;
use calc::error::EvalError;
use calc::num::Num;

fn n(x: f64) -> Num {
    Num { bits: x.to_bits() }
}

#[test]
fn test_ast() {
    // 2 + 3 * 4
    let expr = Expr::add(
        Expr::number(n(2.0)),
        Expr::mul(Expr::number(n(3.0)), Expr::number(n(4.0))),
    );
    let result = expr.eval().expect("Evaluation failed");
    println!("{} = {}", expr.to_string(), f64::from_bits(result.bits));
    assert_eq!(f64::from_bits(result.bits), 14.0);
}

#[test]
fn test_division_by_zero() {
    let expr = Expr::div(Expr::number(n(1.0)), Expr::number(n(0.0)));
    let result = expr.eval();
    assert!(matches!(result, Err(EvalError::DivisionByZero)));
}

#[test]
fn test_overflow() {
    let expr = Expr::mul(Expr::number(n(f64::MAX)), Expr::number(n(2.0)));
    let result = expr.eval();
    assert!(matches!(result, Err(EvalError::Overflow)));
}

#[test]
fn test_underflow() {
    let expr = Expr::mul(Expr::number(n(f64::MIN)), Expr::number(n(2.0)));
    let result = expr.eval();
    assert!(matches!(result, Err(EvalError::Underflow)));
}

#[test]
fn test_pow_node() {
    // No surface syntax reaches Pow; the node itself still evaluates.
    let expr = Expr::pow(Expr::number(n(2.0)), Expr::number(n(10.0)));
    let result = expr.eval().expect("Evaluation failed");
    assert_eq!(f64::from_bits(result.bits), 1024.0);
    assert!(expr.to_string().contains("^"));
}

#[test]
fn test_eval_short_circuit() {
    // The divisor fails first: the division-by-zero in the dividend is
    // never reached.
    let inner = Expr::div(Expr::number(n(1.0)), Expr::number(n(0.0)));
    let expr = Expr::div(inner, Expr::number(n(0.0)));
    assert!(matches!(expr.eval(), Err(EvalError::DivisionByZero)));
}

#[test]
fn test_neg_negative_zero() {
    let expr = Expr::div(Expr::number(n(1.0)), Expr::neg(Expr::number(n(0.0))));
    // Negative zero still counts as zero for the divisor check.
    assert!(matches!(expr.eval(), Err(EvalError::DivisionByZero)));
}
