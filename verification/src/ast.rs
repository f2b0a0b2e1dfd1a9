use vstd::prelude::*;
use vstd::string::StringExecFns;

use crate::error::EvalError;
use crate::num::{
    add_bits, div_bits, mul_bits, num_add, num_div, num_mul, num_pow, num_sub, num_to_text,
    pow_bits, rendered_bits, sub_bits, Num, NEG_INFINITY_BITS, POS_INFINITY_BITS,
};

verus! {

/// An arithmetic expression: an immutable tree, built bottom-up by the
/// parser, never changed afterwards, read by evaluation and rendering.
#[derive(Debug)]
pub enum Expr {
    Number(Num),
    Add(Box<Expr>, Box<Expr>),
    Sub(Box<Expr>, Box<Expr>),
    Mul(Box<Expr>, Box<Expr>),
    Div(Box<Expr>, Box<Expr>),
    Neg(Box<Expr>),
    Pow(Box<Expr>, Box<Expr>),
}

/// The overflow check applied to every computed result before it is passed
/// upward: positive infinity overflows, negative infinity underflows, and
/// every other pattern — NaN included — passes through unchanged.
pub open spec fn spec_check(b: u64) -> Result<Num, EvalError> {
    if b == POS_INFINITY_BITS {
        Err(EvalError::Overflow)
    } else if b == NEG_INFINITY_BITS {
        Err(EvalError::Underflow)
    } else {
        Ok(Num { bits: b })
    }
}

/// What evaluating an expression yields: operands left before right — for a
/// quotient the divisor first, failing on a zero divisor before the
/// dividend is looked at — with the first failure cutting evaluation short.
pub open spec fn spec_eval(e: Expr) -> Result<Num, EvalError>
    decreases e,
{
    match e {
        Expr::Number(n) => Ok(n),
        Expr::Add(a, b) => match spec_eval(*a) {
            Ok(x) => match spec_eval(*b) {
                Ok(y) => spec_check(add_bits(x.bits, y.bits)),
                Err(er) => Err(er),
            },
            Err(er) => Err(er),
        },
        Expr::Sub(a, b) => match spec_eval(*a) {
            Ok(x) => match spec_eval(*b) {
                Ok(y) => spec_check(sub_bits(x.bits, y.bits)),
                Err(er) => Err(er),
            },
            Err(er) => Err(er),
        },
        Expr::Mul(a, b) => match spec_eval(*a) {
            Ok(x) => match spec_eval(*b) {
                Ok(y) => spec_check(mul_bits(x.bits, y.bits)),
                Err(er) => Err(er),
            },
            Err(er) => Err(er),
        },
        Expr::Div(a, b) => match spec_eval(*b) {
            Ok(y) => if y.spec_is_zero() {
                Err(EvalError::DivisionByZero)
            } else {
                match spec_eval(*a) {
                    Ok(x) => spec_check(div_bits(x.bits, y.bits)),
                    Err(er) => Err(er),
                }
            },
            Err(er) => Err(er),
        },
        Expr::Neg(a) => match spec_eval(*a) {
            Ok(x) => spec_check(x.spec_negated().bits),
            Err(er) => Err(er),
        },
        Expr::Pow(a, b) => match spec_eval(*a) {
            Ok(x) => match spec_eval(*b) {
                Ok(y) => spec_check(pow_bits(x.bits, y.bits)),
                Err(er) => Err(er),
            },
            Err(er) => Err(er),
        },
    }
}

/// The fully parenthesized text of an expression: every composite operand
/// stands in its own parentheses, so precedence is explicit in the text.
pub open spec fn spec_render(e: Expr) -> Seq<char>
    decreases e,
{
    match e {
        Expr::Number(n) => rendered_bits(n.bits),
        Expr::Add(a, b) => "("@ + spec_render(*a) + ") + ("@ + spec_render(*b) + ")"@,
        Expr::Sub(a, b) => "("@ + spec_render(*a) + ") - ("@ + spec_render(*b) + ")"@,
        Expr::Mul(a, b) => "("@ + spec_render(*a) + ") * ("@ + spec_render(*b) + ")"@,
        Expr::Div(a, b) => "("@ + spec_render(*a) + ") / ("@ + spec_render(*b) + ")"@,
        Expr::Neg(a) => "-("@ + spec_render(*a) + ")"@,
        Expr::Pow(a, b) => "("@ + spec_render(*a) + ") ^ ("@ + spec_render(*b) + ")"@,
    }
}

impl Expr {
    pub fn number(n: Num) -> (r: Expr)
        ensures
            r == Expr::Number(n),
    {
        Expr::Number(n)
    }

    pub fn add(a: Expr, b: Expr) -> (r: Expr)
        ensures
            r == Expr::Add(Box::new(a), Box::new(b)),
    {
        Expr::Add(Box::new(a), Box::new(b))
    }

    pub fn sub(a: Expr, b: Expr) -> (r: Expr)
        ensures
            r == Expr::Sub(Box::new(a), Box::new(b)),
    {
        Expr::Sub(Box::new(a), Box::new(b))
    }

    pub fn mul(a: Expr, b: Expr) -> (r: Expr)
        ensures
            r == Expr::Mul(Box::new(a), Box::new(b)),
    {
        Expr::Mul(Box::new(a), Box::new(b))
    }

    pub fn div(a: Expr, b: Expr) -> (r: Expr)
        ensures
            r == Expr::Div(Box::new(a), Box::new(b)),
    {
        Expr::Div(Box::new(a), Box::new(b))
    }

    pub fn neg(a: Expr) -> (r: Expr)
        ensures
            r == Expr::Neg(Box::new(a)),
    {
        Expr::Neg(Box::new(a))
    }

    pub fn pow(a: Expr, b: Expr) -> (r: Expr)
        ensures
            r == Expr::Pow(Box::new(a), Box::new(b)),
    {
        Expr::Pow(Box::new(a), Box::new(b))
    }

    /// Evaluates the tree, exactly as `spec_eval` lays it out.
    pub fn eval(&self) -> (r: Result<Num, EvalError>)
        ensures
            r == spec_eval(*self),
        decreases *self,
    {
        match self {
            Expr::Number(n) => Ok(*n),
            Expr::Add(a, b) => {
                let x = a.eval()?;
                let y = b.eval()?;
                Self::check_result(num_add(x, y))
            },
            Expr::Sub(a, b) => {
                let x = a.eval()?;
                let y = b.eval()?;
                Self::check_result(num_sub(x, y))
            },
            Expr::Mul(a, b) => {
                let x = a.eval()?;
                let y = b.eval()?;
                Self::check_result(num_mul(x, y))
            },
            Expr::Div(a, b) => {
                let divisor = b.eval()?;
                if divisor.is_zero() {
                    return Err(EvalError::DivisionByZero);
                }
                let x = a.eval()?;
                Self::check_result(num_div(x, divisor))
            },
            Expr::Neg(a) => {
                let x = a.eval()?;
                Self::check_result(x.negated())
            },
            Expr::Pow(a, b) => {
                let x = a.eval()?;
                let y = b.eval()?;
                Self::check_result(num_pow(x, y))
            },
        }
    }

    fn check_result(n: Num) -> (r: Result<Num, EvalError>)
        ensures
            r == spec_check(n.bits),
    {
        if n.bits == POS_INFINITY_BITS {
            Err(EvalError::Overflow)
        } else if n.bits == NEG_INFINITY_BITS {
            Err(EvalError::Underflow)
        } else {
            Ok(n)
        }
    }

    /// Renders the tree, exactly as `spec_render` lays it out: the same
    /// tree always yields the same text.
    pub fn to_string(&self) -> (r: String)
        ensures
            r@ == spec_render(*self),
        decreases *self,
    {
        match self {
            Expr::Number(n) => num_to_text(*n),
            Expr::Add(a, b) => {
                let mut s = "(".to_owned();
                s.append(a.to_string().as_str());
                s.append(") + (");
                s.append(b.to_string().as_str());
                s.append(")");
                s
            },
            Expr::Sub(a, b) => {
                let mut s = "(".to_owned();
                s.append(a.to_string().as_str());
                s.append(") - (");
                s.append(b.to_string().as_str());
                s.append(")");
                s
            },
            Expr::Mul(a, b) => {
                let mut s = "(".to_owned();
                s.append(a.to_string().as_str());
                s.append(") * (");
                s.append(b.to_string().as_str());
                s.append(")");
                s
            },
            Expr::Div(a, b) => {
                let mut s = "(".to_owned();
                s.append(a.to_string().as_str());
                s.append(") / (");
                s.append(b.to_string().as_str());
                s.append(")");
                s
            },
            Expr::Neg(a) => {
                let mut s = "-(".to_owned();
                s.append(a.to_string().as_str());
                s.append(")");
                s
            },
            Expr::Pow(a, b) => {
                let mut s = "(".to_owned();
                s.append(a.to_string().as_str());
                s.append(") ^ (");
                s.append(b.to_string().as_str());
                s.append(")");
                s
            },
        }
    }
}

/// A quotient whose divisor evaluates to a zero fails with
/// `DivisionByZero`, whatever stands in the dividend.
pub proof fn lemma_div_by_zero(a: Expr, b: Expr)
    requires
        spec_eval(b) matches Ok(n) && n.spec_is_zero(),
    ensures
        spec_eval(Expr::Div(Box::new(a), Box::new(b))) == Result::<Num, EvalError>::Err(
            EvalError::DivisionByZero,
        ),
{
}

/// Negating twice gives the value back: the sign bit is reversed and
/// reversed again. The one proviso is that the value is not an infinity,
/// for which the single negation would already have failed the overflow
/// check.
pub proof fn lemma_double_negation(e: Expr, n: Num)
    requires
        spec_eval(e) == Result::<Num, EvalError>::Ok(n),
        n.bits != POS_INFINITY_BITS,
        n.bits != NEG_INFINITY_BITS,
    ensures
        spec_eval(Expr::Neg(Box::new(Expr::Neg(Box::new(e))))) == Result::<Num, EvalError>::Ok(n),
{
    let b = n.bits;
    assert(((b ^ 0x8000_0000_0000_0000u64) ^ 0x8000_0000_0000_0000u64) == b) by (bit_vector);
    assert((b ^ 0x8000_0000_0000_0000u64) == 0x7ff0_0000_0000_0000u64 ==> b
        == 0xfff0_0000_0000_0000u64) by (bit_vector);
    assert((b ^ 0x8000_0000_0000_0000u64) == 0xfff0_0000_0000_0000u64 ==> b
        == 0x7ff0_0000_0000_0000u64) by (bit_vector);
    assert(spec_eval(Expr::Neg(Box::new(e))) == Result::<Num, EvalError>::Ok(
        n.spec_negated(),
    ));
}

/// A product whose operands evaluate but whose result pattern is positive
/// infinity — it passed beyond the largest finite magnitude — fails with
/// `Overflow`; the symmetric negative case fails with `Underflow`.
pub proof fn lemma_mul_beyond_finite(a: Expr, b: Expr, x: Num, y: Num)
    requires
        spec_eval(a) == Result::<Num, EvalError>::Ok(x),
        spec_eval(b) == Result::<Num, EvalError>::Ok(y),
    ensures
        mul_bits(x.bits, y.bits) == POS_INFINITY_BITS ==> spec_eval(
            Expr::Mul(Box::new(a), Box::new(b)),
        ) == Result::<Num, EvalError>::Err(EvalError::Overflow),
        mul_bits(x.bits, y.bits) == NEG_INFINITY_BITS ==> spec_eval(
            Expr::Mul(Box::new(a), Box::new(b)),
        ) == Result::<Num, EvalError>::Err(EvalError::Underflow),
{
}

} // verus!
