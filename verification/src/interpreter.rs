use vstd::prelude::*;

use crate::error::InterpreterError;
use crate::expression::{wf_expr, Expr};
use crate::token::TokenType;
use crate::value::{add_bits, div_bits, float_add, float_div, float_mul, float_neg, float_sub,
    mul_bits, neg_bits, sub_bits, Value};

verus! {

/// The value of an expression tree, as IEEE-754 double-precision bits: a
/// literal carries its own bits; a unary node negates; a binary node applies
/// its operator, the left operand first, with the left parenthesis standing
/// for multiplication by juxtaposition; a grouping changes nothing.
pub open spec fn eval_bits(e: Expr) -> u64
    decreases e,
{
    match e {
        Expr::Literal { value } => value.bits,
        Expr::Unary { operator, right } => float_neg(eval_bits(*right)),
        Expr::Binary { left, operator, right } => {
            let l = eval_bits(*left);
            let r = eval_bits(*right);
            if operator.ty == TokenType::Plus {
                float_add(l, r)
            } else if operator.ty == TokenType::Minus {
                float_sub(l, r)
            } else if operator.ty == TokenType::Slash {
                float_div(l, r)
            } else {
                float_mul(l, r)
            }
        },
        Expr::Grouping { expression } => eval_bits(*expression),
    }
}

impl Expr {
    /// Reduces the tree to one value by a single recursive post-order walk.
    /// On a well-formed tree this cannot fail: the result is always `Ok` and
    /// holds exactly the bits `eval_bits` describes.
    pub fn interpret(&self) -> (r: Result<Value, InterpreterError>)
        requires
            wf_expr(*self),
        ensures
            r matches Ok(v) && v.bits == eval_bits(*self),
        decreases *self,
    {
        match self {
            Expr::Unary { operator, right } => {
                let v = right.interpret()?;
                match operator.ty {
                    TokenType::Minus => Ok(Value::new(neg_bits(v.bits))),
                    _ => Err(InterpreterError::InvalidOperator),
                }
            },
            Expr::Binary { left, operator, right } => {
                let l = left.interpret()?;
                let r = right.interpret()?;
                match operator.ty {
                    TokenType::Plus => Ok(Value::new(add_bits(l.bits, r.bits))),
                    TokenType::Minus => Ok(Value::new(sub_bits(l.bits, r.bits))),
                    TokenType::Star => Ok(Value::new(mul_bits(l.bits, r.bits))),
                    TokenType::LeftParen => Ok(Value::new(mul_bits(l.bits, r.bits))),
                    TokenType::Slash => Ok(Value::new(div_bits(l.bits, r.bits))),
                    _ => Err(InterpreterError::InvalidOperator),
                }
            },
            Expr::Grouping { expression } => expression.interpret(),
            Expr::Literal { value } => Ok(*value),
        }
    }
}

} // verus!
