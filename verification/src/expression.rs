use vstd::prelude::*;

use crate::token::{Token, TokenType};
use crate::value::Value;

verus! {

/// The expression tree the parser builds: an immutable, recursively owned
/// sum type. `Grouping` keeps a parenthesized sub-expression as a node of
/// its own so the tree mirrors the surface syntax.
#[derive(Debug, PartialEq)]
pub enum Expr {
    Unary { operator: Token, right: Box<Expr> },
    Binary { left: Box<Expr>, operator: Token, right: Box<Expr> },
    Grouping { expression: Box<Expr> },
    Literal { value: Value },
}

/// Syntactic completeness of a tree handed to the evaluator: every unary
/// operator is a minus, and every binary operator is one of plus, minus,
/// star, slash, or the left parenthesis that stands for multiplication by
/// juxtaposition. The parser only ever builds such trees.
pub open spec fn wf_expr(e: Expr) -> bool
    decreases e,
{
    match e {
        Expr::Literal { value } => true,
        Expr::Unary { operator, right } => operator.ty == TokenType::Minus && wf_expr(*right),
        Expr::Binary { left, operator, right } => {
            &&& (operator.ty == TokenType::Plus || operator.ty == TokenType::Minus
                || operator.ty == TokenType::Star || operator.ty == TokenType::Slash
                || operator.ty == TokenType::LeftParen)
            &&& wf_expr(*left)
            &&& wf_expr(*right)
        },
        Expr::Grouping { expression } => wf_expr(*expression),
    }
}

} // verus!
