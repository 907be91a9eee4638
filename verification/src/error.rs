use vstd::prelude::*;

use crate::token::{Span, TokenType};

verus! {

/// What went wrong while parsing: the lexical and syntax error cases the
/// grammar can raise. Together with the span in `ParserError` it carries
/// everything a renderer needs for a one-line pointer diagnostic.
#[derive(Debug, Clone, Copy, PartialEq, Eq, Structural)]
pub enum ParseErrorKind {
    /// A byte no lexical rule matches.
    UnexpectedChar { byte: u8 },
    /// A token where the grammar wanted a number or an opening parenthesis.
    UnexpectedToken { found: TokenType },
    /// A token other than the one a grammar rule demanded.
    Expected { expected: TokenType, found: TokenType },
    /// Unconsumed input left over after a complete expression.
    TrailingInput,
}

/// A parse failure: the byte range of the offending input and the kind of
/// rule it broke.
#[derive(Debug, Clone, Copy, PartialEq, Eq, Structural)]
pub struct ParserError {
    pub span: Span,
    pub kind: ParseErrorKind,
}

/// Errors raised while reducing an expression tree. Evaluation of a
/// well-formed tree cannot fail, so no function of this library ever
/// constructs a value of this type; the variant stands for the internal
/// defect of an operator token of the wrong kind reaching the evaluator.
#[derive(Debug, Clone, Copy, PartialEq, Eq, Structural)]
pub enum InterpreterError {
    InvalidOperator,
}

/// Any failure of the parse-and-evaluate pipeline.
#[derive(Debug, Clone, Copy, PartialEq, Eq, Structural)]
pub enum Error {
    Parser(ParserError),
    Interpreter(InterpreterError),
}

} // verus!
