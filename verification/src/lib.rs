//! A minimal arithmetic language front end: a scanner that turns a byte
//! buffer into tokens, a recursive-descent parser that builds an expression
//! tree under the usual precedence rules, and a tree-walking evaluator that
//! reduces the tree to one IEEE-754 double-precision value, carried as its
//! raw bit pattern.

use vstd::prelude::*;

pub mod error;
pub mod expression;
pub mod grammar;
pub mod interpreter;
pub mod parser;
pub mod scanner;
pub mod token;
pub mod value;

pub use error::Error;
pub use error::InterpreterError;
pub use error::ParseErrorKind;
pub use error::ParserError;
pub use expression::Expr;
pub use parser::Parser;
pub use scanner::ScanError;
pub use scanner::Scanner;
pub use token::Span;
pub use token::Token;
pub use token::TokenType;
pub use value::Value;

use crate::expression::wf_expr;
use crate::grammar::{accepts, bad_err, lemma_accepts_rejects_exclusive, parses_to, rejects,
    scan_bad, sim_parse, sp_parse, SpStep};
use crate::interpreter::eval_bits;

verus! {

/// The whole pipeline on one source buffer: scan, parse, evaluate. It
/// returns the value of the expression exactly when the grammar accepts the
/// whole source, and an error exactly when the grammar rejects it; the
/// value's bits are exactly the evaluation of the one tree the grammar
/// derives.
pub fn run(source: &[u8]) -> (r: Result<Value, Error>)
    ensures
        r is Ok <==> accepts(source@),
        match r {
            Ok(v) => exists|e: Expr| parses_to(source@, e) && v.bits == eval_bits(e),
            Err(er) => rejects(source@) && match er {
                Error::Parser(pe) => (scan_bad(source@, 0) && pe == bad_err(source@, 0))
                    || sim_parse(source@, 0, SpStep::Fail { err: pe }),
                Error::Interpreter(ie) => false,
            },
        },
{
    let parser = match Parser::new(source) {
        Ok(p) => p,
        Err(e) => {
            proof {
                lemma_accepts_rejects_exclusive(source@);
            }
            return Err(Error::Parser(e));
        },
    };
    let expr = match parser.parse() {
        Ok(e) => e,
        Err(e) => {
            proof {
                let f = choose|f: nat| sp_parse(source@, 0, f) == (SpStep::Fail { err: e });
                assert(sp_parse(source@, 0, f) is Fail);
                lemma_accepts_rejects_exclusive(source@);
            }
            return Err(Error::Parser(e));
        },
    };
    proof {
        let p = choose|p: int| sim_parse(source@, 0, SpStep::Done { e: expr, pos: p });
        let f = choose|f: nat| sp_parse(source@, 0, f) == (SpStep::Done { e: expr, pos: p });
        assert(parses_to(source@, expr));
    }
    match expr.interpret() {
        Ok(v) => Ok(v),
        Err(ie) => Err(Error::Interpreter(ie)),
    }
}

} // verus!
