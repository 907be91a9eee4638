use vstd::prelude::*;

use crate::error::{ParseErrorKind, ParserError};
use crate::expression::{wf_expr, Expr};
use crate::scanner::{spec_scan, SpecScan};
use crate::token::{Span, Token, TokenType};
use crate::value::{float_of, Value};

verus! {

// The grammar, written as a deterministic specification-level parser:
//
//   expression := term
//   term       := factor ( ( '-' | '+' ) factor )*          left-associative
//   factor     := unary  ( ( '*' | '/' | '(' ) rhs )*       left-associative
//   unary      := '-' unary | primary
//   primary    := NUMBER | '(' expression ')'
//
// where a '(' continuing the factor loop stands for multiplication by
// juxtaposition and its right-hand side is a full parenthesized grouping.
//
// A position `pos` stands for a parser state whose lookahead token is
// `spec_scan(src, pos)`. Consuming a token ending at `end` moves the state
// to `end` and scans the next lookahead there at once, so a lexical error
// right after a consumed token fails the parse at that moment, exactly as
// the pull-based scanning of the executable parser does.
//
// The functions take fuel so that their recursion visibly terminates; `Out`
// means the fuel ran out before the parse finished, and the lemmas below
// show the outcome is the same under any fuel large enough to finish.

/// Outcome of one specification-level parsing step: a finished tree and the
/// position after it, a parse failure carrying the exact error reported, or
/// exhausted fuel.
pub enum SpStep {
    Done { e: Expr, pos: int },
    Fail { err: ParserError },
    Out,
}

/// The token spanning `[start, end)` of the given kind.
pub open spec fn tok_at(ty: TokenType, start: int, end: int) -> Token {
    Token { span: Span { offset: start as usize, size: (end - start) as usize }, ty }
}

/// True when the scan at `pos` hits a byte no lexical rule matches.
pub open spec fn scan_bad(src: Seq<u8>, pos: int) -> bool {
    spec_scan(src, pos) is Bad
}

/// The parser-level error reported when the scan at `pos` hits a byte no
/// lexical rule matches: it points at that byte.
pub open spec fn bad_err(src: Seq<u8>, pos: int) -> ParserError {
    match spec_scan(src, pos) {
        SpecScan::Bad { at } => ParserError {
            span: Span { offset: at as usize, size: 1 },
            kind: ParseErrorKind::UnexpectedChar { byte: src[at] },
        },
        SpecScan::Tok { ty, start, end } => arbitrary(),
    }
}

/// The error reported when a grammar rule demanded one token kind and found
/// another: it points at the found token.
pub open spec fn expected_err(expected: TokenType, ty: TokenType, start: int, end: int) -> ParserError {
    ParserError {
        span: tok_at(ty, start, end).span,
        kind: ParseErrorKind::Expected { expected, found: ty },
    }
}

pub open spec fn sp_expression(src: Seq<u8>, pos: int, fuel: nat) -> SpStep
    decreases fuel,
{
    if fuel == 0 {
        SpStep::Out
    } else {
        sp_term(src, pos, (fuel - 1) as nat)
    }
}

pub open spec fn sp_term(src: Seq<u8>, pos: int, fuel: nat) -> SpStep
    decreases fuel,
{
    if fuel == 0 {
        SpStep::Out
    } else {
        match sp_factor(src, pos, (fuel - 1) as nat) {
            SpStep::Done { e, pos: p } => sp_term_more(src, e, p, (fuel - 1) as nat),
            o => o,
        }
    }
}

/// The `( ( '-' | '+' ) factor )*` tail of a term, folded onto `acc` from
/// the left.
pub open spec fn sp_term_more(src: Seq<u8>, acc: Expr, pos: int, fuel: nat) -> SpStep
    decreases fuel,
{
    if fuel == 0 {
        SpStep::Out
    } else {
        match spec_scan(src, pos) {
            SpecScan::Tok { ty, start, end } => {
                if ty == TokenType::Minus || ty == TokenType::Plus {
                    if scan_bad(src, end) {
                        SpStep::Fail { err: bad_err(src, end) }
                    } else {
                        match sp_factor(src, end, (fuel - 1) as nat) {
                            SpStep::Done { e: r, pos: p } => sp_term_more(
                                src,
                                Expr::Binary {
                                    left: Box::new(acc),
                                    operator: tok_at(ty, start, end),
                                    right: Box::new(r),
                                },
                                p,
                                (fuel - 1) as nat,
                            ),
                            o => o,
                        }
                    }
                } else {
                    SpStep::Done { e: acc, pos }
                }
            },
            SpecScan::Bad { at } => SpStep::Fail { err: bad_err(src, pos) },
        }
    }
}

pub open spec fn sp_factor(src: Seq<u8>, pos: int, fuel: nat) -> SpStep
    decreases fuel,
{
    if fuel == 0 {
        SpStep::Out
    } else {
        match sp_unary(src, pos, (fuel - 1) as nat) {
            SpStep::Done { e, pos: p } => sp_factor_more(src, e, p, (fuel - 1) as nat),
            o => o,
        }
    }
}

/// The `( ( '*' | '/' | '(' ) ... )*` tail of a factor, folded onto `acc`
/// from the left; a continuing `(` takes a parenthesized grouping as the
/// right-hand side and multiplies.
pub open spec fn sp_factor_more(src: Seq<u8>, acc: Expr, pos: int, fuel: nat) -> SpStep
    decreases fuel,
{
    if fuel == 0 {
        SpStep::Out
    } else {
        match spec_scan(src, pos) {
            SpecScan::Tok { ty, start, end } => {
                if ty == TokenType::Star || ty == TokenType::Slash {
                    if scan_bad(src, end) {
                        SpStep::Fail { err: bad_err(src, end) }
                    } else {
                        match sp_unary(src, end, (fuel - 1) as nat) {
                            SpStep::Done { e: r, pos: p } => sp_factor_more(
                                src,
                                Expr::Binary {
                                    left: Box::new(acc),
                                    operator: tok_at(ty, start, end),
                                    right: Box::new(r),
                                },
                                p,
                                (fuel - 1) as nat,
                            ),
                            o => o,
                        }
                    }
                } else if ty == TokenType::LeftParen {
                    if scan_bad(src, end) {
                        SpStep::Fail { err: bad_err(src, end) }
                    } else {
                        match sp_expression(src, end, (fuel - 1) as nat) {
                            SpStep::Done { e: inner, pos: p } => match spec_scan(src, p) {
                                SpecScan::Tok { ty: ty2, start: start2, end: end2 } => {
                                    if ty2 != TokenType::RightParen {
                                        SpStep::Fail {
                                            err: expected_err(
                                                TokenType::RightParen,
                                                ty2,
                                                start2,
                                                end2,
                                            ),
                                        }
                                    } else if scan_bad(src, end2) {
                                        SpStep::Fail { err: bad_err(src, end2) }
                                    } else {
                                        sp_factor_more(
                                            src,
                                            Expr::Binary {
                                                left: Box::new(acc),
                                                operator: tok_at(ty, start, end),
                                                right: Box::new(
                                                    Expr::Grouping { expression: Box::new(inner) },
                                                ),
                                            },
                                            end2,
                                            (fuel - 1) as nat,
                                        )
                                    }
                                },
                                SpecScan::Bad { at } => SpStep::Fail { err: bad_err(src, p) },
                            },
                            o => o,
                        }
                    }
                } else {
                    SpStep::Done { e: acc, pos }
                }
            },
            SpecScan::Bad { at } => SpStep::Fail { err: bad_err(src, pos) },
        }
    }
}

pub open spec fn sp_unary(src: Seq<u8>, pos: int, fuel: nat) -> SpStep
    decreases fuel,
{
    if fuel == 0 {
        SpStep::Out
    } else {
        match spec_scan(src, pos) {
            SpecScan::Tok { ty, start, end } => {
                if ty == TokenType::Minus {
                    if scan_bad(src, end) {
                        SpStep::Fail { err: bad_err(src, end) }
                    } else {
                        match sp_unary(src, end, (fuel - 1) as nat) {
                            SpStep::Done { e: r, pos: p } => SpStep::Done {
                                e: Expr::Unary {
                                    operator: tok_at(ty, start, end),
                                    right: Box::new(r),
                                },
                                pos: p,
                            },
                            o => o,
                        }
                    }
                } else {
                    sp_primary(src, pos, (fuel - 1) as nat)
                }
            },
            SpecScan::Bad { at } => SpStep::Fail { err: bad_err(src, pos) },
        }
    }
}

pub open spec fn sp_primary(src: Seq<u8>, pos: int, fuel: nat) -> SpStep
    decreases fuel,
{
    if fuel == 0 {
        SpStep::Out
    } else {
        match spec_scan(src, pos) {
            SpecScan::Tok { ty, start, end } => {
                if ty == TokenType::Number {
                    if scan_bad(src, end) {
                        SpStep::Fail { err: bad_err(src, end) }
                    } else {
                        SpStep::Done {
                            e: Expr::Literal {
                                value: Value { bits: float_of(src.subrange(start, end)) },
                            },
                            pos: end,
                        }
                    }
                } else if ty == TokenType::LeftParen {
                    if scan_bad(src, end) {
                        SpStep::Fail { err: bad_err(src, end) }
                    } else {
                        match sp_expression(src, end, (fuel - 1) as nat) {
                            SpStep::Done { e: inner, pos: p } => match spec_scan(src, p) {
                                SpecScan::Tok { ty: ty2, start: start2, end: end2 } => {
                                    if ty2 != TokenType::RightParen {
                                        SpStep::Fail {
                                            err: expected_err(
                                                TokenType::RightParen,
                                                ty2,
                                                start2,
                                                end2,
                                            ),
                                        }
                                    } else if scan_bad(src, end2) {
                                        SpStep::Fail { err: bad_err(src, end2) }
                                    } else {
                                        SpStep::Done {
                                            e: Expr::Grouping { expression: Box::new(inner) },
                                            pos: end2,
                                        }
                                    }
                                },
                                SpecScan::Bad { at } => SpStep::Fail { err: bad_err(src, p) },
                            },
                            o => o,
                        }
                    }
                } else if ty != TokenType::EoF && scan_bad(src, end) {
                    SpStep::Fail { err: bad_err(src, end) }
                } else {
                    SpStep::Fail {
                        err: ParserError {
                            span: tok_at(ty, start, end).span,
                            kind: ParseErrorKind::UnexpectedToken { found: ty },
                        },
                    }
                }
            },
            SpecScan::Bad { at } => SpStep::Fail { err: bad_err(src, pos) },
        }
    }
}

/// A whole parse from `pos`: one expression, then the lookahead must be the
/// end-of-input token, else the leftover input is a failure.
pub open spec fn sp_parse(src: Seq<u8>, pos: int, fuel: nat) -> SpStep {
    match sp_expression(src, pos, fuel) {
        SpStep::Done { e, pos: p } => match spec_scan(src, p) {
            SpecScan::Tok { ty, start, end } => {
                if ty == TokenType::EoF {
                    SpStep::Done { e, pos: p }
                } else {
                    SpStep::Fail {
                        err: ParserError {
                            span: tok_at(ty, start, end).span,
                            kind: ParseErrorKind::TrailingInput,
                        },
                    }
                }
            },
            SpecScan::Bad { at } => SpStep::Fail { err: bad_err(src, p) },
        },
        o => o,
    }
}

/// The grammar derives exactly the tree `e` from the whole of `src`.
pub open spec fn parses_to(src: Seq<u8>, e: Expr) -> bool {
    &&& !scan_bad(src, 0)
    &&& exists|fuel: nat, p: int| sp_parse(src, 0, fuel) == (SpStep::Done { e, pos: p })
}

/// The grammar accepts the whole of `src`.
pub open spec fn accepts(src: Seq<u8>) -> bool {
    exists|e: Expr| parses_to(src, e)
}

/// Scanning or parsing the whole of `src` fails.
pub open spec fn rejects(src: Seq<u8>) -> bool {
    ||| scan_bad(src, 0)
    ||| exists|fuel: nat| sp_parse(src, 0, fuel) is Fail
}

// Each executable parsing function promises that the corresponding
// specification-level function reaches the same outcome under some fuel.

pub open spec fn sim_expression(src: Seq<u8>, pos: int, o: SpStep) -> bool {
    exists|f: nat| sp_expression(src, pos, f) == o
}

pub open spec fn sim_term(src: Seq<u8>, pos: int, o: SpStep) -> bool {
    exists|f: nat| sp_term(src, pos, f) == o
}

pub open spec fn sim_term_more(src: Seq<u8>, acc: Expr, pos: int, o: SpStep) -> bool {
    exists|f: nat| sp_term_more(src, acc, pos, f) == o
}

pub open spec fn sim_factor(src: Seq<u8>, pos: int, o: SpStep) -> bool {
    exists|f: nat| sp_factor(src, pos, f) == o
}

pub open spec fn sim_factor_more(src: Seq<u8>, acc: Expr, pos: int, o: SpStep) -> bool {
    exists|f: nat| sp_factor_more(src, acc, pos, f) == o
}

pub open spec fn sim_unary(src: Seq<u8>, pos: int, o: SpStep) -> bool {
    exists|f: nat| sp_unary(src, pos, f) == o
}

pub open spec fn sim_primary(src: Seq<u8>, pos: int, o: SpStep) -> bool {
    exists|f: nat| sp_primary(src, pos, f) == o
}

pub open spec fn sim_parse(src: Seq<u8>, pos: int, o: SpStep) -> bool {
    exists|f: nat| sp_parse(src, pos, f) == o
}

// Fuel only decides whether the specification parser finishes, never what
// it finds: once an outcome is reached under some fuel, every larger fuel
// reaches the same outcome.

pub proof fn mono_expression(src: Seq<u8>, pos: int, f1: nat, f2: nat)
    requires
        f1 <= f2,
        sp_expression(src, pos, f1) != SpStep::Out,
    ensures
        sp_expression(src, pos, f2) == sp_expression(src, pos, f1),
    decreases f1,
{
    mono_term(src, pos, (f1 - 1) as nat, (f2 - 1) as nat);
}

pub proof fn mono_term(src: Seq<u8>, pos: int, f1: nat, f2: nat)
    requires
        f1 <= f2,
        sp_term(src, pos, f1) != SpStep::Out,
    ensures
        sp_term(src, pos, f2) == sp_term(src, pos, f1),
    decreases f1,
{
    mono_factor(src, pos, (f1 - 1) as nat, (f2 - 1) as nat);
    match sp_factor(src, pos, (f1 - 1) as nat) {
        SpStep::Done { e, pos: p } => {
            mono_term_more(src, e, p, (f1 - 1) as nat, (f2 - 1) as nat);
        },
        _ => {},
    }
}

pub proof fn mono_term_more(src: Seq<u8>, acc: Expr, pos: int, f1: nat, f2: nat)
    requires
        f1 <= f2,
        sp_term_more(src, acc, pos, f1) != SpStep::Out,
    ensures
        sp_term_more(src, acc, pos, f2) == sp_term_more(src, acc, pos, f1),
    decreases f1,
{
    match spec_scan(src, pos) {
        SpecScan::Tok { ty, start, end } => {
            if (ty == TokenType::Minus || ty == TokenType::Plus) && !scan_bad(src, end) {
                mono_factor(src, end, (f1 - 1) as nat, (f2 - 1) as nat);
                match sp_factor(src, end, (f1 - 1) as nat) {
                    SpStep::Done { e: r, pos: p } => {
                        let acc2 = Expr::Binary {
                            left: Box::new(acc),
                            operator: tok_at(ty, start, end),
                            right: Box::new(r),
                        };
                        mono_term_more(src, acc2, p, (f1 - 1) as nat, (f2 - 1) as nat);
                    },
                    _ => {},
                }
            }
        },
        SpecScan::Bad { at } => {},
    }
}

pub proof fn mono_factor(src: Seq<u8>, pos: int, f1: nat, f2: nat)
    requires
        f1 <= f2,
        sp_factor(src, pos, f1) != SpStep::Out,
    ensures
        sp_factor(src, pos, f2) == sp_factor(src, pos, f1),
    decreases f1,
{
    mono_unary(src, pos, (f1 - 1) as nat, (f2 - 1) as nat);
    match sp_unary(src, pos, (f1 - 1) as nat) {
        SpStep::Done { e, pos: p } => {
            mono_factor_more(src, e, p, (f1 - 1) as nat, (f2 - 1) as nat);
        },
        _ => {},
    }
}

pub proof fn mono_factor_more(src: Seq<u8>, acc: Expr, pos: int, f1: nat, f2: nat)
    requires
        f1 <= f2,
        sp_factor_more(src, acc, pos, f1) != SpStep::Out,
    ensures
        sp_factor_more(src, acc, pos, f2) == sp_factor_more(src, acc, pos, f1),
    decreases f1,
{
    match spec_scan(src, pos) {
        SpecScan::Tok { ty, start, end } => {
            if (ty == TokenType::Star || ty == TokenType::Slash) && !scan_bad(src, end) {
                mono_unary(src, end, (f1 - 1) as nat, (f2 - 1) as nat);
                match sp_unary(src, end, (f1 - 1) as nat) {
                    SpStep::Done { e: r, pos: p } => {
                        let acc2 = Expr::Binary {
                            left: Box::new(acc),
                            operator: tok_at(ty, start, end),
                            right: Box::new(r),
                        };
                        mono_factor_more(src, acc2, p, (f1 - 1) as nat, (f2 - 1) as nat);
                    },
                    _ => {},
                }
            } else if ty == TokenType::LeftParen && !scan_bad(src, end) {
                mono_expression(src, end, (f1 - 1) as nat, (f2 - 1) as nat);
                match sp_expression(src, end, (f1 - 1) as nat) {
                    SpStep::Done { e: inner, pos: p } => match spec_scan(src, p) {
                        SpecScan::Tok { ty: ty2, start: start2, end: end2 } => {
                            if ty2 == TokenType::RightParen && !scan_bad(src, end2) {
                                let acc2 = Expr::Binary {
                                    left: Box::new(acc),
                                    operator: tok_at(ty, start, end),
                                    right: Box::new(
                                        Expr::Grouping { expression: Box::new(inner) },
                                    ),
                                };
                                mono_factor_more(src, acc2, end2, (f1 - 1) as nat, (f2 - 1) as nat);
                            }
                        },
                        SpecScan::Bad { at } => {},
                    },
                    _ => {},
                }
            }
        },
        SpecScan::Bad { at } => {},
    }
}

pub proof fn mono_unary(src: Seq<u8>, pos: int, f1: nat, f2: nat)
    requires
        f1 <= f2,
        sp_unary(src, pos, f1) != SpStep::Out,
    ensures
        sp_unary(src, pos, f2) == sp_unary(src, pos, f1),
    decreases f1,
{
    match spec_scan(src, pos) {
        SpecScan::Tok { ty, start, end } => {
            if ty == TokenType::Minus {
                if !scan_bad(src, end) {
                    mono_unary(src, end, (f1 - 1) as nat, (f2 - 1) as nat);
                }
            } else {
                mono_primary(src, pos, (f1 - 1) as nat, (f2 - 1) as nat);
            }
        },
        SpecScan::Bad { at } => {},
    }
}

pub proof fn mono_primary(src: Seq<u8>, pos: int, f1: nat, f2: nat)
    requires
        f1 <= f2,
        sp_primary(src, pos, f1) != SpStep::Out,
    ensures
        sp_primary(src, pos, f2) == sp_primary(src, pos, f1),
    decreases f1,
{
    match spec_scan(src, pos) {
        SpecScan::Tok { ty, start, end } => {
            if ty == TokenType::LeftParen && !scan_bad(src, end) {
                mono_expression(src, end, (f1 - 1) as nat, (f2 - 1) as nat);
            }
        },
        SpecScan::Bad { at } => {},
    }
}

pub proof fn mono_parse(src: Seq<u8>, pos: int, f1: nat, f2: nat)
    requires
        f1 <= f2,
        sp_parse(src, pos, f1) != SpStep::Out,
    ensures
        sp_parse(src, pos, f2) == sp_parse(src, pos, f1),
{
    mono_expression(src, pos, f1, f2);
}

proof fn wf_sp_expression(src: Seq<u8>, pos: int, f: nat, e: Expr, p: int)
    requires
        sp_expression(src, pos, f) == (SpStep::Done { e, pos: p }),
    ensures
        wf_expr(e),
    decreases f,
{
    wf_sp_term(src, pos, (f - 1) as nat, e, p);
}

proof fn wf_sp_term(src: Seq<u8>, pos: int, f: nat, e: Expr, p: int)
    requires
        sp_term(src, pos, f) == (SpStep::Done { e, pos: p }),
    ensures
        wf_expr(e),
    decreases f,
{
    match sp_factor(src, pos, (f - 1) as nat) {
        SpStep::Done { e: e1, pos: p1 } => {
            wf_sp_factor(src, pos, (f - 1) as nat, e1, p1);
            wf_sp_term_more(src, e1, p1, (f - 1) as nat, e, p);
        },
        _ => {},
    }
}

proof fn wf_sp_term_more(src: Seq<u8>, acc: Expr, pos: int, f: nat, e: Expr, p: int)
    requires
        wf_expr(acc),
        sp_term_more(src, acc, pos, f) == (SpStep::Done { e, pos: p }),
    ensures
        wf_expr(e),
    decreases f,
{
    match spec_scan(src, pos) {
        SpecScan::Tok { ty, start, end } => {
            if (ty == TokenType::Minus || ty == TokenType::Plus) && !scan_bad(src, end) {
                match sp_factor(src, end, (f - 1) as nat) {
                    SpStep::Done { e: r, pos: pr } => {
                        wf_sp_factor(src, end, (f - 1) as nat, r, pr);
                        let acc2 = Expr::Binary {
                            left: Box::new(acc),
                            operator: tok_at(ty, start, end),
                            right: Box::new(r),
                        };
                        wf_sp_term_more(src, acc2, pr, (f - 1) as nat, e, p);
                    },
                    _ => {},
                }
            }
        },
        SpecScan::Bad { at } => {},
    }
}

proof fn wf_sp_factor(src: Seq<u8>, pos: int, f: nat, e: Expr, p: int)
    requires
        sp_factor(src, pos, f) == (SpStep::Done { e, pos: p }),
    ensures
        wf_expr(e),
    decreases f,
{
    match sp_unary(src, pos, (f - 1) as nat) {
        SpStep::Done { e: e1, pos: p1 } => {
            wf_sp_unary(src, pos, (f - 1) as nat, e1, p1);
            wf_sp_factor_more(src, e1, p1, (f - 1) as nat, e, p);
        },
        _ => {},
    }
}

proof fn wf_sp_factor_more(src: Seq<u8>, acc: Expr, pos: int, f: nat, e: Expr, p: int)
    requires
        wf_expr(acc),
        sp_factor_more(src, acc, pos, f) == (SpStep::Done { e, pos: p }),
    ensures
        wf_expr(e),
    decreases f,
{
    match spec_scan(src, pos) {
        SpecScan::Tok { ty, start, end } => {
            if (ty == TokenType::Star || ty == TokenType::Slash) && !scan_bad(src, end) {
                match sp_unary(src, end, (f - 1) as nat) {
                    SpStep::Done { e: r, pos: pr } => {
                        wf_sp_unary(src, end, (f - 1) as nat, r, pr);
                        let acc2 = Expr::Binary {
                            left: Box::new(acc),
                            operator: tok_at(ty, start, end),
                            right: Box::new(r),
                        };
                        wf_sp_factor_more(src, acc2, pr, (f - 1) as nat, e, p);
                    },
                    _ => {},
                }
            } else if ty == TokenType::LeftParen && !scan_bad(src, end) {
                match sp_expression(src, end, (f - 1) as nat) {
                    SpStep::Done { e: inner, pos: pi } => match spec_scan(src, pi) {
                        SpecScan::Tok { ty: ty2, start: start2, end: end2 } => {
                            if ty2 == TokenType::RightParen && !scan_bad(src, end2) {
                                wf_sp_expression(src, end, (f - 1) as nat, inner, pi);
                                assert(wf_expr(Expr::Grouping { expression: Box::new(inner) }));
                                let acc2 = Expr::Binary {
                                    left: Box::new(acc),
                                    operator: tok_at(ty, start, end),
                                    right: Box::new(
                                        Expr::Grouping { expression: Box::new(inner) },
                                    ),
                                };
                                wf_sp_factor_more(src, acc2, end2, (f - 1) as nat, e, p);
                            }
                        },
                        SpecScan::Bad { at } => {},
                    },
                    _ => {},
                }
            }
        },
        SpecScan::Bad { at } => {},
    }
}

proof fn wf_sp_unary(src: Seq<u8>, pos: int, f: nat, e: Expr, p: int)
    requires
        sp_unary(src, pos, f) == (SpStep::Done { e, pos: p }),
    ensures
        wf_expr(e),
    decreases f,
{
    match spec_scan(src, pos) {
        SpecScan::Tok { ty, start, end } => {
            if ty == TokenType::Minus {
                if !scan_bad(src, end) {
                    match sp_unary(src, end, (f - 1) as nat) {
                        SpStep::Done { e: r, pos: pr } => {
                            wf_sp_unary(src, end, (f - 1) as nat, r, pr);
                        },
                        _ => {},
                    }
                }
            } else {
                wf_sp_primary(src, pos, (f - 1) as nat, e, p);
            }
        },
        SpecScan::Bad { at } => {},
    }
}

proof fn wf_sp_primary(src: Seq<u8>, pos: int, f: nat, e: Expr, p: int)
    requires
        sp_primary(src, pos, f) == (SpStep::Done { e, pos: p }),
    ensures
        wf_expr(e),
    decreases f,
{
    match spec_scan(src, pos) {
        SpecScan::Tok { ty, start, end } => {
            if ty == TokenType::LeftParen && !scan_bad(src, end) {
                match sp_expression(src, end, (f - 1) as nat) {
                    SpStep::Done { e: inner, pos: pi } => {
                        wf_sp_expression(src, end, (f - 1) as nat, inner, pi);
                    },
                    _ => {},
                }
            }
        },
        SpecScan::Bad { at } => {},
    }
}

/// Every input the grammar accepts evaluates safely: the one tree it
/// derives is well-formed, so it meets the evaluator's requirement and
/// `interpret` returns its value rather than failing.
pub proof fn lemma_parses_to_wf(src: Seq<u8>, e: Expr)
    requires
        parses_to(src, e),
    ensures
        wf_expr(e),
{
    let (f, p): (nat, int) = choose|f: nat, p: int|
        sp_parse(src, 0, f) == (SpStep::Done { e, pos: p });
    wf_sp_expression(src, 0, f, e, p);
}

/// The grammar is deterministic: the whole parse never both accepts and
/// rejects one source, whatever fuel each outcome was reached under.
pub proof fn lemma_accepts_rejects_exclusive(src: Seq<u8>)
    ensures
        !(accepts(src) && rejects(src)),
{
    if accepts(src) && rejects(src) {
        let e = choose|e: Expr| parses_to(src, e);
        let (f1, p): (nat, int) = choose|f1: nat, p: int|
            sp_parse(src, 0, f1) == (SpStep::Done { e, pos: p });
        let f2 = choose|f2: nat| sp_parse(src, 0, f2) is Fail;
        if f1 <= f2 {
            mono_parse(src, 0, f1, f2);
        } else {
            mono_parse(src, 0, f2, f1);
        }
    }
}

/// The grammar derives at most one tree from one source.
pub proof fn lemma_parses_to_unique(src: Seq<u8>, e1: Expr, e2: Expr)
    requires
        parses_to(src, e1),
        parses_to(src, e2),
    ensures
        e1 == e2,
{
    let (f1, p1): (nat, int) = choose|f1: nat, p1: int|
        sp_parse(src, 0, f1) == (SpStep::Done { e: e1, pos: p1 });
    let (f2, p2): (nat, int) = choose|f2: nat, p2: int|
        sp_parse(src, 0, f2) == (SpStep::Done { e: e2, pos: p2 });
    if f1 <= f2 {
        mono_parse(src, 0, f1, f2);
    } else {
        mono_parse(src, 0, f2, f1);
    }
}

} // verus!
