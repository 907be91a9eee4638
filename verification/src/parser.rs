use vstd::prelude::*;

use crate::error::{ParseErrorKind, ParserError};
use crate::expression::{wf_expr, Expr};
use crate::grammar::{bad_err, mono_expression, mono_factor, mono_factor_more, mono_term_more,
    mono_unary, scan_bad,
    sim_expression, sim_factor, sim_factor_more, sim_parse, sim_primary, sim_term, sim_term_more,
    sim_unary, sp_expression, sp_factor, sp_factor_more, sp_parse, sp_primary, sp_term,
    sp_term_more, sp_unary, tok_at, SpStep};
use crate::scanner::{lemma_scan_bounds, spec_scan, ScanError, Scanner, SpecScan};
use crate::token::{Span, Token, TokenType};
use crate::value::{lemma_scan_number_lexeme, parse_number_bits, Value};

verus! {

/// The parser-level error wrapping a lexical error: it points at the byte
/// no rule matched.
fn lexical_error(se: ScanError) -> (r: ParserError)
    ensures
        match se {
            ScanError::UnexpectedChar { byte, offset } => r == (ParserError {
                span: Span { offset, size: 1 },
                kind: ParseErrorKind::UnexpectedChar { byte },
            }),
        },
{
    match se {
        ScanError::UnexpectedChar { byte, offset } => ParserError {
            span: Span { offset, size: 1 },
            kind: ParseErrorKind::UnexpectedChar { byte },
        },
    }
}

/// Recursive-descent parser with one token of lookahead, pulled from the
/// scanner on demand. `current` is the lookahead, `previous` the token most
/// recently consumed; the ghost `pos` is the position whose scan yields the
/// lookahead, which ties the parser's state to the grammar specification.
pub struct Parser<'a> {
    pub scanner: Scanner<'a>,
    pub previous: Token,
    pub current: Token,
    pub pos: Ghost<int>,
}

impl<'a> Parser<'a> {
    /// The source buffer being parsed.
    pub open spec fn src(self) -> Seq<u8> {
        self.scanner.source@
    }

    /// The lookahead token is exactly what a scan at `pos` yields, and the
    /// scanner's cursor stands just past it.
    pub open spec fn wf(self) -> bool {
        &&& self.scanner.wf()
        &&& 0 <= self.pos@ <= self.src().len()
        &&& spec_scan(self.src(), self.pos@) == (SpecScan::Tok {
            ty: self.current.ty,
            start: self.current.span.offset as int,
            end: self.current.span.end(),
        })
        &&& self.scanner.current as int == self.current.span.end()
    }

    /// Scans the first lookahead token at once, so a source whose very first
    /// token is malformed fails here, before `parse` is ever called.
    pub fn new(source: &'a [u8]) -> (r: Result<Parser<'a>, ParserError>)
        ensures
            match r {
                Ok(p) => {
                    &&& p.wf()
                    &&& p.src() == source@
                    &&& p.pos@ == 0
                },
                Err(e) => {
                    &&& scan_bad(source@, 0)
                    &&& e == bad_err(source@, 0)
                },
            },
    {
        let mut scanner = Scanner::new(source);
        match scanner.scan_token() {
            Ok(t) => Ok(Parser { scanner, previous: t, current: t, pos: Ghost(0) }),
            Err(se) => Err(lexical_error(se)),
        }
    }

    fn is_at_end(&self) -> (r: bool)
        ensures
            r == (self.current.ty == TokenType::EoF),
    {
        self.current.ty == TokenType::EoF
    }

    fn check(&self, ty: TokenType) -> (r: bool)
        ensures
            r == (self.current.ty == ty),
    {
        self.current.ty == ty
    }

    /// Hands out the lookahead token and pulls the next one from the
    /// scanner; at the end of the input it keeps handing out the
    /// end-of-input token without moving. A lexical error while pulling the
    /// next token surfaces here.
    fn advance(&mut self) -> (r: Result<Token, ParserError>)
        requires
            old(self).wf(),
        ensures
            final(self).src() == old(self).src(),
            match r {
                Ok(t) => {
                    &&& final(self).wf()
                    &&& t == old(self).current
                    &&& (old(self).current.ty == TokenType::EoF ==> *final(self) == *old(self))
                    &&& (old(self).current.ty != TokenType::EoF ==> {
                        &&& final(self).pos@ == old(self).current.span.end()
                        &&& final(self).previous == old(self).current
                        &&& !scan_bad(old(self).src(), old(self).current.span.end())
                    })
                },
                Err(e) => {
                    &&& old(self).current.ty != TokenType::EoF
                    &&& scan_bad(old(self).src(), old(self).current.span.end())
                    &&& e == bad_err(old(self).src(), old(self).current.span.end())
                },
            },
    {
        if self.is_at_end() {
            Ok(self.current)
        } else {
            self.previous = self.current;
            let ghost next_pos = self.current.span.end();
            match self.scanner.scan_token() {
                Ok(t) => {
                    self.current = t;
                    proof {
                        self.pos@ = next_pos;
                    }
                    Ok(self.previous)
                },
                Err(se) => Err(lexical_error(se)),
            }
        }
    }

    /// When the lookahead is one of the given kinds, consumes it (leaving it
    /// in `previous`) and answers true; otherwise leaves everything in place
    /// and answers false.
    fn is_followed_by(&mut self, types: &[TokenType]) -> (r: Result<bool, ParserError>)
        requires
            old(self).wf(),
            !types@.contains(TokenType::EoF),
        ensures
            final(self).src() == old(self).src(),
            match r {
                Ok(b) => {
                    if b {
                        &&& types@.contains(old(self).current.ty)
                        &&& final(self).wf()
                        &&& final(self).pos@ == old(self).current.span.end()
                        &&& final(self).previous == old(self).current
                        &&& !scan_bad(old(self).src(), old(self).current.span.end())
                    } else {
                        &&& !types@.contains(old(self).current.ty)
                        &&& *final(self) == *old(self)
                    }
                },
                Err(e) => {
                    &&& types@.contains(old(self).current.ty)
                    &&& old(self).current.ty != TokenType::EoF
                    &&& scan_bad(old(self).src(), old(self).current.span.end())
                    &&& e == bad_err(old(self).src(), old(self).current.span.end())
                },
            },
    {
        let n = types.len();
        let mut i: usize = 0;
        while i < n
            invariant
                *self == *old(self),
                old(self).wf(),
                n == types@.len(),
                0 <= i <= n,
                !types@.contains(TokenType::EoF),
                forall|j: int| 0 <= j < i ==> types@[j] != old(self).current.ty,
            decreases n - i,
        {
            if self.check(types[i]) {
                match self.advance() {
                    Ok(_) => {
                        return Ok(true);
                    },
                    Err(e) => {
                        return Err(e);
                    },
                }
            }
            i = i + 1;
        }
        Ok(false)
    }

    /// The one reusable expectation check: when the lookahead has the wanted
    /// kind, consume it and hand it out; otherwise report what was expected
    /// against what stood there, at its position.
    fn consume(&mut self, ty: TokenType) -> (r: Result<Token, ParserError>)
        requires
            old(self).wf(),
            ty != TokenType::EoF,
        ensures
            final(self).src() == old(self).src(),
            match r {
                Ok(t) => {
                    &&& old(self).current.ty == ty
                    &&& t == old(self).current
                    &&& final(self).wf()
                    &&& final(self).pos@ == old(self).current.span.end()
                    &&& !scan_bad(old(self).src(), old(self).current.span.end())
                },
                Err(e) => {
                    ||| (old(self).current.ty == ty && scan_bad(
                        old(self).src(),
                        old(self).current.span.end(),
                    ) && e == bad_err(old(self).src(), old(self).current.span.end()))
                    ||| (old(self).current.ty != ty && *final(self) == *old(self) && e
                        == (ParserError {
                        span: old(self).current.span,
                        kind: ParseErrorKind::Expected { expected: ty, found: old(self).current.ty },
                    }))
                },
            },
    {
        if self.check(ty) {
            self.advance()
        } else {
            Err(ParserError {
                span: self.current.span,
                kind: ParseErrorKind::Expected { expected: ty, found: self.current.ty },
            })
        }
    }

    /// `primary := NUMBER | '(' expression ')'`. A `Number` token's lexeme
    /// is parsed into a literal, which cannot fail because the scanner
    /// already validated the numeric grammar; anything else here is a
    /// syntax error naming the unexpected token kind.
    fn primary(&mut self) -> (r: Result<Expr, ParserError>)
        requires
            old(self).wf(),
        ensures
            final(self).src() == old(self).src(),
            match r {
                Ok(e) => {
                    &&& final(self).wf()
                    &&& old(self).pos@ <= final(self).pos@ <= final(self).src().len()
                    &&& sim_primary(
                        old(self).src(),
                        old(self).pos@,
                        SpStep::Done { e, pos: final(self).pos@ },
                    )
                    &&& wf_expr(e)
                },
                Err(e) => sim_primary(old(self).src(), old(self).pos@, SpStep::Fail { err: e }),
            },
        decreases old(self).src().len() - old(self).pos@, 0int,
    {
        let ghost src0 = self.src();
        let ghost pos0 = self.pos@;
        proof {
            lemma_scan_bounds(src0, pos0);
        }
        let t = match self.advance() {
            Ok(t) => t,
            Err(e) => {
                proof {
                    assert(sp_primary(src0, pos0, 1) == (SpStep::Fail { err: e }));
                }
                return Err(e);
            },
        };
        if t.ty == TokenType::Number {
            proof {
                lemma_scan_number_lexeme(src0, pos0, t.span.offset as int, t.span.end());
            }
            let lex = t.lexeme(self.scanner.source);
            let bits = parse_number_bits(lex);
            let e = Expr::Literal { value: Value::new(bits) };
            proof {
                assert(sp_primary(src0, pos0, 1) == (SpStep::Done { e, pos: self.pos@ }));
            }
            Ok(e)
        } else if t.ty == TokenType::LeftParen {
            let ghost pos1 = self.pos@;
            let inner = match self.expression() {
                Ok(x) => x,
                Err(er) => {
                    proof {
                        let fe = choose|f: nat|
                            sp_expression(src0, pos1, f) == (SpStep::Fail { err: er });
                        assert(sp_primary(src0, pos0, fe + 1) == (SpStep::Fail { err: er }));
                    }
                    return Err(er);
                },
            };
            let ghost pos2 = self.pos@;
            let ghost fe = choose|f: nat|
                sp_expression(src0, pos1, f) == (SpStep::Done { e: inner, pos: pos2 });
            proof {
                lemma_scan_bounds(src0, pos2);
            }
            match self.consume(TokenType::RightParen) {
                Ok(_) => {
                    let e = Expr::Grouping { expression: Box::new(inner) };
                    proof {
                        assert(sp_primary(src0, pos0, fe + 1) == (SpStep::Done {
                            e,
                            pos: self.pos@,
                        }));
                    }
                    Ok(e)
                },
                Err(er) => {
                    proof {
                        assert(sp_primary(src0, pos0, fe + 1) == (SpStep::Fail { err: er }));
                    }
                    Err(er)
                },
            }
        } else {
            let e = ParserError { span: t.span, kind: ParseErrorKind::UnexpectedToken { found: t.ty } };
            proof {
                assert(sp_primary(src0, pos0, 1) == (SpStep::Fail { err: e }));
            }
            Err(e)
        }
    }

    /// `unary := '-' unary | primary`: right-associative negation, binding
    /// tighter than any binary operator.
    fn unary(&mut self) -> (r: Result<Expr, ParserError>)
        requires
            old(self).wf(),
        ensures
            final(self).src() == old(self).src(),
            match r {
                Ok(e) => {
                    &&& final(self).wf()
                    &&& old(self).pos@ <= final(self).pos@ <= final(self).src().len()
                    &&& sim_unary(
                        old(self).src(),
                        old(self).pos@,
                        SpStep::Done { e, pos: final(self).pos@ },
                    )
                    &&& wf_expr(e)
                },
                Err(e) => sim_unary(old(self).src(), old(self).pos@, SpStep::Fail { err: e }),
            },
        decreases old(self).src().len() - old(self).pos@, 1int,
    {
        let ghost src0 = self.src();
        let ghost pos0 = self.pos@;
        proof {
            lemma_scan_bounds(src0, pos0);
        }
        match self.is_followed_by(&[TokenType::Minus]) {
            Err(e) => {
                proof {
                    assert(sp_unary(src0, pos0, 1) == (SpStep::Fail { err: e }));
                }
                Err(e)
            },
            Ok(true) => {
                let op = self.previous;
                let ghost pos1 = self.pos@;
                match self.unary() {
                    Ok(rexp) => {
                        let e = Expr::Unary { operator: op, right: Box::new(rexp) };
                        proof {
                            let fr = choose|f: nat|
                                sp_unary(src0, pos1, f) == (SpStep::Done {
                                    e: rexp,
                                    pos: self.pos@,
                                });
                            assert(op == tok_at(
                                TokenType::Minus,
                                op.span.offset as int,
                                op.span.end(),
                            ));
                            assert(sp_unary(src0, pos0, fr + 1) == (SpStep::Done {
                                e,
                                pos: self.pos@,
                            }));
                        }
                        Ok(e)
                    },
                    Err(er) => {
                        proof {
                            let fr = choose|f: nat|
                                sp_unary(src0, pos1, f) == (SpStep::Fail { err: er });
                            assert(sp_unary(src0, pos0, fr + 1) == (SpStep::Fail { err: er }));
                        }
                        Err(er)
                    },
                }
            },
            Ok(false) => {
                match self.primary() {
                    Ok(e) => {
                        proof {
                            let fp = choose|f: nat|
                                sp_primary(src0, pos0, f) == (SpStep::Done { e, pos: self.pos@ });
                            assert(sp_unary(src0, pos0, fp + 1) == (SpStep::Done {
                                e,
                                pos: self.pos@,
                            }));
                        }
                        Ok(e)
                    },
                    Err(er) => {
                        proof {
                            let fp = choose|f: nat|
                                sp_primary(src0, pos0, f) == (SpStep::Fail { err: er });
                            assert(sp_unary(src0, pos0, fp + 1) == (SpStep::Fail { err: er }));
                        }
                        Err(er)
                    },
                }
            },
        }
    }

    /// `factor := unary ( ( '*' | '/' ) unary )*`, left-associative, and
    /// additionally a `(` continuing the loop is multiplication by
    /// juxtaposition: its right-hand side is parsed as a full parenthesized
    /// grouping.
    #[verifier::loop_isolation(false)]
    #[verifier::rlimit(100)]
    fn factor(&mut self) -> (r: Result<Expr, ParserError>)
        requires
            old(self).wf(),
        ensures
            final(self).src() == old(self).src(),
            match r {
                Ok(e) => {
                    &&& final(self).wf()
                    &&& old(self).pos@ <= final(self).pos@ <= final(self).src().len()
                    &&& sim_factor(
                        old(self).src(),
                        old(self).pos@,
                        SpStep::Done { e, pos: final(self).pos@ },
                    )
                    &&& wf_expr(e)
                },
                Err(e) => sim_factor(old(self).src(), old(self).pos@, SpStep::Fail { err: e }),
            },
        decreases old(self).src().len() - old(self).pos@, 2int,
    {
        let ghost src0 = self.src();
        let ghost pos0 = self.pos@;
        let mut expr = match self.unary() {
            Ok(e) => e,
            Err(er) => {
                proof {
                    let fu = choose|f: nat| sp_unary(src0, pos0, f) == (SpStep::Fail { err: er });
                    assert(sp_factor(src0, pos0, fu + 1) == (SpStep::Fail { err: er }));
                }
                return Err(er);
            },
        };
        let ghost fu = choose|f: nat|
            sp_unary(src0, pos0, f) == (SpStep::Done { e: expr, pos: self.pos@ });
        proof {
            assert forall|o: SpStep|
                (#[trigger] sim_factor_more(src0, expr, self.pos@, o) && o != SpStep::Out)
                    implies sim_factor(src0, pos0, o) by {
                let f = choose|f: nat| sp_factor_more(src0, expr, self.pos@, f) == o;
                let m = if f >= fu {
                    f
                } else {
                    fu
                };
                mono_unary(src0, pos0, fu, m);
                mono_factor_more(src0, expr, self.pos@, f, m);
                assert(sp_factor(src0, pos0, m + 1) == o);
            }
        }
        loop
            invariant
                self.wf(),
                self.src() == src0,
                pos0 <= self.pos@ <= src0.len(),
                wf_expr(expr),
                forall|o: SpStep|
                    (#[trigger] sim_factor_more(src0, expr, self.pos@, o) && o != SpStep::Out)
                        ==> sim_factor(src0, pos0, o),
            decreases src0.len() - self.pos@,
        {
            let ghost expr_it = expr;
            let ghost pos_it = self.pos@;
            let ghost cur_it = self.current;
            proof {
                lemma_scan_bounds(src0, pos_it);
            }
            match self.is_followed_by(
                &[TokenType::Star, TokenType::Slash, TokenType::LeftParen],
            ) {
                Err(e) => {
                    proof {
                        assert(sp_factor_more(src0, expr_it, pos_it, 1) == (SpStep::Fail {
                            err: e,
                        }));
                        assert(sim_factor_more(src0, expr_it, pos_it, SpStep::Fail { err: e }));
                    }
                    return Err(e);
                },
                Ok(false) => {
                    proof {
                        assert(sp_factor_more(src0, expr_it, pos_it, 1) == (SpStep::Done {
                            e: expr_it,
                            pos: pos_it,
                        }));
                        assert(sim_factor_more(
                            src0,
                            expr_it,
                            pos_it,
                            SpStep::Done { e: expr_it, pos: pos_it },
                        ));
                    }
                    return Ok(expr);
                },
                Ok(true) => {
                    let op = self.previous;
                    let ghost posa = self.pos@;
                    proof {
                        assert(op.ty == TokenType::Star || op.ty == TokenType::Slash || op.ty
                            == TokenType::LeftParen);
                        assert(op == tok_at(op.ty, op.span.offset as int, op.span.end()));
                    }
                    if op.ty == TokenType::LeftParen {
                        let inner = match self.expression() {
                            Ok(x) => x,
                            Err(er) => {
                                proof {
                                    let f = choose|f: nat|
                                        sp_expression(src0, posa, f) == (SpStep::Fail { err: er });
                                    assert(sp_factor_more(src0, expr_it, pos_it, f + 1)
                                        == (SpStep::Fail { err: er }));
                                    assert(sim_factor_more(
                                        src0,
                                        expr_it,
                                        pos_it,
                                        SpStep::Fail { err: er },
                                    ));
                                }
                                return Err(er);
                            },
                        };
                        let ghost posc = self.pos@;
                        let ghost fe = choose|f: nat|
                            sp_expression(src0, posa, f) == (SpStep::Done { e: inner, pos: posc });
                        proof {
                            lemma_scan_bounds(src0, posc);
                        }
                        match self.consume(TokenType::RightParen) {
                            Ok(_) => {},
                            Err(er) => {
                                proof {
                                    assert(sp_factor_more(src0, expr_it, pos_it, fe + 1)
                                        == (SpStep::Fail { err: er }));
                                    assert(sim_factor_more(
                                        src0,
                                        expr_it,
                                        pos_it,
                                        SpStep::Fail { err: er },
                                    ));
                                }
                                return Err(er);
                            },
                        }
                        proof {
                            assert(wf_expr(Expr::Grouping { expression: Box::new(inner) }));
                        }
                        expr = Expr::Binary {
                            left: Box::new(expr),
                            operator: op,
                            right: Box::new(Expr::Grouping { expression: Box::new(inner) }),
                        };
                        proof {
                            assert(wf_expr(expr));
                            assert forall|o: SpStep|
                                (#[trigger] sim_factor_more(src0, expr, self.pos@, o) && o
                                    != SpStep::Out) implies sim_factor(src0, pos0, o) by {
                                let f = choose|f: nat|
                                    sp_factor_more(src0, expr, self.pos@, f) == o;
                                let m = if f >= fe {
                                    f
                                } else {
                                    fe
                                };
                                mono_expression(src0, posa, fe, m);
                                mono_factor_more(src0, expr, self.pos@, f, m);
                                assert(sp_factor_more(src0, expr_it, pos_it, m + 1) == o);
                                assert(sim_factor_more(src0, expr_it, pos_it, o));
                            }
                        }
                    } else {
                        let right = match self.unary() {
                            Ok(x) => x,
                            Err(er) => {
                                proof {
                                    let f = choose|f: nat|
                                        sp_unary(src0, posa, f) == (SpStep::Fail { err: er });
                                    assert(sp_factor_more(src0, expr_it, pos_it, f + 1)
                                        == (SpStep::Fail { err: er }));
                                    assert(sim_factor_more(
                                        src0,
                                        expr_it,
                                        pos_it,
                                        SpStep::Fail { err: er },
                                    ));
                                }
                                return Err(er);
                            },
                        };
                        let ghost fr = choose|f: nat|
                            sp_unary(src0, posa, f) == (SpStep::Done { e: right, pos: self.pos@ });
                        expr = Expr::Binary {
                            left: Box::new(expr),
                            operator: op,
                            right: Box::new(right),
                        };
                        proof {
                            assert(wf_expr(expr));
                            assert forall|o: SpStep|
                                (#[trigger] sim_factor_more(src0, expr, self.pos@, o) && o
                                    != SpStep::Out) implies sim_factor(src0, pos0, o) by {
                                let f = choose|f: nat|
                                    sp_factor_more(src0, expr, self.pos@, f) == o;
                                let m = if f >= fr {
                                    f
                                } else {
                                    fr
                                };
                                mono_unary(src0, posa, fr, m);
                                mono_factor_more(src0, expr, self.pos@, f, m);
                                assert(sp_factor_more(src0, expr_it, pos_it, m + 1) == o);
                                assert(sim_factor_more(src0, expr_it, pos_it, o));
                            }
                        }
                    }
                },
            }
        }
    }

    /// `term := factor ( ( '-' | '+' ) factor )*`, left-associative:
    /// repeated operators build a left-leaning tree.
    #[verifier::loop_isolation(false)]
    #[verifier::rlimit(60)]
    fn term(&mut self) -> (r: Result<Expr, ParserError>)
        requires
            old(self).wf(),
        ensures
            final(self).src() == old(self).src(),
            match r {
                Ok(e) => {
                    &&& final(self).wf()
                    &&& old(self).pos@ <= final(self).pos@ <= final(self).src().len()
                    &&& sim_term(
                        old(self).src(),
                        old(self).pos@,
                        SpStep::Done { e, pos: final(self).pos@ },
                    )
                    &&& wf_expr(e)
                },
                Err(e) => sim_term(old(self).src(), old(self).pos@, SpStep::Fail { err: e }),
            },
        decreases old(self).src().len() - old(self).pos@, 3int,
    {
        let ghost src0 = self.src();
        let ghost pos0 = self.pos@;
        let mut expr = match self.factor() {
            Ok(e) => e,
            Err(er) => {
                proof {
                    let ff = choose|f: nat| sp_factor(src0, pos0, f) == (SpStep::Fail { err: er });
                    assert(sp_term(src0, pos0, ff + 1) == (SpStep::Fail { err: er }));
                }
                return Err(er);
            },
        };
        let ghost ff = choose|f: nat|
            sp_factor(src0, pos0, f) == (SpStep::Done { e: expr, pos: self.pos@ });
        proof {
            assert forall|o: SpStep|
                (#[trigger] sim_term_more(src0, expr, self.pos@, o) && o != SpStep::Out)
                    implies sim_term(src0, pos0, o) by {
                let f = choose|f: nat| sp_term_more(src0, expr, self.pos@, f) == o;
                let m = if f >= ff {
                    f
                } else {
                    ff
                };
                mono_factor(src0, pos0, ff, m);
                mono_term_more(src0, expr, self.pos@, f, m);
                assert(sp_term(src0, pos0, m + 1) == o);
            }
        }
        loop
            invariant
                self.wf(),
                self.src() == src0,
                pos0 <= self.pos@ <= src0.len(),
                wf_expr(expr),
                forall|o: SpStep|
                    (#[trigger] sim_term_more(src0, expr, self.pos@, o) && o != SpStep::Out)
                        ==> sim_term(src0, pos0, o),
            decreases src0.len() - self.pos@,
        {
            let ghost expr_it = expr;
            let ghost pos_it = self.pos@;
            proof {
                lemma_scan_bounds(src0, pos_it);
            }
            match self.is_followed_by(&[TokenType::Minus, TokenType::Plus]) {
                Err(e) => {
                    proof {
                        assert(sp_term_more(src0, expr_it, pos_it, 1) == (SpStep::Fail { err: e }));
                        assert(sim_term_more(src0, expr_it, pos_it, SpStep::Fail { err: e }));
                    }
                    return Err(e);
                },
                Ok(false) => {
                    proof {
                        assert(sp_term_more(src0, expr_it, pos_it, 1) == (SpStep::Done {
                            e: expr_it,
                            pos: pos_it,
                        }));
                        assert(sim_term_more(
                            src0,
                            expr_it,
                            pos_it,
                            SpStep::Done { e: expr_it, pos: pos_it },
                        ));
                    }
                    return Ok(expr);
                },
                Ok(true) => {
                    let op = self.previous;
                    let ghost posa = self.pos@;
                    proof {
                        assert(op.ty == TokenType::Minus || op.ty == TokenType::Plus);
                        assert(op == tok_at(op.ty, op.span.offset as int, op.span.end()));
                    }
                    let right = match self.factor() {
                        Ok(x) => x,
                        Err(er) => {
                            proof {
                                let f = choose|f: nat|
                                    sp_factor(src0, posa, f) == (SpStep::Fail { err: er });
                                assert(sp_term_more(src0, expr_it, pos_it, f + 1) == (SpStep::Fail {
                                    err: er,
                                }));
                                assert(sim_term_more(
                                    src0,
                                    expr_it,
                                    pos_it,
                                    SpStep::Fail { err: er },
                                ));
                            }
                            return Err(er);
                        },
                    };
                    let ghost fr = choose|f: nat|
                        sp_factor(src0, posa, f) == (SpStep::Done { e: right, pos: self.pos@ });
                    expr = Expr::Binary {
                        left: Box::new(expr),
                        operator: op,
                        right: Box::new(right),
                    };
                    proof {
                        assert forall|o: SpStep|
                            (#[trigger] sim_term_more(src0, expr, self.pos@, o) && o
                                != SpStep::Out) implies sim_term(src0, pos0, o) by {
                            let f = choose|f: nat| sp_term_more(src0, expr, self.pos@, f) == o;
                            let m = if f >= fr {
                                f
                            } else {
                                fr
                            };
                            mono_factor(src0, posa, fr, m);
                            mono_term_more(src0, expr, self.pos@, f, m);
                            assert(sp_term_more(src0, expr_it, pos_it, m + 1) == o);
                            assert(sim_term_more(src0, expr_it, pos_it, o));
                        }
                    }
                },
            }
        }
    }

    /// `expression := term`: the lowest-binding rule of the grammar.
    fn expression(&mut self) -> (r: Result<Expr, ParserError>)
        requires
            old(self).wf(),
        ensures
            final(self).src() == old(self).src(),
            match r {
                Ok(e) => {
                    &&& final(self).wf()
                    &&& old(self).pos@ <= final(self).pos@ <= final(self).src().len()
                    &&& sim_expression(
                        old(self).src(),
                        old(self).pos@,
                        SpStep::Done { e, pos: final(self).pos@ },
                    )
                    &&& wf_expr(e)
                },
                Err(e) => sim_expression(old(self).src(), old(self).pos@, SpStep::Fail { err: e }),
            },
        decreases old(self).src().len() - old(self).pos@, 4int,
    {
        let ghost src0 = self.src();
        let ghost pos0 = self.pos@;
        match self.term() {
            Ok(e) => {
                proof {
                    let ft = choose|f: nat|
                        sp_term(src0, pos0, f) == (SpStep::Done { e, pos: self.pos@ });
                    assert(sp_expression(src0, pos0, ft + 1) == (SpStep::Done {
                        e,
                        pos: self.pos@,
                    }));
                }
                Ok(e)
            },
            Err(er) => {
                proof {
                    let ft = choose|f: nat| sp_term(src0, pos0, f) == (SpStep::Fail { err: er });
                    assert(sp_expression(src0, pos0, ft + 1) == (SpStep::Fail { err: er }));
                }
                Err(er)
            },
        }
    }

    /// Parses one complete expression and demands that it consumed the
    /// entire input: leftover tokens before the end of the input are a
    /// syntax error, not a silent partial parse.
    pub fn parse(self) -> (r: Result<Expr, ParserError>)
        requires
            self.wf(),
        ensures
            match r {
                Ok(e) => {
                    &&& wf_expr(e)
                    &&& exists|p: int|
                        sim_parse(self.src(), self.pos@, SpStep::Done { e, pos: p })
                },
                Err(e) => sim_parse(self.src(), self.pos@, SpStep::Fail { err: e }),
            },
    {
        let mut this = self;
        let ghost src0 = this.src();
        let ghost pos0 = this.pos@;
        let e = match this.expression() {
            Ok(e) => e,
            Err(er) => {
                proof {
                    let f = choose|f: nat|
                        sp_expression(src0, pos0, f) == (SpStep::Fail { err: er });
                    assert(sp_parse(src0, pos0, f) == (SpStep::Fail { err: er }));
                }
                return Err(er);
            },
        };
        let ghost posf = this.pos@;
        let ghost fe = choose|f: nat|
            sp_expression(src0, pos0, f) == (SpStep::Done { e, pos: posf });
        if this.is_at_end() {
            proof {
                assert(sp_parse(src0, pos0, fe) == (SpStep::Done { e, pos: posf }));
                assert(sim_parse(src0, pos0, SpStep::Done { e, pos: posf }));
            }
            Ok(e)
        } else {
            let e = ParserError { span: this.current.span, kind: ParseErrorKind::TrailingInput };
            proof {
                assert(sp_parse(src0, pos0, fe) == (SpStep::Fail { err: e }));
            }
            Err(e)
        }
    }
}

} // verus!
