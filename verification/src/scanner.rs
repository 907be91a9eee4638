use vstd::prelude::*;

use crate::token::{Span, Token, TokenType};

verus! {

/// A lexical error: a byte that no rule of the lexical grammar matches, at a
/// known position. Scanning is not resumable past it.
#[derive(Debug, Clone, Copy, PartialEq, Eq, Structural)]
pub enum ScanError {
    UnexpectedChar { byte: u8, offset: usize },
}

/// Space, carriage return, tab and newline: skipped before every token.
pub open spec fn is_ws_byte(b: u8) -> bool {
    b == 32 || b == 13 || b == 9 || b == 10
}

/// ASCII decimal digit.
pub open spec fn is_digit_byte(b: u8) -> bool {
    48 <= b && b <= 57
}

/// First position at or after `pos` holding no whitespace byte.
pub open spec fn spec_skip_ws(src: Seq<u8>, pos: int) -> int
    decreases src.len() - pos,
{
    if pos < src.len() && is_ws_byte(src[pos]) {
        spec_skip_ws(src, pos + 1)
    } else {
        pos
    }
}

/// End of the maximal run of digits starting at `pos`.
pub open spec fn spec_digits_end(src: Seq<u8>, pos: int) -> int
    decreases src.len() - pos,
{
    if pos < src.len() && is_digit_byte(src[pos]) {
        spec_digits_end(src, pos + 1)
    } else {
        pos
    }
}

/// End of a number lexeme starting at `start`: a maximal run of digits,
/// then one `.` followed by a further maximal run of digits, but only when
/// at least one digit follows the dot; otherwise the dot is left unread.
pub open spec fn spec_number_end(src: Seq<u8>, start: int) -> int {
    let d = spec_digits_end(src, start);
    if d + 1 < src.len() && src[d] == 46 && is_digit_byte(src[d + 1]) {
        spec_digits_end(src, d + 2)
    } else {
        d
    }
}

/// What one scan request yields: the next token (its kind and byte range),
/// or the position of a byte that no rule matches.
pub enum SpecScan {
    Tok { ty: TokenType, start: int, end: int },
    Bad { at: int },
}

/// The token recognized at `pos`, after skipping whitespace: the single
/// mathematical description of what `Scanner::scan_token` returns.
pub open spec fn spec_scan(src: Seq<u8>, pos: int) -> SpecScan {
    let s = spec_skip_ws(src, pos);
    if s >= src.len() {
        SpecScan::Tok { ty: TokenType::EoF, start: src.len() as int, end: src.len() as int }
    } else {
        let b = src[s];
        if b == 40 {
            SpecScan::Tok { ty: TokenType::LeftParen, start: s, end: s + 1 }
        } else if b == 41 {
            SpecScan::Tok { ty: TokenType::RightParen, start: s, end: s + 1 }
        } else if b == 45 {
            SpecScan::Tok { ty: TokenType::Minus, start: s, end: s + 1 }
        } else if b == 43 {
            SpecScan::Tok { ty: TokenType::Plus, start: s, end: s + 1 }
        } else if b == 47 {
            SpecScan::Tok { ty: TokenType::Slash, start: s, end: s + 1 }
        } else if b == 42 {
            SpecScan::Tok { ty: TokenType::Star, start: s, end: s + 1 }
        } else if is_digit_byte(b) {
            SpecScan::Tok { ty: TokenType::Number, start: s, end: spec_number_end(src, s) }
        } else {
            SpecScan::Bad { at: s }
        }
    }
}

pub proof fn lemma_skip_ws_bounds(src: Seq<u8>, pos: int)
    requires
        0 <= pos <= src.len(),
    ensures
        pos <= spec_skip_ws(src, pos) <= src.len(),
        spec_skip_ws(src, pos) < src.len() ==> !is_ws_byte(src[spec_skip_ws(src, pos)]),
    decreases src.len() - pos,
{
    if pos < src.len() && is_ws_byte(src[pos]) {
        lemma_skip_ws_bounds(src, pos + 1);
    }
}

pub proof fn lemma_digits_end_bounds(src: Seq<u8>, pos: int)
    requires
        0 <= pos <= src.len(),
    ensures
        pos <= spec_digits_end(src, pos) <= src.len(),
        forall|i: int| pos <= i < spec_digits_end(src, pos) ==> is_digit_byte(src[i]),
        spec_digits_end(src, pos) < src.len() ==> !is_digit_byte(src[spec_digits_end(src, pos)]),
    decreases src.len() - pos,
{
    if pos < src.len() && is_digit_byte(src[pos]) {
        lemma_digits_end_bounds(src, pos + 1);
    }
}

/// Every scan lands inside the source: a token's range follows the scan
/// position, a non-terminal token is non-empty, and the end-of-input token
/// is the empty range at the very end.
pub proof fn lemma_scan_bounds(src: Seq<u8>, pos: int)
    requires
        0 <= pos <= src.len(),
    ensures
        match spec_scan(src, pos) {
            SpecScan::Tok { ty, start, end } => {
                &&& pos <= start <= end <= src.len()
                &&& (ty == TokenType::EoF <==> start == end)
                &&& (ty == TokenType::EoF ==> start == src.len() && end == src.len())
            },
            SpecScan::Bad { at } => pos <= at < src.len(),
        },
{
    lemma_skip_ws_bounds(src, pos);
    let s = spec_skip_ws(src, pos);
    if s < src.len() && is_digit_byte(src[s]) {
        lemma_digits_end_bounds(src, s);
        let d = spec_digits_end(src, s);
        assert(spec_digits_end(src, s) == spec_digits_end(src, s + 1));
        if d + 1 < src.len() && src[d] == 46 && is_digit_byte(src[d + 1]) {
            lemma_digits_end_bounds(src, d + 2);
        }
    }
}

/// Once the source is exhausted, scanning is idempotent: a scan that yields
/// the end-of-input token leaves the cursor at the very end of the source,
/// and scanning again from there yields the same end-of-input token, so
/// every further request keeps returning it without erroring or advancing.
pub proof fn lemma_eof_idempotent(src: Seq<u8>, pos: int)
    requires
        0 <= pos <= src.len(),
        spec_scan(src, pos) matches SpecScan::Tok { ty: TokenType::EoF, .. },
    ensures
        spec_scan(src, pos) == (SpecScan::Tok {
            ty: TokenType::EoF,
            start: src.len() as int,
            end: src.len() as int,
        }),
        spec_scan(src, src.len() as int) == spec_scan(src, pos),
{
    lemma_scan_bounds(src, pos);
}

/// Pulls one token at a time out of a borrowed source buffer. `offset` marks
/// the start of the most recently recognized token, `current` the cursor just
/// past it; both only ever move forward.
#[derive(Debug)]
pub struct Scanner<'a> {
    pub source: &'a [u8],
    pub offset: usize,
    pub current: usize,
}

impl<'a> Scanner<'a> {
    /// The cursors stay inside the source and in order.
    pub open spec fn wf(self) -> bool {
        self.offset <= self.current <= self.source@.len()
    }

    pub fn new(source: &'a [u8]) -> (s: Scanner<'a>)
        ensures
            s.wf(),
            s.source == source,
            s.offset == 0,
            s.current == 0,
    {
        Scanner { source, offset: 0, current: 0 }
    }

    /// The unconsumed tail of the source, starting at the most recently
    /// recognized token.
    pub fn rest(self) -> (r: &'a [u8])
        requires
            self.wf(),
        ensures
            r@ == self.source@.subrange(self.offset as int, self.source@.len() as int),
    {
        vstd::slice::slice_subrange(self.source, self.offset, self.source.len())
    }

    fn peek(&self) -> (r: Option<u8>)
        requires
            self.wf(),
        ensures
            match r {
                Some(b) => self.current < self.source@.len() && b == self.source@[
                    self.current as int
                ],
                None => self.current == self.source@.len(),
            },
    {
        if self.current < self.source.len() {
            Some(self.source[self.current])
        } else {
            None
        }
    }

    fn peek_next(&self) -> (r: Option<u8>)
        requires
            self.wf(),
        ensures
            match r {
                Some(b) => self.current + 1 < self.source@.len() && b == self.source@[
                    self.current + 1
                ],
                None => self.current + 1 >= self.source@.len(),
            },
    {
        if self.current < self.source.len() && self.current + 1 < self.source.len() {
            Some(self.source[self.current + 1])
        } else {
            None
        }
    }

    fn advance(&mut self) -> (r: Option<u8>)
        requires
            old(self).wf(),
        ensures
            final(self).wf(),
            final(self).source == old(self).source,
            final(self).offset == old(self).offset,
            match r {
                Some(b) => {
                    &&& old(self).current < old(self).source@.len()
                    &&& b == old(self).source@[old(self).current as int]
                    &&& final(self).current == old(self).current + 1
                },
                None => {
                    &&& old(self).current == old(self).source@.len()
                    &&& final(self).current == old(self).current
                },
            },
    {
        proof {
            vstd::slice::axiom_spec_len(self.source);
        }
        let c = self.peek();
        if c.is_some() {
            self.current = self.current + 1;
        }
        c
    }

    fn peek_is_digit(&self) -> (r: bool)
        requires
            self.wf(),
        ensures
            r == (self.current < self.source@.len() && is_digit_byte(
                self.source@[self.current as int],
            )),
    {
        match self.peek() {
            Some(b) => 48 <= b && b <= 57,
            None => false,
        }
    }

    fn make_token(&self, ty: TokenType) -> (t: Token)
        requires
            self.wf(),
        ensures
            t == (Token {
                span: Span { offset: self.offset, size: (self.current - self.offset) as usize },
                ty,
            }),
    {
        Token::new(Span::new(self.offset, self.current - self.offset), ty)
    }

    fn skip_whitespace(&mut self)
        requires
            old(self).wf(),
        ensures
            final(self).wf(),
            final(self).source == old(self).source,
            final(self).offset == old(self).offset,
            final(self).current as int == spec_skip_ws(
                old(self).source@,
                old(self).current as int,
            ),
    {
        loop
            invariant
                self.wf(),
                self.source == old(self).source,
                self.offset == old(self).offset,
                spec_skip_ws(self.source@, self.current as int) == spec_skip_ws(
                    old(self).source@,
                    old(self).current as int,
                ),
            decreases self.source@.len() - self.current,
        {
            match self.peek() {
                Some(b) => {
                    if b == 32 || b == 13 || b == 9 || b == 10 {
                        self.advance();
                    } else {
                        return ;
                    }
                },
                None => {
                    return ;
                },
            }
        }
    }

    /// Consumes the maximal run of digits, then one dot followed by a further
    /// maximal run of digits when at least one digit follows the dot, and
    /// returns the `Number` token spanning all of it.
    fn number(&mut self) -> (t: Token)
        requires
            old(self).wf(),
            old(self).current == old(self).offset + 1,
            old(self).offset < old(self).source@.len(),
            is_digit_byte(old(self).source@[old(self).offset as int]),
        ensures
            final(self).wf(),
            final(self).source == old(self).source,
            final(self).offset == old(self).offset,
            final(self).current as int == spec_number_end(
                old(self).source@,
                old(self).offset as int,
            ),
            t == (Token {
                span: Span {
                    offset: final(self).offset,
                    size: (final(self).current - final(self).offset) as usize,
                },
                ty: TokenType::Number,
            }),
    {
        proof {
            lemma_digits_end_bounds(self.source@, self.current as int);
        }
        while self.peek_is_digit()
            invariant
                self.wf(),
                self.source == old(self).source,
                self.offset == old(self).offset,
                old(self).offset < self.current,
                spec_digits_end(self.source@, self.current as int) == spec_digits_end(
                    old(self).source@,
                    old(self).current as int,
                ),
            decreases self.source@.len() - self.current,
        {
            self.advance();
        }
        let ghost d = spec_digits_end(old(self).source@, old(self).current as int);
        assert(self.current as int == d);
        assert(spec_digits_end(old(self).source@, old(self).offset as int) == d);
        let dot = match self.peek() {
            Some(b) => b == 46,
            None => false,
        };
        let next_digit = match self.peek_next() {
            Some(b) => 48 <= b && b <= 57,
            None => false,
        };
        if dot && next_digit {
            self.advance();
            self.advance();
            while self.peek_is_digit()
                invariant
                    self.wf(),
                    self.source == old(self).source,
                    self.offset == old(self).offset,
                    old(self).offset < self.current,
                    spec_digits_end(self.source@, self.current as int) == spec_digits_end(
                        old(self).source@,
                        d + 2,
                    ),
                decreases self.source@.len() - self.current,
            {
                self.advance();
            }
        }
        self.make_token(TokenType::Number)
    }

    /// Returns the next token after any run of whitespace, or the lexical
    /// error naming the first byte no rule matches. At the end of the source
    /// it keeps returning the end-of-input token without moving.
    pub fn scan_token(&mut self) -> (r: Result<Token, ScanError>)
        requires
            old(self).wf(),
        ensures
            final(self).wf(),
            final(self).source == old(self).source,
            match r {
                Ok(t) => {
                    &&& spec_scan(old(self).source@, old(self).current as int) == (SpecScan::Tok {
                        ty: t.ty,
                        start: t.span.offset as int,
                        end: t.span.end(),
                    })
                    &&& final(self).offset == t.span.offset
                    &&& final(self).current as int == t.span.end()
                },
                Err(e) => match e {
                    ScanError::UnexpectedChar { byte, offset } => {
                        &&& spec_scan(old(self).source@, old(self).current as int)
                            == (SpecScan::Bad { at: offset as int })
                        &&& byte == old(self).source@[offset as int]
                        &&& final(self).offset == offset
                        &&& final(self).current == offset + 1
                    },
                },
            },
    {
        proof {
            lemma_scan_bounds(self.source@, self.current as int);
        }
        self.skip_whitespace();
        self.offset = self.current;
        let c = self.advance();
        match c {
            Some(b) => {
                if b == 40 {
                    Ok(self.make_token(TokenType::LeftParen))
                } else if b == 41 {
                    Ok(self.make_token(TokenType::RightParen))
                } else if b == 45 {
                    Ok(self.make_token(TokenType::Minus))
                } else if b == 43 {
                    Ok(self.make_token(TokenType::Plus))
                } else if b == 47 {
                    Ok(self.make_token(TokenType::Slash))
                } else if b == 42 {
                    Ok(self.make_token(TokenType::Star))
                } else if 48 <= b && b <= 57 {
                    Ok(self.number())
                } else {
                    Err(ScanError::UnexpectedChar { byte: b, offset: self.offset })
                }
            },
            None => Ok(self.make_token(TokenType::EoF)),
        }
    }
}

} // verus!
