use vstd::prelude::*;

verus! {

/// A byte range `[offset, offset + size)` into the source buffer a token was
/// recognized from; used to slice out the lexeme and to point at the place
/// of an error.
#[derive(Debug, Clone, Copy, PartialEq, Eq, Structural)]
pub struct Span {
    pub offset: usize,
    pub size: usize,
}

impl Span {
    pub fn new(offset: usize, size: usize) -> (s: Span)
        ensures
            s == (Span { offset, size }),
    {
        Span { offset, size }
    }

    /// The position one past the last byte of the range.
    pub open spec fn end(self) -> int {
        self.offset + self.size
    }
}

/// The closed set of lexical token kinds. `EoF` terminates every scan and is
/// handed out again on every request past the end of the source.
#[derive(Debug, Clone, Copy, PartialEq, Eq, Structural)]
pub enum TokenType {
    LeftParen,
    RightParen,
    Minus,
    Plus,
    Slash,
    Star,
    Number,
    EoF,
}

/// A typed lexical unit: a kind tag plus the byte range it was read from.
#[derive(Debug, Clone, Copy, PartialEq, Eq, Structural)]
pub struct Token {
    pub span: Span,
    pub ty: TokenType,
}

impl Token {
    pub fn new(span: Span, ty: TokenType) -> (t: Token)
        ensures
            t == (Token { span, ty }),
    {
        Token { span, ty }
    }

    /// True when the span lies inside a buffer of the given length.
    pub open spec fn fits(self, len: int) -> bool {
        self.span.offset + self.span.size <= len
    }

    /// The literal bytes this token was recognized from.
    pub fn lexeme<'a>(&self, source: &'a [u8]) -> (r: &'a [u8])
        requires
            self.fits(source@.len() as int),
        ensures
            r@ == source@.subrange(self.span.offset as int, self.span.end()),
    {
        proof {
            vstd::slice::axiom_spec_len(source);
        }
        vstd::slice::slice_subrange(source, self.span.offset, self.span.offset + self.span.size)
    }
}

} // verus!
