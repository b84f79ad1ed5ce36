//! The lexical scanner: turns source text into tokens with byte spans,
//! skipping spaces and line comments.

use vstd::prelude::*;

verus! {

use crate::code::{Loc, Source, Span};

/// A fault found while scanning one token.
#[derive(Debug, Clone, Copy, PartialEq, Eq, Structural)]
pub enum ErrorKind {
    Unexpected,
    ExpectedDigit,
    UnterminatedString,
}

/// The base of an integer literal.
#[derive(Debug, Clone, Copy, PartialEq, Eq, Structural)]
pub enum IntRadix {
    Bin,
    Dec,
    Hex,
}

impl IntRadix {
    /// The numeric base.
    pub open spec fn spec_radix(self) -> u32 {
        match self {
            IntRadix::Bin => 2,
            IntRadix::Dec => 10,
            IntRadix::Hex => 16,
        }
    }

    pub fn radix(self) -> (r: u32)
        ensures
            r == self.spec_radix(),
    {
        match self {
            IntRadix::Bin => 2,
            IntRadix::Dec => 10,
            IntRadix::Hex => 16,
        }
    }
}

/// The kinds of token the scanner produces.
#[derive(Debug, Clone, Copy, PartialEq, Eq, Structural)]
pub enum TokenKind {
    Identifier,
    String,
    Newline,
    Error(ErrorKind),
    Int(IntRadix),
    Float,
    Colon,
    Dot,
    Comma,
    LeftSquareBracket,
    RightSquareBracket,
}

impl TokenKind {
    /// True for integer literals of any radix.
    pub fn is_int(&self) -> (r: bool)
        ensures
            r == (self matches TokenKind::Int(..)),
    {
        matches!(self, TokenKind::Int(..))
    }
}

/// One token: its kind and the bytes it covers.
#[derive(Debug, Clone, Copy, PartialEq, Eq)]
pub struct Token {
    pub kind: TokenKind,
    pub span: Span,
}

impl Token {
    pub open spec fn wf(&self, len: int) -> bool {
        self.span.start <= self.span.end <= len
    }
}

/// Is the byte an ASCII decimal digit?
pub open spec fn spec_is_digit(b: u8) -> bool {
    48 <= b <= 57
}

/// Is the byte an ASCII letter?
pub open spec fn spec_is_alpha(b: u8) -> bool {
    (65 <= b <= 90) || (97 <= b <= 122)
}

/// Is the byte a digit of the given radix (underscore separators count
/// as digit continuation in literals but not here)?
pub open spec fn spec_is_radix_digit(b: u8, radix: u32) -> bool {
    if radix == 2 {
        48 <= b <= 49
    } else if radix == 10 {
        spec_is_digit(b)
    } else {
        spec_is_digit(b) || (97 <= b <= 102) || (65 <= b <= 70)
    }
}

fn is_digit(b: u8) -> (r: bool)
    ensures
        r == spec_is_digit(b),
{
    48 <= b && b <= 57
}

fn is_alpha(b: u8) -> (r: bool)
    ensures
        r == spec_is_alpha(b),
{
    (65 <= b && b <= 90) || (97 <= b && b <= 122)
}

fn is_radix_digit(b: u8, radix: u32) -> (r: bool)
    ensures
        r == spec_is_radix_digit(b, radix),
{
    if radix == 2 {
        48 <= b && b <= 49
    } else if radix == 10 {
        is_digit(b)
    } else {
        is_digit(b) || (97 <= b && b <= 102) || (65 <= b && b <= 70)
    }
}

/// The scanner: a cursor into the source text with its line/column
/// position.
pub struct Scanner<'a> {
    pub src: &'a Source,
    pub pos: usize,
    pub loc: Loc,
}

impl<'a> Scanner<'a> {
    pub open spec fn wf(&self) -> bool {
        self.pos <= self.src.content@.len()
    }

    pub fn new(source: &'a Source) -> (r: Self)
        ensures
            r.wf(),
            r.pos == 0,
            r.src == source,
    {
        Scanner { src: source, pos: 0, loc: Loc::new() }
    }

    /// The byte under the cursor.
    fn peek(&self) -> (r: Option<u8>)
        requires
            self.wf(),
        ensures
            r matches Some(b) ==> self.pos < self.src.content@.len() && b == self.src.content@[self.pos as int],
            r is None ==> self.pos == self.src.content@.len(),
    {
        if self.pos < self.src.content.len() {
            Some(self.src.content[self.pos])
        } else {
            None
        }
    }

    /// The byte after the cursor.
    fn peek2(&self) -> (r: Option<u8>)
        requires
            self.wf(),
            self.pos < usize::MAX,
        ensures
            r matches Some(b) ==> self.pos + 1 < self.src.content@.len() && b
                == self.src.content@[self.pos + 1],
    {
        if self.pos + 1 < self.src.content.len() {
            Some(self.src.content[self.pos + 1])
        } else {
            None
        }
    }

    /// Moves the cursor one byte forward, tracking line and column.
    fn advance(&mut self)
        requires
            old(self).wf(),
            old(self).pos < old(self).src.content@.len(),
        ensures
            final(self).wf(),
            final(self).pos == old(self).pos + 1,
            final(self).src == old(self).src,
    {
        let n = self.src.content.len();
        let b = self.src.content[self.pos];
        if b == 10 {
            if self.loc.line < u32::MAX {
                self.loc.line = self.loc.line + 1;
                self.loc.column = 1;
            }
        } else {
            if self.loc.column < u32::MAX {
                self.loc.column = self.loc.column + 1;
            }
        }
        self.pos = self.pos + 1;
    }

    /// Consumes digits of the radix and underscores.
    fn eat_digits(&mut self, radix: u32)
        requires
            old(self).wf(),
        ensures
            final(self).wf(),
            final(self).pos >= old(self).pos,
            final(self).src == old(self).src,
    {
        loop
            invariant
                self.wf(),
                self.pos >= old(self).pos,
                self.src == old(self).src,
            decreases self.src.content@.len() - self.pos,
        {
            match self.peek() {
                Some(b) => {
                    if is_radix_digit(b, radix) || b == 95 {
                        self.advance();
                    } else {
                        return ;
                    }
                },
                None => {
                    return ;
                },
            }
        }
    }

    /// Scans the rest of a number, called after the `#` was consumed.
    fn parse_number(&mut self) -> (r: TokenKind)
        requires
            old(self).wf(),
        ensures
            final(self).wf(),
            final(self).pos >= old(self).pos,
            final(self).src == old(self).src,
    {
        let first = match self.peek() {
            Some(b) => b,
            None => {
                return TokenKind::Error(ErrorKind::ExpectedDigit);
            },
        };
        if !is_digit(first) {
            return TokenKind::Error(ErrorKind::ExpectedDigit);
        }
        self.advance();
        let radix = match self.peek() {
            Some(120) => {
                // 'x'
                self.advance();
                IntRadix::Hex
            },
            Some(98) => {
                // 'b'
                self.advance();
                IntRadix::Bin
            },
            Some(b) => {
                if is_digit(b) || b == 95 || b == 46 {
                    IntRadix::Dec
                } else {
                    return TokenKind::Int(IntRadix::Dec);
                }
            },
            None => {
                return TokenKind::Int(IntRadix::Dec);
            },
        };
        self.eat_digits(radix.radix());
        // a fraction part makes it a float literal
        match self.peek() {
            Some(46) => {
                self.advance();
                self.eat_digits(10);
                TokenKind::Float
            },
            _ => TokenKind::Int(radix),
        }
    }

    /// Scans the rest of an identifier.
    fn parse_ident(&mut self) -> (r: TokenKind)
        requires
            old(self).wf(),
        ensures
            final(self).wf(),
            final(self).pos >= old(self).pos,
            final(self).src == old(self).src,
    {
        loop
            invariant
                self.wf(),
                self.pos >= old(self).pos,
                self.src == old(self).src,
            decreases self.src.content@.len() - self.pos,
        {
            match self.peek() {
                Some(b) => {
                    if is_alpha(b) || is_digit(b) || b == 95 {
                        self.advance();
                    } else {
                        return TokenKind::Identifier;
                    }
                },
                None => {
                    return TokenKind::Identifier;
                },
            }
        }
    }

    /// Scans the rest of a string literal, called after the opening
    /// delimiter was consumed.
    fn parse_string(&mut self, delim: u8) -> (r: TokenKind)
        requires
            old(self).wf(),
        ensures
            final(self).wf(),
            final(self).pos >= old(self).pos,
            final(self).src == old(self).src,
    {
        let mut escaped = false;
        loop
            invariant
                self.wf(),
                self.pos >= old(self).pos,
                self.src == old(self).src,
            decreases self.src.content@.len() - self.pos,
        {
            match self.peek() {
                Some(b) => {
                    if b == 92 {
                        escaped = !escaped;
                        self.advance();
                    } else if b == delim && !escaped {
                        self.advance();
                        return TokenKind::String;
                    } else {
                        escaped = false;
                        self.advance();
                    }
                },
                None => {
                    return TokenKind::Error(ErrorKind::UnterminatedString);
                },
            }
        }
    }

    /// Consumes spaces, tabs and a line comment.
    fn skip_space(&mut self)
        requires
            old(self).wf(),
        ensures
            final(self).wf(),
            final(self).pos >= old(self).pos,
            final(self).src == old(self).src,
    {
        loop
            invariant
                self.wf(),
                self.pos >= old(self).pos,
                self.src == old(self).src,
            decreases self.src.content@.len() - self.pos,
        {
            match self.peek() {
                Some(32) | Some(9) => {
                    self.advance();
                },
                Some(47) => {
                    // a comment runs to the end of the line
                    if self.pos < usize::MAX && matches!(self.peek2(), Some(47)) {
                        self.next_till_newline();
                    }
                    return ;
                },
                _ => {
                    return ;
                },
            }
        }
    }

    /// Consumes everything up to, but not including, the next newline.
    fn next_till_newline(&mut self)
        requires
            old(self).wf(),
        ensures
            final(self).wf(),
            final(self).pos >= old(self).pos,
            final(self).src == old(self).src,
    {
        loop
            invariant
                self.wf(),
                self.pos >= old(self).pos,
                self.src == old(self).src,
            decreases self.src.content@.len() - self.pos,
        {
            match self.peek() {
                Some(10) => {
                    return ;
                },
                Some(13) => {
                    if self.pos < usize::MAX && matches!(self.peek2(), Some(10)) {
                        return ;
                    }
                    self.advance();
                },
                Some(_) => {
                    self.advance();
                },
                None => {
                    return ;
                },
            }
        }
    }

    /// Scans one token, with the cursor on its first byte.
    fn parse_token(&mut self) -> (r: TokenKind)
        requires
            old(self).wf(),
            old(self).pos < old(self).src.content@.len(),
        ensures
            final(self).wf(),
            final(self).pos > old(self).pos,
            final(self).src == old(self).src,
    {
        let b = self.src.content[self.pos];
        self.advance();
        if b == 10 {
            TokenKind::Newline
        } else if b == 58 {
            TokenKind::Colon
        } else if b == 46 {
            TokenKind::Dot
        } else if b == 91 {
            TokenKind::LeftSquareBracket
        } else if b == 93 {
            TokenKind::RightSquareBracket
        } else if b == 44 {
            TokenKind::Comma
        } else if b == 13 {
            match self.peek() {
                Some(10) => {
                    self.advance();
                    TokenKind::Newline
                },
                _ => TokenKind::Error(ErrorKind::Unexpected),
            }
        } else if b == 35 {
            self.parse_number()
        } else if b == 34 || b == 39 {
            self.parse_string(b)
        } else if is_alpha(b) || b == 95 {
            self.parse_ident()
        } else {
            TokenKind::Error(ErrorKind::Unexpected)
        }
    }

    /// The next token, or `None` at the end of the input. Every returned
    /// token covers a non-empty, in-bounds byte range and the scanner
    /// makes progress.
    pub fn next(&mut self) -> (r: Option<Token>)
        requires
            old(self).wf(),
        ensures
            final(self).wf(),
            final(self).src == old(self).src,
            final(self).pos >= old(self).pos,
            r matches Some(t) ==> t.span.start <= t.span.end <= final(self).src.content@.len()
                && final(self).pos > old(self).pos && t.span.end == final(self).pos,
            r is None ==> final(self).pos == final(self).src.content@.len(),
    {
        if self.pos >= self.src.content.len() {
            return None;
        }
        self.skip_space();
        if self.pos >= self.src.content.len() {
            return None;
        }
        let start_location = self.loc;
        let start_index = self.pos;
        let kind = self.parse_token();
        let span = self.src.create_span(start_location, start_index, self.pos);
        Some(Token { span, kind })
    }
}

} // verus!
