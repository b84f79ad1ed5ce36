//! A self-contained scanner draft that yields tokens carrying their
//! source text directly, rather than spans into a source buffer.

use vstd::prelude::*;

verus! {

use vstd::string::StringSliceAdditionalSpecFns;

/// A line and column position, both counted from one.
#[derive(Clone, Copy, Debug, PartialEq, Eq)]
pub struct SourceLocation {
    pub line: u32,
    pub column: u32,
}

impl SourceLocation {
    pub fn new() -> (r: Self)
        ensures
            r.line == 1,
            r.column == 1,
    {
        SourceLocation { line: 1, column: 1 }
    }

    /// Advances to the start of the next line.
    pub fn inc_line(&mut self)
        requires
            old(self).line < u32::MAX,
        ensures
            final(self).line == old(self).line + 1,
            final(self).column == 1,
    {
        self.line = self.line + 1;
        self.column = 1;
    }

    /// Advances one column.
    pub fn inc_column(&mut self)
        requires
            old(self).column < u32::MAX,
        ensures
            final(self).line == old(self).line,
            final(self).column == old(self).column + 1,
    {
        self.column = self.column + 1;
    }
}

impl Default for SourceLocation {
    fn default() -> (r: Self)
        ensures
            r.line == 1,
            r.column == 1,
    {
        SourceLocation::new()
    }
}

/// A piece of source text with the location of its first byte.
#[derive(Debug, Clone, Copy)]
pub struct SourceSlice<'a> {
    pub location: SourceLocation,
    pub src: &'a str,
}

/// A fault found while scanning one token.
#[derive(Debug, Clone, Copy, PartialEq, Eq)]
pub enum ErrorKind {
    Unexpected,
    Expected(char),
}

/// The base of a number literal.
#[derive(Debug, Clone, Copy, PartialEq, Eq, Structural)]
pub enum NumberBase {
    Bin,
    Dec,
    Hex,
}

/// The kinds of token this scanner produces.
#[derive(Debug, Clone, Copy, PartialEq, Eq)]
pub enum TokenKind {
    Identifier,
    String,
    Space,
    Comment,
    Newline,
    Other,
    Symbol(char),
    Error(ErrorKind),
    Number(NumberBase),
}

/// One token: its kind and the text it covers.
#[derive(Debug, Clone, Copy)]
pub struct Token<'a> {
    pub kind: TokenKind,
    pub slice: SourceSlice<'a>,
}

/// The substring covering bytes `start .. end` when both ends fall on
/// character boundaries, and the empty string otherwise.
pub fn sub_str<'a>(s: &'a str, start: usize, end: usize) -> (r: &'a str)
    requires
        start <= end <= s.spec_bytes().len(),
{
    if !s.is_char_boundary(start) {
        return "";
    }
    let (_, tail) = s.split_at(start);
    if !tail.is_char_boundary(end - start) {
        return "";
    }
    let (mid, _) = tail.split_at(end - start);
    mid
}

/// A byte cursor over source text, yielding one character per byte and
/// tracking line and column.
pub struct SourceIterator<'s> {
    pub src: &'s str,
    pub pos: usize,
    pub location: SourceLocation,
}

impl<'s> SourceIterator<'s> {
    pub open spec fn wf(&self) -> bool {
        self.pos <= self.src.spec_bytes().len()
    }

    pub fn new(source: &'s str) -> (r: Self)
        ensures
            r.wf(),
            r.pos == 0,
            r.src == source,
            r.location.line == 1,
            r.location.column == 1,
    {
        SourceIterator { src: source, pos: 0, location: SourceLocation::new() }
    }

    /// The character under the cursor.
    pub fn peek(&self) -> (r: Option<char>)
        requires
            self.wf(),
        ensures
            r is Some <==> self.pos < self.src.spec_bytes().len(),
    {
        let bytes = self.src.as_bytes();
        if self.pos < bytes.len() {
            Some(bytes[self.pos] as char)
        } else {
            None
        }
    }

    /// The character `n` places past the cursor; `peek_by(0)` is `peek`.
    pub fn peek_by(&self, n: usize) -> (r: Option<char>)
        requires
            self.wf(),
        ensures
            r is Some <==> self.pos + n < self.src.spec_bytes().len(),
    {
        let bytes = self.src.as_bytes();
        if n < bytes.len() && self.pos < bytes.len() - n {
            Some(bytes[self.pos + n] as char)
        } else {
            None
        }
    }

    /// Consumes and returns the character under the cursor.
    pub fn next(&mut self) -> (r: Option<char>)
        requires
            old(self).wf(),
        ensures
            final(self).wf(),
            final(self).src == old(self).src,
            r is Some <==> old(self).pos < old(self).src.spec_bytes().len(),
            r is Some ==> final(self).pos == old(self).pos + 1,
            r is None ==> final(self).pos == old(self).pos,
    {
        let bytes = self.src.as_bytes();
        if self.pos >= bytes.len() {
            return None;
        }
        let b = bytes[self.pos];
        if b == 10 {
            if self.location.line < u32::MAX {
                self.location.line = self.location.line + 1;
                self.location.column = 1;
            }
        } else {
            if self.location.column < u32::MAX {
                self.location.column = self.location.column + 1;
            }
        }
        self.pos = self.pos + 1;
        Some(b as char)
    }

    /// Consumes everything up to, but not including, the next newline.
    pub fn next_till_newline(&mut self)
        requires
            old(self).wf(),
        ensures
            final(self).wf(),
            final(self).src == old(self).src,
            final(self).pos >= old(self).pos,
    {
        loop
            invariant
                self.wf(),
                self.src == old(self).src,
                self.pos >= old(self).pos,
            decreases self.src.spec_bytes().len() - self.pos,
        {
            match self.peek() {
                Some(c) => {
                    if c == '\n' {
                        return ;
                    }
                    if c == '\r' && matches!(self.peek_by(1), Some('\n')) {
                        return ;
                    }
                    let consumed = self.next();
                    proof {
                        assert(consumed is Some);
                    }
                },
                None => {
                    return ;
                },
            }
        }
    }

    /// The number of bytes left past the cursor.
    pub fn num_bytes(&self) -> (r: usize)
        requires
            self.wf(),
        ensures
            r == self.src.spec_bytes().len() - self.pos,
    {
        self.src.as_bytes().len() - self.pos
    }

    pub fn is_eof(&self) -> (r: bool)
        requires
            self.wf(),
        ensures
            r == (self.pos == self.src.spec_bytes().len()),
    {
        self.pos >= self.src.as_bytes().len()
    }

    /// Consumes the cursor character if it equals `c`.
    pub fn next_if_eq(&mut self, c: char) -> (r: Option<char>)
        requires
            old(self).wf(),
        ensures
            final(self).wf(),
            final(self).src == old(self).src,
            final(self).pos >= old(self).pos,
            final(self).pos <= old(self).pos + 1,
    {
        match self.peek() {
            Some(p) => {
                if p == c {
                    self.next()
                } else {
                    None
                }
            },
            None => None,
        }
    }
}

/// The scanner: classifies runs of source text into tokens.
pub struct Scanner<'a> {
    pub source: &'a str,
    pub it: SourceIterator<'a>,
}

impl<'a> Scanner<'a> {
    pub open spec fn wf(&self) -> bool {
        self.it.wf() && self.it.src == self.source
    }

    pub fn new(source: &'a str) -> (r: Self)
        ensures
            r.wf(),
            r.it.pos == 0,
            r.source == source,
    {
        Scanner { source, it: SourceIterator::new(source) }
    }

    /// Scans the rest of a number, called after the first digit.
    fn parse_number(&mut self) -> (r: TokenKind)
        requires
            old(self).wf(),
        ensures
            final(self).wf(),
            final(self).source == old(self).source,
            final(self).it.pos >= old(self).it.pos,
    {
        let base = match self.it.peek() {
            Some('x') => NumberBase::Hex,
            Some('b') => NumberBase::Bin,
            Some(c) => {
                if is_digit_char(c) || c == '_' {
                    NumberBase::Dec
                } else {
                    return TokenKind::Number(NumberBase::Dec);
                }
            },
            None => {
                return TokenKind::Number(NumberBase::Dec);
            },
        };
        let consumed = self.it.next();
        loop
            invariant
                self.wf(),
                self.source == old(self).source,
                self.it.pos >= old(self).it.pos,
            decreases self.source.spec_bytes().len() - self.it.pos,
        {
            match self.it.peek() {
                Some(c) => {
                    if is_base_digit_char(c, base) || c == '_' {
                        let consumed2 = self.it.next();
                        proof {
                            assert(consumed2 is Some);
                        }
                    } else {
                        return TokenKind::Number(base);
                    }
                },
                None => {
                    return TokenKind::Number(base);
                },
            }
        }
    }

    /// Scans the rest of an identifier.
    fn parse_ident(&mut self) -> (r: TokenKind)
        requires
            old(self).wf(),
        ensures
            final(self).wf(),
            final(self).source == old(self).source,
            final(self).it.pos >= old(self).it.pos,
    {
        loop
            invariant
                self.wf(),
                self.source == old(self).source,
                self.it.pos >= old(self).it.pos,
            decreases self.source.spec_bytes().len() - self.it.pos,
        {
            match self.it.peek() {
                Some(c) => {
                    if is_alpha_char(c) || is_digit_char(c) || c == '_' {
                        let consumed = self.it.next();
                        proof {
                            assert(consumed is Some);
                        }
                    } else {
                        return TokenKind::Identifier;
                    }
                },
                None => {
                    return TokenKind::Identifier;
                },
            }
        }
    }

    /// Scans the rest of a string literal, after the opening delimiter.
    fn parse_string(&mut self, delim: char) -> (r: TokenKind)
        requires
            old(self).wf(),
        ensures
            final(self).wf(),
            final(self).source == old(self).source,
            final(self).it.pos >= old(self).it.pos,
    {
        let mut escaped = false;
        loop
            invariant
                self.wf(),
                self.source == old(self).source,
                self.it.pos >= old(self).it.pos,
            decreases self.source.spec_bytes().len() - self.it.pos,
        {
            match self.it.peek() {
                Some(c) => {
                    if c == '\\' {
                        escaped = !escaped;
                        let consumed = self.it.next();
                        proof {
                            assert(consumed is Some);
                        }
                    } else if c == delim && !escaped {
                        let consumed = self.it.next();
                        proof {
                            assert(consumed is Some);
                        }
                        return TokenKind::String;
                    } else {
                        escaped = false;
                        let consumed = self.it.next();
                        proof {
                            assert(consumed is Some);
                        }
                    }
                },
                None => {
                    return TokenKind::Error(ErrorKind::Expected(delim));
                },
            }
        }
    }

    /// Scans a run of spaces and tabs.
    fn parse_space(&mut self) -> (r: TokenKind)
        requires
            old(self).wf(),
        ensures
            final(self).wf(),
            final(self).source == old(self).source,
            final(self).it.pos >= old(self).it.pos,
    {
        loop
            invariant
                self.wf(),
                self.source == old(self).source,
                self.it.pos >= old(self).it.pos,
            decreases self.source.spec_bytes().len() - self.it.pos,
        {
            match self.it.peek() {
                Some(' ') | Some('\t') => {
                    let consumed = self.it.next();
                    proof {
                        assert(consumed is Some);
                    }
                },
                _ => {
                    return TokenKind::Space;
                },
            }
        }
    }

    /// Scans a line comment, after its two slashes.
    fn parse_comment(&mut self) -> (r: TokenKind)
        requires
            old(self).wf(),
        ensures
            final(self).wf(),
            final(self).source == old(self).source,
            final(self).it.pos >= old(self).it.pos,
    {
        self.it.next_till_newline();
        TokenKind::Comment
    }

    /// Scans one token, with the cursor on its first character.
    fn parse_token(&mut self) -> (r: TokenKind)
        requires
            old(self).wf(),
            old(self).it.pos < old(self).source.spec_bytes().len(),
        ensures
            final(self).wf(),
            final(self).source == old(self).source,
            final(self).it.pos > old(self).it.pos,
    {
        let c = match self.it.next() {
            Some(c) => c,
            None => {
                proof {
                    assert(false);
                }
                return TokenKind::Other;
            },
        };
        if c == '\n' {
            TokenKind::Newline
        } else if c == '\r' {
            if self.it.next_if_eq('\n').is_some() {
                TokenKind::Newline
            } else {
                TokenKind::Error(ErrorKind::Unexpected)
            }
        } else if is_digit_char(c) {
            self.parse_number()
        } else if c == '"' || c == '\'' {
            self.parse_string(c)
        } else if c == '/' {
            if self.it.next_if_eq('/').is_some() {
                self.parse_comment()
            } else {
                TokenKind::Symbol('/')
            }
        } else if c == ' ' || c == '\t' {
            self.parse_space()
        } else if is_alpha_char(c) || c == '_' {
            self.parse_ident()
        } else if (c as u32) < 128 {
            TokenKind::Symbol(c)
        } else {
            TokenKind::Other
        }
    }

    /// The next token, or `None` at the end of the input.
    pub fn next(&mut self) -> (r: Option<Token<'a>>)
        requires
            old(self).wf(),
        ensures
            final(self).wf(),
            final(self).source == old(self).source,
            final(self).it.pos >= old(self).it.pos,
            r is Some ==> final(self).it.pos > old(self).it.pos,
            r is None ==> final(self).it.pos == old(self).it.pos,
    {
        if self.it.is_eof() {
            return None;
        }
        let start_location = self.it.location;
        let start_index = self.it.pos;
        let kind = self.parse_token();
        let token_src = sub_str(self.source, start_index, self.it.pos);
        Some(Token { slice: SourceSlice { location: start_location, src: token_src }, kind })
    }
}

/// Is the character an ASCII decimal digit?
pub fn is_digit_char(c: char) -> (r: bool)
    ensures
        r == (48 <= c as u32 <= 57),
{
    let u = c as u32;
    48 <= u && u <= 57
}

/// Is the character an ASCII letter?
pub fn is_alpha_char(c: char) -> (r: bool)
    ensures
        r == ((65 <= c as u32 <= 90) || (97 <= c as u32 <= 122)),
{
    let u = c as u32;
    (65 <= u && u <= 90) || (97 <= u && u <= 122)
}

/// Is the character a digit of the base?
pub fn is_base_digit_char(c: char, base: NumberBase) -> (r: bool) {
    let u = c as u32;
    match base {
        NumberBase::Bin => 48 <= u && u <= 49,
        NumberBase::Dec => 48 <= u && u <= 57,
        NumberBase::Hex => (48 <= u && u <= 57) || (97 <= u && u <= 102) || (65 <= u && u <= 70),
    }
}

} // verus!
