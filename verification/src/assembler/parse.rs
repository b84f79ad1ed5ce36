//! The recursive-descent parser: turns the token stream into top-level
//! items, each a label, an instruction or a directive with its argument
//! expressions.

use vstd::prelude::*;

verus! {

use crate::assembler::lex::{spec_is_digit, IntRadix, Scanner, Token, TokenKind};
use crate::code::{Source, Span};

/// An integer literal argument.
#[derive(Debug, Clone, Copy, PartialEq, Eq)]
pub struct IntLiteral {
    pub value: u64,
    pub base: IntRadix,
    pub span: Span,
}

/// An identifier directly followed by an integer literal, such as a
/// shift modifier `LSL #12`.
#[derive(Debug, Clone, Copy, PartialEq, Eq)]
pub struct IdentInt {
    pub span: Span,
    pub num: IntLiteral,
}

/// One argument expression of an instruction or directive.
#[derive(Debug)]
pub enum Expr {
    /// A bracketed address form: `[reg]` or `[reg, imm]`.
    Address { args: Vec<Expr>, group: Span },
    IntLiteral(IntLiteral),
    FloatLiteral { int: u64, frac: u64, span: Span },
    Ident { span: Span },
    IdentInt(IdentInt),
    String { span: Span },
    Error,
}

impl Expr {
    /// All spans lie within a source buffer of `len` bytes.
    pub open spec fn wf(self, len: int) -> bool
        decreases self,
    {
        match self {
            Expr::Address { args, group } => group.start <= len && group.end <= len && (forall|
                i: int,
            | 0 <= i < args@.len() ==> (#[trigger] args@[i]).wf(len)),
            Expr::IntLiteral(l) => l.span.start <= l.span.end <= len,
            Expr::FloatLiteral { span, .. } => span.start <= span.end <= len,
            Expr::Ident { span } => span.start <= span.end <= len,
            Expr::IdentInt(ii) => ii.span.start <= ii.span.end <= len && ii.num.span.start
                <= ii.num.span.end <= len,
            Expr::String { span } => span.start <= span.end <= len,
            Expr::Error => true,
        }
    }
}

/// One top-level item of the source.
#[derive(Debug)]
pub enum Top {
    Directive { name: Span, args: Option<Vec<Expr>> },
    Instruction { mnem: Span, args: Option<Vec<Expr>> },
    Label(Span),
    Error,
}

impl Top {
    /// All spans lie within a source buffer of `len` bytes.
    pub open spec fn wf(self, len: int) -> bool {
        match self {
            Top::Directive { name, args } => name.start <= name.end <= len && (args matches Some(a)
                ==> forall|i: int| 0 <= i < a@.len() ==> (#[trigger] a@[i]).wf(len)),
            Top::Instruction { mnem, args } => mnem.start <= mnem.end <= len && (args matches Some(
                a,
            ) ==> forall|i: int| 0 <= i < a@.len() ==> (#[trigger] a@[i]).wf(len)),
            Top::Label(span) => span.start <= span.end <= len,
            Top::Error => true,
        }
    }
}

/// The numeric value of one ASCII digit in the given radix; underscores
/// and out-of-radix bytes have none.
pub open spec fn spec_digit_of(b: u8, radix: u32) -> Option<nat> {
    let v: nat = if spec_is_digit(b) {
        (b - 48) as nat
    } else if 97 <= b <= 102 {
        (b - 97 + 10) as nat
    } else if 65 <= b <= 70 {
        (b - 65 + 10) as nat
    } else {
        99
    };
    if v < radix {
        Some(v)
    } else {
        None
    }
}

/// Every byte is a digit of the radix or an underscore, and at least one
/// digit occurs.
pub open spec fn spec_digits_valid(s: Seq<u8>, radix: u32) -> bool {
    &&& forall|i: int| 0 <= i < s.len() ==> (s[i] == 95 || (#[trigger] spec_digit_of(s[i], radix)) is Some)
    &&& exists|i: int| 0 <= i < s.len() && s[i] != 95
}

/// The unbounded value of a digit string, underscores skipped.
pub open spec fn spec_digits_value(s: Seq<u8>, radix: u32) -> nat
    decreases s.len(),
{
    if s.len() == 0 {
        0
    } else if s.last() == 95 {
        spec_digits_value(s.drop_last(), radix)
    } else {
        spec_digits_value(s.drop_last(), radix) * (radix as nat) + (match spec_digit_of(
            s.last(),
            radix,
        ) {
            Some(d) => d,
            None => 0,
        })
    }
}

/// A digit string's value never shrinks as digits are appended.
pub proof fn lemma_digits_value_prefix(s: Seq<u8>, radix: u32, i: int)
    requires
        0 <= i <= s.len(),
        radix >= 2,
    ensures
        spec_digits_value(s.take(i), radix) <= spec_digits_value(s, radix),
    decreases s.len() - i,
{
    if i == s.len() {
        assert(s.take(i) =~= s);
    } else {
        lemma_digits_value_prefix(s, radix, i + 1);
        let a = s.take(i);
        let b = s.take(i + 1);
        assert(b.drop_last() =~= a);
        let va = spec_digits_value(a, radix);
        if b.last() == 95 {
        } else {
            let d = match spec_digit_of(b.last(), radix) {
                Some(d) => d,
                None => 0nat,
            };
            assert(va <= va * (radix as nat) + d) by (nonlinear_arith)
                requires
                    radix >= 2,
            ;
        }
    }
}

/// Parses the value of a digit string: its numeric value when it is
/// valid and fits in 64 bits, nothing otherwise.
pub fn parse_int_value(src: &[u8], base: IntRadix) -> (r: Option<u64>)
    ensures
        r matches Some(v) ==> spec_digits_valid(src@, base.spec_radix()) && v == spec_digits_value(
            src@,
            base.spec_radix(),
        ),
        r is None ==> !spec_digits_valid(src@, base.spec_radix()) || spec_digits_value(
            src@,
            base.spec_radix(),
        ) > u64::MAX,
{
    let radix = base.radix();
    let n = src.len();
    let mut i: usize = 0;
    let mut acc: u64 = 0;
    let mut saw_digit = false;
    while i < n
        invariant
            n == src@.len(),
            i <= n,
            radix == base.spec_radix(),
            2 <= radix <= 16,
            acc == spec_digits_value(src@.take(i as int), base.spec_radix()),
            saw_digit == (exists|k: int| 0 <= k < i && src@[k] != 95),
            forall|k: int|
                0 <= k < i ==> (src@[k] == 95 || (#[trigger] spec_digit_of(
                    src@[k],
                    base.spec_radix(),
                )) is Some),
        decreases n - i,
    {
        let b = src[i];
        proof {
            assert(src@.take(i + 1).drop_last() =~= src@.take(i as int));
            assert(src@.take(i + 1).last() == src@[i as int]);
        }
        if b == 95 {
            i = i + 1;
            continue ;
        }
        let d: u64 = if 48 <= b && b <= 57 {
            (b - 48) as u64
        } else if 97 <= b && b <= 102 {
            (b - 97 + 10) as u64
        } else if 65 <= b && b <= 70 {
            (b - 65 + 10) as u64
        } else {
            return None;
        };
        if d >= radix as u64 {
            return None;
        }
        // reject a value that no longer fits 64 bits
        if acc > (u64::MAX - d) / (radix as u64) {
            proof {
                let full = spec_digits_value(src@, base.spec_radix());
                let next = spec_digits_value(src@.take(i + 1), base.spec_radix());
                assert(next == (acc as nat) * (radix as nat) + d);
                assert(next > u64::MAX) by (nonlinear_arith)
                    requires
                        next == (acc as nat) * (radix as nat) + d,
                        acc > ((u64::MAX - d) as int) / (radix as int),
                        2 <= radix <= 16,
                        0 <= d < radix,
                        acc <= u64::MAX,
                ;
                lemma_digits_value_prefix(src@, base.spec_radix(), i + 1);
            }
            return None;
        }
        proof {
            assert((acc as nat) * (radix as nat) + d <= u64::MAX) by (nonlinear_arith)
                requires
                    acc <= ((u64::MAX - d) as int) / (radix as int),
                    2 <= radix <= 16,
                    0 <= d < radix,
            ;
        }
        acc = acc * (radix as u64) + d;
        saw_digit = true;
        i = i + 1;
    }
    proof {
        assert(src@.take(n as int) =~= src@);
    }
    if saw_digit {
        Some(acc)
    } else {
        None
    }
}

/// The token stream: the scanner plus one token of lookahead.
pub struct TokenStream<'a> {
    pub scanner: Scanner<'a>,
    pub current: Option<Token>,
}

impl<'a> TokenStream<'a> {
    pub open spec fn wf(&self) -> bool {
        &&& self.scanner.wf()
        &&& (self.current matches Some(t) ==> t.span.start <= t.span.end
            <= self.scanner.src.content@.len())
    }

    /// The termination measure: bytes left to scan, plus the buffered
    /// token.
    pub open spec fn remaining(&self) -> int {
        2 * (self.scanner.src.content@.len() - self.scanner.pos) + (if self.current is Some {
            1int
        } else {
            0int
        })
    }

    pub fn new(scanner: Scanner<'a>) -> (r: Self)
        requires
            scanner.wf(),
        ensures
            r.wf(),
            r.scanner.src == scanner.src,
    {
        let mut scanner = scanner;
        let current = scanner.next();
        TokenStream { scanner, current }
    }

    /// The buffered token.
    pub fn peek(&self) -> (r: Option<Token>)
        ensures
            r == self.current,
    {
        self.current
    }

    pub fn peek_kind(&self) -> (r: Option<TokenKind>)
        ensures
            r is Some <==> self.current is Some,
            r matches Some(k) ==> self.current matches Some(t) && k == t.kind,
    {
        match self.current {
            Some(t) => Some(t.kind),
            None => None,
        }
    }

    /// Consumes and returns the buffered token, refilling the buffer.
    pub fn next(&mut self) -> (r: Option<Token>)
        requires
            old(self).wf(),
        ensures
            final(self).wf(),
            final(self).scanner.src == old(self).scanner.src,
            r == old(self).current,
            r is Some ==> final(self).remaining() < old(self).remaining(),
            final(self).remaining() <= old(self).remaining(),
    {
        match self.current {
            None => None,
            Some(t) => {
                self.current = self.scanner.next();
                Some(t)
            },
        }
    }

    /// Consumes the buffered token only if it has the given kind.
    pub fn next_if_eq(&mut self, kind: TokenKind) -> (r: Option<Token>)
        requires
            old(self).wf(),
        ensures
            final(self).wf(),
            final(self).scanner.src == old(self).scanner.src,
            r is Some ==> final(self).remaining() < old(self).remaining(),
            final(self).remaining() <= old(self).remaining(),
            r is Some ==> r == old(self).current,
    {
        match self.current {
            Some(t) => {
                if kind_eq(t.kind, kind) {
                    self.next()
                } else {
                    None
                }
            },
            None => None,
        }
    }

    /// The span of the buffered token, which the caller knows is there.
    pub fn next_span(&mut self) -> (r: Span)
        requires
            old(self).wf(),
            old(self).current is Some,
        ensures
            final(self).wf(),
            final(self).scanner.src == old(self).scanner.src,
            final(self).remaining() < old(self).remaining(),
            r == old(self).current->Some_0.span,
            r.start <= r.end <= final(self).scanner.src.content@.len(),
    {
        let t = self.next();
        match t {
            Some(t) => t.span,
            None => {
                proof {
                    assert(false);
                }
                Span { loc: crate::code::Loc { line: 1, column: 1 }, start: 0, end: 0 }
            },
        }
    }
}

/// Structural equality of token kinds.
pub fn kind_eq(a: TokenKind, b: TokenKind) -> (r: bool)
    ensures
        r == (a == b),
{
    a == b
}

/// The parser over one source buffer.
pub struct Parser<'a> {
    pub it: TokenStream<'a>,
}

impl<'a> Parser<'a> {
    pub open spec fn wf(&self) -> bool {
        self.it.wf()
    }

    pub open spec fn src_len(&self) -> int {
        self.it.scanner.src.content@.len() as int
    }

    pub open spec fn remaining(&self) -> int {
        self.it.remaining()
    }

    pub fn new(src: &'a Source) -> (r: Self)
        ensures
            r.wf(),
            r.it.scanner.src == src,
    {
        Parser { it: TokenStream::new(Scanner::new(src)) }
    }

    /// Parses the integer literal a span covers (its leading `#`
    /// followed by digits).
    fn parse_int(&mut self, span: Span, base: IntRadix) -> (r: Option<IntLiteral>)
        requires
            old(self).wf(),
            span.start <= span.end <= old(self).src_len(),
        ensures
            *final(self) == *old(self),
            r matches Some(l) ==> l.span == span,
    {
        let text = self.it.scanner.src.span(span);
        if text.len() == 0 || text[0] != 35 {
            return None;
        }
        // skip the '#', and a radix prefix after the first digit
        let digits = strip_radix_prefix(text, base);
        match parse_int_value(digits, base) {
            Some(value) => Some(IntLiteral { value, base, span }),
            None => None,
        }
    }

    /// Parses the float literal a span covers: `#int.frac`.
    fn parse_float(&mut self, span: Span) -> (r: Expr)
        requires
            old(self).wf(),
            span.start <= span.end <= old(self).src_len(),
        ensures
            *final(self) == *old(self),
            r.wf(old(self).src_len()),
    {
        let text = self.it.scanner.src.span(span);
        if text.len() == 0 || text[0] != 35 {
            return Expr::Error;
        }
        // find the dot
        let n = text.len();
        let mut dot: usize = 1;
        while dot < n
            invariant
                n == text@.len(),
                1 <= dot <= n,
            decreases n - dot,
        {
            if text[dot] == 46 {
                break ;
            }
            dot = dot + 1;
        }
        if dot >= n {
            return Expr::Error;
        }
        let int_part = crate::code::slice_range(text, 1, dot);
        let frac_part = crate::code::slice_range(text, dot + 1, n);
        let int_part_val = match parse_int_value(int_part, IntRadix::Dec) {
            Some(v) => v,
            None => {
                return Expr::Error;
            },
        };
        let frac = match parse_int_value(frac_part, IntRadix::Dec) {
            Some(v) => v,
            None => {
                return Expr::Error;
            },
        };
        Expr::FloatLiteral { int: int_part_val, frac, span }
    }

    /// Parses the inside of a bracketed address form, after the opening
    /// bracket.
    fn parse_address_arg(&mut self) -> (r: Vec<Expr>)
        requires
            old(self).wf(),
        ensures
            final(self).wf(),
            final(self).it.scanner.src == old(self).it.scanner.src,
            final(self).remaining() <= old(self).remaining(),
            forall|i: int| 0 <= i < r@.len() ==> (#[trigger] r@[i]).wf(final(self).src_len()),
    {
        let mut args: Vec<Expr> = Vec::new();
        let first = match self.it.peek() {
            Some(t) => {
                if matches!(t.kind, TokenKind::Identifier) {
                    Expr::Ident { span: self.it.next_span() }
                } else {
                    Expr::Error
                }
            },
            None => Expr::Error,
        };
        args.push(first);
        match self.it.peek_kind() {
            Some(TokenKind::RightSquareBracket) => {
                return args;
            },
            _ => {},
        }
        if self.it.next_if_eq(TokenKind::Comma).is_none() {
            args.push(Expr::Error);
            return args;
        }
        let second = match self.it.peek() {
            Some(t) => match t.kind {
                TokenKind::Identifier => Expr::Ident { span: self.it.next_span() },
                TokenKind::Int(base) => {
                    let span = self.it.next_span();
                    match self.parse_int(span, base) {
                        Some(l) => Expr::IntLiteral(l),
                        None => Expr::Error,
                    }
                },
                TokenKind::Float => {
                    let span = self.it.next_span();
                    self.parse_float(span)
                },
                _ => Expr::Error,
            },
            None => Expr::Error,
        };
        args.push(second);
        args
    }

    /// Parses a bracketed address form, after the opening bracket.
    fn parse_address(&mut self, span: Span) -> (r: Expr)
        requires
            old(self).wf(),
            span.start <= span.end <= old(self).src_len(),
        ensures
            final(self).wf(),
            final(self).it.scanner.src == old(self).it.scanner.src,
            final(self).remaining() <= old(self).remaining(),
            r.wf(final(self).src_len()),
    {
        let args = self.parse_address_arg();
        match self.it.peek_kind() {
            Some(TokenKind::RightSquareBracket) => {
                let end = self.it.next_span();
                Expr::Address { args, group: Span::group(span, end) }
            },
            _ => Expr::Error,
        }
    }

    /// Parses one argument: an identifier, a literal, a bracketed
    /// address, or an identifier-with-integer such as `LSL #1`.
    fn parse_one_arg(&mut self) -> (r: Option<Expr>)
        requires
            old(self).wf(),
        ensures
            final(self).wf(),
            final(self).it.scanner.src == old(self).it.scanner.src,
            final(self).remaining() <= old(self).remaining(),
            r is Some ==> final(self).remaining() < old(self).remaining(),
            r matches Some(e) ==> e.wf(final(self).src_len()),
    {
        let t = match self.it.next() {
            Some(t) => t,
            None => {
                return None;
            },
        };
        match t.kind {
            TokenKind::Identifier => {
                match self.it.peek_kind() {
                    Some(TokenKind::Int(base)) => {
                        let int_span = self.it.next_span();
                        match self.parse_int(int_span, base) {
                            Some(lit) => Some(Expr::IdentInt(IdentInt { span: t.span, num: lit })),
                            None => Some(Expr::Error),
                        }
                    },
                    _ => Some(Expr::Ident { span: t.span }),
                }
            },
            TokenKind::Int(base) => match self.parse_int(t.span, base) {
                Some(l) => Some(Expr::IntLiteral(l)),
                None => Some(Expr::Error),
            },
            TokenKind::Float => Some(self.parse_float(t.span)),
            TokenKind::LeftSquareBracket => Some(self.parse_address(t.span)),
            _ => Some(Expr::Error),
        }
    }

    /// Parses a `.cond` modifier after a mnemonic, if present.
    fn parse_modif(&mut self) -> (r: Option<Span>)
        requires
            old(self).wf(),
        ensures
            final(self).wf(),
            final(self).it.scanner.src == old(self).it.scanner.src,
            final(self).remaining() <= old(self).remaining(),
            r matches Some(s) ==> s.start <= s.end <= final(self).src_len(),
    {
        if self.it.next_if_eq(TokenKind::Dot).is_none() {
            return None;
        }
        match self.it.next_if_eq(TokenKind::Identifier) {
            Some(t) => Some(t.span),
            None => None,
        }
    }

    /// Parses the comma-separated argument list of one item, consuming
    /// the terminating newline.
    fn parse_args(&mut self, is_instr: bool) -> (r: Option<Vec<Expr>>)
        requires
            old(self).wf(),
        ensures
            final(self).wf(),
            final(self).it.scanner.src == old(self).it.scanner.src,
            final(self).remaining() <= old(self).remaining(),
            r matches Some(a) ==> forall|i: int|
                0 <= i < a@.len() ==> (#[trigger] a@[i]).wf(final(self).src_len()),
    {
        match self.it.peek_kind() {
            Some(TokenKind::Newline) => {
                return None;
            },
            None => {
                return None;
            },
            _ => {},
        }
        let mut args: Vec<Expr> = Vec::new();
        if is_instr {
            match self.parse_modif() {
                Some(modif) => args.push(Expr::Ident { span: modif }),
                None => {},
            }
        }
        loop
            invariant
                self.wf(),
                self.it.scanner.src == old(self).it.scanner.src,
                self.remaining() <= old(self).remaining(),
                forall|i: int| 0 <= i < args@.len() ==> (#[trigger] args@[i]).wf(self.src_len()),
            decreases self.remaining(),
        {
            let got = match self.parse_one_arg() {
                Some(expr) => {
                    args.push(expr);
                    true
                },
                None => {
                    args.push(Expr::Error);
                    false
                },
            };
            match self.it.peek_kind() {
                Some(TokenKind::Comma) => {
                    let consumed = self.it.next();
                    proof {
                        assert(consumed is Some);
                    }
                },
                Some(TokenKind::Newline) => {
                    let consumed = self.it.next();
                    proof {
                        assert(consumed is Some);
                    }
                    break ;
                },
                Some(_) => {
                    args.push(Expr::Error);
                    break ;
                },
                None => {
                    break ;
                },
            }
            if !got {
                // the stream was exhausted mid-argument
                break ;
            }
        }
        Some(args)
    }

    /// Parses one top-level item, with at least one token available.
    fn parse_root(&mut self) -> (r: Top)
        requires
            old(self).wf(),
            old(self).it.current is Some,
        ensures
            final(self).wf(),
            final(self).it.scanner.src == old(self).it.scanner.src,
            final(self).remaining() < old(self).remaining(),
            r.wf(final(self).src_len()),
    {
        let t = match self.it.next() {
            Some(t) => t,
            None => {
                proof {
                    assert(false);
                }
                return Top::Error;
            },
        };
        match t.kind {
            TokenKind::Identifier => {
                match self.it.peek_kind() {
                    Some(TokenKind::Colon) => {
                        let consumed = self.it.next();
                        Top::Label(t.span)
                    },
                    Some(_) => {
                        let args = self.parse_args(true);
                        Top::Instruction { mnem: t.span, args }
                    },
                    None => Top::Instruction { mnem: t.span, args: None },
                }
            },
            TokenKind::Dot => {
                match self.it.peek_kind() {
                    Some(TokenKind::Identifier) => {
                        let name = self.it.next_span();
                        let args = self.parse_args(false);
                        Top::Directive { name, args }
                    },
                    _ => Top::Error,
                }
            },
            _ => Top::Error,
        }
    }

    /// The next top-level item, or `None` at the end of the input.
    pub fn next(&mut self) -> (r: Option<Top>)
        requires
            old(self).wf(),
        ensures
            final(self).wf(),
            final(self).it.scanner.src == old(self).it.scanner.src,
            final(self).remaining() <= old(self).remaining(),
            r is Some ==> final(self).remaining() < old(self).remaining(),
            r matches Some(top) ==> top.wf(final(self).src_len()),
    {
        loop
            invariant
                self.wf(),
                self.it.scanner.src == old(self).it.scanner.src,
                self.remaining() <= old(self).remaining(),
            decreases self.remaining(),
        {
            match self.it.peek_kind() {
                Some(TokenKind::Newline) => {
                    let consumed = self.it.next();
                },
                Some(_) => {
                    return Some(self.parse_root());
                },
                None => {
                    return None;
                },
            }
        }
    }
}

/// Skips the `0x`/`0b` radix prefix of a literal's digits (the text
/// after `#`), leaving plain digit text; a literal without the expected
/// prefix is left for the digit parser to reject.
fn strip_radix_prefix<'x>(text: &'x [u8], base: IntRadix) -> (r: &'x [u8])
    requires
        text@.len() >= 1,
{
    match base {
        IntRadix::Dec => crate::code::slice_range(text, 1, text.len()),
        _ => {
            let marked = text.len() >= 3 && text[1] == 48 && (text[2] == 120 || text[2] == 98);
            if marked {
                crate::code::slice_range(text, 3, text.len())
            } else {
                crate::code::slice_range(text, 1, text.len())
            }
        },
    }
}

} // verus!
