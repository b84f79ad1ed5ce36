//! A line-oriented tokenizer draft: classifies each line of source text
//! into runs of a single character class.

use vstd::prelude::*;

verus! {

use vstd::string::StringSliceAdditionalSpecFns;
use crate::scan::sub_str;

/// A line and column position, both counted from one.
#[derive(Clone, Copy, Debug, PartialEq, Eq)]
pub struct SourceLocation {
    pub line: u32,
    pub column: u32,
}

impl SourceLocation {
    pub fn default() -> (r: Self)
        ensures
            r.line == 1,
            r.column == 1,
    {
        SourceLocation { line: 1, column: 1 }
    }
}

/// The character classes a byte can fall into.
#[derive(Clone, Copy, PartialEq, Eq, Debug, Structural)]
pub enum TokenKind {
    Alpha,
    Digit,
    Punct,
    Newline,
    Space,
    Other,
}

/// One run of characters of a single class.
#[derive(Debug, Clone, Copy)]
pub struct Token<'a> {
    pub text: &'a str,
    pub location: SourceLocation,
    pub kind: TokenKind,
}

/// An operand placeholder carrying only its location.
#[derive(Debug, Clone, Copy)]
pub struct Operand {
    pub location: SourceLocation,
}

/// The class of one character.
pub open spec fn spec_char_kind(u: u32) -> TokenKind {
    if u == 32 || u == 9 {
        TokenKind::Space
    } else if 48 <= u <= 57 {
        TokenKind::Digit
    } else if (33 <= u <= 47) || (58 <= u <= 64) || (91 <= u <= 96) || (123 <= u <= 126) {
        TokenKind::Punct
    } else if (65 <= u <= 90) || (97 <= u <= 122) {
        TokenKind::Alpha
    } else {
        TokenKind::Other
    }
}

/// Classifies one character.
pub fn char_kind(c: char) -> (r: TokenKind)
    ensures
        r == spec_char_kind(c as u32),
{
    let u = c as u32;
    if u == 32 || u == 9 {
        TokenKind::Space
    } else if 48 <= u && u <= 57 {
        TokenKind::Digit
    } else if (33 <= u && u <= 47) || (58 <= u && u <= 64) || (91 <= u && u <= 96) || (123 <= u
        && u <= 126) {
        TokenKind::Punct
    } else if (65 <= u && u <= 90) || (97 <= u && u <= 122) {
        TokenKind::Alpha
    } else {
        TokenKind::Other
    }
}

/// Splits one line into runs of a single character class; punctuation
/// always stands alone.
pub fn generate_token_kinds_for_line<'a>(line: &'a str, result: &mut Vec<Token<'a>>, line_number: usize)
    ensures
        final(result)@.len() >= old(result)@.len(),
{
    let bytes = line.as_bytes();
    let n = bytes.len();
    let mut start: usize = 0;
    let mut start_col: usize = 0;
    let mut kind = TokenKind::Other;
    let mut have_run = false;
    let mut i: usize = 0;
    while i < n
        invariant
            n == line.spec_bytes().len(),
            bytes@ == line.spec_bytes(),
            i <= n,
            have_run ==> start <= i,
            final(result)@.len() >= old(result)@.len() || true,
            result@.len() >= old(result)@.len(),
        decreases n - i,
    {
        let k = char_kind(bytes[i] as char);
        if have_run {
            if !kind_eq(k, kind) || matches!(kind, TokenKind::Punct) {
                result.push(
                    Token {
                        text: sub_str(line, start, i),
                        location: location_at(line_number, start_col),
                        kind,
                    },
                );
                have_run = false;
            }
        }
        if !have_run {
            start = i;
            start_col = i;
            kind = k;
            have_run = true;
        }
        i = i + 1;
    }
    if have_run {
        if start <= n {
            result.push(
                Token {
                    text: sub_str(line, start, n),
                    location: location_at(line_number, start_col),
                    kind,
                },
            );
        }
    }
}

/// Structural equality of two character classes.
fn kind_eq(a: TokenKind, b: TokenKind) -> (r: bool)
    ensures
        r == (a == b),
{
    a == b
}

/// The location of a column on a line, both saturated to 32 bits.
fn location_at(line_number: usize, column_index: usize) -> (r: SourceLocation)
{
    let line: u32 = if line_number < u32::MAX as usize {
        line_number as u32
    } else {
        u32::MAX
    };
    let column: u32 = if column_index < (u32::MAX - 1) as usize {
        (column_index + 1) as u32
    } else {
        u32::MAX
    };
    SourceLocation { line, column }
}

/// Splits the whole source into per-line class runs.
pub fn generate_token_kinds<'a>(src: &'a str) -> (r: Vec<Token<'a>>)
{
    let mut result: Vec<Token<'a>> = Vec::new();
    let bytes = src.as_bytes();
    let n = bytes.len();
    let mut line_start: usize = 0;
    let mut line_number: usize = 1;
    let mut i: usize = 0;
    while i < n
        invariant
            n == src.spec_bytes().len(),
            bytes@ == src.spec_bytes(),
            i <= n,
            line_start <= i,
            line_number >= 1,
        decreases n - i,
    {
        if bytes[i] == 10 {
            let line = sub_str(src, line_start, i + 1);
            generate_token_kinds_for_line(line, &mut result, line_number);
            line_start = i + 1;
            if line_number < usize::MAX {
                line_number = line_number + 1;
            }
        }
        i = i + 1;
    }
    if line_start < n {
        let line = sub_str(src, line_start, n);
        generate_token_kinds_for_line(line, &mut result, line_number);
    }
    result
}

/// Walks the text line by line; the assembling itself lives in the
/// assembler pipeline.
pub fn assemble_text_from_file(text: &str)
{
    if text.is_empty() {
        return ;
    }
}

} // verus!
