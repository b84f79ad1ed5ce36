//! Source text handling: a source buffer, line/column locations, byte
//! spans into the buffer, and collected diagnostics.

use vstd::prelude::*;

verus! {

use vstd::string::StringSliceAdditionalSpecFns;

/// What can go wrong while obtaining source text.
#[derive(Debug, Clone, Copy, PartialEq, Eq, Structural)]
pub enum Error {
    /// Reading the file contents failed.
    Read,
}

/// A path to a source file, before its contents are loaded.
pub struct File {
    pub path: String,
}

impl File {
    pub fn new(path: String) -> (r: Self)
        ensures
            r.path@ == path@,
    {
        File { path }
    }
}

/// A line and column position, both counted from one.
#[derive(Clone, Copy, Debug, PartialEq, Eq)]
pub struct Loc {
    pub line: u32,
    pub column: u32,
}

impl Loc {
    pub open spec fn wf(&self) -> bool {
        self.line >= 1 && self.column >= 1
    }

    pub fn new() -> (r: Self)
        ensures
            r.wf(),
            r.line == 1,
            r.column == 1,
    {
        Loc { line: 1, column: 1 }
    }

    /// Advances to the start of the next line.
    pub fn inc_line(&mut self)
        requires
            old(self).line < u32::MAX,
        ensures
            final(self).line == old(self).line + 1,
            final(self).column == 1,
    {
        self.line = self.line + 1;
        self.column = 1;
    }

    /// Advances one column.
    pub fn inc_column(&mut self)
        requires
            old(self).column < u32::MAX,
        ensures
            final(self).line == old(self).line,
            final(self).column == old(self).column + 1,
    {
        self.column = self.column + 1;
    }

    pub fn line(&self) -> (r: u32)
        ensures
            r == self.line,
    {
        self.line
    }

    pub fn column(&self) -> (r: u32)
        ensures
            r == self.column,
    {
        self.column
    }

    /// Moves by a number of lines and columns.
    pub fn add(&mut self, line: u32, column: u32)
        requires
            old(self).line + line <= u32::MAX,
            old(self).column + column <= u32::MAX,
        ensures
            final(self).line == old(self).line + line,
            final(self).column == old(self).column + column,
    {
        self.line = self.line + line;
        self.column = self.column + column;
    }
}

impl Default for Loc {
    fn default() -> (r: Self)
        ensures
            r.line == 1,
            r.column == 1,
    {
        Loc::new()
    }
}

/// A byte range into a source buffer, with the location of its start.
#[derive(Clone, Copy, Debug, PartialEq, Eq)]
pub struct Span {
    pub loc: Loc,
    pub start: usize,
    pub end: usize,
}

impl Span {
    pub open spec fn wf(&self) -> bool {
        self.start <= self.end
    }

    pub fn len(&self) -> (r: usize)
        requires
            self.wf(),
        ensures
            r == self.end - self.start,
    {
        self.end - self.start
    }

    pub fn is_empty(&self) -> (r: bool)
        ensures
            r == (self.start == self.end),
    {
        self.start == self.end
    }

    pub fn loc(&self) -> (r: Loc)
        ensures
            r == self.loc,
    {
        self.loc
    }

    /// The span that covers everything from the start of `start` to the
    /// end of `end`.
    pub fn group(start: Span, end: Span) -> (r: Span)
        ensures
            r.loc == start.loc,
            r.start == start.start,
            r.end == end.end,
    {
        Span { loc: start.loc, start: start.start, end: end.end }
    }
}

/// A source buffer: its path, its text, and the diagnostics reported
/// against it so far.
pub struct Source {
    pub path: String,
    pub content: Vec<u8>,
    pub diags: Vec<String>,
}

impl Source {
    pub fn new(path: String, content: String) -> (r: Self)
        ensures
            r.content@ == vstd::utf8::encode_utf8(content@),
            r.diags@.len() == 0,
    {
        let bytes = crate::bytes::bytes_to_vec(content.as_str().as_bytes());
        Source { path, content: bytes, diags: Vec::new() }
    }

    /// The source text.
    pub fn str(&self) -> (r: &[u8])
        ensures
            r@ == self.content@,
    {
        self.content.as_slice()
    }

    /// A span over the byte range `start .. end`.
    pub fn create_span(&self, loc: Loc, start: usize, end: usize) -> (r: Span)
        requires
            start <= end <= self.content@.len(),
        ensures
            r.loc == loc,
            r.start == start,
            r.end == end,
    {
        Span { loc, start, end }
    }

    /// The text a span covers.
    pub fn span(&self, span: Span) -> (r: &[u8])
        requires
            span.start <= span.end <= self.content@.len(),
        ensures
            r@ == self.content@.subrange(span.start as int, span.end as int),
    {
        let s: &[u8] = self.content.as_slice();
        slice_range(s, span.start, span.end)
    }

    /// Records a diagnostic message.
    pub fn report(&mut self, span: Span, msg: String)
        ensures
            final(self).diags@ == old(self).diags@.push(msg),
            final(self).content == old(self).content,
            final(self).path == old(self).path,
    {
        self.diags.push(msg);
    }
}

/// The subslice covering `start .. end`.
pub fn slice_range(s: &[u8], start: usize, end: usize) -> (r: &[u8])
    requires
        start <= end <= s@.len(),
    ensures
        r@ == s@.subrange(start as int, end as int),
{
    let (_, tail) = s.split_at(start);
    let (mid, _) = tail.split_at(end - start);
    proof {
        assert(mid@ =~= s@.subrange(start as int, end as int));
    }
    mid
}

} // verus!
