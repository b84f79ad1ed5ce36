//! A second source-handling draft: source files, locations and spans
//! that carry their text directly.

use vstd::prelude::*;

verus! {

use vstd::string::StringSliceAdditionalSpecFns;
use crate::scan::sub_str;

/// What can go wrong while obtaining source text.
#[derive(Debug, Clone, Copy, PartialEq, Eq, Structural)]
pub enum Error {
    /// Reading the file contents failed.
    Read,
}

/// A path to a source file, before its contents are loaded.
pub struct CodeFile {
    pub path: String,
}

impl CodeFile {
    pub fn new(path: String) -> (r: Self)
        ensures
            r.path@ == path@,
    {
        CodeFile { path }
    }
}

/// A loaded source file.
pub struct CodeSource {
    pub path: String,
    pub content: String,
}

impl CodeSource {
    /// The source text.
    pub fn content(&self) -> (r: &str)
        ensures
            r@ == self.content@,
    {
        self.content.as_str()
    }
}

/// A line and column position, both counted from one.
#[derive(Clone, Copy, Debug, PartialEq, Eq)]
pub struct CodeLoc {
    pub line: u32,
    pub column: u32,
}

impl CodeLoc {
    pub fn new() -> (r: Self)
        ensures
            r.line == 1,
            r.column == 1,
    {
        CodeLoc { line: 1, column: 1 }
    }

    /// Advances to the start of the next line.
    pub fn inc_line(&mut self)
        requires
            old(self).line < u32::MAX,
        ensures
            final(self).line == old(self).line + 1,
            final(self).column == 1,
    {
        self.line = self.line + 1;
        self.column = 1;
    }

    /// Advances one column.
    pub fn inc_column(&mut self)
        requires
            old(self).column < u32::MAX,
        ensures
            final(self).line == old(self).line,
            final(self).column == old(self).column + 1,
    {
        self.column = self.column + 1;
    }

    pub fn line(&self) -> (r: u32)
        ensures
            r == self.line,
    {
        self.line
    }

    pub fn column(&self) -> (r: u32)
        ensures
            r == self.column,
    {
        self.column
    }
}

impl Default for CodeLoc {
    fn default() -> (r: Self)
        ensures
            r.line == 1,
            r.column == 1,
    {
        CodeLoc::new()
    }
}

/// An optional location.
pub struct Foo(pub Option<CodeLoc>);

/// A location that also records its byte index and length in the source.
pub struct CodeLoc2 {
    pub byte_index: usize,
    pub len: u32,
    pub line: u32,
    pub column: u32,
}

impl CodeLoc2 {
    /// The text this location covers.
    pub fn slice_of<'s>(&self, src: &'s str) -> (r: &'s str)
        requires
            self.byte_index + self.len <= src.spec_bytes().len(),
    {
        let total = src.as_bytes().len();
        sub_str(src, self.byte_index, self.byte_index + (self.len as usize))
    }
}

/// A piece of source text with its starting location and byte index.
#[derive(Clone, Copy, Debug)]
pub struct CodeSpan<'a> {
    pub loc: CodeLoc,
    pub src: &'a str,
    pub byte_index: usize,
}

impl<'src> CodeSpan<'src> {
    pub fn len(&self) -> (r: usize)
        ensures
            r == self.src.spec_bytes().len(),
    {
        self.src.as_bytes().len()
    }

    pub fn is_empty(&self) -> (r: bool)
        ensures
            r == (self.src.spec_bytes().len() == 0),
    {
        self.src.as_bytes().len() == 0
    }
}

} // verus!
