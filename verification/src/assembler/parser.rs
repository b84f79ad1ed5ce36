//! The abstract syntax of an earlier parser draft, kept for the scanner
//! tokens that carry their text directly.

use vstd::prelude::*;

verus! {

use crate::scan::{SourceSlice, Token};

/// The faults this draft can report.
pub enum ErrorKind {
    Undefined,
}

/// One classified argument.
pub enum ArgKind {
    Reg { name: char, index: u8 },
    NumLiteral { value: usize, base: u8 },
    StrLiteral { value: String },
    Error(ErrorKind),
}

/// An argument: its token and its classification.
pub struct Arg<'a> {
    pub token: Token<'a>,
    pub kind: ArgKind,
}

/// One top-level item.
pub enum Node<'a> {
    Direct { name: SourceSlice<'a>, args: Vec<Arg<'a>> },
    Inst { mnem: SourceSlice<'a>, args: Vec<Arg<'a>> },
    Label { name: SourceSlice<'a> },
    Error(ErrorKind),
    Undefined,
}

} // verus!
