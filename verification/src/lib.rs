//! A table-driven AArch64 assembler core.
//!
//! Assembly text is scanned and parsed into top-level items (labels,
//! instructions, directives); each instruction is matched against a
//! declarative variant table, its operands are validated and encoded
//! field by field onto a 32-bit bit stack, and the finished words are
//! written into a sparse page-backed address space. Forward label
//! references are patched afterwards through recorded fixups.

pub mod addr;
pub mod assembler;
pub mod assembler_2;
pub mod bits;
pub mod bitstack;
pub mod bitwriter;
pub mod bytes;
pub mod code;
pub mod code_file;
pub mod code_stream;
pub mod diag;
pub mod elf;
pub mod enum_str;
pub mod inst;
pub mod intern;
pub mod keywrd;
pub mod multipeekable;
pub mod scan;
pub mod source_file;
pub mod sparsebin;
