//! The concrete operand payloads: one struct per operand variant.

use vstd::prelude::*;

verus! {

use crate::inst::operand::{CondKind, ExtendKind, GprKind, GprSize, ShiftKind, Size};
use crate::intern::Key;

/// A general-purpose register operand.
#[derive(Debug, Clone, Copy, PartialEq, Eq)]
pub struct Gpr {
    pub reg: GprKind,
    pub size: GprSize,
}

/// A scalar FP/SIMD register operand.
#[derive(Debug, Clone, Copy, PartialEq, Eq)]
pub struct Dpr {
    pub reg: u8,
    pub size: Size,
}

/// A signed immediate operand; the unsigned interpretation is applied at
/// encode time.
#[derive(Debug, Clone, Copy, PartialEq, Eq, Structural)]
pub struct Imm(pub i64);

/// An interned symbol reference.
#[derive(Debug, Clone, Copy, PartialEq, Eq, Structural)]
pub struct Label(pub Key);

/// A shift modifier.
#[derive(Debug, Clone, Copy, PartialEq, Eq)]
pub struct Shift {
    pub kind: ShiftKind,
    pub amount: u8,
}

/// An extend modifier with an optional left shift.
#[derive(Debug, Clone, Copy, PartialEq, Eq)]
pub struct Extend {
    pub kind: ExtendKind,
    pub left_shift_amount: Option<u8>,
}

/// A condition code operand.
#[derive(Debug, Clone, Copy, PartialEq, Eq)]
pub struct Cond(pub CondKind);

} // verus!
