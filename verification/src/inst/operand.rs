//! Tagged operand values and the encoder strategies that map one operand
//! (or an absent optional operand) onto a fixed-width bit field.

use vstd::prelude::*;

pub mod op;

verus! {

use vstd::arithmetic::power2::{pow2, lemma_pow2_pos, lemma2_to64};
use crate::bits::{
    pow2_u64,
    twos_image_u64,
    lemma_image_mod,
    lemma_image_extract,
    lemma_exact_div_range,
};
use crate::inst::Error;

/// The kind tag of an operand.
#[derive(PartialEq, Eq, Clone, Copy, Debug, Structural)]
pub enum Kind {
    Gpr,
    Dpr,
    Imm,
    Label,
    AddrImm,
    AddrReg,
    AddrLabel,
    Shift,
    Extend,
    Cond,
    Error,
}

/// Register size in bytes.
#[derive(PartialEq, Eq, Clone, Copy, Debug, Structural)]
pub enum Size {
    /// byte, 8 bits
    B1,
    /// word, 16 bits
    B2,
    /// dword, 32 bits
    B4,
    /// qword, 64 bits
    B8,
    /// vector, 128 bits
    B16,
}

impl Size {
    /// The size in bits.
    pub fn bits(self) -> (r: u8)
        ensures
            r == self.spec_get() * 8,
    {
        self.get() * 8
    }

    /// The size in bytes.
    pub open spec fn spec_get(self) -> u8 {
        match self {
            Size::B1 => 1,
            Size::B2 => 2,
            Size::B4 => 4,
            Size::B8 => 8,
            Size::B16 => 16,
        }
    }

    /// The size in bytes.
    pub fn get(self) -> (r: u8)
        ensures
            r == self.spec_get(),
    {
        match self {
            Size::B1 => 1,
            Size::B2 => 2,
            Size::B4 => 4,
            Size::B8 => 8,
            Size::B16 => 16,
        }
    }
}

/// The sizes a general-purpose register can have: 32-bit ("W") or
/// 64-bit ("X").
#[derive(PartialEq, Eq, Clone, Copy, Debug, Structural)]
pub enum GprSize {
    B4,
    B8,
}

/// A general-purpose register name: a numbered register, the stack
/// pointer, or the zero register.
#[derive(Debug, Clone, Copy, PartialEq, Eq)]
pub enum GprKind {
    R(u8),
    SP,
    ZR,
}

/// The shift modifiers.
#[derive(Clone, Copy, Debug, PartialEq, Eq, Structural)]
pub enum ShiftKind {
    LSL,
    LSR,
    ASR,
}

impl ShiftKind {
    pub open spec fn spec_code(self) -> u8 {
        match self {
            ShiftKind::LSL => 0,
            ShiftKind::LSR => 1,
            ShiftKind::ASR => 2,
        }
    }

    /// The two-bit encoding of the shift kind.
    pub fn code(self) -> (r: u8)
        ensures
            r == self.spec_code(),
    {
        match self {
            ShiftKind::LSL => 0,
            ShiftKind::LSR => 1,
            ShiftKind::ASR => 2,
        }
    }
}

/// The extend modifiers.
#[derive(PartialEq, Eq, Clone, Copy, Debug, Structural)]
pub enum ExtendKind {
    UXTB,
    UXTH,
    UXTW,
    UXTX,
    SXTB,
    SXTH,
    SXTW,
    SXTX,
}

impl ExtendKind {
    pub open spec fn spec_code(self) -> u8 {
        match self {
            ExtendKind::UXTB => 0,
            ExtendKind::UXTH => 1,
            ExtendKind::UXTW => 2,
            ExtendKind::UXTX => 3,
            ExtendKind::SXTB => 4,
            ExtendKind::SXTH => 5,
            ExtendKind::SXTW => 6,
            ExtendKind::SXTX => 7,
        }
    }

    /// The three-bit encoding of the extend kind.
    pub fn code(self) -> (r: u8)
        ensures
            r == self.spec_code(),
    {
        match self {
            ExtendKind::UXTB => 0,
            ExtendKind::UXTH => 1,
            ExtendKind::UXTW => 2,
            ExtendKind::UXTX => 3,
            ExtendKind::SXTB => 4,
            ExtendKind::SXTH => 5,
            ExtendKind::SXTW => 6,
            ExtendKind::SXTX => 7,
        }
    }

    /// The kind with the given encoding, if any.
    pub fn from_code(value: u8) -> (r: Option<Self>)
        ensures
            r matches Some(k) ==> k.spec_code() == value,
            r is Some <==> value <= 7,
    {
        match value {
            0 => Some(ExtendKind::UXTB),
            1 => Some(ExtendKind::UXTH),
            2 => Some(ExtendKind::UXTW),
            3 => Some(ExtendKind::UXTX),
            4 => Some(ExtendKind::SXTB),
            5 => Some(ExtendKind::SXTH),
            6 => Some(ExtendKind::SXTW),
            7 => Some(ExtendKind::SXTX),
            _ => None,
        }
    }
}

/// The sixteen AArch64 condition codes.
#[derive(Debug, Clone, Copy, PartialEq, Eq, Structural)]
pub enum CondKind {
    EQ,
    NE,
    CS,
    CC,
    MI,
    PL,
    VS,
    VC,
    HI,
    LS,
    GE,
    LT,
    GT,
    LE,
    AL,
    NV,
}

impl CondKind {
    pub open spec fn spec_code(self) -> u8 {
        match self {
            CondKind::EQ => 0,
            CondKind::NE => 1,
            CondKind::CS => 2,
            CondKind::CC => 3,
            CondKind::MI => 4,
            CondKind::PL => 5,
            CondKind::VS => 6,
            CondKind::VC => 7,
            CondKind::HI => 8,
            CondKind::LS => 9,
            CondKind::GE => 10,
            CondKind::LT => 11,
            CondKind::GT => 12,
            CondKind::LE => 13,
            CondKind::AL => 14,
            CondKind::NV => 15,
        }
    }

    /// The four-bit encoding of the condition.
    pub fn code(self) -> (r: u8)
        ensures
            r == self.spec_code(),
    {
        match self {
            CondKind::EQ => 0,
            CondKind::NE => 1,
            CondKind::CS => 2,
            CondKind::CC => 3,
            CondKind::MI => 4,
            CondKind::PL => 5,
            CondKind::VS => 6,
            CondKind::VC => 7,
            CondKind::HI => 8,
            CondKind::LS => 9,
            CondKind::GE => 10,
            CondKind::LT => 11,
            CondKind::GT => 12,
            CondKind::LE => 13,
            CondKind::AL => 14,
            CondKind::NV => 15,
        }
    }

    /// The condition with the given encoding, if any.
    pub fn from_code(value: u8) -> (r: Option<Self>)
        ensures
            r matches Some(k) ==> k.spec_code() == value,
            r is Some <==> value <= 15,
    {
        match value {
            0 => Some(CondKind::EQ),
            1 => Some(CondKind::NE),
            2 => Some(CondKind::CS),
            3 => Some(CondKind::CC),
            4 => Some(CondKind::MI),
            5 => Some(CondKind::PL),
            6 => Some(CondKind::VS),
            7 => Some(CondKind::VC),
            8 => Some(CondKind::HI),
            9 => Some(CondKind::LS),
            10 => Some(CondKind::GE),
            11 => Some(CondKind::LT),
            12 => Some(CondKind::GT),
            13 => Some(CondKind::LE),
            14 => Some(CondKind::AL),
            15 => Some(CondKind::NV),
            _ => None,
        }
    }
}

/// A shift amount known to fit `N` bits.
#[derive(Clone, Copy, Debug)]
pub struct ShiftAmount<const N: u32>(pub u32);

/// One parsed operand.
#[derive(Debug, Clone, Copy, PartialEq, Eq)]
pub enum Ops {
    Gpr(op::Gpr),
    Dpr(op::Dpr),
    Imm(op::Imm),
    Label(op::Label),
    Shift(op::Shift),
    Extend(op::Extend),
    Cond(op::Cond),
    Error,
}

impl Ops {
    pub open spec fn spec_kind(&self) -> Kind {
        match self {
            Ops::Gpr(..) => Kind::Gpr,
            Ops::Dpr(..) => Kind::Dpr,
            Ops::Imm(..) => Kind::Imm,
            Ops::Label(..) => Kind::Label,
            Ops::Shift(..) => Kind::Shift,
            Ops::Extend(..) => Kind::Extend,
            Ops::Cond(..) => Kind::Cond,
            Ops::Error => Kind::Error,
        }
    }

    /// The kind tag of this operand.
    pub fn kind(&self) -> (r: Kind)
        ensures
            r == self.spec_kind(),
    {
        match self {
            Ops::Gpr(..) => Kind::Gpr,
            Ops::Dpr(..) => Kind::Dpr,
            Ops::Imm(..) => Kind::Imm,
            Ops::Label(..) => Kind::Label,
            Ops::Shift(..) => Kind::Shift,
            Ops::Extend(..) => Kind::Extend,
            Ops::Cond(..) => Kind::Cond,
            Ops::Error => Kind::Error,
        }
    }
}

/// One encoder strategy: the mapping of one operand onto one bit field.
/// The field widths and alignments are carried as data.
#[derive(Debug, Clone, Copy, PartialEq, Eq)]
pub enum Encoder {
    /// A numbered register; SP and ZR are rejected. Width 5.
    Gpr,
    /// A numbered register or SP (as 31); ZR is rejected. Width 5.
    GprOrSp,
    /// A numbered register or ZR (as 31); SP is rejected. Width 5.
    GprOrZr,
    /// The size bit of a register: 1 for 64-bit. Width 1.
    Sf,
    /// An unsigned immediate of `bits` bits.
    UImm { bits: u32 },
    /// A signed immediate of `bits` bits, two's complement encoded.
    SImm { bits: u32 },
    /// An unsigned immediate whose low `rs` bits must be zero; the
    /// encoded value is right-shifted by `rs`.
    UImmAlign { bits: u32, rs: u32 },
    /// A signed immediate whose low `rs` bits must be zero; the encoded
    /// value is right-shifted by `rs`.
    SImmAlign { bits: u32, rs: u32 },
    /// The shift kind code; absent means LSL. Width 2.
    ShiftKind,
    /// The shift amount, truncated to `bits` bits; absent means 0.
    ShiftAmount { bits: u32 },
    /// One bit that records the presence of a fixed shift: absent
    /// encodes 0, the exact expected shift encodes 1, anything else is
    /// an error.
    ShiftConst { kind: ShiftKind, amount: u8 },
    /// The extend kind code; an absent extend defaults to the LSL alias
    /// for the size of the register operand at `gpr_idx`, and UXTX/SXTX
    /// are only legal when that register is 64-bit. Width 3.
    ExtendKind { gpr_idx: usize },
    /// The extend's left shift amount; absent means 0. Width 3.
    ExtendLShift,
    /// The condition code. Width 4.
    Cond,
}

impl Encoder {
    /// The width in bits of the field this encoder produces.
    pub open spec fn spec_width(self) -> nat {
        match self {
            Encoder::Gpr | Encoder::GprOrSp | Encoder::GprOrZr => 5,
            Encoder::Sf => 1,
            Encoder::UImm { bits } => bits as nat,
            Encoder::SImm { bits } => bits as nat,
            Encoder::UImmAlign { bits, .. } => bits as nat,
            Encoder::SImmAlign { bits, .. } => bits as nat,
            Encoder::ShiftKind => 2,
            Encoder::ShiftAmount { bits } => bits as nat,
            Encoder::ShiftConst { .. } => 1,
            Encoder::ExtendKind { .. } => 3,
            Encoder::ExtendLShift => 3,
            Encoder::Cond => 4,
        }
    }

    /// The declared widths and alignments are usable.
    pub open spec fn wf(self) -> bool {
        match self {
            Encoder::UImm { bits } => 1 <= bits <= 32,
            Encoder::SImm { bits } => 1 <= bits <= 32,
            Encoder::UImmAlign { bits, rs } => 1 <= bits <= 32 && 1 <= rs <= 30,
            Encoder::SImmAlign { bits, rs } => 1 <= bits <= 32 && 1 <= rs <= 30,
            Encoder::ShiftAmount { bits } => 1 <= bits <= 32,
            _ => true,
        }
    }

    /// The width in bits of the field this encoder produces.
    pub fn width(&self) -> (r: u32)
        ensures
            r == self.spec_width(),
    {
        match self {
            Encoder::Gpr | Encoder::GprOrSp | Encoder::GprOrZr => 5,
            Encoder::Sf => 1,
            Encoder::UImm { bits } => *bits,
            Encoder::SImm { bits } => *bits,
            Encoder::UImmAlign { bits, .. } => *bits,
            Encoder::SImmAlign { bits, .. } => *bits,
            Encoder::ShiftKind => 2,
            Encoder::ShiftAmount { bits } => *bits,
            Encoder::ShiftConst { .. } => 1,
            Encoder::ExtendKind { .. } => 3,
            Encoder::ExtendLShift => 3,
            Encoder::Cond => 4,
        }
    }
}

/// The operand at index `idx` of an argument list, or `None` past its end
/// (an absent optional operand).
pub open spec fn spec_arg(ops: Seq<Ops>, idx: int) -> Option<Ops> {
    if 0 <= idx < ops.len() {
        Some(ops[idx])
    } else {
        None
    }
}

/// What a register operand contributes under the plain `Gpr` encoders.
pub open spec fn spec_encode_gpr(allow_sp: bool, allow_zr: bool, g: op::Gpr) -> Result<u32, Error> {
    match g.reg {
        GprKind::R(n) => if n <= 30 {
            Ok(n as u32)
        } else {
            Err(Error::InvalidGpr)
        },
        GprKind::SP => if allow_sp {
            Ok(31)
        } else {
            Err(Error::InvalidGpr)
        },
        GprKind::ZR => if allow_zr {
            Ok(31)
        } else {
            Err(Error::InvalidGpr)
        },
    }
}

/// What a signed immediate encodes in a `bits`-wide field right-shifted
/// by `rs`: the two's complement encoding of the shifted value.
pub open spec fn spec_encode_simm(bits: nat, rs: nat, v: int) -> Result<u32, Error> {
    if v % (pow2(rs) as int) != 0 {
        Err(Error::NotAligned)
    } else {
        let q = v / (pow2(rs) as int);
        if -(pow2((bits - 1) as nat) as int) <= q < pow2((bits - 1) as nat) {
            Ok((q % (pow2(bits) as int)) as u32)
        } else {
            Err(Error::OutOfRange)
        }
    }
}

/// What an unsigned immediate encodes in a `bits`-wide field
/// right-shifted by `rs`.
pub open spec fn spec_encode_uimm(bits: nat, rs: nat, v: int) -> Result<u32, Error> {
    if v % (pow2(rs) as int) != 0 {
        Err(Error::NotAligned)
    } else {
        let q = v / (pow2(rs) as int);
        if 0 <= q < pow2(bits) {
            Ok(q as u32)
        } else {
            Err(Error::OutOfRange)
        }
    }
}

/// The field value an encoder produces from its operand, with the full
/// argument list available for the encoders that read a second operand.
pub open spec fn spec_encode(e: Encoder, arg: Option<Ops>, ops: Seq<Ops>) -> Result<u32, Error> {
    match e {
        Encoder::Gpr => match arg {
            Some(Ops::Gpr(g)) => spec_encode_gpr(false, false, g),
            _ => Err(Error::Unexpected),
        },
        Encoder::GprOrSp => match arg {
            Some(Ops::Gpr(g)) => spec_encode_gpr(true, false, g),
            _ => Err(Error::Unexpected),
        },
        Encoder::GprOrZr => match arg {
            Some(Ops::Gpr(g)) => spec_encode_gpr(false, true, g),
            _ => Err(Error::Unexpected),
        },
        Encoder::Sf => match arg {
            Some(Ops::Gpr(g)) => Ok(if g.size is B8 {
                1
            } else {
                0
            }),
            _ => Err(Error::Unexpected),
        },
        Encoder::UImm { bits } => match arg {
            Some(Ops::Imm(i)) => spec_encode_uimm(bits as nat, 0, i.0 as int),
            None => Ok(0),
            _ => Err(Error::Unexpected),
        },
        Encoder::SImm { bits } => match arg {
            Some(Ops::Imm(i)) => spec_encode_simm(bits as nat, 0, i.0 as int),
            None => Ok(0),
            _ => Err(Error::Unexpected),
        },
        Encoder::UImmAlign { bits, rs } => match arg {
            Some(Ops::Imm(i)) => spec_encode_uimm(bits as nat, rs as nat, i.0 as int),
            None => Ok(0),
            _ => Err(Error::Unexpected),
        },
        Encoder::SImmAlign { bits, rs } => match arg {
            Some(Ops::Imm(i)) => spec_encode_simm(bits as nat, rs as nat, i.0 as int),
            None => Ok(0),
            _ => Err(Error::Unexpected),
        },
        Encoder::ShiftKind => match arg {
            Some(Ops::Shift(s)) => Ok(s.kind.spec_code() as u32),
            None => Ok(0),
            _ => Err(Error::Unexpected),
        },
        Encoder::ShiftAmount { bits } => match arg {
            Some(Ops::Shift(s)) => Ok(((s.amount as nat) % pow2(bits as nat)) as u32),
            None => Ok(0),
            _ => Err(Error::Unexpected),
        },
        Encoder::ShiftConst { kind, amount } => match arg {
            Some(Ops::Shift(s)) => if s.kind == kind && s.amount == amount {
                Ok(1)
            } else {
                Err(Error::MismatchedConstShift)
            },
            None => Ok(0),
            _ => Err(Error::Unexpected),
        },
        Encoder::ExtendKind { gpr_idx } => match spec_arg(ops, gpr_idx as int) {
            Some(Ops::Gpr(g)) => match arg {
                Some(Ops::Extend(x)) => if (x.kind is UXTX || x.kind is SXTX) && !(g.size is B8) {
                    Err(Error::InvalidExtendWidth)
                } else {
                    Ok(x.kind.spec_code() as u32)
                },
                None => Ok(
                    if g.size is B8 {
                        3
                    } else {
                        2
                    },
                ),
                _ => Err(Error::Unexpected),
            },
            _ => Err(Error::Unexpected),
        },
        Encoder::ExtendLShift => match arg {
            Some(Ops::Extend(x)) => Ok(
                ((match x.left_shift_amount {
                    Some(a) => a,
                    None => 0,
                } as nat) % 8) as u32,
            ),
            None => Ok(0),
            _ => Err(Error::Unexpected),
        },
        Encoder::Cond => match arg {
            Some(Ops::Cond(c)) => Ok(c.0.spec_code() as u32),
            _ => Err(Error::Unexpected),
        },
    }
}

/// Every successfully encoded field fits its declared width.
pub proof fn lemma_encode_in_width(e: Encoder, arg: Option<Ops>, ops: Seq<Ops>)
    requires
        e.wf(),
    ensures
        spec_encode(e, arg, ops) matches Ok(v) ==> (v as nat) < pow2(e.spec_width()),
{
    lemma2_to64();
    if spec_encode(e, arg, ops) is Ok {
        let v = spec_encode(e, arg, ops)->Ok_0;
        match e {
            Encoder::UImm { bits } => {
                lemma_pow2_pos(bits as nat);
            },
            Encoder::SImm { bits } => {
                lemma_pow2_pos(bits as nat);
            },
            Encoder::UImmAlign { bits, rs } => {
                lemma_pow2_pos(bits as nat);
            },
            Encoder::SImmAlign { bits, rs } => {
                lemma_pow2_pos(bits as nat);
            },
            Encoder::ShiftAmount { bits } => {
                lemma_pow2_pos(bits as nat);
            },
            _ => {},
        }
    }
}

/// Runs one encoder on the operand at `idx` of the argument list.
pub fn encode(e: &Encoder, ops: &Vec<Ops>, idx: usize) -> (r: Result<u32, Error>)
    requires
        e.wf(),
    ensures
        r == spec_encode(*e, spec_arg(ops@, idx as int), ops@),
{
    let arg: Option<&Ops> = if idx < ops.len() {
        Some(&ops[idx])
    } else {
        None
    };
    match e {
        Encoder::Gpr => match arg {
            Some(Ops::Gpr(g)) => encode_gpr(false, false, g),
            _ => Err(Error::Unexpected),
        },
        Encoder::GprOrSp => match arg {
            Some(Ops::Gpr(g)) => encode_gpr(true, false, g),
            _ => Err(Error::Unexpected),
        },
        Encoder::GprOrZr => match arg {
            Some(Ops::Gpr(g)) => encode_gpr(false, true, g),
            _ => Err(Error::Unexpected),
        },
        Encoder::Sf => match arg {
            Some(Ops::Gpr(g)) => Ok(
                if matches!(g.size, GprSize::B8) {
                    1
                } else {
                    0
                },
            ),
            _ => Err(Error::Unexpected),
        },
        Encoder::UImm { bits } => match arg {
            Some(Ops::Imm(i)) => encode_uimm(*bits, 0, i.0),
            None => Ok(0),
            _ => Err(Error::Unexpected),
        },
        Encoder::SImm { bits } => match arg {
            Some(Ops::Imm(i)) => encode_simm(*bits, 0, i.0),
            None => Ok(0),
            _ => Err(Error::Unexpected),
        },
        Encoder::UImmAlign { bits, rs } => match arg {
            Some(Ops::Imm(i)) => encode_uimm(*bits, *rs, i.0),
            None => Ok(0),
            _ => Err(Error::Unexpected),
        },
        Encoder::SImmAlign { bits, rs } => match arg {
            Some(Ops::Imm(i)) => encode_simm(*bits, *rs, i.0),
            None => Ok(0),
            _ => Err(Error::Unexpected),
        },
        Encoder::ShiftKind => match arg {
            Some(Ops::Shift(s)) => Ok(s.kind.code() as u32),
            None => Ok(0),
            _ => Err(Error::Unexpected),
        },
        Encoder::ShiftAmount { bits } => match arg {
            Some(Ops::Shift(s)) => {
                let p = pow2_u64(*bits);
                Ok((((s.amount as u64) % p) as u32))
            },
            None => Ok(0),
            _ => Err(Error::Unexpected),
        },
        Encoder::ShiftConst { kind, amount } => match arg {
            Some(Ops::Shift(s)) => {
                if s.kind == *kind && s.amount == *amount {
                    Ok(1)
                } else {
                    Err(Error::MismatchedConstShift)
                }
            },
            None => Ok(0),
            _ => Err(Error::Unexpected),
        },
        Encoder::ExtendKind { gpr_idx } => {
            let g: Option<&Ops> = if *gpr_idx < ops.len() {
                Some(&ops[*gpr_idx])
            } else {
                None
            };
            match g {
                Some(Ops::Gpr(g)) => match arg {
                    Some(Ops::Extend(x)) => {
                        let is_x64 = matches!(x.kind, ExtendKind::UXTX | ExtendKind::SXTX);
                        if is_x64 && !matches!(g.size, GprSize::B8) {
                            Err(Error::InvalidExtendWidth)
                        } else {
                            Ok(x.kind.code() as u32)
                        }
                    },
                    None => Ok(
                        if matches!(g.size, GprSize::B8) {
                            3
                        } else {
                            2
                        },
                    ),
                    _ => Err(Error::Unexpected),
                },
                _ => Err(Error::Unexpected),
            }
        },
        Encoder::ExtendLShift => match arg {
            Some(Ops::Extend(x)) => {
                let a = match x.left_shift_amount {
                    Some(a) => a,
                    None => 0,
                };
                Ok((a % 8) as u32)
            },
            None => Ok(0),
            _ => Err(Error::Unexpected),
        },
        Encoder::Cond => match arg {
            Some(Ops::Cond(c)) => Ok(c.0.code() as u32),
            _ => Err(Error::Unexpected),
        },
    }
}

/// Encodes a register number, with SP and ZR admitted as directed.
fn encode_gpr(allow_sp: bool, allow_zr: bool, g: &op::Gpr) -> (r: Result<u32, Error>)
    ensures
        r == spec_encode_gpr(allow_sp, allow_zr, *g),
{
    match g.reg {
        GprKind::R(n) => if n <= 30 {
            Ok(n as u32)
        } else {
            Err(Error::InvalidGpr)
        },
        GprKind::SP => if allow_sp {
            Ok(31)
        } else {
            Err(Error::InvalidGpr)
        },
        GprKind::ZR => if allow_zr {
            Ok(31)
        } else {
            Err(Error::InvalidGpr)
        },
    }
}

/// Encodes a signed immediate into `bits` bits after checking alignment
/// against `p == pow2(rs)` and range.
fn encode_simm(bits: u32, rs: u32, v: i64) -> (r: Result<u32, Error>)
    requires
        1 <= bits <= 32,
        rs <= 30,
    ensures
        r == spec_encode_simm(bits as nat, rs as nat, v as int),
{
    let p = pow2_u64(rs);
    let m = twos_image_u64(v);
    proof {
        lemma_image_mod(v as int, rs as nat);
        lemma_pow2_pos(rs as nat);
    }
    if m % p != 0 {
        return Err(Error::NotAligned);
    }
    proof {
        lemma_exact_div_range(v as int, rs as nat, bits as nat);
        vstd::arithmetic::power2::lemma_pow2_adds((bits - 1) as nat, rs as nat);
        if bits + rs - 1 < 63 {
            vstd::arithmetic::power2::lemma_pow2_strictly_increases((bits + rs - 1) as nat, 63);
        }
        vstd::arithmetic::power2::lemma2_to64_rest();
    }
    let half = pow2_u64(bits - 1);
    let bound = half * p;
    if !(-(bound as i64) <= v && v < bound as i64) {
        return Err(Error::OutOfRange);
    }
    proof {
        lemma_image_extract(v as int, rs as nat, bits as nat);
        lemma_pow2_pos(bits as nat);
        if (bits as nat) < 32 {
            vstd::arithmetic::power2::lemma_pow2_strictly_increases(bits as nat, 32);
        }
        lemma2_to64();
    }
    let pb = pow2_u64(bits);
    Ok(((m / p) % pb) as u32)
}

/// Encodes an unsigned immediate into `bits` bits after checking
/// alignment against `p == pow2(rs)` and range.
fn encode_uimm(bits: u32, rs: u32, v: i64) -> (r: Result<u32, Error>)
    requires
        1 <= bits <= 32,
        rs <= 30,
    ensures
        r == spec_encode_uimm(bits as nat, rs as nat, v as int),
{
    let p = pow2_u64(rs);
    let m = twos_image_u64(v);
    proof {
        lemma_image_mod(v as int, rs as nat);
        lemma_pow2_pos(rs as nat);
    }
    if m % p != 0 {
        return Err(Error::NotAligned);
    }
    if v < 0 {
        proof {
            let pi = pow2(rs as nat) as int;
            let q = v as int / pi;
            let rm = v as int % pi;
            vstd::arithmetic::div_mod::lemma_fundamental_div_mod(v as int, pi);
            assert(q < 0) by (nonlinear_arith)
                requires
                    v < 0,
                    v as int == pi * q + rm,
                    0 <= rm < pi,
                    pi > 0,
            ;
        }
        return Err(Error::OutOfRange);
    }
    proof {
        assert(v as int / (pow2(rs as nat) as int) >= 0) by {
            vstd::arithmetic::div_mod::lemma_div_pos_is_pos(v as int, pow2(rs as nat) as int);
        }
        assert(m == v);
        vstd::arithmetic::power2::lemma_pow2_adds(bits as nat, rs as nat);
        if bits + rs < 63 {
            vstd::arithmetic::power2::lemma_pow2_strictly_increases((bits + rs) as nat, 63);
        }
        vstd::arithmetic::power2::lemma2_to64_rest();
    }
    let pb = pow2_u64(bits);
    let q = m / p;
    proof {
        lemma_pow2_pos(bits as nat);
        if (bits as nat) < 32 {
            vstd::arithmetic::power2::lemma_pow2_strictly_increases(bits as nat, 32);
        }
        lemma2_to64();
    }
    if q < pb {
        Ok(q as u32)
    } else {
        Err(Error::OutOfRange)
    }
}

} // verus!

verus! {

/// The shiftkind named by an upper-case byte string (the codes spell
/// the ShiftKind names).
pub open spec fn spec_shiftkind_of(s: Seq<u8>) -> Option<ShiftKind> {
    if s == seq![76u8, 83u8, 76u8] {
        Some(ShiftKind::LSL)
    } else if s == seq![76u8, 83u8, 82u8] {
        Some(ShiftKind::LSR)
    } else if s == seq![65u8, 83u8, 82u8] {
        Some(ShiftKind::ASR)
    } else {
        None
    }
}

impl ShiftKind {
    /// Looks the shiftkind up by name, written all lower case or all
    /// upper case.
    pub fn from_str_lower_or_upper(s: &[u8]) -> (r: Option<ShiftKind>)
        ensures
            r == spec_shiftkind_of(s@.map_values(|c: u8| crate::bytes::spec_upper(c))),
    {
        let lsl: Vec<u8> = vec![76u8, 83u8, 76u8];
        let lsr: Vec<u8> = vec![76u8, 83u8, 82u8];
        let asr: Vec<u8> = vec![65u8, 83u8, 82u8];
        if crate::bytes::bytes_eq_upper(s, lsl.as_slice()) {
            proof {
                assert(lsl@ =~= seq![76u8, 83u8, 76u8]);
            }
            Some(ShiftKind::LSL)
        } else if crate::bytes::bytes_eq_upper(s, lsr.as_slice()) {
            proof {
                assert(lsr@ =~= seq![76u8, 83u8, 82u8]);
            }
            Some(ShiftKind::LSR)
        } else if crate::bytes::bytes_eq_upper(s, asr.as_slice()) {
            proof {
                assert(asr@ =~= seq![65u8, 83u8, 82u8]);
            }
            Some(ShiftKind::ASR)
        } else {
            proof {
                assert(lsl@ =~= seq![76u8, 83u8, 76u8]);
                assert(lsr@ =~= seq![76u8, 83u8, 82u8]);
                assert(asr@ =~= seq![65u8, 83u8, 82u8]);
            }
            None
        }
    }
}

/// The extendkind named by an upper-case byte string (the codes spell
/// the ExtendKind names).
pub open spec fn spec_extendkind_of(s: Seq<u8>) -> Option<ExtendKind> {
    if s == seq![85u8, 88u8, 84u8, 66u8] {
        Some(ExtendKind::UXTB)
    } else if s == seq![85u8, 88u8, 84u8, 72u8] {
        Some(ExtendKind::UXTH)
    } else if s == seq![85u8, 88u8, 84u8, 87u8] {
        Some(ExtendKind::UXTW)
    } else if s == seq![85u8, 88u8, 84u8, 88u8] {
        Some(ExtendKind::UXTX)
    } else if s == seq![83u8, 88u8, 84u8, 66u8] {
        Some(ExtendKind::SXTB)
    } else if s == seq![83u8, 88u8, 84u8, 72u8] {
        Some(ExtendKind::SXTH)
    } else if s == seq![83u8, 88u8, 84u8, 87u8] {
        Some(ExtendKind::SXTW)
    } else if s == seq![83u8, 88u8, 84u8, 88u8] {
        Some(ExtendKind::SXTX)
    } else {
        None
    }
}

impl ExtendKind {
    /// Looks the extendkind up by name, written all lower case or all
    /// upper case.
    pub fn from_str_lower_or_upper(s: &[u8]) -> (r: Option<ExtendKind>)
        ensures
            r == spec_extendkind_of(s@.map_values(|c: u8| crate::bytes::spec_upper(c))),
    {
        let uxtb: Vec<u8> = vec![85u8, 88u8, 84u8, 66u8];
        let uxth: Vec<u8> = vec![85u8, 88u8, 84u8, 72u8];
        let uxtw: Vec<u8> = vec![85u8, 88u8, 84u8, 87u8];
        let uxtx: Vec<u8> = vec![85u8, 88u8, 84u8, 88u8];
        let sxtb: Vec<u8> = vec![83u8, 88u8, 84u8, 66u8];
        let sxth: Vec<u8> = vec![83u8, 88u8, 84u8, 72u8];
        let sxtw: Vec<u8> = vec![83u8, 88u8, 84u8, 87u8];
        let sxtx: Vec<u8> = vec![83u8, 88u8, 84u8, 88u8];
        if crate::bytes::bytes_eq_upper(s, uxtb.as_slice()) {
            proof {
                assert(uxtb@ =~= seq![85u8, 88u8, 84u8, 66u8]);
            }
            Some(ExtendKind::UXTB)
        } else if crate::bytes::bytes_eq_upper(s, uxth.as_slice()) {
            proof {
                assert(uxth@ =~= seq![85u8, 88u8, 84u8, 72u8]);
            }
            Some(ExtendKind::UXTH)
        } else if crate::bytes::bytes_eq_upper(s, uxtw.as_slice()) {
            proof {
                assert(uxtw@ =~= seq![85u8, 88u8, 84u8, 87u8]);
            }
            Some(ExtendKind::UXTW)
        } else if crate::bytes::bytes_eq_upper(s, uxtx.as_slice()) {
            proof {
                assert(uxtx@ =~= seq![85u8, 88u8, 84u8, 88u8]);
            }
            Some(ExtendKind::UXTX)
        } else if crate::bytes::bytes_eq_upper(s, sxtb.as_slice()) {
            proof {
                assert(sxtb@ =~= seq![83u8, 88u8, 84u8, 66u8]);
            }
            Some(ExtendKind::SXTB)
        } else if crate::bytes::bytes_eq_upper(s, sxth.as_slice()) {
            proof {
                assert(sxth@ =~= seq![83u8, 88u8, 84u8, 72u8]);
            }
            Some(ExtendKind::SXTH)
        } else if crate::bytes::bytes_eq_upper(s, sxtw.as_slice()) {
            proof {
                assert(sxtw@ =~= seq![83u8, 88u8, 84u8, 87u8]);
            }
            Some(ExtendKind::SXTW)
        } else if crate::bytes::bytes_eq_upper(s, sxtx.as_slice()) {
            proof {
                assert(sxtx@ =~= seq![83u8, 88u8, 84u8, 88u8]);
            }
            Some(ExtendKind::SXTX)
        } else {
            proof {
                assert(uxtb@ =~= seq![85u8, 88u8, 84u8, 66u8]);
                assert(uxth@ =~= seq![85u8, 88u8, 84u8, 72u8]);
                assert(uxtw@ =~= seq![85u8, 88u8, 84u8, 87u8]);
                assert(uxtx@ =~= seq![85u8, 88u8, 84u8, 88u8]);
                assert(sxtb@ =~= seq![83u8, 88u8, 84u8, 66u8]);
                assert(sxth@ =~= seq![83u8, 88u8, 84u8, 72u8]);
                assert(sxtw@ =~= seq![83u8, 88u8, 84u8, 87u8]);
                assert(sxtx@ =~= seq![83u8, 88u8, 84u8, 88u8]);
            }
            None
        }
    }
}

/// The condkind named by an upper-case byte string (the codes spell
/// the CondKind names).
pub open spec fn spec_condkind_of(s: Seq<u8>) -> Option<CondKind> {
    if s == seq![69u8, 81u8] {
        Some(CondKind::EQ)
    } else if s == seq![78u8, 69u8] {
        Some(CondKind::NE)
    } else if s == seq![67u8, 83u8] {
        Some(CondKind::CS)
    } else if s == seq![67u8, 67u8] {
        Some(CondKind::CC)
    } else if s == seq![77u8, 73u8] {
        Some(CondKind::MI)
    } else if s == seq![80u8, 76u8] {
        Some(CondKind::PL)
    } else if s == seq![86u8, 83u8] {
        Some(CondKind::VS)
    } else if s == seq![86u8, 67u8] {
        Some(CondKind::VC)
    } else if s == seq![72u8, 73u8] {
        Some(CondKind::HI)
    } else if s == seq![76u8, 83u8] {
        Some(CondKind::LS)
    } else if s == seq![71u8, 69u8] {
        Some(CondKind::GE)
    } else if s == seq![76u8, 84u8] {
        Some(CondKind::LT)
    } else if s == seq![71u8, 84u8] {
        Some(CondKind::GT)
    } else if s == seq![76u8, 69u8] {
        Some(CondKind::LE)
    } else if s == seq![65u8, 76u8] {
        Some(CondKind::AL)
    } else if s == seq![78u8, 86u8] {
        Some(CondKind::NV)
    } else {
        None
    }
}

impl CondKind {
    /// Looks the condkind up by name, written all lower case or all
    /// upper case.
    pub fn from_str_lower_or_upper(s: &[u8]) -> (r: Option<CondKind>)
        ensures
            r == spec_condkind_of(s@.map_values(|c: u8| crate::bytes::spec_upper(c))),
    {
        let eq_n: Vec<u8> = vec![69u8, 81u8];
        let ne_n: Vec<u8> = vec![78u8, 69u8];
        let cs_n: Vec<u8> = vec![67u8, 83u8];
        let cc_n: Vec<u8> = vec![67u8, 67u8];
        let mi_n: Vec<u8> = vec![77u8, 73u8];
        let pl_n: Vec<u8> = vec![80u8, 76u8];
        let vs_n: Vec<u8> = vec![86u8, 83u8];
        let vc_n: Vec<u8> = vec![86u8, 67u8];
        let hi_n: Vec<u8> = vec![72u8, 73u8];
        let ls_n: Vec<u8> = vec![76u8, 83u8];
        let ge_n: Vec<u8> = vec![71u8, 69u8];
        let lt_n: Vec<u8> = vec![76u8, 84u8];
        let gt_n: Vec<u8> = vec![71u8, 84u8];
        let le_n: Vec<u8> = vec![76u8, 69u8];
        let al_n: Vec<u8> = vec![65u8, 76u8];
        let nv_n: Vec<u8> = vec![78u8, 86u8];
        if crate::bytes::bytes_eq_upper(s, eq_n.as_slice()) {
            proof {
                assert(eq_n@ =~= seq![69u8, 81u8]);
            }
            Some(CondKind::EQ)
        } else if crate::bytes::bytes_eq_upper(s, ne_n.as_slice()) {
            proof {
                assert(ne_n@ =~= seq![78u8, 69u8]);
            }
            Some(CondKind::NE)
        } else if crate::bytes::bytes_eq_upper(s, cs_n.as_slice()) {
            proof {
                assert(cs_n@ =~= seq![67u8, 83u8]);
            }
            Some(CondKind::CS)
        } else if crate::bytes::bytes_eq_upper(s, cc_n.as_slice()) {
            proof {
                assert(cc_n@ =~= seq![67u8, 67u8]);
            }
            Some(CondKind::CC)
        } else if crate::bytes::bytes_eq_upper(s, mi_n.as_slice()) {
            proof {
                assert(mi_n@ =~= seq![77u8, 73u8]);
            }
            Some(CondKind::MI)
        } else if crate::bytes::bytes_eq_upper(s, pl_n.as_slice()) {
            proof {
                assert(pl_n@ =~= seq![80u8, 76u8]);
            }
            Some(CondKind::PL)
        } else if crate::bytes::bytes_eq_upper(s, vs_n.as_slice()) {
            proof {
                assert(vs_n@ =~= seq![86u8, 83u8]);
            }
            Some(CondKind::VS)
        } else if crate::bytes::bytes_eq_upper(s, vc_n.as_slice()) {
            proof {
                assert(vc_n@ =~= seq![86u8, 67u8]);
            }
            Some(CondKind::VC)
        } else if crate::bytes::bytes_eq_upper(s, hi_n.as_slice()) {
            proof {
                assert(hi_n@ =~= seq![72u8, 73u8]);
            }
            Some(CondKind::HI)
        } else if crate::bytes::bytes_eq_upper(s, ls_n.as_slice()) {
            proof {
                assert(ls_n@ =~= seq![76u8, 83u8]);
            }
            Some(CondKind::LS)
        } else if crate::bytes::bytes_eq_upper(s, ge_n.as_slice()) {
            proof {
                assert(ge_n@ =~= seq![71u8, 69u8]);
            }
            Some(CondKind::GE)
        } else if crate::bytes::bytes_eq_upper(s, lt_n.as_slice()) {
            proof {
                assert(lt_n@ =~= seq![76u8, 84u8]);
            }
            Some(CondKind::LT)
        } else if crate::bytes::bytes_eq_upper(s, gt_n.as_slice()) {
            proof {
                assert(gt_n@ =~= seq![71u8, 84u8]);
            }
            Some(CondKind::GT)
        } else if crate::bytes::bytes_eq_upper(s, le_n.as_slice()) {
            proof {
                assert(le_n@ =~= seq![76u8, 69u8]);
            }
            Some(CondKind::LE)
        } else if crate::bytes::bytes_eq_upper(s, al_n.as_slice()) {
            proof {
                assert(al_n@ =~= seq![65u8, 76u8]);
            }
            Some(CondKind::AL)
        } else if crate::bytes::bytes_eq_upper(s, nv_n.as_slice()) {
            proof {
                assert(nv_n@ =~= seq![78u8, 86u8]);
            }
            Some(CondKind::NV)
        } else {
            proof {
                assert(eq_n@ =~= seq![69u8, 81u8]);
                assert(ne_n@ =~= seq![78u8, 69u8]);
                assert(cs_n@ =~= seq![67u8, 83u8]);
                assert(cc_n@ =~= seq![67u8, 67u8]);
                assert(mi_n@ =~= seq![77u8, 73u8]);
                assert(pl_n@ =~= seq![80u8, 76u8]);
                assert(vs_n@ =~= seq![86u8, 83u8]);
                assert(vc_n@ =~= seq![86u8, 67u8]);
                assert(hi_n@ =~= seq![72u8, 73u8]);
                assert(ls_n@ =~= seq![76u8, 83u8]);
                assert(ge_n@ =~= seq![71u8, 69u8]);
                assert(lt_n@ =~= seq![76u8, 84u8]);
                assert(gt_n@ =~= seq![71u8, 84u8]);
                assert(le_n@ =~= seq![76u8, 69u8]);
                assert(al_n@ =~= seq![65u8, 76u8]);
                assert(nv_n@ =~= seq![78u8, 86u8]);
            }
            None
        }
    }
}

} // verus!

verus! {

use vstd::arithmetic::power2::{lemma_pow2_adds, lemma_pow2_strictly_increases, lemma2_to64_rest};

/// The PC-relative displacement from `pc` to `addr`, wrapped to the
/// signed 64-bit range.
pub open spec fn spec_signed_diff(addr: u64, pc: u64) -> int {
    let d = addr - pc;
    if d >= pow2(63) {
        d - pow2(64)
    } else if d < -(pow2(63) as int) {
        d + pow2(64)
    } else {
        d
    }
}

/// Encodes the PC-relative displacement from `pc` to `addr` as a signed
/// immediate of `bits` bits, right-shifted by `rs`.
pub fn encode_pcrel(bits: u32, rs: u32, pc: u64, addr: u64) -> (r: Result<u32, Error>)
    requires
        1 <= bits <= 32,
        1 <= rs <= 30,
    ensures
        r == spec_encode_simm(bits as nat, rs as nat, spec_signed_diff(addr, pc)),
{
    let ghost sd = spec_signed_diff(addr, pc);
    // the wrapped difference: the 64-bit two's complement image of the
    // signed displacement
    let w: u64 = if addr >= pc {
        addr - pc
    } else {
        u64::MAX - ((pc - addr) - 1)
    };
    proof {
        lemma2_to64_rest();
        assert(w == crate::bits::twos_image(sd));
    }
    let p = pow2_u64(rs);
    proof {
        lemma_image_mod(sd, rs as nat);
        lemma_pow2_pos(rs as nat);
    }
    if w % p != 0 {
        return Err(Error::NotAligned);
    }
    proof {
        lemma_exact_div_range(sd, rs as nat, bits as nat);
        lemma_pow2_adds((bits - 1) as nat, rs as nat);
        if bits + rs - 1 < 63 {
            lemma_pow2_strictly_increases((bits + rs - 1) as nat, 63);
        }
    }
    let bound = pow2_u64(bits + rs - 1);
    let in_range = w < bound || w >= (u64::MAX - bound) + 1;
    if !in_range {
        return Err(Error::OutOfRange);
    }
    proof {
        lemma_image_extract(sd, rs as nat, bits as nat);
        lemma_pow2_pos(bits as nat);
        if (bits as nat) < 32 {
            lemma_pow2_strictly_increases(bits as nat, 32);
        }
        lemma2_to64();
    }
    let pb = pow2_u64(bits);
    Ok(((w / p) % pb) as u32)
}

} // verus!

verus! {

/// Every successfully encoded signed immediate fits its field width.
pub proof fn lemma_encode_in_width_simm(bits: nat, rs: nat)
    ensures
        forall|v: int|
            (#[trigger] spec_encode_simm(bits, rs, v)) is Ok ==> (spec_encode_simm(
                bits,
                rs,
                v,
            )->Ok_0 as nat) < pow2(bits),
{
    assert forall|v: int| (#[trigger] spec_encode_simm(bits, rs, v)) is Ok implies (
    spec_encode_simm(bits, rs, v)->Ok_0 as nat) < pow2(bits) by {
        lemma_pow2_pos(bits);
        if bits < 32 {
            vstd::arithmetic::power2::lemma_pow2_strictly_increases(bits, 32);
        }
        lemma2_to64();
    }
}

} // verus!
