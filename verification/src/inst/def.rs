//! The declarative instruction table: for each mnemonic, its variants,
//! each a parameter schema plus an encoding recipe whose field widths sum
//! to exactly 32 bits.

use vstd::prelude::*;

verus! {

use vstd::arithmetic::power2::pow2;
use crate::bytes::spec_upper;
use crate::inst::operand::{Encoder, Kind};
use crate::inst::util::{Param, spec_rest_are_opt};

/// The encoding variants a mnemonic can have.
#[derive(Debug, Clone, Copy, PartialEq, Eq, Structural)]
pub enum Variant {
    Default,
    ShiftedRegister,
    ExtendedRegister,
    Immediate,
    Condition,
}

/// The mnemonics the table knows.
#[derive(Debug, Clone, Copy, PartialEq, Eq, Structural)]
pub enum Mnemonic {
    UDF,
    ADD,
    ADDS,
    B,
}

/// The mnemonic named by an upper-case byte string (the codes spell
/// UDF, ADD, ADDS and B).
pub open spec fn spec_mnemonic_of(s: Seq<u8>) -> Option<Mnemonic> {
    if s == seq![85u8, 68u8, 70u8] {
        Some(Mnemonic::UDF)
    } else if s == seq![65u8, 68u8, 68u8] {
        Some(Mnemonic::ADD)
    } else if s == seq![65u8, 68u8, 68u8, 83u8] {
        Some(Mnemonic::ADDS)
    } else if s == seq![66u8] {
        Some(Mnemonic::B)
    } else {
        None
    }
}

impl Mnemonic {
    /// Looks a mnemonic up by name, written all lower case or all upper
    /// case.
    pub fn from_str_lower_or_upper(s: &[u8]) -> (r: Option<Mnemonic>)
        ensures
            r == spec_mnemonic_of(s@.map_values(|c: u8| spec_upper(c))),
    {
        let udf: Vec<u8> = vec![85u8, 68u8, 70u8];
        let add: Vec<u8> = vec![65u8, 68u8, 68u8];
        let adds: Vec<u8> = vec![65u8, 68u8, 68u8, 83u8];
        let bb: Vec<u8> = vec![66u8];
        if crate::bytes::bytes_eq_upper(s, udf.as_slice()) {
            proof {
                assert(udf@ =~= seq![85u8, 68u8, 70u8]);
            }
            Some(Mnemonic::UDF)
        } else if crate::bytes::bytes_eq_upper(s, add.as_slice()) {
            proof {
                assert(add@ =~= seq![65u8, 68u8, 68u8]);
            }
            Some(Mnemonic::ADD)
        } else if crate::bytes::bytes_eq_upper(s, adds.as_slice()) {
            proof {
                assert(adds@ =~= seq![65u8, 68u8, 68u8, 83u8]);
            }
            Some(Mnemonic::ADDS)
        } else if crate::bytes::bytes_eq_upper(s, bb.as_slice()) {
            proof {
                assert(bb@ =~= seq![66u8]);
            }
            Some(Mnemonic::B)
        } else {
            proof {
                assert(udf@ =~= seq![85u8, 68u8, 70u8]);
                assert(add@ =~= seq![65u8, 68u8, 68u8]);
                assert(adds@ =~= seq![65u8, 68u8, 68u8, 83u8]);
                assert(bb@ =~= seq![66u8]);
            }
            None
        }
    }
}

/// One field of an encoding recipe: a literal bit pattern, an operand
/// run through an encoder, or a PC-relative label immediate.
#[derive(Debug, Clone, Copy, PartialEq, Eq)]
pub enum Field {
    /// A fixed bit pattern of the given width.
    Lit { bits: u32, width: u32 },
    /// The operand at parameter index `idx`, encoded by `enc`.
    Op { idx: usize, enc: Encoder },
    /// The label at parameter index `idx`: the PC-relative offset is
    /// right-shifted by `rs` and stored, two's complement, in `bits`
    /// bits.
    Label { idx: usize, bits: u32, rs: u32 },
}

impl Field {
    /// The width in bits this field occupies in the word.
    pub open spec fn spec_width(self) -> nat {
        match self {
            Field::Lit { width, .. } => width as nat,
            Field::Op { enc, .. } => enc.spec_width(),
            Field::Label { bits, .. } => bits as nat,
        }
    }

    pub open spec fn wf(self) -> bool {
        match self {
            Field::Lit { bits, width } => 1 <= width <= 32 && (bits as nat) < pow2(width as nat),
            Field::Op { enc, .. } => enc.wf() && 1 <= enc.spec_width() <= 32,
            Field::Label { bits, rs, .. } => 1 <= bits <= 32 && 1 <= rs <= 30,
        }
    }

    /// The width in bits this field occupies in the word.
    pub fn width(&self) -> (r: u32)
        ensures
            r == self.spec_width(),
    {
        match self {
            Field::Lit { width, .. } => *width,
            Field::Op { enc, .. } => enc.width(),
            Field::Label { bits, .. } => *bits,
        }
    }
}

/// The sum of the field widths of a recipe.
pub open spec fn recipe_width(s: Seq<Field>) -> nat
    decreases s.len(),
{
    if s.len() == 0 {
        0
    } else {
        recipe_width(s.drop_last()) + s.last().spec_width()
    }
}

/// Every field of the recipe is well formed.
pub open spec fn recipe_wf(s: Seq<Field>) -> bool {
    forall|i: int| 0 <= i < s.len() ==> (#[trigger] s[i]).wf()
}

/// One variant of a mnemonic: its name, its parameter schema, and its
/// encoding recipe.
pub struct InstrVariant {
    pub variant: Variant,
    pub params: Vec<Param>,
    pub recipe: Vec<Field>,
}

impl InstrVariant {
    /// The schema invariant and the encoding-width invariant: required
    /// parameters precede optional ones, the fields are well formed, and
    /// their widths sum to exactly 32.
    pub open spec fn wf(&self) -> bool {
        &&& spec_rest_are_opt(self.params@)
        &&& recipe_wf(self.recipe@)
        &&& recipe_width(self.recipe@) == 32
    }
}

/// Appends a field, keeping track of the accumulated recipe width.
fn push_field(recipe: &mut Vec<Field>, f: Field)
    requires
        f.wf(),
    ensures
        final(recipe)@ == old(recipe)@.push(f),
        recipe_width(final(recipe)@) == recipe_width(old(recipe)@) + f.spec_width(),
        recipe_wf(old(recipe)@) ==> recipe_wf(final(recipe)@),
{
    recipe.push(f);
    proof {
        assert(recipe@.drop_last() =~= old(recipe)@);
        assert(recipe@.last() == f);
        if recipe_wf(old(recipe)@) {
            assert forall|i: int| 0 <= i < recipe@.len() implies (#[trigger] recipe@[i]).wf() by {
                if i < recipe@.len() - 1 {
                    assert(recipe@[i] == old(recipe)@[i]);
                }
            }
        }
    }
}


/// The number of variants a mnemonic has.
pub open spec fn spec_variant_count(m: Mnemonic) -> nat {
    match m {
        Mnemonic::UDF => 1,
        Mnemonic::ADD => 3,
        Mnemonic::ADDS => 1,
        Mnemonic::B => 2,
    }
}

/// The name of variant `i` of a mnemonic.
pub open spec fn spec_variant_name(m: Mnemonic, i: int) -> Variant {
    match m {
        Mnemonic::UDF => Variant::Default,
        Mnemonic::ADD => if i == 0 {
            Variant::Immediate
        } else if i == 1 {
            Variant::ShiftedRegister
        } else {
            Variant::ExtendedRegister
        },
        Mnemonic::ADDS => Variant::ExtendedRegister,
        Mnemonic::B => if i == 0 {
            Variant::Default
        } else {
            Variant::Condition
        },
    }
}

/// The parameter schema of variant `i` of a mnemonic.
pub open spec fn spec_params(m: Mnemonic, i: int) -> Seq<Param> {
    match m {
        Mnemonic::UDF => Seq::<Param>::empty(),
        Mnemonic::ADD => if i == 0 {
            seq![
                Param::Req(Kind::Gpr),
                Param::Req(Kind::Gpr),
                Param::Req(Kind::Imm),
                Param::Opt(Kind::Shift),
            ]
        } else if i == 1 {
            seq![
                Param::Req(Kind::Gpr),
                Param::Req(Kind::Gpr),
                Param::Req(Kind::Gpr),
                Param::Req(Kind::Shift),
            ]
        } else {
            seq![
                Param::Req(Kind::Gpr),
                Param::Req(Kind::Gpr),
                Param::Req(Kind::Gpr),
                Param::Opt(Kind::Extend),
            ]
        },
        Mnemonic::ADDS => seq![
            Param::Req(Kind::Gpr),
            Param::Req(Kind::Gpr),
            Param::Req(Kind::Gpr),
            Param::Opt(Kind::Extend),
        ],
        Mnemonic::B => if i == 0 {
            seq![Param::Req(Kind::Label)]
        } else {
            seq![Param::Req(Kind::Cond), Param::Req(Kind::Label)]
        },
    }
}

/// The candidate schemas of a mnemonic, in table order.
pub open spec fn spec_schemas_of(m: Mnemonic) -> Seq<Seq<Param>> {
    Seq::new(spec_variant_count(m), |i: int| spec_params(m, i))
}

/// The encoding recipe of variant `i` of a mnemonic.
pub open spec fn spec_recipe(m: Mnemonic, i: int) -> Seq<Field> {
    match m {
        Mnemonic::UDF => seq![Field::Lit { bits: 0, width: 32 }],
        Mnemonic::ADD => if i == 0 {
            seq![
                Field::Op { idx: 0, enc: Encoder::Sf },
                Field::Lit { bits: 0b00100010, width: 8 },
                Field::Op {
                    idx: 3,
                    enc: Encoder::ShiftConst {
                        kind: crate::inst::operand::ShiftKind::LSL,
                        amount: 12,
                    },
                },
                Field::Op { idx: 2, enc: Encoder::UImm { bits: 12 } },
                Field::Op { idx: 1, enc: Encoder::GprOrSp },
                Field::Op { idx: 0, enc: Encoder::GprOrSp },
            ]
        } else if i == 1 {
            seq![
                Field::Op { idx: 0, enc: Encoder::Sf },
                Field::Lit { bits: 0b0001011, width: 7 },
                Field::Op { idx: 3, enc: Encoder::ShiftKind },
                Field::Lit { bits: 0b0, width: 1 },
                Field::Op { idx: 2, enc: Encoder::Gpr },
                Field::Op { idx: 3, enc: Encoder::ShiftAmount { bits: 6 } },
                Field::Op { idx: 1, enc: Encoder::Gpr },
                Field::Op { idx: 0, enc: Encoder::Gpr },
            ]
        } else {
            seq![
                Field::Op { idx: 2, enc: Encoder::Sf },
                Field::Lit { bits: 0b0001011001, width: 10 },
                Field::Op { idx: 2, enc: Encoder::GprOrZr },
                Field::Op { idx: 3, enc: Encoder::ExtendKind { gpr_idx: 0 } },
                Field::Op { idx: 3, enc: Encoder::ExtendLShift },
                Field::Op { idx: 1, enc: Encoder::GprOrSp },
                Field::Op { idx: 0, enc: Encoder::GprOrSp },
            ]
        },
        Mnemonic::ADDS => seq![
            Field::Op { idx: 0, enc: Encoder::Sf },
            Field::Lit { bits: 0b0101011001, width: 10 },
            Field::Op { idx: 2, enc: Encoder::Gpr },
            Field::Op { idx: 3, enc: Encoder::ExtendKind { gpr_idx: 0 } },
            Field::Op { idx: 3, enc: Encoder::ExtendLShift },
            Field::Op { idx: 1, enc: Encoder::Gpr },
            Field::Op { idx: 0, enc: Encoder::Gpr },
        ],
        Mnemonic::B => if i == 0 {
            seq![
                Field::Lit { bits: 0b000101, width: 6 },
                Field::Label { idx: 0, bits: 26, rs: 2 },
            ]
        } else {
            seq![
                Field::Lit { bits: 0b01010100, width: 8 },
                Field::Label { idx: 1, bits: 19, rs: 2 },
                Field::Lit { bits: 0b0, width: 1 },
                Field::Op { idx: 0, enc: Encoder::Cond },
            ]
        },
    }
}

/// The variants of a mnemonic. Every entry satisfies the two table
/// invariants — its recipe fills the 32-bit word exactly, and no
/// required parameter follows an optional one — and carries exactly the
/// specified name, schema and recipe.
pub fn variants_of(mnem: Mnemonic) -> (r: Vec<InstrVariant>)
    ensures
        r@.len() == spec_variant_count(mnem),
        1 <= r@.len() <= 3,
        forall|i: int| 0 <= i < r@.len() ==> (#[trigger] r@[i]).wf(),
        forall|i: int|
            0 <= i < r@.len() ==> (#[trigger] r@[i]).variant == spec_variant_name(mnem, i)
                && r@[i].params@ == spec_params(mnem, i) && r@[i].recipe@ == spec_recipe(mnem, i),
{
    let mut r: Vec<InstrVariant> = Vec::new();
    match mnem {
        Mnemonic::UDF => {
            // UDF: the permanently undefined instruction, all zeros
            let params: Vec<Param> = Vec::new();
            let mut recipe: Vec<Field> = Vec::new();
            proof {
                vstd::arithmetic::power2::lemma2_to64();
            }
            push_field(&mut recipe, Field::Lit { bits: 0, width: 32 });
            let v = InstrVariant { variant: Variant::Default, params, recipe };
            proof {
                assert(spec_rest_are_opt(v.params@));
            }
            r.push(v);
        },
        Mnemonic::ADD | Mnemonic::ADDS => {
            let adds = matches!(mnem, Mnemonic::ADDS);
            if !adds {
                // ADD (immediate):
                //   sf 00100010 sh(lsl 12) imm12 Rn Rd
                let mut params: Vec<Param> = Vec::new();
                params.push(Param::Req(Kind::Gpr));
                params.push(Param::Req(Kind::Gpr));
                params.push(Param::Req(Kind::Imm));
                params.push(Param::Opt(Kind::Shift));
                let mut recipe: Vec<Field> = Vec::new();
                proof {
                    vstd::arithmetic::power2::lemma2_to64();
                }
                push_field(&mut recipe, Field::Op { idx: 0, enc: Encoder::Sf });
                push_field(&mut recipe, Field::Lit { bits: 0b00100010, width: 8 });
                push_field(
                    &mut recipe,
                    Field::Op { idx: 3, enc: Encoder::ShiftConst { kind: crate::inst::operand::ShiftKind::LSL, amount: 12 } },
                );
                push_field(&mut recipe, Field::Op { idx: 2, enc: Encoder::UImm { bits: 12 } });
                push_field(&mut recipe, Field::Op { idx: 1, enc: Encoder::GprOrSp });
                push_field(&mut recipe, Field::Op { idx: 0, enc: Encoder::GprOrSp });
                let v = InstrVariant { variant: Variant::Immediate, params, recipe };
                proof {
                    assert(spec_rest_are_opt(v.params@));
                }
                r.push(v);
                // ADD (shifted register):
                //   sf 0001011 shift-kind 0 Rm amount6 Rn Rd
                // the trailing shift is required so that the plain
                // three-register form routes to the extended-register
                // variant, which can express SP operands
                let mut params2: Vec<Param> = Vec::new();
                params2.push(Param::Req(Kind::Gpr));
                params2.push(Param::Req(Kind::Gpr));
                params2.push(Param::Req(Kind::Gpr));
                params2.push(Param::Req(Kind::Shift));
                let mut recipe2: Vec<Field> = Vec::new();
                push_field(&mut recipe2, Field::Op { idx: 0, enc: Encoder::Sf });
                push_field(&mut recipe2, Field::Lit { bits: 0b0001011, width: 7 });
                push_field(&mut recipe2, Field::Op { idx: 3, enc: Encoder::ShiftKind });
                push_field(&mut recipe2, Field::Lit { bits: 0b0, width: 1 });
                push_field(&mut recipe2, Field::Op { idx: 2, enc: Encoder::Gpr });
                push_field(
                    &mut recipe2,
                    Field::Op { idx: 3, enc: Encoder::ShiftAmount { bits: 6 } },
                );
                push_field(&mut recipe2, Field::Op { idx: 1, enc: Encoder::Gpr });
                push_field(&mut recipe2, Field::Op { idx: 0, enc: Encoder::Gpr });
                let v2 = InstrVariant {
                    variant: Variant::ShiftedRegister,
                    params: params2,
                    recipe: recipe2,
                };
                proof {
                    assert(spec_rest_are_opt(v2.params@));
                }
                r.push(v2);
            }
            // ADD/ADDS (extended register):
            //   sf 0101011 001 / 0001011 001 Rm option imm3 Rn Rd
            let mut params3: Vec<Param> = Vec::new();
            params3.push(Param::Req(Kind::Gpr));
            params3.push(Param::Req(Kind::Gpr));
            params3.push(Param::Req(Kind::Gpr));
            params3.push(Param::Opt(Kind::Extend));
            let mut recipe3: Vec<Field> = Vec::new();
            proof {
                vstd::arithmetic::power2::lemma2_to64();
            }
            if adds {
                push_field(&mut recipe3, Field::Op { idx: 0, enc: Encoder::Sf });
                push_field(&mut recipe3, Field::Lit { bits: 0b0101011001, width: 10 });
                push_field(&mut recipe3, Field::Op { idx: 2, enc: Encoder::Gpr });
                push_field(
                    &mut recipe3,
                    Field::Op { idx: 3, enc: Encoder::ExtendKind { gpr_idx: 0 } },
                );
                push_field(&mut recipe3, Field::Op { idx: 3, enc: Encoder::ExtendLShift });
                push_field(&mut recipe3, Field::Op { idx: 1, enc: Encoder::Gpr });
                push_field(&mut recipe3, Field::Op { idx: 0, enc: Encoder::Gpr });
            } else {
                push_field(&mut recipe3, Field::Op { idx: 2, enc: Encoder::Sf });
                push_field(&mut recipe3, Field::Lit { bits: 0b0001011001, width: 10 });
                push_field(&mut recipe3, Field::Op { idx: 2, enc: Encoder::GprOrZr });
                push_field(
                    &mut recipe3,
                    Field::Op { idx: 3, enc: Encoder::ExtendKind { gpr_idx: 0 } },
                );
                push_field(&mut recipe3, Field::Op { idx: 3, enc: Encoder::ExtendLShift });
                push_field(&mut recipe3, Field::Op { idx: 1, enc: Encoder::GprOrSp });
                push_field(&mut recipe3, Field::Op { idx: 0, enc: Encoder::GprOrSp });
            }
            let v3 = InstrVariant {
                variant: Variant::ExtendedRegister,
                params: params3,
                recipe: recipe3,
            };
            proof {
                assert(spec_rest_are_opt(v3.params@));
            }
            r.push(v3);
        },
        Mnemonic::B => {
            // B: 000101 imm26 (the offset in instruction words)
            let mut params: Vec<Param> = Vec::new();
            params.push(Param::Req(Kind::Label));
            let mut recipe: Vec<Field> = Vec::new();
            proof {
                vstd::arithmetic::power2::lemma2_to64();
            }
            push_field(&mut recipe, Field::Lit { bits: 0b000101, width: 6 });
            push_field(&mut recipe, Field::Label { idx: 0, bits: 26, rs: 2 });
            let v = InstrVariant { variant: Variant::Default, params, recipe };
            proof {
                assert(spec_rest_are_opt(v.params@));
            }
            r.push(v);
            // B.cond: 01010100 imm19 0 cond
            let mut params2: Vec<Param> = Vec::new();
            params2.push(Param::Req(Kind::Cond));
            params2.push(Param::Req(Kind::Label));
            let mut recipe2: Vec<Field> = Vec::new();
            push_field(&mut recipe2, Field::Lit { bits: 0b01010100, width: 8 });
            push_field(&mut recipe2, Field::Label { idx: 1, bits: 19, rs: 2 });
            push_field(&mut recipe2, Field::Lit { bits: 0b0, width: 1 });
            push_field(&mut recipe2, Field::Op { idx: 0, enc: Encoder::Cond });
            let v2 = InstrVariant { variant: Variant::Condition, params: params2, recipe: recipe2 };
            proof {
                assert(spec_rest_are_opt(v2.params@));
            }
            r.push(v2);
        },
    }
    r
}

/// A fresh selector over the variant schemas of a mnemonic: one
/// candidate per table variant, in table order, all alive.
pub fn narrow_variant(mnem: Mnemonic) -> (r: crate::inst::util::NarrowVariant)
    ensures
        r.wf(),
        r.index == 0,
        r.variants@.len() == spec_variant_count(mnem),
        1 <= r.variants@.len() <= 3,
        forall|i: int| 0 <= i < r.variants@.len() ==> r.spec_alive(i),
        forall|i: int|
            0 <= i < r.variants@.len() ==> spec_rest_are_opt((#[trigger] r.variants@[i])@),
        forall|i: int|
            0 <= i < r.variants@.len() ==> (#[trigger] r.variants@[i])@ == spec_params(mnem, i),
{
    let table = variants_of(mnem);
    let mut schemas: Vec<Vec<Param>> = Vec::new();
    let n = table.len();
    let mut i: usize = 0;
    while i < n
        invariant
            n == table@.len(),
            i <= n,
            schemas@.len() == i,
            forall|k: int| 0 <= k < n ==> (#[trigger] table@[k]).wf(),
            forall|k: int| 0 <= k < i ==> (#[trigger] schemas@[k])@ == table@[k].params@,
        decreases n - i,
    {
        let mut copy: Vec<Param> = Vec::new();
        let variant = &table[i];
        let m = variant.params.len();
        let mut j: usize = 0;
        while j < m
            invariant
                m == variant.params@.len(),
                j <= m,
                copy@ =~= variant.params@.take(j as int),
            decreases m - j,
        {
            copy.push(variant.params[j]);
            proof {
                assert(copy@ =~= variant.params@.take(j + 1));
            }
            j = j + 1;
        }
        proof {
            assert(copy@ =~= variant.params@);
        }
        schemas.push(copy);
        i = i + 1;
    }
    crate::inst::util::NarrowVariant::new(schemas)
}

} // verus!

verus! {

use crate::assembler::emit::Emit;
use crate::inst::operand::Ops;
use crate::inst::{Error, ErrorMacro};

/// Looks the selected variant up in the table and emits it: succeeds
/// exactly when the index names a variant and every field of its recipe
/// encodes, and then the recipe's word stands at the old emission
/// address.
pub fn get_variant_and_emit(mnem: Mnemonic, variant_idx: usize, ops: &Vec<Ops>, e: &mut Emit) -> (r:
    Result<(), ErrorMacro>)
    requires
        old(e).wf(),
        old(e).pc + 4 <= u64::MAX,
    ensures
        final(e).wf(),
        final(e).pc == old(e).pc || final(e).pc == old(e).pc + 4,
        final(e).labels.intern == old(e).labels.intern,
        final(e).labels.addr_map == old(e).labels.addr_map,
        final(e).errors == old(e).errors,
        r is Ok <==> variant_idx < spec_variant_count(mnem) && crate::assembler::emit::spec_recipe_ok(
            spec_recipe(mnem, variant_idx as int),
            ops@,
            old(e).pc,
            old(e).labels.addr_map@,
        ),
        r is Ok ==> final(e).pc == old(e).pc + 4 && final(e).bin.spec_word32(old(e).pc as nat)
            == crate::assembler::emit::spec_recipe_word(
            spec_recipe(mnem, variant_idx as int),
            ops@,
            old(e).pc,
            old(e).labels.addr_map@,
        ),
        r is Ok ==> forall|a: nat|
            a <= u64::MAX && !(old(e).pc <= a < old(e).pc + 4) ==> final(e).bin.spec_byte(a) == old(
                e,
            ).bin.spec_byte(a),
        r is Ok ==> final(e).labels.fixups@ == old(e).labels.fixups@
            + crate::assembler::emit::spec_recipe_fixups(
            spec_recipe(mnem, variant_idx as int),
            ops@,
            old(e).pc,
            old(e).labels.addr_map@,
            spec_recipe(mnem, variant_idx as int).len() as int,
        ),
        r is Err ==> final(e).bin == old(e).bin,
        variant_idx < spec_variant_count(mnem) ==> final(e).pc == old(e).pc + 4 && exists|j: int|
            0 <= j <= spec_recipe(mnem, variant_idx as int).len() && final(e).labels.fixups@ == old(
                e,
            ).labels.fixups@ + crate::assembler::emit::spec_recipe_fixups(
                spec_recipe(mnem, variant_idx as int),
                ops@,
                old(e).pc,
                old(e).labels.addr_map@,
                j,
            ),
        variant_idx >= spec_variant_count(mnem) ==> *final(e) == *old(e),
    {
    let table = variants_of(mnem);
    if variant_idx < table.len() {
        e.emit_recipe(&table[variant_idx], ops)
    } else {
        Err(ErrorMacro(Error::UnmatchedVariant, "variant"))
    }
}

} // verus!
