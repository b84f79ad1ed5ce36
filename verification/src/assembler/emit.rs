//! The emitter and fixup engine: assembles 32-bit words field by field,
//! writes them into the sparse page store, defines labels, and records
//! and later applies fixups for forward references.

use vstd::prelude::*;

verus! {

use vstd::arithmetic::power2::pow2;
use vstd::hash_map::HashMapWithView;
use crate::assembler::arg::ArgParser;
use crate::assembler::parse::{Expr, Top};
use crate::bitstack::{
    spec_patch_bits,
    stack_value,
    widths_sum,
    BitStackU32,
    push_bits_offset_u32,
    lemma_stack_value_bound,
};
use crate::code::Source;
use crate::inst::def::{narrow_variant, recipe_width, Field, InstrVariant, Mnemonic};
use crate::inst::operand::{
    encode,
    encode_pcrel,
    spec_arg,
    spec_encode,
    spec_encode_simm,
    spec_signed_diff,
    Encoder,
    Ops,
};
use crate::inst::{dir, Error, ErrorMacro, Fixup};
use crate::intern::Intern;
use crate::sparsebin::{Aligned, SparseBin};

/// The label state: the interner, the addresses of defined labels, and
/// the pending fixups.
pub struct LabelResolver {
    pub intern: Intern,
    pub addr_map: HashMapWithView<u32, u64>,
    pub fixups: Vec<Fixup>,
}

impl LabelResolver {
    pub fn new() -> (r: Self)
        ensures
            r.intern.wf(),
            r.intern.strs@.len() == 0,
            r.addr_map@ == Map::<u32, u64>::empty(),
            r.fixups@.len() == 0,
    {
        LabelResolver { intern: Intern::new(), addr_map: HashMapWithView::new(), fixups: Vec::new() }
    }
}

/// A pending fixup patches a field that lies inside the 32-bit word.
pub open spec fn fixup_wf(f: Fixup) -> bool {
    &&& f.enc.wf()
    &&& f.enc is SImmAlign
    &&& f.bit_idx + f.enc.spec_width() <= 32
    &&& f.pc % 4 == 0
}

/// The value a fixup writes into its field once the label has the given
/// address.
pub open spec fn spec_fixup_value(f: Fixup, addr: u64) -> Result<u32, Error> {
    match f.enc {
        Encoder::SImmAlign { bits, rs } => spec_encode_simm(
            bits as nat,
            rs as nat,
            spec_signed_diff(addr, f.pc),
        ),
        _ => Err(Error::Unexpected),
    }
}

/// What one recipe field contributes to the word: the literal bits, the
/// encoded operand, the encoded displacement of a defined label, or a
/// zero placeholder for an undefined one.
pub open spec fn spec_field_value(f: Field, ops: Seq<Ops>, pc: u64, symmap: Map<u32, u64>) -> Result<
    u32,
    Error,
> {
    match f {
        Field::Lit { bits, .. } => Ok(bits),
        Field::Op { idx, enc } => spec_encode(enc, spec_arg(ops, idx as int), ops),
        Field::Label { idx, bits, rs } => match spec_arg(ops, idx as int) {
            Some(Ops::Label(l)) => if symmap.contains_key(l.0.0) {
                spec_encode_simm(bits as nat, rs as nat, spec_signed_diff(symmap[l.0.0], pc))
            } else {
                Ok(0)
            },
            _ => Err(Error::Unexpected),
        },
    }
}

/// Every field of the recipe encodes successfully.
pub open spec fn spec_recipe_ok(recipe: Seq<Field>, ops: Seq<Ops>, pc: u64, symmap: Map<u32, u64>) -> bool {
    forall|i: int|
        0 <= i < recipe.len() ==> spec_field_value(#[trigger] recipe[i], ops, pc, symmap) is Ok
}

/// The `(value, width)` pairs the recipe pushes, most significant field
/// first; a failed field contributes zero.
pub open spec fn spec_recipe_values(
    recipe: Seq<Field>,
    ops: Seq<Ops>,
    pc: u64,
    symmap: Map<u32, u64>,
) -> Seq<(u32, nat)> {
    Seq::new(
        recipe.len(),
        |i: int|
            (
                match spec_field_value(recipe[i], ops, pc, symmap) {
                    Ok(v) => v,
                    Err(..) => 0u32,
                },
                recipe[i].spec_width(),
            ),
    )
}

/// The fixups the first `upto` fields of a recipe enqueue: one for each
/// label field whose key is not yet defined, recording the label's key,
/// an encoder with the field's width and right shift, the emission
/// address, and the bit position of the word already filled before the
/// field.
pub open spec fn spec_recipe_fixups(
    recipe: Seq<Field>,
    ops: Seq<Ops>,
    pc: u64,
    symmap: Map<u32, u64>,
    upto: int,
) -> Seq<Fixup>
    decreases upto,
{
    if upto <= 0 {
        Seq::<Fixup>::empty()
    } else {
        let pre = spec_recipe_fixups(recipe, ops, pc, symmap, upto - 1);
        match recipe[upto - 1] {
            Field::Label { idx, bits, rs } => match spec_arg(ops, idx as int) {
                Some(Ops::Label(l)) => if !symmap.contains_key(l.0.0) {
                    pre.push(
                        Fixup {
                            key: l.0,
                            bit_idx: recipe_width(recipe.take(upto - 1)) as u8,
                            pc,
                            enc: Encoder::SImmAlign { bits, rs },
                        },
                    )
                } else {
                    pre
                },
                _ => pre,
            },
            _ => pre,
        }
    }
}

/// The finished instruction word of a recipe.
pub open spec fn spec_recipe_word(
    recipe: Seq<Field>,
    ops: Seq<Ops>,
    pc: u64,
    symmap: Map<u32, u64>,
) -> nat {
    stack_value(spec_recipe_values(recipe, ops, pc, symmap))
}

/// Only the four bytes of the word at `lo` may differ between the two
/// stores.
pub open spec fn spec_bytes_framed(pre: SparseBin, post: SparseBin, lo: u64) -> bool {
    forall|a: nat|
        a <= u64::MAX && !(lo <= a < lo + 4) ==> #[trigger] post.spec_byte(a) == pre.spec_byte(a)
}

/// One fixup's outcome against a finished symbol table: either its
/// label resolves and its displacement encodes, and then exactly its
/// field of the word at its address is patched; or nothing is written
/// and the fixup's error is appended.
pub open spec fn spec_fixup_applied(
    symmap: Map<u32, u64>,
    pre_bin: SparseBin,
    pre_err: Seq<ErrorMacro>,
    f: Fixup,
    post_bin: SparseBin,
    post_err: Seq<ErrorMacro>,
) -> bool {
    if symmap.contains_key(f.key.0) {
        match spec_fixup_value(f, symmap[f.key.0]) {
            Ok(v) => {
                &&& post_err == pre_err
                &&& post_bin.spec_word32(f.pc as nat) == spec_patch_bits(
                    pre_bin.spec_word32(f.pc as nat) as u32,
                    v,
                    f.enc.spec_width(),
                    f.bit_idx as nat,
                )
                &&& spec_bytes_framed(pre_bin, post_bin, f.pc)
            },
            Err(er) => {
                &&& post_bin == pre_bin
                &&& post_err.len() == pre_err.len() + 1
                &&& post_err.last().0 == er
                &&& forall|k: int| 0 <= k < pre_err.len() ==> post_err[k] == pre_err[k]
            },
        }
    } else {
        &&& post_bin == pre_bin
        &&& post_err.len() == pre_err.len() + 1
        &&& post_err.last().0 == Error::Resolve
        &&& forall|k: int| 0 <= k < pre_err.len() ==> post_err[k] == pre_err[k]
    }
}

/// The fixups applied in order, each against the store and error list
/// the previous one left.
pub open spec fn spec_fixups_applied(
    symmap: Map<u32, u64>,
    pre_bin: SparseBin,
    pre_err: Seq<ErrorMacro>,
    fixups: Seq<Fixup>,
    post_bin: SparseBin,
    post_err: Seq<ErrorMacro>,
) -> bool
    decreases fixups.len(),
{
    if fixups.len() == 0 {
        post_bin == pre_bin && post_err == pre_err
    } else {
        exists|mid_bin: SparseBin, mid_err: Seq<ErrorMacro>|
            spec_fixup_applied(symmap, pre_bin, pre_err, fixups[0], mid_bin, mid_err)
                && spec_fixups_applied(symmap, mid_bin, mid_err, fixups.skip(1), post_bin, post_err)
    }
}

/// Extending an applied chain by one more applied fixup.
proof fn lemma_fixups_applied_snoc(
    symmap: Map<u32, u64>,
    pre_bin: SparseBin,
    pre_err: Seq<ErrorMacro>,
    fs: Seq<Fixup>,
    mid_bin: SparseBin,
    mid_err: Seq<ErrorMacro>,
    f: Fixup,
    post_bin: SparseBin,
    post_err: Seq<ErrorMacro>,
)
    requires
        spec_fixups_applied(symmap, pre_bin, pre_err, fs, mid_bin, mid_err),
        spec_fixup_applied(symmap, mid_bin, mid_err, f, post_bin, post_err),
    ensures
        spec_fixups_applied(symmap, pre_bin, pre_err, fs.push(f), post_bin, post_err),
    decreases fs.len(),
{
    if fs.len() == 0 {
        assert(fs.push(f)[0] == f);
        assert(fs.push(f).skip(1) =~= Seq::<Fixup>::empty());
        assert(spec_fixups_applied(symmap, post_bin, post_err, fs.push(f).skip(1), post_bin, post_err));
    } else {
        let (b1, e1) = choose|b1: SparseBin, e1: Seq<ErrorMacro>|
            spec_fixup_applied(symmap, pre_bin, pre_err, fs[0], b1, e1) && spec_fixups_applied(
                symmap,
                b1,
                e1,
                fs.skip(1),
                mid_bin,
                mid_err,
            );
        lemma_fixups_applied_snoc(symmap, b1, e1, fs.skip(1), mid_bin, mid_err, f, post_bin, post_err);
        assert(fs.push(f).skip(1) =~= fs.skip(1).push(f));
        assert(fs.push(f)[0] == fs[0]);
    }
}

/// A short static tag naming a recipe field for diagnostics.
pub fn field_tag(f: &Field) -> (r: &'static str) {
    match f {
        Field::Lit { .. } => "literal",
        Field::Op { enc, .. } => match enc {
            Encoder::Gpr => "Gpr",
            Encoder::GprOrSp => "Gpr(AllowSp)",
            Encoder::GprOrZr => "Gpr(AllowZr)",
            Encoder::Sf => "Sf",
            Encoder::UImm { .. } => "UImm",
            Encoder::SImm { .. } => "SImm",
            Encoder::UImmAlign { .. } => "UImm(Align)",
            Encoder::SImmAlign { .. } => "SImm(Align)",
            Encoder::ShiftKind => "Shift(Kind)",
            Encoder::ShiftAmount { .. } => "Shift(Amount)",
            Encoder::ShiftConst { .. } => "ShiftConst",
            Encoder::ExtendKind { .. } => "Extend(Kind)",
            Encoder::ExtendLShift => "Extend(Shift)",
            Encoder::Cond => "Cond",
        },
        Field::Label { .. } => "Label",
    }
}

/// A freshly constructed emitter: address zero, no symbols, no pending
/// fixups, no errors, and an all-zero image.
pub open spec fn spec_emit_initial(e: Emit) -> bool {
    &&& e.wf()
    &&& e.pc == 0
    &&& e.labels.intern.strs@.len() == 0
    &&& e.labels.addr_map@ == Map::<u32, u64>::empty()
    &&& e.labels.fixups@.len() == 0
    &&& e.errors@.len() == 0
    &&& forall|a: nat| e.bin.spec_byte(a) == 0u8
}

/// The emitter: the output image, the emission address, the word under
/// construction, the label state, and the errors seen so far.
pub struct Emit {
    pub bin: SparseBin,
    pub pc: u64,
    pub bit_stack: BitStackU32,
    pub labels: LabelResolver,
    pub errors: Vec<ErrorMacro>,
}

impl Emit {
    pub open spec fn wf(&self) -> bool {
        &&& self.bin.wf()
        &&& self.bit_stack.wf()
        &&& self.labels.intern.wf()
        &&& self.pc % 4 == 0
        &&& forall|i: int|
            0 <= i < self.labels.fixups@.len() ==> fixup_wf(#[trigger] self.labels.fixups@[i])
        &&& forall|k: u32|
            self.labels.addr_map@.contains_key(k) ==> k < self.labels.intern.strs@.len()
    }

    pub fn new() -> (r: Self)
        ensures
            spec_emit_initial(r),
    {
        Emit {
            bin: SparseBin::new(),
            pc: 0,
            bit_stack: BitStackU32::new(),
            labels: LabelResolver::new(),
            errors: Vec::new(),
        }
    }

    /// The current emission address.
    pub fn pc(&self) -> (r: u64)
        ensures
            r == self.pc,
    {
        self.pc
    }

    /// The number of bits already pushed into the word under
    /// construction.
    pub fn bit_idx(&self) -> (r: u8)
        ensures
            r == self.bit_stack.len,
    {
        self.bit_stack.len()
    }

    pub fn set_pc(&mut self, value: u64)
        requires
            old(self).wf(),
            value % 4 == 0,
        ensures
            final(self).wf(),
            final(self).pc == value,
            final(self).bin == old(self).bin,
            final(self).bit_stack == old(self).bit_stack,
            final(self).labels == old(self).labels,
            final(self).errors == old(self).errors,
    {
        self.pc = value;
    }

    /// The address of a label, if it has been defined.
    pub fn resolve_label(&self, key: crate::intern::Key) -> (r: Option<u64>)
        ensures
            r matches Some(a) ==> self.labels.addr_map@.contains_key(key.0) && a
                == self.labels.addr_map@[key.0],
            r is None ==> !self.labels.addr_map@.contains_key(key.0),
    {
        match self.labels.addr_map.get(&key.0) {
            Some(a) => Some(*a),
            None => None,
        }
    }

    /// Emits one instruction: runs the recipe of the selected variant
    /// over the operands, pushing one field at a time, and writes the
    /// finished word at `pc`. A field that fails to encode leaves the
    /// store untouched. Either way the emission address advances by 4,
    /// so later labels keep their source-order addresses.
    pub fn emit_recipe(&mut self, v: &InstrVariant, ops: &Vec<Ops>) -> (r: Result<(), ErrorMacro>)
        requires
            old(self).wf(),
            old(self).pc + 4 <= u64::MAX,
            v.wf(),
        ensures
            final(self).wf(),
            final(self).pc == old(self).pc + 4,
            final(self).labels.intern == old(self).labels.intern,
            final(self).labels.addr_map == old(self).labels.addr_map,
            final(self).errors == old(self).errors,
            r is Ok <==> spec_recipe_ok(v.recipe@, ops@, old(self).pc, old(self).labels.addr_map@),
            r matches Err(em) ==> exists|j: int|
                0 <= j < v.recipe@.len() && spec_field_value(
                    #[trigger] v.recipe@[j],
                    ops@,
                    old(self).pc,
                    old(self).labels.addr_map@,
                ) == Err::<u32, Error>(em.0),
            r is Ok ==> final(self).bin.spec_word32(old(self).pc as nat)
                == spec_recipe_word(v.recipe@, ops@, old(self).pc, old(self).labels.addr_map@),
            r is Ok ==> forall|a: nat|
                a <= u64::MAX && !(old(self).pc <= a < old(self).pc + 4) ==> final(self).bin.spec_byte(a) == old(self).bin.spec_byte(a),
            r is Err ==> final(self).bin == old(self).bin,
            r is Ok ==> final(self).labels.fixups@ == old(self).labels.fixups@
                + spec_recipe_fixups(
                v.recipe@,
                ops@,
                old(self).pc,
                old(self).labels.addr_map@,
                v.recipe@.len() as int,
            ),
            exists|j: int|
                0 <= j <= v.recipe@.len() && final(self).labels.fixups@ == old(self).labels.fixups@ + spec_recipe_fixups(
                    v.recipe@,
                    ops@,
                    old(self).pc,
                    old(self).labels.addr_map@,
                    j,
                ),
    {
        let ghost pc0 = self.pc;
        let ghost symmap = self.labels.addr_map@;
        let ghost values = spec_recipe_values(v.recipe@, ops@, pc0, symmap);
        self.bit_stack = BitStackU32::new();
        let n = v.recipe.len();
        let mut i: usize = 0;
        while i < n
            invariant
                self.bin == old(self).bin,
                self.pc == old(self).pc,
                self.errors == old(self).errors,
                self.labels.intern == old(self).labels.intern,
                self.labels.addr_map == old(self).labels.addr_map,
                pc0 == old(self).pc,
                symmap == old(self).labels.addr_map@,
                values == spec_recipe_values(v.recipe@, ops@, pc0, symmap),
                old(self).wf(),
                old(self).pc + 4 <= u64::MAX,
                v.wf(),
                self.bin.wf(),
                self.labels.intern.wf(),
                self.pc % 4 == 0,
                forall|k: int|
                    0 <= k < self.labels.fixups@.len() ==> fixup_wf(
                        #[trigger] self.labels.fixups@[k],
                    ),
                n == v.recipe@.len(),
                i <= n,
                self.bit_stack.wf(),
                self.bit_stack.len == recipe_width(v.recipe@.take(i as int)),
                self.bit_stack.value == stack_value(values.take(i as int)),
                forall|k: int|
                    0 <= k < i ==> spec_field_value(#[trigger] v.recipe@[k], ops@, pc0, symmap)
                        is Ok,
                self.labels.fixups@ == old(self).labels.fixups@ + spec_recipe_fixups(
                    v.recipe@,
                    ops@,
                    pc0,
                    symmap,
                    i as int,
                ),
            decreases n - i,
        {
            proof {
                lemma_recipe_prefix_step(v.recipe@, i as int);
                lemma_recipe_prefix_bound(v.recipe@, i + 1);
                assert(v.recipe@[i as int].wf());
                assert(values.take(i + 1).drop_last() =~= values.take(i as int));
            }
            let field = &v.recipe[i];
            let fv: u32 = match field {
                Field::Lit { bits, .. } => *bits,
                Field::Op { idx, enc } => {
                    match encode(enc, ops, *idx) {
                        Ok(val) => val,
                        Err(e) => {
                            proof {
                                assert(spec_field_value(v.recipe@[i as int], ops@, pc0, symmap)
                                    == Err::<u32, Error>(e));
                            }
                            self.pc = advance_pc(self.pc);
                            return Err(ErrorMacro(e, field_tag(field)));
                        },
                    }
                },
                Field::Label { idx, bits, rs } => {
                    let arg: Option<&Ops> = if *idx < ops.len() {
                        Some(&ops[*idx])
                    } else {
                        None
                    };
                    match arg {
                        Some(Ops::Label(l)) => {
                            match self.labels.addr_map.get(&l.0.0) {
                                Some(addr) => {
                                    let addr = *addr;
                                    match encode_pcrel(*bits, *rs, self.pc, addr) {
                                        Ok(val) => val,
                                        Err(e) => {
                                            proof {
                                                assert(spec_field_value(
                                                    v.recipe@[i as int],
                                                    ops@,
                                                    pc0,
                                                    symmap,
                                                ) == Err::<u32, Error>(e));
                                            }
                                            self.pc = advance_pc(self.pc);
                                            return Err(ErrorMacro(e, field_tag(field)));
                                        },
                                    }
                                },
                                None => {
                                    let fixup = Fixup {
                                        key: l.0,
                                        bit_idx: self.bit_stack.len(),
                                        pc: self.pc,
                                        enc: Encoder::SImmAlign { bits: *bits, rs: *rs },
                                    };
                                    proof {
                                        lemma_recipe_prefix_bound(v.recipe@, i as int);
                                    }
                                    self.labels.fixups.push(fixup);
                                    0
                                },
                            }
                        },
                        _ => {
                            proof {
                                assert(spec_field_value(v.recipe@[i as int], ops@, pc0, symmap)
                                    == Err::<u32, Error>(Error::Unexpected));
                            }
                            self.pc = advance_pc(self.pc);
                            return Err(ErrorMacro(Error::Unexpected, field_tag(field)));
                        },
                    }
                },
            };
            proof {
                let f = v.recipe@[i as int];
                assert(spec_field_value(f, ops@, pc0, symmap) == Ok::<u32, Error>(fv));
                assert(fv == values[i as int].0);
                assert((fv as nat) < pow2(f.spec_width())) by {
                    match f {
                        Field::Lit { .. } => {},
                        Field::Op { idx, enc } => {
                            crate::inst::operand::lemma_encode_in_width(
                                enc,
                                spec_arg(ops@, idx as int),
                                ops@,
                            );
                        },
                        Field::Label { idx, bits, rs } => {
                            crate::inst::operand::lemma_encode_in_width_simm(
                                bits as nat,
                                rs as nat,
                            );
                            vstd::arithmetic::power2::lemma_pow2_pos(bits as nat);
                        },
                    }
                }
                vstd::arithmetic::div_mod::lemma_small_mod(
                    fv as nat,
                    pow2(v.recipe@[i as int].spec_width()),
                );
            }
            self.bit_stack.push(fv, field.width() as u8);
            proof {
                assert(values.take(i + 1).last() == values[i as int]);
            }
            i = i + 1;
        }
        proof {
            assert(v.recipe@.take(n as int) =~= v.recipe@);
            assert(values.take(n as int) =~= values);
            lemma_stack_value_bound(values);
            lemma_values_width(v.recipe@, ops@, pc0, symmap);
        }
        let word = self.bit_stack.value();
        let addr = self.word_addr();
        self.bin.write_u32(addr, word);
        self.pc = advance_pc(self.pc);
        Ok(())
    }

    /// The current emission address as an aligned store address.
    fn word_addr(&self) -> (r: Aligned<4>)
        requires
            self.pc % 4 == 0,
        ensures
            r.0 == self.pc,
            r.wf(),
    {
        Aligned::<4>::new_unchecked(self.pc)
    }

    /// Applies one recorded fixup: re-encodes the displacement against
    /// the now-known label address and patches the field inside the
    /// already emitted word.
    pub fn apply_fixup(&mut self, fixup: &Fixup) -> (r: Result<(), Error>)
        requires
            old(self).wf(),
            fixup_wf(*fixup),
        ensures
            final(self).wf(),
            final(self).pc == fixup.pc || final(self).pc == old(self).pc,
            final(self).labels.intern == old(self).labels.intern,
            final(self).labels.addr_map == old(self).labels.addr_map,
            final(self).labels.fixups == old(self).labels.fixups,
            final(self).errors == old(self).errors,
            r == (match (if old(self).labels.addr_map@.contains_key(fixup.key.0) {
                Some(old(self).labels.addr_map@[fixup.key.0])
            } else {
                None
            }) {
                Some(addr) => match spec_fixup_value(*fixup, addr) {
                    Ok(_) => Result::<(), Error>::Ok(()),
                    Err(e) => Result::<(), Error>::Err(e),
                },
                None => Result::<(), Error>::Err(Error::Resolve),
            }),
            r is Ok ==> final(self).bin.spec_word32(fixup.pc as nat) == spec_patch_bits(
                old(self).bin.spec_word32(fixup.pc as nat) as u32,
                spec_fixup_value(*fixup, old(self).labels.addr_map@[fixup.key.0])->Ok_0,
                fixup.enc.spec_width(),
                fixup.bit_idx as nat,
            ),
            r is Ok ==> spec_bytes_framed(old(self).bin, final(self).bin, fixup.pc),
            r is Err ==> final(self).bin == old(self).bin,
    {
        let addr = match self.resolve_label(fixup.key) {
            Some(a) => a,
            None => {
                return Err(Error::Resolve);
            },
        };
        self.set_pc(fixup.pc);
        let (bits, rs): (u32, u32) = match fixup.enc {
            Encoder::SImmAlign { bits, rs } => (bits, rs),
            _ => {
                proof {
                    assert(false);
                }
                return Err(Error::Unexpected);
            },
        };
        let value = match encode_pcrel(bits, rs, self.pc, addr) {
            Ok(v) => v,
            Err(e) => {
                return Err(e);
            },
        };
        let a = self.word_addr();
        let current = self.bin.get_u32(a);
        proof {
            crate::inst::operand::lemma_encode_in_width_simm(bits as nat, rs as nat);
        }
        let patched = push_bits_offset_u32(current, value, bits as u8, fixup.bit_idx);
        self.bin.write_u32(a, patched);
        Ok(())
    }

    /// Drains the fixup queue: applies every recorded fixup in order,
    /// each patching exactly its field of the word at its address, or
    /// recording its `Resolve` or encoding error.
    pub fn apply_fixups(&mut self)
        requires
            old(self).wf(),
        ensures
            final(self).wf(),
            final(self).labels.addr_map == old(self).labels.addr_map,
            final(self).labels.intern == old(self).labels.intern,
            final(self).pc % 4 == 0,
            final(self).labels.fixups@.len() == 0,
            spec_fixups_applied(
                old(self).labels.addr_map@,
                old(self).bin,
                old(self).errors@,
                old(self).labels.fixups@,
                final(self).bin,
                final(self).errors@,
            ),
    {
        let mut i: usize = 0;
        let n = self.labels.fixups.len();
        while i < n
            invariant
                self.wf(),
                self.labels.addr_map == old(self).labels.addr_map,
                self.labels.intern == old(self).labels.intern,
                self.labels.fixups == old(self).labels.fixups,
                n == self.labels.fixups@.len(),
                i <= n,
                spec_fixups_applied(
                    old(self).labels.addr_map@,
                    old(self).bin,
                    old(self).errors@,
                    old(self).labels.fixups@.take(i as int),
                    self.bin,
                    self.errors@,
                ),
            decreases n - i,
        {
            let fixup = self.labels.fixups[i];
            let ghost pre_bin = self.bin;
            let ghost pre_err = self.errors@;
            let res = self.apply_fixup(&fixup);
            match res {
                Ok(..) => {},
                Err(e) => {
                    self.errors.push(ErrorMacro(e, "Label"));
                },
            }
            proof {
                assert(spec_fixup_applied(
                    old(self).labels.addr_map@,
                    pre_bin,
                    pre_err,
                    fixup,
                    self.bin,
                    self.errors@,
                ));
                lemma_fixups_applied_snoc(
                    old(self).labels.addr_map@,
                    old(self).bin,
                    old(self).errors@,
                    old(self).labels.fixups@.take(i as int),
                    pre_bin,
                    pre_err,
                    fixup,
                    self.bin,
                    self.errors@,
                );
                assert(old(self).labels.fixups@.take(i as int).push(fixup) =~= old(self).labels.fixups@.take(i + 1));
            }
            i = i + 1;
        }
        proof {
            assert(old(self).labels.fixups@.take(n as int) =~= old(self).labels.fixups@);
        }
        self.labels.fixups.clear();
    }
}

/// Advances the emission address by one instruction word.
fn advance_pc(pc: u64) -> (r: u64)
    requires
        pc % 4 == 0,
        pc + 4 <= u64::MAX,
    ensures
        r == pc + 4,
        r % 4 == 0,
{
    pc + 4
}

/// One more field extends the prefix width by that field's width.
proof fn lemma_recipe_prefix_step(s: Seq<Field>, i: int)
    requires
        0 <= i < s.len(),
    ensures
        recipe_width(s.take(i + 1)) == recipe_width(s.take(i)) + s[i].spec_width(),
{
    assert(s.take(i + 1).drop_last() =~= s.take(i));
    assert(s.take(i + 1).last() == s[i]);
}

/// A prefix never exceeds the whole recipe's width.
proof fn lemma_recipe_prefix_bound(s: Seq<Field>, i: int)
    requires
        0 <= i <= s.len(),
    ensures
        recipe_width(s.take(i)) <= recipe_width(s),
    decreases s.len() - i,
{
    if i == s.len() {
        assert(s.take(i) =~= s);
    } else {
        lemma_recipe_prefix_bound(s, i + 1);
        lemma_recipe_prefix_step(s, i);
    }
}

/// The field values of a recipe have the recipe's widths.
proof fn lemma_values_width(recipe: Seq<Field>, ops: Seq<Ops>, pc: u64, symmap: Map<u32, u64>)
    ensures
        widths_sum(spec_recipe_values(recipe, ops, pc, symmap)) == recipe_width(recipe),
    decreases recipe.len(),
{
    let values = spec_recipe_values(recipe, ops, pc, symmap);
    if recipe.len() == 0 {
    } else {
        lemma_values_width(recipe.drop_last(), ops, pc, symmap);
        assert(values.drop_last() =~= spec_recipe_values(recipe.drop_last(), ops, pc, symmap));
    }
}

} // verus!

verus! {

/// Everything `process` guarantees about the step from `pre` to
/// `post` for one top-level item of a source whose bytes are `srcb`.
pub open spec fn spec_process_post(pre: Emit, srcb: Seq<u8>, top: Top, post: Emit) -> bool {
    &&& post.wf()
    &&& post.pc == pre.pc || post.pc == pre.pc + 4
    &&& (forall|k: u32|
            pre.labels.addr_map@.contains_key(k) ==> post.labels.addr_map@.contains_key(k) && post.labels.addr_map@[k] == pre.labels.addr_map@[k])
    &&& (forall|k: int|
            0 <= k < pre.errors@.len() ==> post.errors@[k] == pre.errors@[k])
    &&& pre.errors@.len() <= post.errors@.len() <= pre.errors@.len() + 1
    &&& (top matches Top::Label(span) ==> ({
            let s = srcb.subrange(span.start as int, span.end as int);
            &&& post.pc == pre.pc
            &&& post.bin == pre.bin
            &&& post.labels.fixups == pre.labels.fixups
            &&& (pre.spec_label_defined(s) ==> post.labels.addr_map@ == pre.labels.addr_map@ && post.errors@.len() == pre.errors@.len() + 1)
            &&& ((!pre.spec_label_defined(s) && pre.labels.intern.strs@.len() <= (
            u32::MAX - 16) as int) ==> post.spec_label_defined(s) && post.errors@.len() == pre.errors@.len() && exists|i: int|
                0 <= i < post.labels.intern.strs@.len() && (
                #[trigger] post.labels.intern.strs@[i])@ == s && post.labels.addr_map@.contains_key(i as u32) && post.labels.addr_map@[
                    i as u32] == pre.pc)
        }))
    &&& top matches Top::Directive { name, args } ==> post.pc == pre.pc && post.bin == pre.bin && post.labels.fixups == pre.labels.fixups && post.labels.addr_map == pre.labels.addr_map
    &&& (top is Error ==> post == pre)
    &&& (top matches Top::Instruction { mnem, args } ==> ({
            let name = crate::inst::def::spec_mnemonic_of(
                srcb.subrange(mnem.start as int, mnem.end as int).map_values(
                    |c: u8| crate::bytes::spec_upper(c),
                ),
            );
            let exprs = (match args {
                Some(a) => a@,
                None => Seq::<crate::assembler::parse::Expr>::empty(),
            });
            &&& post.labels.addr_map == pre.labels.addr_map
            &&& (post.errors@.len() == pre.errors@.len() + 1 ==> post.bin
                == pre.bin)
            &&& (post.errors@.len() == pre.errors@.len() ==> ({
                let m = name->Some_0;
                let folded = crate::assembler::arg::spec_parse_fold(
                    srcb,
                    exprs,
                    crate::inst::def::spec_schemas_of(m),
                    0,
                    Seq::new(crate::inst::def::spec_variant_count(m), |i: int| false),
                    pre.labels.intern@,
                    exprs.len() as int,
                );
                &&& name is Some
                &&& post.pc == pre.pc + 4
                &&& post.labels.intern@ == folded.2
                &&& exists|vi: int|
                    0 <= vi < crate::inst::def::spec_variant_count(m) && spec_recipe_ok(
                        #[trigger] crate::inst::def::spec_recipe(m, vi),
                        folded.0,
                        pre.pc,
                        pre.labels.addr_map@,
                    ) && post.bin.spec_word32(pre.pc as nat) == spec_recipe_word(
                        crate::inst::def::spec_recipe(m, vi),
                        folded.0,
                        pre.pc,
                        pre.labels.addr_map@,
                    ) && post.labels.fixups@ == pre.labels.fixups@
                        + spec_recipe_fixups(
                        crate::inst::def::spec_recipe(m, vi),
                        folded.0,
                        pre.pc,
                        pre.labels.addr_map@,
                        crate::inst::def::spec_recipe(m, vi).len() as int,
                    )
            }))
        }))
}

impl Emit {
    /// The label named `s` has been given an address.
    pub open spec fn spec_label_defined(&self, s: Seq<u8>) -> bool {
        exists|i: int|
            0 <= i < self.labels.intern.strs@.len() && (#[trigger] self.labels.intern.strs@[i])@
                == s && self.labels.addr_map@.contains_key(i as u32)
    }

    /// Processes one top-level item: defines a label, or selects and
    /// emits an instruction, or runs a directive. Faults are recorded;
    /// none aborts the translation unit. A label is given the current
    /// emission address, exactly once: redefining it is an error that
    /// leaves the symbol table unchanged. An instruction that records no
    /// error names a known mnemonic, parses its arguments by the parse
    /// fold over that mnemonic's schemas, and writes one table variant's
    /// recipe word at the old emission address, enqueueing that recipe's
    /// fixups.
    pub fn process(&mut self, src: &Source, top: &Top)
        requires
            old(self).wf(),
            top.wf(src.content@.len() as int),
        ensures
            final(self).wf(),
            spec_process_post(*old(self), src.content@, *top, *final(self)),
    {
        match top {
            Top::Instruction { mnem, args } => {
                if self.pc > u64::MAX - 4 {
                    self.errors.push(ErrorMacro(Error::Unexpected, "address space"));
                    return ;
                }
                let text = src.span(*mnem);
                let m = match Mnemonic::from_str_lower_or_upper(text) {
                    Some(m) => m,
                    None => {
                        self.errors.push(ErrorMacro(Error::UnmatchedVariant, "mnemonic"));
                        return ;
                    },
                };
                let ghost exprs = (match args {
                    Some(a) => a@,
                    None => Seq::<Expr>::empty(),
                });
                let ghost strs0 = self.labels.intern@;
                let mut parser = ArgParser::new(narrow_variant(m));
                proof {
                    // the fresh selector holds exactly the mnemonic's
                    // schemas, all candidates alive
                    assert(parser.narrow.spec_schemas() =~= crate::inst::def::spec_schemas_of(m))
                        by {
                        assert forall|i: int|
                            0 <= i < parser.narrow.variants@.len() implies #[trigger] parser.narrow.spec_schemas()[i] == crate::inst::def::spec_schemas_of(m)[i] by {
                            assert(parser.narrow.spec_schemas()[i] == parser.narrow.variants@[i]@);
                        }
                    }
                    assert(parser.narrow.failed@ =~= Seq::new(
                        crate::inst::def::spec_variant_count(m),
                        |i: int| false,
                    )) by {
                        assert forall|i: int|
                            0 <= i < parser.narrow.failed@.len() implies parser.narrow.failed@[i]
                            == false by {
                            assert(parser.narrow.spec_alive(i));
                        }
                    }
                }
                let ghost schemas = crate::inst::def::spec_schemas_of(m);
                let ghost failed0 = Seq::new(crate::inst::def::spec_variant_count(m), |i: int| false);
                let ghost folded = crate::assembler::arg::spec_parse_fold(
                    src.content@,
                    exprs,
                    schemas,
                    0,
                    failed0,
                    strs0,
                    exprs.len() as int,
                );
                let mut ops_vec: Vec<Ops> = Vec::new();
                match args {
                    Some(a) => {
                        if a.len() > 16 || self.labels.intern.len() > (u32::MAX - 16) as usize {
                            self.errors.push(ErrorMacro(Error::Unexpected, "arguments"));
                            return ;
                        }
                        parser.parse_args(src, &mut self.labels.intern, a, &mut ops_vec);
                    },
                    None => {},
                }
                proof {
                    assert(ops_vec@ == folded.0);
                    assert(self.labels.intern@ == folded.2);
                }
                match parser.finish() {
                    Ok(vi) => {
                        match crate::inst::def::get_variant_and_emit(m, vi, &ops_vec, self) {
                            Ok(..) => {},
                            Err(em) => {
                                self.errors.push(em);
                            },
                        }
                    },
                    Err(ne) => {
                        let e = match ne {
                            crate::inst::util::NarrowError::Required(..) => Error::Required,
                            _ => Error::UnmatchedVariant,
                        };
                        self.errors.push(ErrorMacro(e, "variant"));
                    },
                }
            },
            Top::Directive { name, args } => {
                let text = src.span(*name);
                let nm = match dir::Name::from_str_lower_or_upper(text) {
                    Some(nm) => nm,
                    None => {
                        self.errors.push(ErrorMacro(Error::Unexpected, "directive"));
                        return ;
                    },
                };
                let mut parser = ArgParser::new(dir::narrow_variant(nm));
                let mut ops_vec: Vec<Ops> = Vec::new();
                match args {
                    Some(a) => {
                        if a.len() > 16 || self.labels.intern.len() > (u32::MAX - 16) as usize {
                            self.errors.push(ErrorMacro(Error::Unexpected, "arguments"));
                            return ;
                        }
                        parser.parse_args(src, &mut self.labels.intern, a, &mut ops_vec);
                    },
                    None => {},
                }
                match dir::select_and_run(nm, &ops_vec) {
                    Ok(..) => {},
                    Err(..) => {
                        self.errors.push(ErrorMacro(Error::Unexpected, "directive"));
                    },
                }
            },
            Top::Label(span) => {
                if self.labels.intern.len() > (u32::MAX - 16) as usize {
                    self.errors.push(ErrorMacro(Error::Unexpected, "labels"));
                    return ;
                }
                let ghost s = src.content@.subrange(span.start as int, span.end as int);
                let text = src.span(*span);
                let key = self.labels.intern.get_or_intern(text);
                if self.labels.addr_map.contains_key(&key.0) {
                    proof {
                        // the key was interned before (the symbol table
                        // only holds interned keys), and it resolves to
                        // the label text, so the label was already
                        // defined
                        assert(old(self).spec_label_defined(s)) by {
                            assert(key.0 < old(self).labels.intern.strs@.len());
                            assert((old(self).labels.intern.strs@[key.0 as int])@ == s);
                        }
                    }
                    self.errors.push(ErrorMacro(Error::DuplicateLabel, "label"));
                } else {
                    proof {
                        if old(self).spec_label_defined(s) {
                            let i = choose|i: int|
                                0 <= i < old(self).labels.intern.strs@.len() && (
                                #[trigger] old(self).labels.intern.strs@[i])@ == s && old(self).labels.addr_map@.contains_key(i as u32);
                            assert((self.labels.intern.strs@[i])@ == s);
                            crate::intern::lemma_intern_keys_injective(
                                self.labels.intern,
                                key,
                                crate::intern::Key(i as u32),
                            );
                        }
                    }
                    self.labels.addr_map.insert(key.0, self.pc);
                    proof {
                        assert((self.labels.intern.strs@[key.0 as int])@ == s);
                        assert(self.labels.addr_map@.contains_key(key.0));
                    }
                }
            },
            Top::Error => {},
        }
    }
}

} // verus!

verus! {

use crate::bitstack::lemma_patch_field;

/// PC-relative fixups recover the forward word: for a branch at `pc`
/// whose label field was emitted as a zero placeholder because `key` was
/// still undefined, patching that field with the encoded displacement to
/// the label's address gives exactly the word that would have been
/// emitted had the label been defined beforehand. The encoded
/// displacement itself is the two's complement encoding, in `bits` bits,
/// of the displacement right-shifted by `rs`.
pub proof fn lemma_fixup_round_trip(
    recipe: Seq<Field>,
    ops: Seq<Ops>,
    pc: u64,
    map1: Map<u32, u64>,
    map2: Map<u32, u64>,
    i: int,
    idx: usize,
    bits: u32,
    rs: u32,
    l: crate::inst::operand::op::Label,
    addr: u64,
    enc: u32,
)
    requires
        recipe_width(recipe) == 32,
        0 <= i < recipe.len(),
        recipe[i] == (Field::Label { idx, bits, rs }),
        spec_arg(ops, idx as int) == Some(Ops::Label(l)),
        !map1.contains_key(l.0.0),
        map2 == map1.insert(l.0.0, addr),
        forall|j: int|
            0 <= j < recipe.len() && j != i ==> spec_field_value(#[trigger] recipe[j], ops, pc, map1)
                == spec_field_value(recipe[j], ops, pc, map2),
        spec_encode_simm(bits as nat, rs as nat, spec_signed_diff(addr, pc)) == Ok::<u32, Error>(
            enc,
        ),
    ensures
        spec_patch_bits(
            spec_recipe_word(recipe, ops, pc, map1) as u32,
            enc,
            bits as nat,
            recipe_width(recipe.take(i)),
        ) == spec_recipe_word(recipe, ops, pc, map2),
        (enc as int) == (spec_signed_diff(addr, pc) / (pow2(rs as nat) as int)) % (pow2(
            bits as nat,
        ) as int),
{
    let values1 = spec_recipe_values(recipe, ops, pc, map1);
    let values2 = spec_recipe_values(recipe, ops, pc, map2);
    assert(spec_field_value(recipe[i], ops, pc, map1) == Ok::<u32, Error>(0));
    assert(map2.contains_key(l.0.0) && map2[l.0.0] == addr);
    assert(spec_field_value(recipe[i], ops, pc, map2) == Ok::<u32, Error>(enc));
    assert(values1[i] == (0u32, bits as nat));
    assert(values2[i] == (enc, bits as nat));
    assert(values2 =~= values1.update(i, (enc, bits as nat)));
    lemma_values_width(recipe, ops, pc, map1);
    assert(widths_sum(values1) == 32);
    // the prefix widths of the value sequence follow the recipe
    lemma_values_take(recipe, ops, pc, map1, i);
    lemma_values_take(recipe, ops, pc, map1, i + 1);
    assert(widths_sum(values1.take(i)) == recipe_width(recipe.take(i)));
    // split the total width around field i
    lemma_widths_split(values1, i);
    lemma_stack_value_bound(values1);
    vstd::arithmetic::power2::lemma2_to64();
    lemma_patch_field(values1, i, enc);
}

/// The value prefix of a recipe prefix is the prefix of the values.
proof fn lemma_values_take(recipe: Seq<Field>, ops: Seq<Ops>, pc: u64, symmap: Map<u32, u64>, i: int)
    requires
        0 <= i <= recipe.len(),
    ensures
        spec_recipe_values(recipe, ops, pc, symmap).take(i) =~= spec_recipe_values(
            recipe.take(i),
            ops,
            pc,
            symmap,
        ),
        widths_sum(spec_recipe_values(recipe, ops, pc, symmap).take(i)) == recipe_width(
            recipe.take(i),
        ),
{
    assert(spec_recipe_values(recipe, ops, pc, symmap).take(i) =~= spec_recipe_values(
        recipe.take(i),
        ops,
        pc,
        symmap,
    ));
    lemma_values_width(recipe.take(i), ops, pc, symmap);
}

/// The width sum splits around any index.
proof fn lemma_widths_split(values: Seq<(u32, nat)>, i: int)
    requires
        0 <= i < values.len(),
    ensures
        widths_sum(values) == widths_sum(values.take(i)) + values[i].1 + widths_sum(
            values.skip(i + 1),
        ),
{
    let a = values.take(i);
    let f = values.subrange(i, i + 1);
    let b = values.skip(i + 1);
    assert(values =~= (a + f) + b);
    crate::bitstack::lemma_stack_value_append(a + f, b);
    crate::bitstack::lemma_stack_value_append(a, f);
    assert(f.len() == 1);
    assert(f.last() == values[i]);
    assert(f.drop_last() =~= Seq::<(u32, nat)>::empty());
    assert(widths_sum(f.drop_last()) == 0);
    assert(widths_sum(f) == values[i].1);
}

} // verus!

verus! {

/// The emitter states threaded through processing a sequence of items
/// in source order: each item's step satisfies the processing relation.
pub open spec fn spec_items_processed(pre: Emit, srcb: Seq<u8>, items: Seq<Top>, post: Emit) -> bool
    decreases items.len(),
{
    if items.len() == 0 {
        post == pre
    } else {
        exists|mid: Emit|
            #[trigger] spec_process_post(pre, srcb, items[0], mid) && spec_items_processed(
                mid,
                srcb,
                items.skip(1),
                post,
            )
    }
}

/// Extending a processed chain by one more processed item.
proof fn lemma_items_processed_snoc(
    pre: Emit,
    srcb: Seq<u8>,
    items: Seq<Top>,
    mid: Emit,
    t: Top,
    post: Emit,
)
    requires
        spec_items_processed(pre, srcb, items, mid),
        spec_process_post(mid, srcb, t, post),
    ensures
        spec_items_processed(pre, srcb, items.push(t), post),
    decreases items.len(),
{
    if items.len() == 0 {
        assert(items.push(t)[0] == t);
        assert(items.push(t).skip(1) =~= Seq::<Top>::empty());
        assert(spec_items_processed(post, srcb, items.push(t).skip(1), post));
    } else {
        let m1 = choose|m1: Emit|
            #[trigger] spec_process_post(pre, srcb, items[0], m1) && spec_items_processed(
                m1,
                srcb,
                items.skip(1),
                mid,
            );
        lemma_items_processed_snoc(m1, srcb, items.skip(1), mid, t, post);
        assert(items.push(t).skip(1) =~= items.skip(1).push(t));
        assert(items.push(t)[0] == items[0]);
    }
}

/// What draining the fixup queue guarantees between the pre-drain and
/// the final emitter.
pub open spec fn spec_drained(pre: Emit, post: Emit) -> bool {
    &&& post.wf()
    &&& post.labels.addr_map == pre.labels.addr_map
    &&& post.labels.intern == pre.labels.intern
    &&& post.labels.fixups@.len() == 0
    &&& spec_fixups_applied(
        pre.labels.addr_map@,
        pre.bin,
        pre.errors@,
        pre.labels.fixups@,
        post.bin,
        post.errors@,
    )
}

/// Runs the emitter over a parsed sequence of top-level items and then
/// drains the fixups: the result is reachable from a fresh emitter
/// through the per-item processing relation, followed by the drain.
pub fn process_items(src: &Source, tops: &Vec<Top>) -> (r: Emit)
    requires
        forall|i: int| 0 <= i < tops@.len() ==> (#[trigger] tops@[i]).wf(src.content@.len() as int),
    ensures
        r.wf(),
        r.labels.fixups@.len() == 0,
        exists|e0: Emit, mid: Emit|
            spec_emit_initial(e0) && #[trigger] spec_items_processed(e0, src.content@, tops@, mid)
                && #[trigger] spec_drained(mid, r),
{
    let mut e = Emit::new();
    let ghost e0 = e;
    let n = tops.len();
    let mut i: usize = 0;
    while i < n
        invariant
            e.wf(),
            spec_emit_initial(e0),
            n == tops@.len(),
            i <= n,
            forall|k: int| 0 <= k < tops@.len() ==> (#[trigger] tops@[k]).wf(src.content@.len() as int),
            spec_items_processed(e0, src.content@, tops@.take(i as int), e),
        decreases n - i,
    {
        let ghost pre = e;
        e.process(src, &tops[i]);
        proof {
            lemma_items_processed_snoc(
                e0,
                src.content@,
                tops@.take(i as int),
                pre,
                tops@[i as int],
                e,
            );
            assert(tops@.take(i as int).push(tops@[i as int]) =~= tops@.take(i + 1));
        }
        i = i + 1;
    }
    proof {
        assert(tops@.take(n as int) =~= tops@);
    }
    let ghost mid = e;
    e.apply_fixups();
    proof {
        assert(spec_items_processed(e0, src.content@, tops@, mid));
        assert(spec_drained(mid, e));
    }
    e
}

} // verus!
