//! A 32-bit shift register that builds one instruction word bit-field by
//! bit-field, most significant field first, plus the patch operation that
//! rewrites a single field of an already assembled word.
//!
//! Fields are modelled arithmetically: appending a field of width `w`
//! multiplies the word built so far by `pow2(w)` and adds the field's
//! value reduced modulo `pow2(w)`.

use vstd::prelude::*;

verus! {

use vstd::arithmetic::power2::{pow2, lemma_pow2_adds, lemma_pow2_pos};
use vstd::arithmetic::div_mod::{
    lemma_fundamental_div_mod_converse_div,
    lemma_fundamental_div_mod_converse_mod,
    lemma_small_mod,
};
use crate::bits::{extract_bits, pow2_u64};

/// The word that results from appending the low `len` bits of `value` to
/// `current`, dropping whatever `current` held in its top `len` bits.
pub open spec fn spec_push_bits(current: u32, value: u32, len: nat) -> nat
    recommends
        len <= 32,
{
    ((current as nat) % pow2((32 - len) as nat)) * pow2(len) + ((value as nat) % pow2(len))
}

/// The word `current` with the field of width `len` that starts `offset`
/// bits below the most significant bit replaced by the low `len` bits of
/// `value`.
pub open spec fn spec_patch_bits(current: u32, value: u32, len: nat, offset: nat) -> nat
    recommends
        offset + len <= 32,
{
    let tail = (32 - offset - len) as nat;
    let hi = (current as nat) / pow2((32 - offset) as nat);
    let lo = (current as nat) % pow2(tail);
    (hi * pow2(len) + ((value as nat) % pow2(len))) * pow2(tail) + lo
}

/// Appending a field below a bounded prefix stays within the combined width.
pub proof fn lemma_append_bits_bound(hi: nat, lo: nat, a: nat, b: nat)
    requires
        hi < pow2(a),
        lo < pow2(b),
    ensures
        hi * pow2(b) + lo < pow2(a + b),
{
    lemma_pow2_adds(a, b);
    lemma_pow2_pos(a);
    lemma_pow2_pos(b);
    assert(hi * pow2(b) + lo < pow2(a) * pow2(b)) by (nonlinear_arith)
        requires
            hi < pow2(a),
            lo < pow2(b),
            pow2(a) >= 1,
            pow2(b) >= 1,
    ;
}

/// Pushes the low `len` bits of `value` onto `current`.
pub fn push_bits_u32(current: u32, value: u32, len: u8) -> (r: u32)
    requires
        len <= 32,
    ensures
        r == spec_push_bits(current, value, len as nat),
{
    let keep = pow2_u64(32 - (len as u32));
    let width = pow2_u64(len as u32);
    let c = (current as u64) % keep;
    let v = (value as u64) % width;
    proof {
        vstd::arithmetic::power2::lemma2_to64();
        lemma_append_bits_bound(c as nat, v as nat, (32 - len) as nat, len as nat);
        lemma_pow2_adds((32 - len) as nat, len as nat);
    }
    (c * width + v) as u32
}

/// Rewrites the field of width `bit_len` that starts `offset` bits below
/// the most significant bit of `current`.
pub fn push_bits_offset_u32(current: u32, value: u32, bit_len: u8, offset: u8) -> (r: u32)
    requires
        offset + bit_len <= 32,
    ensures
        r == spec_patch_bits(current, value, bit_len as nat, offset as nat),
{
    let tail: u32 = 32 - (offset as u32) - (bit_len as u32);
    let hi = (current as u64) / pow2_u64(32 - (offset as u32));
    let lo = (current as u64) % pow2_u64(tail);
    let v = (value as u64) % pow2_u64(bit_len as u32);
    proof {
        vstd::arithmetic::power2::lemma2_to64();
        lemma_pow2_pos((32 - offset) as nat);
        lemma_pow2_adds((32 - offset) as nat, offset as nat);
        assert((current as nat) / pow2((32 - offset) as nat) < pow2(offset as nat)) by {
            lemma_div_bound(current as nat, (32 - offset) as nat, offset as nat);
        }
        lemma_append_bits_bound(hi as nat, v as nat, offset as nat, bit_len as nat);
        lemma_append_bits_bound(
            (hi * pow2(bit_len as nat) + v) as nat,
            lo as nat,
            (offset + bit_len) as nat,
            tail as nat,
        );
        lemma_pow2_adds((offset + bit_len) as nat, tail as nat);
    }
    let mid = hi * pow2_u64(bit_len as u32) + v;
    (mid * pow2_u64(tail) + lo) as u32
}

/// Dividing a value below `pow2(a + b)` by `pow2(a)` stays below `pow2(b)`.
proof fn lemma_div_bound(x: nat, a: nat, b: nat)
    requires
        x < pow2(a + b),
    ensures
        x / pow2(a) < pow2(b),
{
    lemma_pow2_pos(a);
    lemma_pow2_pos(b);
    lemma_pow2_adds(a, b);
    assert(x / pow2(a) < pow2(b)) by (nonlinear_arith)
        requires
            x < pow2(a) * pow2(b),
            pow2(a) >= 1,
            pow2(b) >= 1,
    ;
}

/// The word assembled from a sequence of `(value, width)` fields, most
/// significant field first.
pub open spec fn stack_value(fields: Seq<(u32, nat)>) -> nat
    decreases fields.len(),
{
    if fields.len() == 0 {
        0
    } else {
        let last = fields.last();
        stack_value(fields.drop_last()) * pow2(last.1) + ((last.0 as nat) % pow2(last.1))
    }
}

/// The total width of a sequence of fields.
pub open spec fn widths_sum(fields: Seq<(u32, nat)>) -> nat
    decreases fields.len(),
{
    if fields.len() == 0 {
        0
    } else {
        widths_sum(fields.drop_last()) + fields.last().1
    }
}

/// The assembled word fits in the total width.
pub proof fn lemma_stack_value_bound(fields: Seq<(u32, nat)>)
    ensures
        stack_value(fields) < pow2(widths_sum(fields)),
    decreases fields.len(),
{
    if fields.len() == 0 {
        vstd::arithmetic::power2::lemma2_to64();
    } else {
        let last = fields.last();
        lemma_stack_value_bound(fields.drop_last());
        lemma_pow2_pos(last.1);
        lemma_append_bits_bound(
            stack_value(fields.drop_last()),
            (last.0 as nat) % pow2(last.1),
            widths_sum(fields.drop_last()),
            last.1,
        );
    }
}

/// Assembling a concatenation splits into the two parts.
pub proof fn lemma_stack_value_append(a: Seq<(u32, nat)>, b: Seq<(u32, nat)>)
    ensures
        stack_value(a + b) == stack_value(a) * pow2(widths_sum(b)) + stack_value(b),
        widths_sum(a + b) == widths_sum(a) + widths_sum(b),
    decreases b.len(),
{
    if b.len() == 0 {
        assert(a + b =~= a);
        vstd::arithmetic::power2::lemma2_to64();
        assert(pow2(0) == 1);
        assert(stack_value(b) == 0);
        assert(widths_sum(b) == 0);
    } else {
        let b0 = b.drop_last();
        let last = b.last();
        lemma_stack_value_append(a, b0);
        assert((a + b).drop_last() =~= a + b0);
        assert((a + b).last() == last);
        lemma_pow2_adds(widths_sum(b0), last.1);
        let sa = stack_value(a);
        let sb0 = stack_value(b0);
        let wb0 = widths_sum(b0);
        let m = (last.0 as nat) % pow2(last.1);
        assert(stack_value(a + b) == stack_value(a + b0) * pow2(last.1) + m);
        assert(stack_value(b) == sb0 * pow2(last.1) + m);
        assert(widths_sum(b) == wb0 + last.1);
        assert((sa * pow2(wb0) + sb0) * pow2(last.1) + m == sa * (pow2(wb0) * pow2(last.1)) + (sb0
            * pow2(last.1) + m)) by (nonlinear_arith);
        assert(pow2(wb0) * pow2(last.1) == pow2(wb0 + last.1));
    }
}

/// Any field of an assembled word can be read back: extracting the bits
/// at the field's position recovers the value that was pushed, reduced to
/// the field's width.
pub proof fn lemma_bit_stack_round_trip(fields: Seq<(u32, nat)>, i: int)
    requires
        0 <= i < fields.len(),
    ensures
        extract_bits(
            stack_value(fields),
            widths_sum(fields.skip(i + 1)),
            fields[i].1,
        ) == (fields[i].0 as nat) % pow2(fields[i].1),
{
    let a = fields.take(i);
    let f = fields.subrange(i, i + 1);
    let b = fields.skip(i + 1);
    assert(fields =~= (a + f) + b);
    lemma_stack_value_append(a + f, b);
    lemma_stack_value_append(a, f);
    let w = fields[i].1;
    let m = (fields[i].0 as nat) % pow2(w);
    assert(f.len() == 1);
    assert(f.last() == fields[i]);
    assert(f.drop_last() =~= Seq::<(u32, nat)>::empty());
    assert(stack_value(f.drop_last()) == 0);
    assert(widths_sum(f.drop_last()) == 0);
    vstd::arithmetic::mul::lemma_mul_basics(pow2(f.last().1) as int);
    assert(stack_value(f) == stack_value(f.drop_last()) * pow2(f.last().1) + ((f.last().0 as nat)
        % pow2(f.last().1)));
    assert(stack_value(f) == m) by (nonlinear_arith)
        requires
            stack_value(f) == stack_value(f.drop_last()) * pow2(f.last().1) + ((f.last().0 as nat)
                % pow2(f.last().1)),
            stack_value(f.drop_last()) == 0,
            m == ((f.last().0 as nat) % pow2(f.last().1)),
    ;
    assert(widths_sum(f) == w);
    let sa = stack_value(a);
    let sb = stack_value(b);
    let wb = widths_sum(b);
    lemma_stack_value_bound(b);
    lemma_pow2_pos(wb);
    lemma_pow2_pos(w);
    // stack_value(fields) == (sa * pow2(w) + m) * pow2(wb) + sb
    let top = sa * pow2(w) + m;
    lemma_fundamental_div_mod_converse_div(stack_value(fields) as int, pow2(wb) as int, top as int, sb as int);
    assert(stack_value(fields) / pow2(wb) == top);
    lemma_mod_of_append(sa, m, w);
}

/// The low `w` bits of `hi * pow2(w) + m` are `m`, when `m < pow2(w)`.
proof fn lemma_mod_of_append(hi: nat, m: nat, w: nat)
    requires
        m < pow2(w),
    ensures
        (hi * pow2(w) + m) % pow2(w) == m,
{
    lemma_pow2_pos(w);
    lemma_fundamental_div_mod_converse_mod((hi * pow2(w) + m) as int, pow2(w) as int, hi as int, m as int);
}

/// Patching the field at position `i` of an assembled word gives the word
/// that would have been assembled with the new value in that field.
pub proof fn lemma_patch_field(fields: Seq<(u32, nat)>, i: int, v: u32)
    requires
        0 <= i < fields.len(),
        widths_sum(fields) <= 32,
        stack_value(fields) <= u32::MAX,
        widths_sum(fields.take(i)) + fields[i].1 + widths_sum(fields.skip(i + 1)) == 32,
    ensures
        spec_patch_bits(
            stack_value(fields) as u32,
            v,
            fields[i].1,
            widths_sum(fields.take(i)),
        ) == stack_value(fields.update(i, (v, fields[i].1))),
{
    let a = fields.take(i);
    let f = fields.subrange(i, i + 1);
    let b = fields.skip(i + 1);
    assert(fields =~= (a + f) + b);
    lemma_stack_value_append(a + f, b);
    lemma_stack_value_append(a, f);
    let w = fields[i].1;
    let m = (fields[i].0 as nat) % pow2(w);
    assert(f.len() == 1);
    assert(f.last() == fields[i]);
    assert(f.drop_last() =~= Seq::<(u32, nat)>::empty());
    assert(stack_value(f.drop_last()) == 0);
    assert(widths_sum(f.drop_last()) == 0);
    vstd::arithmetic::mul::lemma_mul_basics(pow2(f.last().1) as int);
    assert(stack_value(f) == stack_value(f.drop_last()) * pow2(f.last().1) + ((f.last().0 as nat)
        % pow2(f.last().1)));
    assert(stack_value(f) == m) by (nonlinear_arith)
        requires
            stack_value(f) == stack_value(f.drop_last()) * pow2(f.last().1) + ((f.last().0 as nat)
                % pow2(f.last().1)),
            stack_value(f.drop_last()) == 0,
            m == ((f.last().0 as nat) % pow2(f.last().1)),
    ;
    assert(widths_sum(f) == w);
    let sa = stack_value(a);
    let sb = stack_value(b);
    let wa = widths_sum(a);
    let wb = widths_sum(b);
    lemma_stack_value_bound(a);
    lemma_stack_value_bound(b);
    lemma_pow2_pos(w);
    lemma_pow2_pos(wa);
    lemma_pow2_pos(wb);
    let word = stack_value(fields);
    let top = sa * pow2(w) + m;
    // decompose: word == top * pow2(wb) + sb, and top == sa * pow2(w) + m
    lemma_fundamental_div_mod_converse_mod(word as int, pow2(wb) as int, top as int, sb as int);
    assert(word % pow2(wb) == sb);
    // the high `wa` bits of the word are exactly `sa`
    lemma_pow2_adds(w, wb);
    assert(word == sa * (pow2(w) * pow2(wb)) + (m * pow2(wb) + sb)) by (nonlinear_arith)
        requires
            word == (sa * pow2(w) + m) * pow2(wb) + sb,
    ;
    lemma_append_bits_bound(m, sb, w, wb);
    lemma_fundamental_div_mod_converse_div(
        word as int,
        (pow2(w) * pow2(wb)) as int,
        sa as int,
        (m * pow2(wb) + sb) as int,
    );
    assert(word / pow2((w + wb) as nat) == sa);
    assert(32 - wa - w == wb);
    assert(32 - wa == w + wb);
    // the patched word, by definition
    let patched = spec_patch_bits(word as u32, v, w, wa);
    assert(patched == (sa * pow2(w) + ((v as nat) % pow2(w))) * pow2(wb) + sb);
    // the word assembled with the new value
    let fields2 = fields.update(i, (v, w));
    assert(fields2 =~= (a + seq![(v, w)]) + b);
    lemma_stack_value_append(a + seq![(v, w)], b);
    lemma_stack_value_append(a, seq![(v, w)]);
    let g = seq![(v, w)];
    assert(g.len() == 1);
    assert(g.last() == (v, w));
    assert(g.drop_last() =~= Seq::<(u32, nat)>::empty());
    assert(stack_value(g.drop_last()) == 0);
    assert(widths_sum(g.drop_last()) == 0);
    vstd::arithmetic::mul::lemma_mul_basics(pow2(g.last().1) as int);
    assert(stack_value(g) == stack_value(g.drop_last()) * pow2(g.last().1) + ((g.last().0 as nat)
        % pow2(g.last().1)));
    let mg = (v as nat) % pow2(w);
    assert(mg == ((g.last().0 as nat) % pow2(g.last().1)));
    assert(stack_value(g) == mg) by (nonlinear_arith)
        requires
            stack_value(g) == stack_value(g.drop_last()) * pow2(g.last().1) + ((g.last().0 as nat)
                % pow2(g.last().1)),
            stack_value(g.drop_last()) == 0,
            mg == ((g.last().0 as nat) % pow2(g.last().1)),
    ;
    assert(widths_sum(g) == w);
}

/// The 32-bit shift register: a partially assembled word and the number of
/// bits pushed so far.
pub struct BitStackU32 {
    pub value: u32,
    pub len: u8,
}

impl BitStackU32 {
    /// The pushed bits fit the declared length.
    pub open spec fn wf(&self) -> bool {
        self.len <= 32 && (self.value as nat) < pow2(self.len as nat)
    }

    pub fn new() -> (r: Self)
        ensures
            r.wf(),
            r.value == 0,
            r.len == 0,
    {
        proof {
            vstd::arithmetic::power2::lemma2_to64();
        }
        Self { value: 0, len: 0 }
    }

    /// Appends the low `bit_len` bits of `value`.
    pub fn push(&mut self, value: u32, bit_len: u8)
        requires
            old(self).wf(),
            old(self).len + bit_len <= 32,
        ensures
            final(self).wf(),
            final(self).len == old(self).len + bit_len,
            final(self).value == old(self).value * pow2(bit_len as nat) + (value as nat) % pow2(
                bit_len as nat,
            ),
    {
        proof {
            if (self.len as nat) < (32 - bit_len) as nat {
                vstd::arithmetic::power2::lemma_pow2_strictly_increases(
                    self.len as nat,
                    (32 - bit_len) as nat,
                );
            }
            lemma_small_mod(self.value as nat, pow2((32 - bit_len) as nat));
            lemma_pow2_pos(bit_len as nat);
            lemma_append_bits_bound(
                self.value as nat,
                (value as nat) % pow2(bit_len as nat),
                self.len as nat,
                bit_len as nat,
            );
            lemma_pow2_pos(bit_len as nat);
        }
        self.len = self.len + bit_len;
        self.value = push_bits_u32(self.value, value, bit_len);
    }

    /// True when all 32 bits of the word have been pushed.
    pub fn all_bits_written(&self) -> (r: bool)
        ensures
            r == (self.len == 32),
    {
        self.len == 32
    }

    /// The number of bits pushed so far; for `push_bits_offset_u32`, the
    /// offset of a field is the length before its push.
    pub fn len(&self) -> (r: u8)
        ensures
            r == self.len,
    {
        self.len
    }

    pub fn value(&self) -> (r: u32)
        ensures
            r == self.value,
    {
        self.value
    }

    /// Fills the remaining bits with zeros.
    pub fn fill_zero(&mut self)
        requires
            old(self).wf(),
        ensures
            final(self).wf(),
            final(self).len == 32,
            final(self).value == old(self).value * pow2((32 - old(self).len) as nat),
    {
        let rem = 32 - self.len;
        proof {
            lemma_pow2_pos(rem as nat);
            lemma_small_mod(0, pow2(rem as nat));
        }
        self.push(0, rem);
    }
}

} // verus!
