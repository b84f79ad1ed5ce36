//! The variant selector: narrows the set of candidate variants of a
//! mnemonic while the arguments are parsed, one operand kind at a time.

use vstd::prelude::*;

verus! {

use vstd::arithmetic::power2::{pow2, lemma2_to64};
use crate::inst::operand::{Kind, Ops};

/// One parameter of a variant's schema: an operand kind, required or
/// optional.
#[derive(PartialEq, Eq, Clone, Copy, Debug, Structural)]
pub enum Param {
    Req(Kind),
    Opt(Kind),
}

impl Param {
    /// The operand kind this parameter expects.
    pub open spec fn spec_kind(self) -> Kind {
        match self {
            Param::Req(k) => k,
            Param::Opt(k) => k,
        }
    }

    pub fn kind(self) -> (r: Kind)
        ensures
            r == self.spec_kind(),
    {
        match self {
            Param::Req(k) => k,
            Param::Opt(k) => k,
        }
    }
}

/// Every `Req` parameter precedes every `Opt` parameter.
pub open spec fn spec_rest_are_opt(params: Seq<Param>) -> bool {
    forall|i: int, j: int|
        0 <= i < j < params.len() && (#[trigger] params[i]) is Opt ==> (#[trigger] params[j]) is Opt
}

/// Checks that no required parameter follows an optional one.
pub fn rest_are_opt(args: &[Param]) -> (r: bool)
    ensures
        r == spec_rest_are_opt(args@),
{
    let n = args.len();
    let mut i: usize = 0;
    let mut marker: bool = false;
    while i < n
        invariant
            n == args@.len(),
            i <= n,
            marker == (exists|k: int| 0 <= k < i && (#[trigger] args@[k]) is Opt),
            forall|p: int, q: int|
                0 <= p < q < i && (#[trigger] args@[p]) is Opt ==> (#[trigger] args@[q]) is Opt,
        decreases n - i,
    {
        match args[i] {
            Param::Req(..) => {
                if marker {
                    proof {
                        let k = choose|k: int| 0 <= k < i && (#[trigger] args@[k]) is Opt;
                        assert(args@[k] is Opt && args@[i as int] is Req);
                    }
                    return false;
                }
            },
            Param::Opt(..) => {
                marker = true;
            },
        }
        i = i + 1;
    }
    true
}

/// An argument list matches a schema when each present argument has the
/// expected kind and the parameters left over are all optional.
pub open spec fn spec_is_variant(ops: Seq<Ops>, expect: Seq<Param>) -> bool {
    &&& ops.len() <= expect.len()
    &&& forall|i: int|
        0 <= i < ops.len() ==> (#[trigger] expect[i]).spec_kind() == ops[i].spec_kind()
    &&& forall|j: int| ops.len() <= j < expect.len() ==> (#[trigger] expect[j]) is Opt
}

/// Checks an argument list against one schema.
pub fn is_variant(ops: &Vec<Ops>, expect: &[Param]) -> (r: bool)
    ensures
        r == spec_is_variant(ops@, expect@),
{
    let n = ops.len();
    let m = expect.len();
    if n > m {
        return false;
    }
    let mut i: usize = 0;
    while i < n
        invariant
            n == ops@.len(),
            m == expect@.len(),
            n <= m,
            i <= n,
            forall|k: int| 0 <= k < i ==> (#[trigger] expect@[k]).spec_kind() == ops@[k].spec_kind(),
        decreases n - i,
    {
        if !kind_eq(expect[i].kind(), ops[i].kind()) {
            return false;
        }
        i = i + 1;
    }
    let mut j: usize = n;
    while j < m
        invariant
            n == ops@.len(),
            m == expect@.len(),
            n <= j <= m,
            forall|k: int| 0 <= k < n ==> (#[trigger] expect@[k]).spec_kind() == ops@[k].spec_kind(),
            forall|k: int| n <= k < j ==> (#[trigger] expect@[k]) is Opt,
        decreases m - j,
    {
        if matches!(expect[j], Param::Req(..)) {
            return false;
        }
        j = j + 1;
    }
    true
}

/// Structural equality of two kind tags.
pub fn kind_eq(a: Kind, b: Kind) -> (r: bool)
    ensures
        r == (a == b),
{
    a == b
}

/// Why the selector could not settle on one variant.
#[derive(Debug, PartialEq, Eq, Structural)]
pub enum NarrowError {
    /// One variant is still live but its next parameter, of this kind,
    /// is required and missing.
    Required(Kind),
    /// More than one variant could accept the arguments.
    Multiple,
    /// No variant can accept the arguments.
    NoMatch,
}

/// True if, with the given schemas and rule-out state, some live
/// candidate expects `kind` at the current index.
pub open spec fn spec_allows_m(
    schemas: Seq<Seq<Param>>,
    index: int,
    failed: Seq<bool>,
    kind: Kind,
) -> bool {
    exists|i: int|
        0 <= i < schemas.len() && !failed[i] && index < (#[trigger] schemas[i]).len()
            && schemas[i][index].spec_kind() == kind
}

/// The rule-out state after checking `kind` at the current index: a
/// candidate stays live only if it was live and expects `kind` there.
pub open spec fn spec_kill_m(
    schemas: Seq<Seq<Param>>,
    index: int,
    failed: Seq<bool>,
    kind: Kind,
) -> Seq<bool> {
    Seq::new(
        failed.len(),
        |i: int|
            failed[i] || !(index < schemas[i].len() && schemas[i][index].spec_kind() == kind),
    )
}

/// The selector: the candidate schemas of one mnemonic, the number of
/// operand kinds checked so far, and which candidates have failed.
pub struct NarrowVariant {
    pub variants: Vec<Vec<Param>>,
    pub index: usize,
    pub failed: Vec<bool>,
}

impl NarrowVariant {
    pub open spec fn wf(&self) -> bool {
        self.failed@.len() == self.variants@.len()
    }

    /// The candidate schemas, as sequences.
    pub open spec fn spec_schemas(&self) -> Seq<Seq<Param>> {
        self.variants@.map_values(|v: Vec<Param>| v@)
    }

    /// True if some live candidate expects `kind` at the current index.
    pub open spec fn spec_allows(&self, kind: Kind) -> bool {
        spec_allows_m(self.spec_schemas(), self.index as int, self.failed@, kind)
    }

    /// Candidate `i` has not been ruled out yet.
    pub open spec fn spec_alive(&self, i: int) -> bool {
        !self.failed@[i]
    }

    /// Candidate `i` could be selected as the arguments stand: it is
    /// alive and its remaining parameters, if any, start optional.
    pub open spec fn spec_completable(&self, i: int) -> bool {
        &&& self.spec_alive(i)
        &&& (self.index >= self.variants@[i]@.len() || self.variants@[i]@[self.index as int]
            is Opt)
    }

    pub fn new(variants: Vec<Vec<Param>>) -> (r: Self)
        ensures
            r.wf(),
            r.variants == variants,
            r.index == 0,
            forall|i: int| 0 <= i < variants@.len() ==> r.spec_alive(i),
    {
        let n = variants.len();
        let mut failed: Vec<bool> = Vec::new();
        let mut i: usize = 0;
        while i < n
            invariant
                i <= n,
                failed@.len() == i,
                forall|k: int| 0 <= k < i ==> !failed@[k],
            decreases n - i,
        {
            failed.push(false);
            i = i + 1;
        }
        NarrowVariant { variants, index: 0, failed }
    }

    /// True if some live variant expects `kind` at the current index.
    pub fn allow(&self, kind: Kind) -> (r: bool)
        requires
            self.wf(),
        ensures
            r == self.spec_allows(kind),
    {
        let n = self.variants.len();
        let mut i: usize = 0;
        while i < n
            invariant
                self.wf(),
                n == self.variants@.len(),
                i <= n,
                forall|k: int|
                    0 <= k < i ==> !(self.spec_alive(k) && self.index < (
                    #[trigger] self.variants@[k])@.len() && self.variants@[k]@[self.index as int].spec_kind()
                        == kind),
            decreases n - i,
        {
            if !self.failed[i] {
                let variant = &self.variants[i];
                if self.index < variant.len() {
                    if kind_eq(variant[self.index].kind(), kind) {
                        proof {
                            assert(self.spec_schemas()[i as int] == self.variants@[i as int]@);
                        }
                        return true;
                    }
                }
            }
            i = i + 1;
        }
        proof {
            assert forall|k: int| 0 <= k < n implies #[trigger] self.spec_schemas()[k]
                == self.variants@[k]@ by {}
        }
        false
    }

    /// Rules out every live variant that does not expect `kind` at the
    /// current index, then advances the index.
    pub fn check_next(&mut self, kind: Kind)
        requires
            old(self).wf(),
            old(self).index < usize::MAX,
        ensures
            final(self).wf(),
            final(self).variants == old(self).variants,
            final(self).index == old(self).index + 1,
            forall|i: int|
                0 <= i < old(self).variants@.len() ==> (final(self).spec_alive(i) <==> (old(
                    self,
                ).spec_alive(i) && old(self).index < (#[trigger] old(self).variants@[i])@.len()
                    && old(self).variants@[i]@[old(self).index as int].spec_kind() == kind)),
    {
        let n = self.variants.len();
        let mut i: usize = 0;
        while i < n
            invariant
                self.wf(),
                self.variants == old(self).variants,
                self.index == old(self).index,
                n == self.variants@.len(),
                i <= n,
                forall|k: int|
                    i <= k < n ==> (self.spec_alive(k) == old(self).spec_alive(k)),
                forall|k: int|
                    0 <= k < i ==> (self.spec_alive(k) <==> (old(self).spec_alive(k) && old(
                        self,
                    ).index < (#[trigger] old(self).variants@[k])@.len() && old(
                        self,
                    ).variants@[k]@[old(self).index as int].spec_kind() == kind)),
            decreases n - i,
        {
            if !self.failed[i] {
                let keep = {
                    let variant = &self.variants[i];
                    if self.index < variant.len() {
                        kind_eq(variant[self.index].kind(), kind)
                    } else {
                        false
                    }
                };
                if !keep {
                    self.failed[i] = true;
                }
            }
            i = i + 1;
        }
        self.index = self.index + 1;
    }

    /// Settles on a variant: the single candidate that can accept the
    /// arguments as they stand. When none can, reports whether a single
    /// live variant was only missing a required operand, and of which
    /// kind.
    pub fn finish(self) -> (r: Result<usize, NarrowError>)
        requires
            self.wf(),
        ensures
            match r {
                Ok(i) => 0 <= i < self.variants@.len() && self.spec_completable(i as int) && forall|
                    j: int,
                |
                    0 <= j < self.variants@.len() && j != i ==> !self.spec_completable(j),
                Err(NarrowError::Multiple) => exists|i: int, j: int|
                    0 <= i < j < self.variants@.len() && self.spec_completable(i)
                        && self.spec_completable(j),
                Err(NarrowError::Required(k)) => (forall|j: int|
                    0 <= j < self.variants@.len() ==> !self.spec_completable(j)) && exists|i: int|
                    0 <= i < self.variants@.len() && self.spec_alive(i) && (forall|j: int|
                        0 <= j < self.variants@.len() && j != i ==> !self.spec_alive(j)) && self.index
                        < (#[trigger] self.variants@[i])@.len() && self.variants@[i]@[self.index as int]
                        == Param::Req(k),
                Err(NarrowError::NoMatch) => (forall|j: int|
                    0 <= j < self.variants@.len() ==> !self.spec_completable(j)) && !(exists|i: int|
                    0 <= i < self.variants@.len() && self.spec_alive(i) && (forall|j: int|
                        0 <= j < self.variants@.len() && j != i ==> !self.spec_alive(j))
                        && self.index < (#[trigger] self.variants@[i])@.len()),
            },
    {
        let n = self.variants.len();
        let mut completable_count: usize = 0;
        let mut completable_idx: usize = 0;
        let mut alive_count: usize = 0;
        let mut alive_idx: usize = 0;
        let mut i: usize = 0;
        while i < n
            invariant
                self.wf(),
                n == self.variants@.len(),
                i <= n,
                completable_count <= i,
                alive_count <= i,
                completable_count == 0 ==> forall|k: int| 0 <= k < i ==> !self.spec_completable(k),
                completable_count == 1 ==> completable_idx < i && self.spec_completable(
                    completable_idx as int,
                ) && forall|k: int|
                    0 <= k < i && k != completable_idx ==> !self.spec_completable(k),
                completable_count >= 2 ==> exists|p: int, q: int|
                    0 <= p < q < i && self.spec_completable(p) && self.spec_completable(q),
                alive_count == 0 ==> forall|k: int| 0 <= k < i ==> !self.spec_alive(k),
                alive_count == 1 ==> alive_idx < i && self.spec_alive(alive_idx as int) && forall|
                    k: int,
                | 0 <= k < i && k != alive_idx ==> !self.spec_alive(k),
                alive_count >= 2 ==> exists|p: int, q: int|
                    0 <= p < q < i && self.spec_alive(p) && self.spec_alive(q),
            decreases n - i,
        {
            if !self.failed[i] {
                if alive_count == 0 {
                    alive_idx = i;
                } else {
                    proof {
                        if alive_count == 1 {
                            assert(self.spec_alive(alive_idx as int) && self.spec_alive(i as int)
                                && alive_idx < i);
                        }
                    }
                }
                alive_count = alive_count + 1;
                let variant = &self.variants[i];
                if self.index >= variant.len() || matches!(variant[self.index], Param::Opt(..)) {
                    if completable_count == 0 {
                        completable_idx = i;
                    } else {
                        proof {
                            if completable_count == 1 {
                                assert(self.spec_completable(completable_idx as int)
                                    && self.spec_completable(i as int) && completable_idx < i);
                            }
                        }
                    }
                    completable_count = completable_count + 1;
                }
            }
            i = i + 1;
        }
        if completable_count == 1 {
            Ok(completable_idx)
        } else if completable_count > 1 {
            Err(NarrowError::Multiple)
        } else if alive_count == 1 {
            let variant = &self.variants[alive_idx];
            if self.index < variant.len() {
                match variant[self.index] {
                    Param::Req(k) => Err(NarrowError::Required(k)),
                    Param::Opt(..) => {
                        // an alive variant with an optional next parameter
                        // is completable, and none is
                        proof {
                            assert(self.spec_completable(alive_idx as int));
                        }
                        Err(NarrowError::NoMatch)
                    },
                }
            } else {
                proof {
                    assert(self.spec_completable(alive_idx as int));
                }
                Err(NarrowError::NoMatch)
            }
        } else {
            Err(NarrowError::NoMatch)
        }
    }

    /// Candidate `i` has been ruled out.
    pub fn is_fail(&self, i: usize) -> (r: bool)
        requires
            self.wf(),
            i < self.variants@.len(),
        ensures
            r == !self.spec_alive(i as int),
    {
        self.failed[i]
    }
}

/// The number of value bits in a binary literal written as `0b...`.
pub fn binary_string(s: &'static str) -> (r: u8)
    requires
        s@.len() >= 2,
        s@.len() <= 34,
    ensures
        r == s@.len() - 2,
{
    (s.unicode_len() - 2) as u8
}

/// The value of a string of `0` and `1` bytes, read most significant
/// bit first.
pub open spec fn spec_bit_str(s: Seq<u8>) -> nat
    decreases s.len(),
{
    if s.len() == 0 {
        0
    } else {
        spec_bit_str(s.drop_last()) * 2 + (if s.last() == 49 {
            1nat
        } else {
            0nat
        })
    }
}

/// Parses a string of `0` and `1` bytes into a value, most significant
/// bit first.
pub fn bit_str_u32(s: &[u8]) -> (r: u32)
    requires
        s@.len() <= 32,
        forall|i: int| 0 <= i < s@.len() ==> s@[i] == 48 || s@[i] == 49,
    ensures
        r == spec_bit_str(s@),
        r < pow2(s@.len()),
{
    proof {
        lemma2_to64();
    }
    let n = s.len();
    let mut i: usize = 0;
    let mut acc: u32 = 0;
    while i < n
        invariant
            n == s@.len() <= 32,
            i <= n,
            forall|k: int| 0 <= k < n ==> s@[k] == 48 || s@[k] == 49,
            acc == spec_bit_str(s@.take(i as int)),
            acc < pow2(i as nat),
            pow2(32) == 0x1_0000_0000,
        decreases n - i,
    {
        proof {
            vstd::arithmetic::power2::lemma_pow2_unfold((i + 1) as nat);
            if i + 1 < 32 {
                vstd::arithmetic::power2::lemma_pow2_strictly_increases((i + 1) as nat, 32);
            }
            assert(s@.take(i + 1).drop_last() =~= s@.take(i as int));
            assert(s@.take(i + 1).last() == s@[i as int]);
        }
        let bit: u32 = if s[i] == 49 {
            1
        } else {
            0
        };
        acc = acc * 2 + bit;
        i = i + 1;
    }
    proof {
        assert(s@.take(n as int) =~= s@);
    }
    acc
}

} // verus!
