//! The operand parser: turns argument expressions into typed operands,
//! narrowing the candidate variants of the mnemonic as it goes.

use vstd::prelude::*;

verus! {

use crate::assembler::parse::{
    lemma_digits_value_prefix,
    spec_digits_value,
    Expr,
    IdentInt,
    IntLiteral,
};
use crate::bytes::{bytes_eq_upper, spec_upper};
use crate::code::{Source, Span};
use crate::inst::operand::{
    op,
    spec_condkind_of,
    spec_extendkind_of,
    CondKind,
    ExtendKind,
    GprKind,
    GprSize,
    Kind,
    Ops,
    ShiftKind,
};
use crate::inst::util::{spec_allows_m, spec_kill_m, NarrowError, NarrowVariant, Param};
use crate::intern::Intern;

/// The bytes a span covers.
pub open spec fn spec_text(src: Seq<u8>, sp: Span) -> Seq<u8> {
    src.subrange(sp.start as int, sp.end as int)
}

/// The decimal register number a byte string names, if it is one or
/// more ASCII digits whose value fits a byte.
pub open spec fn spec_reg_number(s: Seq<u8>) -> Option<u8> {
    if s.len() >= 1 && (forall|i: int|
        0 <= i < s.len() ==> crate::assembler::lex::spec_is_digit(#[trigger] s[i]))
        && spec_digits_value(s, 10) <= 255 {
        Some(spec_digits_value(s, 10) as u8)
    } else {
        None
    }
}

/// The register a byte string names, per the register syntax: `SP`,
/// `WSP`, `ZR`, `WZR`, or an `X`/`W` letter followed by a register
/// number up to 30, compared without regard to case (the codes spell
/// those names).
pub open spec fn spec_gpr_text(t: Seq<u8>) -> Option<op::Gpr> {
    let u = t.map_values(|c: u8| spec_upper(c));
    if u == seq![83u8, 80u8] {
        Some(op::Gpr { reg: GprKind::SP, size: GprSize::B8 })
    } else if u == seq![87u8, 83u8, 80u8] {
        Some(op::Gpr { reg: GprKind::SP, size: GprSize::B4 })
    } else if u == seq![90u8, 82u8] {
        Some(op::Gpr { reg: GprKind::ZR, size: GprSize::B8 })
    } else if u == seq![87u8, 90u8, 82u8] {
        Some(op::Gpr { reg: GprKind::ZR, size: GprSize::B4 })
    } else if t.len() >= 2 && (u[0] == 88 || u[0] == 87) {
        match spec_reg_number(t.skip(1)) {
            Some(v) => if v <= 30 {
                Some(
                    op::Gpr {
                        reg: GprKind::R(v),
                        size: if u[0] == 88 {
                            GprSize::B8
                        } else {
                            GprSize::B4
                        },
                    },
                )
            } else {
                None
            },
            None => None,
        }
    } else {
        None
    }
}

/// The shift modifier a name and an amount denote: one of the shift
/// kinds, with an amount that fits a byte.
pub open spec fn spec_shift_parts(t: Seq<u8>, value: u64) -> Option<op::Shift> {
    match crate::inst::operand::spec_shiftkind_of(t.map_values(|c: u8| spec_upper(c))) {
        Some(k) => if value <= 255 {
            Some(op::Shift { kind: k, amount: value as u8 })
        } else {
            None
        },
        None => None,
    }
}

/// The extend modifier a name and an optional amount denote; a plain
/// `LSL` (the codes spell it) is the alias of the 64-bit extend.
pub open spec fn spec_extend_parts(t: Seq<u8>, amount: Option<u64>) -> Option<op::Extend> {
    let u = t.map_values(|c: u8| spec_upper(c));
    let kind = match spec_extendkind_of(u) {
        Some(k) => Some(k),
        None => if u == seq![76u8, 83u8, 76u8] {
            Some(ExtendKind::UXTX)
        } else {
            None
        },
    };
    match kind {
        Some(k) => match amount {
            Some(a) => if a <= 255 {
                Some(op::Extend { kind: k, left_shift_amount: Some(a as u8) })
            } else {
                None
            },
            None => Some(op::Extend { kind: k, left_shift_amount: None }),
        },
        None => None,
    }
}

/// The condition a byte string names.
pub open spec fn spec_cond_text(t: Seq<u8>) -> Option<op::Cond> {
    match spec_condkind_of(t.map_values(|c: u8| spec_upper(c))) {
        Some(k) => Some(op::Cond(k)),
        None => None,
    }
}

/// The amount carried by an optional integer literal.
pub open spec fn spec_amount(a: Option<IntLiteral>) -> Option<u64> {
    match a {
        Some(l) => Some(l.value),
        None => None,
    }
}

/// The operand one argument expression parses to, given the selector
/// state (which gates each kind) and the interned strings (which give a
/// label its key): a bare identifier is tried as a register, an extend,
/// a condition and a label, in that order; an identifier with an integer
/// as a shift then an extend; an integer literal is a signed immediate.
pub open spec fn spec_parse_one(
    src: Seq<u8>,
    e: Expr,
    schemas: Seq<Seq<Param>>,
    index: int,
    failed: Seq<bool>,
    strs: Seq<Seq<u8>>,
) -> Ops {
    match e {
        Expr::Ident { span } => {
            let t = spec_text(src, span);
            if spec_allows_m(schemas, index, failed, Kind::Gpr) && spec_gpr_text(t) is Some {
                Ops::Gpr(spec_gpr_text(t)->Some_0)
            } else if spec_allows_m(schemas, index, failed, Kind::Extend) && spec_extend_parts(
                t,
                None,
            ) is Some {
                Ops::Extend(spec_extend_parts(t, None)->Some_0)
            } else if spec_allows_m(schemas, index, failed, Kind::Cond) && spec_cond_text(t)
                is Some {
                Ops::Cond(spec_cond_text(t)->Some_0)
            } else if spec_allows_m(schemas, index, failed, Kind::Label) {
                Ops::Label(op::Label(crate::intern::Key(Intern::spec_key_of(strs, t) as u32)))
            } else {
                Ops::Error
            }
        },
        Expr::IdentInt(ii) => {
            let t = spec_text(src, ii.span);
            if spec_allows_m(schemas, index, failed, Kind::Shift) && spec_shift_parts(
                t,
                ii.num.value,
            ) is Some {
                Ops::Shift(spec_shift_parts(t, ii.num.value)->Some_0)
            } else if spec_allows_m(schemas, index, failed, Kind::Extend) && spec_extend_parts(
                t,
                Some(ii.num.value),
            ) is Some {
                Ops::Extend(spec_extend_parts(t, Some(ii.num.value))->Some_0)
            } else {
                Ops::Error
            }
        },
        Expr::IntLiteral(l) => if l.value <= i64::MAX {
            Ops::Imm(op::Imm(l.value as i64))
        } else {
            Ops::Error
        },
        _ => Ops::Error,
    }
}

/// The interned strings after parsing one argument expression: only a
/// bare identifier that falls through to the label case interns its
/// text.
pub open spec fn spec_intern_after_one(
    src: Seq<u8>,
    e: Expr,
    schemas: Seq<Seq<Param>>,
    index: int,
    failed: Seq<bool>,
    strs: Seq<Seq<u8>>,
) -> Seq<Seq<u8>> {
    match e {
        Expr::Ident { span } => {
            let t = spec_text(src, span);
            if spec_allows_m(schemas, index, failed, Kind::Gpr) && spec_gpr_text(t) is Some {
                strs
            } else if spec_allows_m(schemas, index, failed, Kind::Extend) && spec_extend_parts(
                t,
                None,
            ) is Some {
                strs
            } else if spec_allows_m(schemas, index, failed, Kind::Cond) && spec_cond_text(t)
                is Some {
                strs
            } else if spec_allows_m(schemas, index, failed, Kind::Label) {
                Intern::spec_after_intern(strs, t)
            } else {
                strs
            }
        },
        _ => strs,
    }
}

/// The operands, rule-out state and interned strings after parsing the
/// first `upto` argument expressions, each against the state the
/// previous one left, with the selector's index advancing by one per
/// argument.
pub open spec fn spec_parse_fold(
    src: Seq<u8>,
    args: Seq<Expr>,
    schemas: Seq<Seq<Param>>,
    index0: int,
    failed0: Seq<bool>,
    strs0: Seq<Seq<u8>>,
    upto: int,
) -> (Seq<Ops>, Seq<bool>, Seq<Seq<u8>>)
    decreases upto,
{
    if upto <= 0 {
        (Seq::<Ops>::empty(), failed0, strs0)
    } else {
        let prev = spec_parse_fold(src, args, schemas, index0, failed0, strs0, upto - 1);
        let one = spec_parse_one(src, args[upto - 1], schemas, index0 + upto - 1, prev.1, prev.2);
        (
            prev.0.push(one),
            spec_kill_m(schemas, index0 + upto - 1, prev.1, one.spec_kind()),
            spec_intern_after_one(src, args[upto - 1], schemas, index0 + upto - 1, prev.1, prev.2),
        )
    }
}

/// Parses a decimal register number: at least one digit, digits only,
/// value at most 255.
pub fn byte_str_to_u8(s: &[u8]) -> (r: Option<u8>)
    ensures
        r == spec_reg_number(s@),
{
    let n = s.len();
    if n == 0 {
        return None;
    }
    let mut acc: u16 = 0;
    let mut i: usize = 0;
    while i < n
        invariant
            n == s@.len(),
            i <= n,
            acc <= 255,
            acc == spec_digits_value(s@.take(i as int), 10),
            forall|k: int| 0 <= k < i ==> crate::assembler::lex::spec_is_digit(#[trigger] s@[k]),
        decreases n - i,
    {
        let b = s[i];
        proof {
            assert(s@.take(i + 1).drop_last() =~= s@.take(i as int));
            assert(s@.take(i + 1).last() == s@[i as int]);
        }
        if b < 48 || b > 57 {
            return None;
        }
        let v = (b - 48) as u16;
        if acc > 25 || (acc == 25 && v > 5) {
            // the value has outgrown a byte, and appending digits never
            // shrinks it
            proof {
                lemma_digits_value_prefix(s@, 10, i + 1);
            }
            return None;
        }
        acc = acc * 10 + v;
        i = i + 1;
    }
    proof {
        assert(s@.take(n as int) =~= s@);
    }
    Some(acc as u8)
}

/// The operand parser: wraps the variant selector for one instruction or
/// directive.
pub struct ArgParser {
    pub narrow: NarrowVariant,
}

impl ArgParser {
    pub open spec fn wf(&self) -> bool {
        self.narrow.wf()
    }

    pub fn new(narrow: NarrowVariant) -> (r: Self)
        ensures
            r.narrow == narrow,
    {
        ArgParser { narrow }
    }

    /// True if some live variant expects this kind next.
    fn allow(&self, kind: Kind) -> (r: bool)
        requires
            self.wf(),
        ensures
            r == self.narrow.spec_allows(kind),
    {
        self.narrow.allow(kind)
    }

    /// Parses a condition-code name.
    fn parse_cond(&self, src: &Source, s: Span) -> (r: Option<op::Cond>)
        requires
            self.wf(),
            s.start <= s.end <= src.content@.len(),
        ensures
            r == (if self.narrow.spec_allows(Kind::Cond) {
                spec_cond_text(spec_text(src.content@, s))
            } else {
                Option::<op::Cond>::None
            }),
    {
        if !self.allow(Kind::Cond) {
            return None;
        }
        let text = src.span(s);
        match CondKind::from_str_lower_or_upper(text) {
            Some(kind) => Some(op::Cond(kind)),
            None => None,
        }
    }

    /// Parses a register name: `X0..X30`, `W0..W30`, `SP`, `WSP`, `ZR`,
    /// `WZR`.
    fn parse_gpr(&self, src: &Source, s: Span) -> (r: Option<op::Gpr>)
        requires
            self.wf(),
            s.start <= s.end <= src.content@.len(),
        ensures
            r == (if self.narrow.spec_allows(Kind::Gpr) {
                spec_gpr_text(spec_text(src.content@, s))
            } else {
                Option::<op::Gpr>::None
            }),
    {
        if !self.allow(Kind::Gpr) {
            return None;
        }
        let text = src.span(s);
        let ghost t = spec_text(src.content@, s);
        let sp: Vec<u8> = vec![83u8, 80u8];
        let wsp: Vec<u8> = vec![87u8, 83u8, 80u8];
        let zr: Vec<u8> = vec![90u8, 82u8];
        let wzr: Vec<u8> = vec![87u8, 90u8, 82u8];
        proof {
            assert(sp@ =~= seq![83u8, 80u8]);
            assert(wsp@ =~= seq![87u8, 83u8, 80u8]);
            assert(zr@ =~= seq![90u8, 82u8]);
            assert(wzr@ =~= seq![87u8, 90u8, 82u8]);
        }
        if bytes_eq_upper(text, sp.as_slice()) {
            return Some(op::Gpr { reg: GprKind::SP, size: GprSize::B8 });
        }
        if bytes_eq_upper(text, wsp.as_slice()) {
            return Some(op::Gpr { reg: GprKind::SP, size: GprSize::B4 });
        }
        if bytes_eq_upper(text, zr.as_slice()) {
            return Some(op::Gpr { reg: GprKind::ZR, size: GprSize::B8 });
        }
        if bytes_eq_upper(text, wzr.as_slice()) {
            return Some(op::Gpr { reg: GprKind::ZR, size: GprSize::B4 });
        }
        if text.len() < 2 {
            return None;
        }
        let first = text[0];
        proof {
            assert(t.map_values(|c: u8| spec_upper(c))[0] == spec_upper(t[0]));
        }
        let size = if first == 88 || first == 120 {
            // 'X' or 'x'
            GprSize::B8
        } else if first == 87 || first == 119 {
            // 'W' or 'w'
            GprSize::B4
        } else {
            return None;
        };
        let rest = crate::code::slice_range(text, 1, text.len());
        proof {
            assert(rest@ =~= t.skip(1));
        }
        let reg = match byte_str_to_u8(rest) {
            Some(v) => v,
            None => {
                return None;
            },
        };
        if reg > 30 {
            return None;
        }
        Some(op::Gpr { reg: GprKind::R(reg), size })
    }

    /// Parses a shift modifier such as `LSL #12`.
    fn parse_shift(&self, src: &Source, expr: &IdentInt) -> (r: Option<op::Shift>)
        requires
            self.wf(),
            expr.span.start <= expr.span.end <= src.content@.len(),
        ensures
            r == (if self.narrow.spec_allows(Kind::Shift) {
                spec_shift_parts(spec_text(src.content@, expr.span), expr.num.value)
            } else {
                Option::<op::Shift>::None
            }),
    {
        if !self.allow(Kind::Shift) {
            return None;
        }
        let text = src.span(expr.span);
        let kind = match ShiftKind::from_str_lower_or_upper(text) {
            Some(k) => k,
            None => {
                return None;
            },
        };
        if expr.num.value > 255 {
            return None;
        }
        Some(op::Shift { kind, amount: expr.num.value as u8 })
    }

    /// Parses an extend modifier such as `UXTX` or `SXTW #2`; a plain
    /// `LSL` is the alias of the 64-bit extend.
    fn parse_extend(&self, src: &Source, span: Span, amount: Option<IntLiteral>) -> (r: Option<
        op::Extend,
    >)
        requires
            self.wf(),
            span.start <= span.end <= src.content@.len(),
        ensures
            r == (if self.narrow.spec_allows(Kind::Extend) {
                spec_extend_parts(spec_text(src.content@, span), spec_amount(amount))
            } else {
                Option::<op::Extend>::None
            }),
    {
        if !self.allow(Kind::Extend) {
            return None;
        }
        let text = src.span(span);
        let kind = match ExtendKind::from_str_lower_or_upper(text) {
            Some(k) => Some(k),
            None => {
                let lsl: Vec<u8> = vec![76u8, 83u8, 76u8];
                proof {
                    assert(lsl@ =~= seq![76u8, 83u8, 76u8]);
                }
                if bytes_eq_upper(text, lsl.as_slice()) {
                    Some(ExtendKind::UXTX)
                } else {
                    None
                }
            },
        };
        let kind = match kind {
            Some(k) => k,
            None => {
                return None;
            },
        };
        let left_shift_amount = match amount {
            Some(l) => {
                if l.value > 255 {
                    return None;
                }
                Some(l.value as u8)
            },
            None => None,
        };
        Some(op::Extend { kind, left_shift_amount })
    }

    /// Interns a label reference.
    fn parse_label(&self, src: &Source, intern: &mut Intern, span: Span) -> (r: Option<op::Label>)
        requires
            self.wf(),
            span.start <= span.end <= src.content@.len(),
            old(intern).wf(),
            old(intern).strs@.len() < u32::MAX,
        ensures
            final(intern).wf(),
            old(intern).strs@.len() <= final(intern).strs@.len() <= old(intern).strs@.len() + 1,
            r matches Some(l) ==> (l.0.0 as int) < final(intern).strs@.len(),
            self.narrow.spec_allows(Kind::Label) ==> r == Some(
                op::Label(
                    crate::intern::Key(
                        Intern::spec_key_of(old(intern)@, spec_text(src.content@, span)) as u32,
                    ),
                ),
            ) && final(intern)@ == Intern::spec_after_intern(
                old(intern)@,
                spec_text(src.content@, span),
            ),
            !self.narrow.spec_allows(Kind::Label) ==> r is None && final(intern)@ == old(intern)@,
    {
        if !self.allow(Kind::Label) {
            return None;
        }
        let text = src.span(span);
        let key = intern.get_or_intern(text);
        proof {
            assert(0 <= Intern::spec_key_of(old(intern)@, text@) < u32::MAX);
        }
        Some(op::Label(key))
    }

    /// Parses a bare identifier: a register, an extend, a condition or a
    /// label, tried in that order against the live variants.
    fn parse_ident(&self, src: &Source, intern: &mut Intern, span: Span) -> (r: Ops)
        requires
            self.wf(),
            span.start <= span.end <= src.content@.len(),
            old(intern).wf(),
            old(intern).strs@.len() < u32::MAX,
        ensures
            final(intern).wf(),
            old(intern).strs@.len() <= final(intern).strs@.len() <= old(intern).strs@.len() + 1,
            ops_label_wf(r, final(intern).strs@.len() as int),
            r == spec_parse_one(
                src.content@,
                Expr::Ident { span },
                self.narrow.spec_schemas(),
                self.narrow.index as int,
                self.narrow.failed@,
                old(intern)@,
            ),
            final(intern)@ == spec_intern_after_one(
                src.content@,
                Expr::Ident { span },
                self.narrow.spec_schemas(),
                self.narrow.index as int,
                self.narrow.failed@,
                old(intern)@,
            ),
    {
        match self.parse_gpr(src, span) {
            Some(g) => {
                return Ops::Gpr(g);
            },
            None => {},
        }
        match self.parse_extend(src, span, None) {
            Some(x) => {
                return Ops::Extend(x);
            },
            None => {},
        }
        match self.parse_cond(src, span) {
            Some(c) => {
                return Ops::Cond(c);
            },
            None => {},
        }
        match self.parse_label(src, intern, span) {
            Some(l) => {
                return Ops::Label(l);
            },
            None => {},
        }
        Ops::Error
    }

    /// Parses an identifier-with-integer: a shift or an extend modifier.
    /// This arm of the parse never reads the interned strings, so the
    /// contract passes an empty sequence for them.
    fn parse_ident_int(&self, src: &Source, expr: &IdentInt) -> (r: Ops)
        requires
            self.wf(),
            expr.span.start <= expr.span.end <= src.content@.len(),
        ensures
            r is Shift || r is Extend || r is Error,
            r == spec_parse_one(
                src.content@,
                Expr::IdentInt(*expr),
                self.narrow.spec_schemas(),
                self.narrow.index as int,
                self.narrow.failed@,
                Seq::<Seq<u8>>::empty(),
            ),
    {
        match self.parse_shift(src, expr) {
            Some(s) => {
                return Ops::Shift(s);
            },
            None => {},
        }
        match self.parse_extend(src, expr.span, Some(expr.num)) {
            Some(x) => {
                return Ops::Extend(x);
            },
            None => {},
        }
        Ops::Error
    }

    /// Parses every argument expression into an operand, narrowing the
    /// candidate variants after each one: the operands, the selector's
    /// rule-out state, and the interned strings all follow the parse
    /// fold, and the selector's index advances once per argument.
    pub fn parse_args(&mut self, src: &Source, intern: &mut Intern, args: &Vec<Expr>, vec: &mut Vec<
        Ops,
    >)
        requires
            old(self).wf(),
            old(intern).wf(),
            old(vec)@.len() == 0,
            old(self).narrow.index + args@.len() <= usize::MAX,
            old(intern).strs@.len() + args@.len() <= u32::MAX,
            forall|i: int| 0 <= i < args@.len() ==> (#[trigger] args@[i]).wf(src.content@.len() as int),
        ensures
            final(self).wf(),
            final(intern).wf(),
            final(self).narrow.variants == old(self).narrow.variants,
            final(self).narrow.index == old(self).narrow.index + args@.len(),
            old(intern).strs@.len() <= final(intern).strs@.len() <= old(intern).strs@.len()
                + args@.len(),
            final(vec)@.len() == args@.len(),
            forall|i: int|
                0 <= i < final(vec)@.len() ==> ops_label_wf(
                    #[trigger] final(vec)@[i],
                    final(intern).strs@.len() as int,
                ),
            ({
                let folded = spec_parse_fold(
                    src.content@,
                    args@,
                    old(self).narrow.spec_schemas(),
                    old(self).narrow.index as int,
                    old(self).narrow.failed@,
                    old(intern)@,
                    args@.len() as int,
                );
                &&& final(vec)@ == folded.0
                &&& final(self).narrow.failed@ == folded.1
                &&& final(intern)@ == folded.2
            }),
    {
        let ghost srcb = src.content@;
        let ghost schemas0 = self.narrow.spec_schemas();
        let ghost idx0 = self.narrow.index as int;
        let ghost failed0 = self.narrow.failed@;
        let ghost strs0 = intern@;
        let n = args.len();
        let mut i: usize = 0;
        while i < n
            invariant
                self.wf(),
                intern.wf(),
                self.narrow.variants == old(self).narrow.variants,
                schemas0 == self.narrow.spec_schemas(),
                idx0 == old(self).narrow.index as int,
                failed0 == old(self).narrow.failed@,
                strs0 == old(intern)@,
                srcb == src.content@,
                n == args@.len(),
                i <= n,
                self.narrow.index == old(self).narrow.index + i,
                old(self).narrow.index + n <= usize::MAX,
                old(intern).strs@.len() <= intern.strs@.len() <= old(intern).strs@.len() + i,
                old(intern).strs@.len() + n <= u32::MAX,
                vec@.len() == i,
                forall|k: int| 0 <= k < n ==> (#[trigger] args@[k]).wf(src.content@.len() as int),
                forall|k: int|
                    0 <= k < vec@.len() ==> ops_label_wf(
                        #[trigger] vec@[k],
                        intern.strs@.len() as int,
                    ),
                ({
                    let folded = spec_parse_fold(srcb, args@, schemas0, idx0, failed0, strs0, i as int);
                    vec@ == folded.0 && self.narrow.failed@ == folded.1 && intern@ == folded.2
                }),
            decreases n - i,
        {
            let ghost pre_vec = vec@;
            let ghost pre_intern = *intern;
            let ghost pre_failed = self.narrow.failed@;
            let arg = &args[i];
            let op: Ops = match arg {
                Expr::Ident { span } => self.parse_ident(src, intern, *span),
                Expr::IdentInt(expr) => self.parse_ident_int(src, expr),
                Expr::IntLiteral(lit) => {
                    if lit.value <= i64::MAX as u64 {
                        Ops::Imm(op::Imm(lit.value as i64))
                    } else {
                        Ops::Error
                    }
                },
                _ => Ops::Error,
            };
            proof {
                assert(op == spec_parse_one(srcb, args@[i as int], schemas0, idx0 + i, pre_failed, pre_intern@));
                assert(intern@ == spec_intern_after_one(
                    srcb,
                    args@[i as int],
                    schemas0,
                    idx0 + i,
                    pre_failed,
                    pre_intern@,
                ));
            }
            self.narrow.check_next(op.kind());
            vec.push(op);
            proof {
                assert(pre_intern.strs@.len() <= intern.strs@.len());
                assert forall|k: int| 0 <= k < vec@.len() implies ops_label_wf(
                    #[trigger] vec@[k],
                    intern.strs@.len() as int,
                ) by {
                    if k < vec@.len() - 1 {
                        assert(vec@[k] == pre_vec[k]);
                        assert(ops_label_wf(pre_vec[k], pre_intern.strs@.len() as int));
                    } else {
                        assert(vec@[k] == op);
                    }
                }
            }
            i = i + 1;
        }
        proof {
            assert(i == n);
        }
    }

    /// Settles on the selected variant: the single completable
    /// candidate, or the reason there is none.
    pub fn finish(self) -> (r: Result<usize, NarrowError>)
        requires
            self.wf(),
        ensures
            match r {
                Ok(i) => 0 <= i < self.narrow.variants@.len() && self.narrow.spec_completable(
                    i as int,
                ) && forall|j: int|
                    0 <= j < self.narrow.variants@.len() && j != i
                        ==> !self.narrow.spec_completable(j),
                Err(NarrowError::Multiple) => exists|i: int, j: int|
                    0 <= i < j < self.narrow.variants@.len() && self.narrow.spec_completable(i)
                        && self.narrow.spec_completable(j),
                Err(NarrowError::Required(k)) => (forall|j: int|
                    0 <= j < self.narrow.variants@.len() ==> !self.narrow.spec_completable(j))
                    && exists|i: int|
                    0 <= i < self.narrow.variants@.len() && self.narrow.spec_alive(i) && (forall|
                        j: int,
                    |
                        0 <= j < self.narrow.variants@.len() && j != i ==> !self.narrow.spec_alive(
                            j,
                        )) && self.narrow.index < (#[trigger] self.narrow.variants@[i])@.len()
                        && self.narrow.variants@[i]@[self.narrow.index as int] == Param::Req(k),
                Err(NarrowError::NoMatch) => forall|j: int|
                    0 <= j < self.narrow.variants@.len() ==> !self.narrow.spec_completable(j),
            },
    {
        self.narrow.finish()
    }
}

/// A label operand's key is backed by an interner holding `ilen` strings.
pub open spec fn ops_label_wf(o: Ops, ilen: int) -> bool {
    o matches Ops::Label(l) ==> (l.0.0 as int) < ilen
}

} // verus!
