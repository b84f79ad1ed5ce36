//! Width-parametric range checks, alignment checks and mask construction
//! for the fixed-width bit fields of an instruction word.

use vstd::prelude::*;

verus! {

use vstd::arithmetic::power2::{
    pow2,
    lemma_pow2_unfold,
    lemma_pow2_strictly_increases,
    lemma_pow2_pos,
    lemma2_to64,
    lemma2_to64_rest,
};
use vstd::arithmetic::div_mod::lemma_mod_multiples_vanish;

/// number of bits
pub type BitCt = u32;

/// runtime type for alignment
pub type Align = usize;

/// The bits of `v` at positions `low .. low + width`, read as an integer.
pub open spec fn extract_bits(v: nat, low: nat, width: nat) -> nat {
    (v / pow2(low)) % pow2(width)
}

/// `pow2(e)` as an executable value.
pub fn pow2_u64(e: u32) -> (r: u64)
    requires
        e < 64,
    ensures
        r == pow2(e as nat),
        r >= 1,
{
    let mut i: u32 = 0;
    let mut r: u64 = 1;
    proof {
        lemma2_to64();
        lemma2_to64_rest();
    }
    while i < e
        invariant
            i <= e < 64,
            r == pow2(i as nat),
            pow2(63) == 0x8000000000000000,
        decreases e - i,
    {
        proof {
            lemma_pow2_unfold((i + 1) as nat);
            if i + 1 < 63 {
                lemma_pow2_strictly_increases((i + 1) as nat, 63);
            }
        }
        r = r * 2;
        i = i + 1;
    }
    proof {
        lemma_pow2_pos(e as nat);
    }
    r
}

/// Returns true if `value` fits into the range of an unsigned integer of
/// `BITS` bit count.
pub fn uint_in_range<const BITS: u32>(value: u64) -> (r: bool)
    requires
        BITS <= 64,
    ensures
        r == ((value as nat) < pow2(BITS as nat)),
{
    if BITS >= 64 {
        proof {
            lemma2_to64_rest();
        }
        true
    } else {
        value < pow2_u64(BITS)
    }
}

/// Returns true if `value` would fit into the range of a two's complement
/// integer of `BITS` bits.
pub fn sint_in_range<const BITS: u32>(value: i64) -> (r: bool)
    requires
        1 <= BITS <= 64,
    ensures
        r == (-(pow2((BITS - 1) as nat) as int) <= value < pow2((BITS - 1) as nat)),
{
    if BITS >= 64 {
        proof {
            lemma2_to64_rest();
        }
        true
    } else {
        let half = pow2_u64(BITS - 1);
        proof {
            if BITS - 1 < 63 {
                lemma_pow2_strictly_increases((BITS - 1) as nat, 63);
            }
            lemma2_to64_rest();
        }
        -(half as i64) <= value && value < half as i64
    }
}

/// Returns true if the low `ALIGN` bits of `value` are all zero.
pub fn uint_low_zeros<const ALIGN: u32>(value: u64) -> (r: bool)
    requires
        ALIGN < 64,
    ensures
        r == ((value as nat) % pow2(ALIGN as nat) == 0),
{
    value % pow2_u64(ALIGN) == 0
}

/// Returns true if the low `ALIGN` bits of the two's complement
/// representation of `value` are all zero.
pub fn sint_low_zeros<const ALIGN: u32>(value: i64) -> (r: bool)
    requires
        ALIGN < 63,
    ensures
        r == ((value as int) % (pow2(ALIGN as nat) as int) == 0),
{
    let p = pow2_u64(ALIGN);
    // the two's complement image of `value`, equal to it modulo pow2(64)
    let m: u64 = if value >= 0 {
        value as u64
    } else {
        u64::MAX - ((-(value + 1)) as u64)
    };
    proof {
        lemma2_to64_rest();
        lemma_pow2_pos(ALIGN as nat);
        if value < 0 {
            assert(m == value + pow2(64));
            vstd::arithmetic::power2::lemma_pow2_adds(ALIGN as nat, (64 - ALIGN) as nat);
            lemma_mod_multiples_vanish(pow2((64 - ALIGN) as nat) as int, value as int, p as int);
        }
    }
    m % p == 0
}

/// The largest value an unsigned integer of `BITS` bits can hold.
pub fn uint_max_value<const BITS: u32>() -> (r: u64)
    requires
        1 <= BITS <= 64,
    ensures
        r == pow2(BITS as nat) - 1,
{
    if BITS >= 64 {
        proof {
            lemma2_to64_rest();
        }
        u64::MAX
    } else {
        pow2_u64(BITS) - 1
    }
}

/// The largest value a two's complement integer of `BITS` bits can hold.
pub fn sint_max_value<const BITS: u32>() -> (r: i64)
    requires
        1 <= BITS <= 64,
    ensures
        r == pow2((BITS - 1) as nat) - 1,
{
    if BITS >= 64 {
        proof {
            lemma2_to64_rest();
        }
        i64::MAX
    } else {
        let half = pow2_u64(BITS - 1);
        proof {
            if BITS - 1 < 63 {
                lemma_pow2_strictly_increases((BITS - 1) as nat, 63);
            }
            lemma2_to64_rest();
        }
        (half as i64) - 1
    }
}

/// The smallest value a two's complement integer of `BITS` bits can hold.
pub fn sint_min_value<const BITS: u32>() -> (r: i64)
    requires
        1 <= BITS <= 64,
    ensures
        r == -(pow2((BITS - 1) as nat) as int),
{
    if BITS >= 64 {
        proof {
            lemma2_to64_rest();
        }
        i64::MIN
    } else {
        let half = pow2_u64(BITS - 1);
        proof {
            if BITS - 1 < 63 {
                lemma_pow2_strictly_increases((BITS - 1) as nat, 63);
            }
            lemma2_to64_rest();
        }
        -(half as i64)
    }
}

/// A bit-field value paired with its bit count.
#[derive(Debug, Clone, Copy)]
pub struct IntN(pub u32, pub u8);

/// A value known to fit into `N` bits.
#[derive(Debug, Clone, Copy)]
pub struct Int<const N: u32>(pub u32);

/// A fixed-width container over a primitive carrier.
pub trait IntOfBits<Num>: Sized {
    /// The declared width in bits.
    fn width() -> u32;

    fn new(value: Num) -> Self;

    fn get(self) -> Num;
}

impl<const N: u32> IntOfBits<u32> for Int<N> {
    fn width() -> (r: u32)
        ensures
            r == N,
    {
        N
    }

    fn new(value: u32) -> (r: Self)
        ensures
            r.0 == value,
    {
        Int(value)
    }

    fn get(self) -> (r: u32)
        ensures
            r == self.0,
    {
        self.0
    }
}

/// Extraction of the bit range `high ..= low` of a value, as a narrower
/// integer type.
pub trait BitIndex<Num>: Sized {
    /// The source value as a mathematical integer.
    spec fn bi_src(self) -> nat;

    /// Bit width of the result type.
    spec fn bi_bits() -> nat;

    /// Conversion of an in-range integer to the result type.
    spec fn bi_of(n: nat) -> Num;

    /// Bit range index: zero indexed, inclusive high, inclusive low
    /// (`high >= low`); the bit length of the returned value is
    /// `(high - low) + 1`.
    fn bi(self, high: BitCt, low: BitCt) -> (r: Num)
        requires
            low <= high,
            (high as nat) < Self::bi_bits(),
            Self::bi_bits() <= 64,
        ensures
            r == Self::bi_of(extract_bits(self.bi_src(), low as nat, (high - low + 1) as nat)),
    ;
}

/// The bits of `v` at positions `low .. low + width` as an executable value.
pub fn extract_u64(v: u64, low: u32, width: u32) -> (r: u64)
    requires
        low < 64,
        1 <= width,
        low + width <= 64,
    ensures
        r == extract_bits(v as nat, low as nat, width as nat),
        r < pow2(width as nat),
{
    let shifted = v / pow2_u64(low);
    if width >= 64 {
        proof {
            lemma2_to64_rest();
            lemma_pow2_pos(low as nat);
            assert(shifted <= v as nat);
            lemma_mod_of_small(shifted as nat, pow2(64));
        }
        shifted
    } else {
        let p = pow2_u64(width);
        proof {
            lemma_pow2_pos(width as nat);
        }
        shifted % p
    }
}

proof fn lemma_mod_of_small(a: nat, b: nat)
    requires
        a < b,
    ensures
        a % b == a,
{
    vstd::arithmetic::div_mod::lemma_small_mod(a, b);
}

impl BitIndex<u8> for u8 {
    open spec fn bi_src(self) -> nat {
        self as nat
    }

    open spec fn bi_bits() -> nat {
        8
    }

    open spec fn bi_of(n: nat) -> u8 {
        n as u8
    }

    fn bi(self, high: BitCt, low: BitCt) -> (r: u8) {
        let w = high - low + 1;
        let e = extract_u64(self as u64, low, w);
        proof {
            if (w as nat) < 8 {
                lemma_pow2_strictly_increases(w as nat, 8);
            }
            lemma2_to64();
        }
        e as u8
    }
}

impl BitIndex<u8> for u16 {
    open spec fn bi_src(self) -> nat {
        self as nat
    }

    open spec fn bi_bits() -> nat {
        8
    }

    open spec fn bi_of(n: nat) -> u8 {
        n as u8
    }

    fn bi(self, high: BitCt, low: BitCt) -> (r: u8) {
        let w = high - low + 1;
        let e = extract_u64(self as u64, low, w);
        proof {
            if (w as nat) < 8 {
                lemma_pow2_strictly_increases(w as nat, 8);
            }
            lemma2_to64();
        }
        e as u8
    }
}

impl BitIndex<u16> for u16 {
    open spec fn bi_src(self) -> nat {
        self as nat
    }

    open spec fn bi_bits() -> nat {
        16
    }

    open spec fn bi_of(n: nat) -> u16 {
        n as u16
    }

    fn bi(self, high: BitCt, low: BitCt) -> (r: u16) {
        let w = high - low + 1;
        let e = extract_u64(self as u64, low, w);
        proof {
            if (w as nat) < 16 {
                lemma_pow2_strictly_increases(w as nat, 16);
            }
            lemma2_to64();
        }
        e as u16
    }
}

impl BitIndex<u8> for u32 {
    open spec fn bi_src(self) -> nat {
        self as nat
    }

    open spec fn bi_bits() -> nat {
        8
    }

    open spec fn bi_of(n: nat) -> u8 {
        n as u8
    }

    fn bi(self, high: BitCt, low: BitCt) -> (r: u8) {
        let w = high - low + 1;
        let e = extract_u64(self as u64, low, w);
        proof {
            if (w as nat) < 8 {
                lemma_pow2_strictly_increases(w as nat, 8);
            }
            lemma2_to64();
        }
        e as u8
    }
}

impl BitIndex<u16> for u32 {
    open spec fn bi_src(self) -> nat {
        self as nat
    }

    open spec fn bi_bits() -> nat {
        16
    }

    open spec fn bi_of(n: nat) -> u16 {
        n as u16
    }

    fn bi(self, high: BitCt, low: BitCt) -> (r: u16) {
        let w = high - low + 1;
        let e = extract_u64(self as u64, low, w);
        proof {
            if (w as nat) < 16 {
                lemma_pow2_strictly_increases(w as nat, 16);
            }
            lemma2_to64();
        }
        e as u16
    }
}

impl BitIndex<u32> for u32 {
    open spec fn bi_src(self) -> nat {
        self as nat
    }

    open spec fn bi_bits() -> nat {
        32
    }

    open spec fn bi_of(n: nat) -> u32 {
        n as u32
    }

    fn bi(self, high: BitCt, low: BitCt) -> (r: u32) {
        let w = high - low + 1;
        let e = extract_u64(self as u64, low, w);
        proof {
            if (w as nat) < 32 {
                lemma_pow2_strictly_increases(w as nat, 32);
            }
            lemma2_to64();
        }
        e as u32
    }
}

impl BitIndex<u8> for u64 {
    open spec fn bi_src(self) -> nat {
        self as nat
    }

    open spec fn bi_bits() -> nat {
        8
    }

    open spec fn bi_of(n: nat) -> u8 {
        n as u8
    }

    fn bi(self, high: BitCt, low: BitCt) -> (r: u8) {
        let w = high - low + 1;
        let e = extract_u64(self, low, w);
        proof {
            if (w as nat) < 8 {
                lemma_pow2_strictly_increases(w as nat, 8);
            }
            lemma2_to64();
        }
        e as u8
    }
}

impl BitIndex<u16> for u64 {
    open spec fn bi_src(self) -> nat {
        self as nat
    }

    open spec fn bi_bits() -> nat {
        16
    }

    open spec fn bi_of(n: nat) -> u16 {
        n as u16
    }

    fn bi(self, high: BitCt, low: BitCt) -> (r: u16) {
        let w = high - low + 1;
        let e = extract_u64(self, low, w);
        proof {
            if (w as nat) < 16 {
                lemma_pow2_strictly_increases(w as nat, 16);
            }
            lemma2_to64();
        }
        e as u16
    }
}

impl BitIndex<u32> for u64 {
    open spec fn bi_src(self) -> nat {
        self as nat
    }

    open spec fn bi_bits() -> nat {
        32
    }

    open spec fn bi_of(n: nat) -> u32 {
        n as u32
    }

    fn bi(self, high: BitCt, low: BitCt) -> (r: u32) {
        let w = high - low + 1;
        let e = extract_u64(self, low, w);
        proof {
            if (w as nat) < 32 {
                lemma_pow2_strictly_increases(w as nat, 32);
            }
            lemma2_to64();
        }
        e as u32
    }
}

impl BitIndex<u64> for u64 {
    open spec fn bi_src(self) -> nat {
        self as nat
    }

    open spec fn bi_bits() -> nat {
        64
    }

    open spec fn bi_of(n: nat) -> u64 {
        n as u64
    }

    fn bi(self, high: BitCt, low: BitCt) -> (r: u64) {
        let w = high - low + 1;
        let e = extract_u64(self, low, w);
        proof {
            if (w as nat) < 64 {
                lemma_pow2_strictly_increases(w as nat, 64);
            }
            lemma2_to64();
            lemma2_to64_rest();
        }
        e
    }
}

/// Construction of masks with a run of zeros or ones at one end.
pub trait CreateMask: Sized {
    /// Bit width of the mask type.
    spec fn cm_bits() -> nat;

    /// Conversion of an in-range integer to the mask type.
    spec fn cm_of(n: nat) -> Self;

    /// All ones except the low `n` bits.
    fn mask_lo_0s(n: BitCt) -> (r: Self)
        ensures
            r == Self::cm_of(if n >= Self::cm_bits() {
                0
            } else {
                (pow2(Self::cm_bits()) - pow2(n as nat)) as nat
            }),
    ;

    /// The low `n` bits set to one.
    fn mask_lo_1s(n: BitCt) -> (r: Self)
        ensures
            r == Self::cm_of(if n >= Self::cm_bits() {
                (pow2(Self::cm_bits()) - 1) as nat
            } else {
                (pow2(n as nat) - 1) as nat
            }),
    ;

    /// All ones except the high `n` bits.
    fn mask_hi_0s(n: BitCt) -> (r: Self)
        ensures
            r == Self::cm_of(if n >= Self::cm_bits() {
                0
            } else {
                (pow2((Self::cm_bits() - n) as nat) - 1) as nat
            }),
    ;

    /// The high `n` bits set to one.
    fn mask_hi_1s(n: BitCt) -> (r: Self)
        ensures
            r == Self::cm_of(if n >= Self::cm_bits() {
                (pow2(Self::cm_bits()) - 1) as nat
            } else {
                (pow2(Self::cm_bits()) - pow2((Self::cm_bits() - n) as nat)) as nat
            }),
    ;
}

impl CreateMask for u64 {
    open spec fn cm_bits() -> nat {
        64
    }

    open spec fn cm_of(n: nat) -> u64 {
        n as u64
    }

    fn mask_lo_0s(n: BitCt) -> (r: u64) {
        proof {
            lemma2_to64_rest();
        }
        if n >= 64 {
            0
        } else {
            let p = pow2_u64(n);
            proof {
                if n < 63 {
                    lemma_pow2_strictly_increases(n as nat, 64);
                } else {
                    lemma_pow2_strictly_increases(63, 64);
                }
            }
            u64::MAX - (p - 1)
        }
    }

    fn mask_lo_1s(n: BitCt) -> (r: u64) {
        proof {
            lemma2_to64_rest();
        }
        if n >= 64 {
            u64::MAX
        } else {
            let p = pow2_u64(n);
            proof {
                if n < 63 {
                    lemma_pow2_strictly_increases(n as nat, 64);
                } else {
                    lemma_pow2_strictly_increases(63, 64);
                }
            }
            p - 1
        }
    }

    fn mask_hi_0s(n: BitCt) -> (r: u64) {
        proof {
            lemma2_to64_rest();
        }
        if n >= 64 {
            0
        } else if n == 0 {
            u64::MAX
        } else {
            let p = pow2_u64(64 - n);
            proof {
                if 64 - n < 63 {
                    lemma_pow2_strictly_increases((64 - n) as nat, 64);
                } else {
                    lemma_pow2_strictly_increases(63, 64);
                }
            }
            p - 1
        }
    }

    fn mask_hi_1s(n: BitCt) -> (r: u64) {
        proof {
            lemma2_to64_rest();
        }
        if n >= 64 {
            u64::MAX
        } else if n == 0 {
            0
        } else {
            let p = pow2_u64(64 - n);
            proof {
                if 64 - n < 63 {
                    lemma_pow2_strictly_increases((64 - n) as nat, 64);
                } else {
                    lemma_pow2_strictly_increases(63, 64);
                }
            }
            u64::MAX - (p - 1)
        }
    }
}

impl CreateMask for u32 {
    open spec fn cm_bits() -> nat {
        32
    }

    open spec fn cm_of(n: nat) -> u32 {
        n as u32
    }

    fn mask_lo_0s(n: BitCt) -> (r: u32) {
        proof {
            lemma2_to64();
        }
        if n >= 32 {
            0
        } else {
            let p = pow2_u64(n);
            proof {
                lemma_pow2_strictly_increases(n as nat, 32);
            }
            u32::MAX - ((p - 1) as u32)
        }
    }

    fn mask_lo_1s(n: BitCt) -> (r: u32) {
        proof {
            lemma2_to64();
        }
        if n >= 32 {
            u32::MAX
        } else {
            let p = pow2_u64(n);
            proof {
                lemma_pow2_strictly_increases(n as nat, 32);
            }
            (p - 1) as u32
        }
    }

    fn mask_hi_0s(n: BitCt) -> (r: u32) {
        proof {
            lemma2_to64();
        }
        if n >= 32 {
            0
        } else if n == 0 {
            u32::MAX
        } else {
            let p = pow2_u64(32 - n);
            proof {
                lemma_pow2_strictly_increases((32 - n) as nat, 32);
            }
            (p - 1) as u32
        }
    }

    fn mask_hi_1s(n: BitCt) -> (r: u32) {
        proof {
            lemma2_to64();
        }
        if n >= 32 {
            u32::MAX
        } else if n == 0 {
            0
        } else {
            let p = pow2_u64(32 - n);
            proof {
                lemma_pow2_strictly_increases((32 - n) as nat, 32);
            }
            u32::MAX - ((p - 1) as u32)
        }
    }
}

} // verus!

verus! {

use vstd::arithmetic::power2::lemma_pow2_adds;
use vstd::arithmetic::div_mod::{lemma_fundamental_div_mod, lemma_div_multiples_vanish};

/// `uint_in_range` with the width as a runtime value.
pub fn uint_in_range_rt(value: u64, bits: u32) -> (r: bool)
    requires
        1 <= bits <= 64,
    ensures
        r == ((value as nat) < pow2(bits as nat)),
{
    if bits >= 64 {
        proof {
            lemma2_to64_rest();
        }
        true
    } else {
        value < pow2_u64(bits)
    }
}

/// `sint_in_range` with the width as a runtime value.
pub fn sint_in_range_rt(value: i64, bits: u32) -> (r: bool)
    requires
        1 <= bits <= 64,
    ensures
        r == (-(pow2((bits - 1) as nat) as int) <= value < pow2((bits - 1) as nat)),
{
    if bits >= 64 {
        proof {
            lemma2_to64_rest();
        }
        true
    } else {
        let half = pow2_u64(bits - 1);
        proof {
            if bits - 1 < 63 {
                lemma_pow2_strictly_increases((bits - 1) as nat, 63);
            }
            lemma2_to64_rest();
        }
        -(half as i64) <= value && value < half as i64
    }
}

/// The two's complement image of `v`: the value of its 64 bits read as
/// an unsigned number.
pub open spec fn twos_image(v: int) -> int {
    if v >= 0 {
        v
    } else {
        v + pow2(64)
    }
}

/// The two's complement image, as an executable value.
pub fn twos_image_u64(v: i64) -> (m: u64)
    ensures
        m == twos_image(v as int),
{
    proof {
        lemma2_to64_rest();
    }
    if v >= 0 {
        v as u64
    } else {
        u64::MAX - ((-(v + 1)) as u64)
    }
}

/// The image agrees with the value modulo any power of two up to 64 bits.
pub proof fn lemma_image_mod(v: int, a: nat)
    requires
        a <= 64,
    ensures
        twos_image(v) % (pow2(a) as int) == v % (pow2(a) as int),
{
    lemma_pow2_pos(a);
    if v < 0 {
        lemma_pow2_adds(a, (64 - a) as nat);
        lemma_mod_multiples_vanish(pow2((64 - a) as nat) as int, v, pow2(a) as int);
    }
}

/// For an aligned value, reading a field of the image recovers the
/// two's complement encoding of the shifted value.
pub proof fn lemma_image_extract(v: int, rs: nat, bits: nat)
    requires
        v % (pow2(rs) as int) == 0,
        rs + bits <= 64,
    ensures
        (twos_image(v) / (pow2(rs) as int)) % (pow2(bits) as int) == (v / (pow2(rs) as int)) % (
        pow2(bits) as int),
{
    lemma_pow2_pos(rs);
    lemma_pow2_pos(bits);
    let d = pow2(rs) as int;
    let q = v / d;
    lemma_fundamental_div_mod(v, d);
    assert(v == d * q);
    if v < 0 {
        lemma_pow2_adds(rs, (64 - rs) as nat);
        lemma_pow2_pos((64 - rs) as nat);
        assert(twos_image(v) == v + pow2(64));
        assert(v + pow2(64) == d * (q + pow2((64 - rs) as nat))) by (nonlinear_arith)
            requires
                v == d * q,
                pow2(64) == d * pow2((64 - rs) as nat),
        ;
        lemma_div_multiples_vanish(q + pow2((64 - rs) as nat) as int, d);
        assert(twos_image(v) / d == q + pow2((64 - rs) as nat));
        lemma_pow2_adds(bits, (64 - rs - bits) as nat);
        lemma_mod_multiples_vanish(pow2((64 - rs - bits) as nat) as int, q, pow2(bits) as int);
    } else {
        assert(twos_image(v) / d == q);
    }
}

/// An exact quotient lies in the signed `bits`-bit range exactly when the
/// value lies in the signed `bits + rs`-bit range.
pub proof fn lemma_exact_div_range(v: int, rs: nat, bits: nat)
    requires
        v % (pow2(rs) as int) == 0,
        bits >= 1,
    ensures
        (-(pow2((bits - 1) as nat) as int) <= v / (pow2(rs) as int) < pow2((bits - 1) as nat))
            <==> (-(pow2((bits + rs - 1) as nat) as int) <= v < pow2((bits + rs - 1) as nat)),
{
    lemma_pow2_pos(rs);
    lemma_pow2_pos((bits - 1) as nat);
    let d = pow2(rs) as int;
    let h = pow2((bits - 1) as nat) as int;
    let q = v / d;
    lemma_fundamental_div_mod(v, d);
    assert(v == d * q);
    lemma_pow2_adds((bits - 1) as nat, rs);
    assert(pow2((bits + rs - 1) as nat) == h * d);
    assert((-h <= q < h) <==> (-(h * d) <= d * q < h * d)) by (nonlinear_arith)
        requires
            d >= 1,
            h >= 1,
    ;
}

} // verus!

verus! {

/// Dividing a value below `pow2(a + b)` by `pow2(a)` stays below
/// `pow2(b)`.
pub proof fn lemma_extract_div_bound(x: nat, a: nat, b: nat)
    requires
        x < pow2(a + b),
    ensures
        x / pow2(a) < pow2(b),
{
    lemma_pow2_pos(a);
    lemma_pow2_pos(b);
    lemma_pow2_adds(a, b);
    assert(x / pow2(a) < pow2(b)) by (nonlinear_arith)
        requires
            x < pow2(a) * pow2(b),
            pow2(a) >= 1,
            pow2(b) >= 1,
    ;
}

} // verus!
