//! JSON numbers: unsigned and negative integers, and doubles held by their
//! 64 bits.
//!
//! A double's bits are, from the top, one sign bit, eleven bits of exponent
//! and fifty-two bits of fraction. With an exponent between 1 and 2046 the
//! number is `(2^52 + fraction) * 2^(exponent - 1075)`, with its sign. An
//! exponent of 2047 marks an infinity or no number at all: a JSON number is
//! never one of these.

use vstd::prelude::*;
use vstd::arithmetic::power2::{
    lemma2_to64, lemma2_to64_rest, lemma_pow2_adds, lemma_pow2_pos, lemma_pow2_strictly_increases,
    pow2,
};
use vstd::bits::lemma_u64_shl_is_mul;

verus! {

/// The bits of the double `-0.0`.
pub const NEGATIVE_ZERO_BITS: u64 = 0x8000_0000_0000_0000;

/// The largest unsigned integer that counts as a 64-bit integer: the largest
/// whose nearest double is `2^63`, which is `2^63 + 1024`.
pub const LARGEST_UNSIGNED_INT64: u64 = 9_223_372_036_854_776_832;

/// The three forms of a JSON number.
#[derive(Clone, Copy, Debug, PartialEq, Eq, Structural)]
pub enum NumberKind {
    /// An integer that is not negative.
    PosInt(u64),
    /// A negative integer.
    NegInt(i64),
    /// A double, by its bits.
    Float(u64),
}

/// The exponent field of a double's bits.
pub open spec fn exponent_of(bits: u64) -> u64 {
    (bits >> 52) & 0x7ff
}

/// The fraction field of a double's bits.
pub open spec fn fraction_of(bits: u64) -> u64 {
    bits & 0xf_ffff_ffff_ffff
}

/// Whether the bits are those of a number: neither an infinity nor a
/// not-a-number.
pub open spec fn finite(bits: u64) -> bool {
    exponent_of(bits) != 2047
}

/// Whether the double with these bits is a whole number between `-2^63` and
/// `2^63`, both included.
///
/// An exponent of 2047 marks no number. An exponent of 0 leaves zero and the
/// subnormal numbers, which are less than one. Else the number is `m * 2^e`
/// with `m = 2^52 + fraction` and `e = exponent - 1075`: for `e >= 0` it is
/// whole, and at most `2^63` when `e < 11`, or when `e == 11` and
/// `m == 2^52`; for `e < 0` it is whole when `2^(-e)` divides `m`, which
/// needs `-e <= 52`.
pub open spec fn whole_within_i64(bits: u64) -> bool {
    let exponent = exponent_of(bits);
    let fraction = fraction_of(bits);
    if exponent == 2047 {
        false
    } else if exponent == 0 {
        fraction == 0
    } else if exponent >= 1075 {
        exponent < 1086 || (exponent == 1086 && fraction == 0)
    } else {
        1075 - exponent <= 52 && (pow2(52) + fraction) % (pow2((1075 - exponent) as nat) as int)
            == 0
    }
}

/// The size of the finite double with these bits, whatever its sign,
/// counted in steps of `2^-1074`, the least distance between two doubles:
/// the fraction alone where the exponent is 0, else
/// `(2^52 + fraction) * 2^(exponent - 1)`.
pub open spec fn magnitude(bits: u64) -> nat {
    if exponent_of(bits) == 0 {
        fraction_of(bits) as nat
    } else {
        ((pow2(52) + fraction_of(bits)) * pow2((exponent_of(bits) - 1) as nat)) as nat
    }
}

/// Whether the finite double with these bits is a whole number of a size up
/// to `2^63`: its magnitude is that of a natural number `k <= 2^63`, which
/// is `k * 2^1074` steps.
pub open spec fn whole_up_to_two_to_63(bits: u64) -> bool {
    exists|k: nat| k <= pow2(63) && magnitude(bits) == #[trigger] (k * pow2(1074))
}

/// The fields of a double's bits are within their widths.
proof fn lemma_fields(bits: u64)
    ensures
        exponent_of(bits) <= 2047,
        fraction_of(bits) < pow2(52),
        pow2(52) == 0x10_0000_0000_0000,
{
    lemma2_to64_rest();
    assert((bits >> 52) & 0x7ff <= 2047) by (bit_vector);
    assert(bits & 0xf_ffff_ffff_ffff < 0x10_0000_0000_0000) by (bit_vector);
}

/// A product of naturals with a positive factor on both sides can be
/// shortened by it.
proof fn lemma_cancel(a: nat, b: nat, p: nat)
    requires
        p > 0,
        a * p == b * p,
    ensures
        a == b,
{
    assert(a == b) by (nonlinear_arith)
        requires
            p > 0,
            a * p == b * p,
    ;
}

/// What `whole_within_i64` tells by the bits is what it should: the finite
/// double with these bits is a whole number between `-2^63` and `2^63`.
pub proof fn lemma_whole_within_i64(bits: u64)
    requires
        finite(bits),
    ensures
        whole_within_i64(bits) <==> whole_up_to_two_to_63(bits),
{
    lemma_fields(bits);
    let exponent = exponent_of(bits) as nat;
    let fraction = fraction_of(bits) as nat;
    let m = pow2(52) + fraction;
    let unit = pow2(1074);
    lemma_pow2_pos(1074);
    lemma_pow2_pos(63);
    if exponent == 0 {
        lemma_pow2_strictly_increases(52, 1074);
        if fraction == 0 {
            assert(0nat <= pow2(63) && magnitude(bits) == 0nat * pow2(1074));
        }
        if whole_up_to_two_to_63(bits) {
            let k = choose|k: nat| k <= pow2(63) && magnitude(bits) == #[trigger] (k * pow2(1074));
            assert(k == 0) by (nonlinear_arith)
                requires
                    fraction == k * unit,
                    fraction < unit,
            ;
        }
    } else if exponent >= 1075 {
        let e = (exponent - 1075) as nat;
        lemma_pow2_adds(e, 1074);
        lemma_pow2_pos(e);
        let whole = m * pow2(e);
        assert(magnitude(bits) == whole * unit) by (nonlinear_arith)
            requires
                magnitude(bits) == m * pow2((exponent - 1) as nat),
                pow2((exponent - 1) as nat) == pow2(e) * unit,
                whole == m * pow2(e),
        ;
        lemma2_to64();
        lemma2_to64_rest();
        if e < 11 {
            if e < 10 {
                lemma_pow2_strictly_increases(e, 10);
            }
            assert(whole < pow2(63)) by (nonlinear_arith)
                requires
                    whole == m * pow2(e),
                    m < 0x20_0000_0000_0000,
                    pow2(e) <= 0x400,
                    pow2(63) == 0x8000_0000_0000_0000,
            ;
            assert(whole <= pow2(63) && magnitude(bits) == whole * pow2(1074));
        } else if e == 11 {
            assert(whole <= pow2(63) <==> fraction == 0) by (nonlinear_arith)
                requires
                    whole == m * pow2(e),
                    m == 0x10_0000_0000_0000 + fraction,
                    pow2(e) == 0x800,
                    pow2(63) == 0x8000_0000_0000_0000,
            ;
            if fraction == 0 {
                assert(whole <= pow2(63) && magnitude(bits) == whole * pow2(1074));
            }
        } else {
            lemma_pow2_strictly_increases(11, e);
            assert(whole > pow2(63)) by (nonlinear_arith)
                requires
                    whole == m * pow2(e),
                    m >= 0x10_0000_0000_0000,
                    pow2(e) > 0x800,
                    pow2(63) == 0x8000_0000_0000_0000,
            ;
        }
        if whole_up_to_two_to_63(bits) {
            let k = choose|k: nat| k <= pow2(63) && magnitude(bits) == #[trigger] (k * pow2(1074));
            lemma_cancel(k, whole, unit);
        }
    } else {
        let shift = (1075 - exponent) as nat;
        let low = pow2((exponent - 1) as nat);
        let step = pow2(shift);
        lemma_pow2_adds((exponent - 1) as nat, shift);
        lemma_pow2_pos((exponent - 1) as nat);
        lemma_pow2_pos(shift);
        assert(unit == low * step);
        if whole_within_i64(bits) {
            let k = m / step;
            assert(m == k * step) by (nonlinear_arith)
                requires
                    step > 0,
                    m % step == 0,
                    k == m / step,
            ;
            assert(k <= m) by (nonlinear_arith)
                requires
                    m == k * step,
                    step > 0,
            ;
            lemma2_to64_rest();
            assert(magnitude(bits) == k * unit) by (nonlinear_arith)
                requires
                    magnitude(bits) == m * low,
                    m == k * step,
                    unit == low * step,
            ;
            assert(k <= pow2(63) && magnitude(bits) == k * pow2(1074));
        }
        if whole_up_to_two_to_63(bits) {
            let k = choose|k: nat| k <= pow2(63) && magnitude(bits) == #[trigger] (k * pow2(1074));
            assert(m * low == (k * step) * low) by (nonlinear_arith)
                requires
                    magnitude(bits) == m * low,
                    magnitude(bits) == k * unit,
                    unit == low * step,
            ;
            lemma_cancel(m, k * step, low);
            assert(k >= 1 && step <= m) by (nonlinear_arith)
                requires
                    m == k * step,
                    m > 0,
                    step > 0,
            ;
            if shift > 52 {
                if shift > 53 {
                    lemma_pow2_strictly_increases(53, shift);
                }
                lemma2_to64_rest();
                assert(false);
            }
            assert(m % step == 0) by (nonlinear_arith)
                requires
                    m == k * step,
                    step > 0,
            ;
        }
    }
}

impl NumberKind {
    /// Whether the form is one that a number has: a negative integer is
    /// below zero, and a double is finite.
    pub open spec fn well_formed(self) -> bool {
        match self {
            NumberKind::PosInt(_) => true,
            NumberKind::NegInt(n) => n < 0,
            NumberKind::Float(bits) => finite(bits),
        }
    }

    /// The form with `-0.0` written as `0.0`.
    pub open spec fn canonical(self) -> NumberKind {
        match self {
            NumberKind::Float(bits) => if bits == NEGATIVE_ZERO_BITS {
                NumberKind::Float(0)
            } else {
                self
            },
            _ => self,
        }
    }

    /// Whether the two forms are of the same number: they are equal, or the
    /// one is `0.0` and the other `-0.0`.
    pub open spec fn same(self, other: NumberKind) -> bool {
        self.canonical() == other.canonical()
    }

    /// The form of the integer `n`.
    pub open spec fn of_integer(n: i64) -> NumberKind {
        if n >= 0 {
            NumberKind::PosInt(n as u64)
        } else {
            NumberKind::NegInt(n)
        }
    }

    /// Whether the number counts as a 64-bit integer: a negative integer; an
    /// unsigned one up to `i64::MAX`, or above it where its nearest double
    /// is still `2^63`; a double that is whole and within `-2^63..=2^63`.
    pub open spec fn counts_as_int64(self) -> bool {
        match self {
            NumberKind::PosInt(n) => n <= LARGEST_UNSIGNED_INT64,
            NumberKind::NegInt(_) => true,
            NumberKind::Float(bits) => whole_within_i64(bits),
        }
    }
}

/// A JSON number: of one of the three forms, and well formed.
#[derive(Clone, Copy, Debug)]
pub struct JsonNumber {
    pub(crate) kind: NumberKind,
}

impl View for JsonNumber {
    type V = NumberKind;

    /// The form of the number.
    open(crate) spec fn view(&self) -> NumberKind {
        self.kind
    }
}

impl JsonNumber {
    #[verifier::type_invariant]
    pub open(crate) spec fn well_formed(self) -> bool {
        self.kind.well_formed()
    }

    /// The unsigned integer `n`.
    pub fn from_u64(n: u64) -> (number: JsonNumber)
        ensures
            number@ == NumberKind::PosInt(n),
    {
        JsonNumber { kind: NumberKind::PosInt(n) }
    }

    /// The integer `n`.
    pub fn from_i64(n: i64) -> (number: JsonNumber)
        ensures
            number@ == NumberKind::of_integer(n),
    {
        if n >= 0 {
            JsonNumber { kind: NumberKind::PosInt(n as u64) }
        } else {
            JsonNumber { kind: NumberKind::NegInt(n) }
        }
    }

    /// The double with these bits, where they are those of a number.
    pub fn from_f64_bits(bits: u64) -> (number: Option<JsonNumber>)
        ensures
            match number {
                Some(number) => finite(bits) && number@ == NumberKind::Float(bits),
                None => !finite(bits),
            },
    {
        if (bits >> 52) & 0x7ff == 2047 {
            None
        } else {
            Some(JsonNumber { kind: NumberKind::Float(bits) })
        }
    }

    /// The form of the number.
    pub fn kind(&self) -> (kind: NumberKind)
        ensures
            kind == self@,
            kind.well_formed(),
    {
        proof {
            use_type_invariant(self);
        }
        self.kind
    }

    /// Whether the two numbers are the same: of the same form and value,
    /// `0.0` and `-0.0` being one value.
    pub fn equals(&self, other: &JsonNumber) -> (same: bool)
        ensures
            same == self@.same(other@),
    {
        match (self.kind, other.kind) {
            (NumberKind::PosInt(a), NumberKind::PosInt(b)) => a == b,
            (NumberKind::NegInt(a), NumberKind::NegInt(b)) => a == b,
            (NumberKind::Float(a), NumberKind::Float(b)) => {
                let left: u64 = if a == NEGATIVE_ZERO_BITS {
                    0
                } else {
                    a
                };
                let right: u64 = if b == NEGATIVE_ZERO_BITS {
                    0
                } else {
                    b
                };
                left == right
            },
            _ => false,
        }
    }

    /// Whether the number counts as a 64-bit integer.
    pub fn is_int64(&self) -> (yes: bool)
        ensures
            yes == self@.counts_as_int64(),
    {
        match self.kind {
            NumberKind::PosInt(n) => n <= LARGEST_UNSIGNED_INT64,
            NumberKind::NegInt(_) => true,
            NumberKind::Float(bits) => is_whole_within_i64(bits),
        }
    }
}

/// Whether the double with these bits is a whole number between `-2^63` and
/// `2^63`.
pub fn is_whole_within_i64(bits: u64) -> (yes: bool)
    ensures
        yes == whole_within_i64(bits),
{
    let exponent: u64 = (bits >> 52) & 0x7ff;
    let fraction: u64 = bits & 0xf_ffff_ffff_ffff;
    assert(exponent <= 2047 && fraction < 0x10_0000_0000_0000) by (bit_vector)
        requires
            exponent == (bits >> 52) & 0x7ff,
            fraction == bits & 0xf_ffff_ffff_ffff,
    ;
    if exponent == 2047 {
        false
    } else if exponent == 0 {
        fraction == 0
    } else if exponent >= 1075 {
        exponent < 1086 || (exponent == 1086 && fraction == 0)
    } else if 1075 - exponent > 52 {
        false
    } else {
        let shift: u64 = 1075 - exponent;
        let mantissa: u64 = 0x10_0000_0000_0000 + fraction;
        proof {
            lemma2_to64_rest();
            lemma_pow2_pos(shift as nat);
            if shift < 52 {
                lemma_pow2_strictly_increases(shift as nat, 52);
            }
            lemma_u64_shl_is_mul(1, shift);
        }
        let divisor: u64 = 1u64 << shift;
        mantissa % divisor == 0
    }
}

} // verus!
