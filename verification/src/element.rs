//! Element types and their storage encodings.
//!
//! Every array element is stored as a 64-bit pattern whose meaning is
//! fixed by the array's [`Dtype`]: boolean and integer kinds store their
//! two's-complement value, zero-extended; the inexact kinds store the
//! raw encoding of the foreign value, which this model carries but does
//! not interpret. The exact kinds (boolean and the integers) also have a
//! numeric reading, which implicit casts and cross-kind equality use.

use vstd::prelude::*;

use crate::dtype::Dtype;

verus! {

/// The encodings a kind admits: every stored pattern stays under the
/// kind's width.
pub open spec fn encoding_in_range(d: Dtype, b: u64) -> bool {
    match d {
        Dtype::Bool => b <= 1,
        Dtype::Uint8 | Dtype::Int8 => b < 0x100,
        Dtype::Uint16 | Dtype::Int16 | Dtype::Float16 | Dtype::Bfloat16 => b < 0x10000,
        Dtype::Uint32 | Dtype::Int32 | Dtype::Float32 => b < 0x1_0000_0000,
        Dtype::Uint64 | Dtype::Int64 | Dtype::Complex64 => true,
    }
}

/// A kind whose every value is an integer the model reads directly:
/// boolean and the integer kinds.
pub open spec fn is_exact_kind(d: Dtype) -> bool {
    !d.is_inexact_spec()
}

/// The numeric value an exact kind's pattern denotes: the
/// two's-complement reading for the signed kinds, the plain reading
/// otherwise.
pub open spec fn decode_int(d: Dtype, b: u64) -> int {
    match d {
        Dtype::Bool => if b == 0 {
            0
        } else {
            1
        },
        Dtype::Uint8 | Dtype::Uint16 | Dtype::Uint32 | Dtype::Uint64 => b as int,
        Dtype::Int8 => if b < 0x80 {
            b as int
        } else {
            b - 0x100
        },
        Dtype::Int16 => if b < 0x8000 {
            b as int
        } else {
            b - 0x10000
        },
        Dtype::Int32 => if b < 0x8000_0000 {
            b as int
        } else {
            b - 0x1_0000_0000
        },
        Dtype::Int64 => if b < 0x8000_0000_0000_0000 {
            b as int
        } else {
            b - 0x1_0000_0000_0000_0000
        },
        _ => 0,
    }
}

/// The pattern an exact kind stores for a numeric value: wrapped to the
/// kind's width in two's complement; the boolean kind stores whether
/// the value is nonzero.
pub open spec fn encode_int(d: Dtype, v: int) -> u64 {
    match d {
        Dtype::Bool => if v == 0 {
            0
        } else {
            1
        },
        Dtype::Uint8 | Dtype::Int8 => (v % 0x100) as u64,
        Dtype::Uint16 | Dtype::Int16 => (v % 0x10000) as u64,
        Dtype::Uint32 | Dtype::Int32 => (v % 0x1_0000_0000) as u64,
        Dtype::Uint64 | Dtype::Int64 => (v % 0x1_0000_0000_0000_0000) as u64,
        _ => 0,
    }
}

/// The pattern an implicit cast between two exact kinds yields: the
/// source pattern's value, re-encoded at the target kind.
pub open spec fn cast_exact_spec(from: Dtype, to: Dtype, b: u64) -> u64 {
    encode_int(to, decode_int(from, b))
}

/// The value an exact kind decodes to fits the signed range of the
/// widest kind and the unsigned one.
pub proof fn lemma_decode_bounds(d: Dtype, b: u64)
    requires
        is_exact_kind(d),
        encoding_in_range(d, b),
    ensures
        -0x8000_0000_0000_0000 <= decode_int(d, b) < 0x1_0000_0000_0000_0000,
{
}

/// Encoding an exact kind's own reading gives the pattern back: the
/// encoding is canonical.
pub proof fn lemma_encode_decode(d: Dtype, b: u64)
    requires
        is_exact_kind(d),
        encoding_in_range(d, b),
    ensures
        encode_int(d, decode_int(d, b)) == b,
{
    match d {
        Dtype::Uint8 | Dtype::Int8 => {
            vstd::arithmetic::div_mod::lemma_mod_bound(decode_int(d, b), 0x100);
            if decode_int(d, b) < 0 {
                assert((decode_int(d, b) % 0x100) == b) by {
                    vstd::arithmetic::div_mod::lemma_fundamental_div_mod_converse(
                        decode_int(d, b),
                        0x100,
                        -1,
                        b as int,
                    );
                }
            } else {
                vstd::arithmetic::div_mod::lemma_small_mod(b as nat, 0x100);
            }
        },
        Dtype::Uint16 | Dtype::Int16 => {
            if decode_int(d, b) < 0 {
                vstd::arithmetic::div_mod::lemma_fundamental_div_mod_converse(
                    decode_int(d, b),
                    0x10000,
                    -1,
                    b as int,
                );
            } else {
                vstd::arithmetic::div_mod::lemma_small_mod(b as nat, 0x10000);
            }
        },
        Dtype::Uint32 | Dtype::Int32 => {
            if decode_int(d, b) < 0 {
                vstd::arithmetic::div_mod::lemma_fundamental_div_mod_converse(
                    decode_int(d, b),
                    0x1_0000_0000,
                    -1,
                    b as int,
                );
            } else {
                vstd::arithmetic::div_mod::lemma_small_mod(b as nat, 0x1_0000_0000);
            }
        },
        Dtype::Uint64 | Dtype::Int64 => {
            if decode_int(d, b) < 0 {
                vstd::arithmetic::div_mod::lemma_fundamental_div_mod_converse(
                    decode_int(d, b),
                    0x1_0000_0000_0000_0000,
                    -1,
                    b as int,
                );
            } else {
                vstd::arithmetic::div_mod::lemma_small_mod(b as nat, 0x1_0000_0000_0000_0000);
            }
        },
        _ => {},
    }
}

/// Reads an exact kind's pattern as its numeric value.
pub(crate) fn decode_value(d: Dtype, b: u64) -> (v: i128)
    requires
        is_exact_kind(d),
        encoding_in_range(d, b),
    ensures
        v == decode_int(d, b),
{
    match d {
        Dtype::Bool => if b == 0 {
            0
        } else {
            1
        },
        Dtype::Uint8 | Dtype::Uint16 | Dtype::Uint32 | Dtype::Uint64 => b as i128,
        Dtype::Int8 => if b < 0x80 {
            b as i128
        } else {
            (b as i128) - 0x100
        },
        Dtype::Int16 => if b < 0x8000 {
            b as i128
        } else {
            (b as i128) - 0x10000
        },
        Dtype::Int32 => if b < 0x8000_0000 {
            b as i128
        } else {
            (b as i128) - 0x1_0000_0000
        },
        Dtype::Int64 => if b < 0x8000_0000_0000_0000 {
            b as i128
        } else {
            (b as i128) - 0x1_0000_0000_0000_0000
        },
        _ => 0,
    }
}

/// Encodes a numeric value at an exact kind, wrapping to the kind's
/// width.
pub(crate) fn encode_value(d: Dtype, v: i128) -> (b: u64)
    requires
        is_exact_kind(d),
        -0x8000_0000_0000_0000 <= v < 0x1_0000_0000_0000_0000,
    ensures
        b == encode_int(d, v as int),
        encoding_in_range(d, b),
{
    match d {
        Dtype::Bool => if v == 0 {
            0
        } else {
            1
        },
        Dtype::Uint8 | Dtype::Int8 => wrap_to_width(v, 0x100),
        Dtype::Uint16 | Dtype::Int16 => wrap_to_width(v, 0x10000),
        Dtype::Uint32 | Dtype::Int32 => wrap_to_width(v, 0x1_0000_0000),
        Dtype::Uint64 | Dtype::Int64 => {
            let w = if v >= 0 {
                v as u64
            } else {
                proof {
                    vstd::arithmetic::div_mod::lemma_fundamental_div_mod_converse(
                        v as int,
                        0x1_0000_0000_0000_0000,
                        -1,
                        v + 0x1_0000_0000_0000_0000,
                    );
                }
                (v + 0x1_0000_0000_0000_0000) as u64
            };
            proof {
                if v >= 0 {
                    vstd::arithmetic::div_mod::lemma_small_mod(
                        v as nat,
                        0x1_0000_0000_0000_0000,
                    );
                }
            }
            w
        },
        _ => 0,
    }
}

/// Wraps a value to a power-of-two modulus that divides the 64-bit
/// range, going through the two's-complement 64-bit image.
fn wrap_to_width(v: i128, m: u64) -> (b: u64)
    requires
        -0x8000_0000_0000_0000 <= v < 0x1_0000_0000_0000_0000,
        m == 0x100 || m == 0x10000 || m == 0x1_0000_0000,
    ensures
        b == (v as int) % (m as int),
        b < m,
{
    let full: u64 = if v >= 0 {
        (v % 0x1_0000_0000_0000_0000) as u64
    } else {
        (v + 0x1_0000_0000_0000_0000) as u64
    };
    proof {
        if v >= 0 {
            vstd::arithmetic::div_mod::lemma_mod_bound(v as int, 0x1_0000_0000_0000_0000);
            vstd::arithmetic::div_mod::lemma_small_mod(v as nat, 0x1_0000_0000_0000_0000);
        } else {
            vstd::arithmetic::div_mod::lemma_fundamental_div_mod_converse(
                v as int,
                0x1_0000_0000_0000_0000,
                -1,
                v + 0x1_0000_0000_0000_0000,
            );
        }
        assert(full == (v as int) % 0x1_0000_0000_0000_0000);
        let sub = (0x1_0000_0000_0000_0000int / (m as int));
        assert(0x1_0000_0000_0000_0000int == (m as int) * sub);
        vstd::arithmetic::div_mod::lemma_mod_mod(v as int, m as int, sub);
        vstd::arithmetic::div_mod::lemma_mod_bound(v as int, m as int);
    }
    full % m
}

/// Casts a pattern between two exact kinds by value.
pub(crate) fn cast_exact(from: Dtype, to: Dtype, b: u64) -> (r: u64)
    requires
        is_exact_kind(from),
        is_exact_kind(to),
        encoding_in_range(from, b),
    ensures
        r == cast_exact_spec(from, to, b),
        encoding_in_range(to, r),
{
    let v = decode_value(from, b);
    proof {
        lemma_decode_bounds(from, b);
    }
    encode_value(to, v)
}

/// A Rust type that arrays can store elements of, tied to the kind it
/// stores as and to its storage encoding.
pub trait ArrayElement: Sized + Copy {
    /// The kind this type stores as.
    spec fn dtype_spec() -> Dtype;

    /// The pattern this value stores as.
    spec fn to_bits_spec(self) -> u64;

    /// The value a stored pattern denotes.
    spec fn from_bits_spec(bits: u64) -> Self;

    /// The numeric value, for the exact kinds.
    spec fn value_spec(self) -> int;

    /// The kind this type stores as.
    fn dtype() -> (d: Dtype)
        ensures
            d == Self::dtype_spec(),
    ;

    /// Encodes the value for storage.
    fn to_bits(self) -> (b: u64)
        ensures
            b == self.to_bits_spec(),
    ;

    /// Decodes a stored pattern.
    fn from_bits(bits: u64) -> (r: Self)
        requires
            encoding_in_range(Self::dtype_spec(), bits),
        ensures
            r == Self::from_bits_spec(bits),
    ;

    /// Encoding then decoding returns the value unchanged.
    proof fn lemma_roundtrip(x: Self)
        ensures
            Self::from_bits_spec(x.to_bits_spec()) == x,
    ;

    /// Every encoding stays within the kind's width.
    proof fn lemma_bits_in_range(x: Self)
        ensures
            encoding_in_range(Self::dtype_spec(), x.to_bits_spec()),
    ;

    /// The encoding stores exactly the value's numeric reading.
    proof fn lemma_value(x: Self)
        ensures
            is_exact_kind(Self::dtype_spec()),
            decode_int(Self::dtype_spec(), x.to_bits_spec()) == x.value_spec(),
    ;

    /// Decoding reads back the pattern's numeric reading.
    proof fn lemma_decode_value(bits: u64)
        requires
            encoding_in_range(Self::dtype_spec(), bits),
        ensures
            Self::from_bits_spec(bits).value_spec() == decode_int(Self::dtype_spec(), bits),
    ;
}

impl ArrayElement for bool {
    open spec fn dtype_spec() -> Dtype {
        Dtype::Bool
    }

    open spec fn to_bits_spec(self) -> u64 {
        if self {
            1
        } else {
            0
        }
    }

    open spec fn from_bits_spec(bits: u64) -> Self {
        bits != 0
    }

    open spec fn value_spec(self) -> int {
        if self {
            1
        } else {
            0
        }
    }

    fn dtype() -> Dtype {
        Dtype::Bool
    }

    fn to_bits(self) -> u64 {
        if self {
            1
        } else {
            0
        }
    }

    fn from_bits(bits: u64) -> Self {
        bits != 0
    }

    proof fn lemma_roundtrip(x: Self) {
    }

    proof fn lemma_bits_in_range(x: Self) {
    }

    proof fn lemma_value(x: Self) {
    }

    proof fn lemma_decode_value(bits: u64) {
    }
}

impl ArrayElement for u8 {
    open spec fn dtype_spec() -> Dtype {
        Dtype::Uint8
    }

    open spec fn to_bits_spec(self) -> u64 {
        self as u64
    }

    open spec fn from_bits_spec(bits: u64) -> Self {
        (bits % 0x100) as u8
    }

    open spec fn value_spec(self) -> int {
        self as int
    }

    fn dtype() -> Dtype {
        Dtype::Uint8
    }

    fn to_bits(self) -> u64 {
        self as u64
    }

    fn from_bits(bits: u64) -> Self {
        (bits % 0x100) as u8
    }

    proof fn lemma_roundtrip(x: Self) {
        vstd::arithmetic::div_mod::lemma_small_mod(x as nat, 0x100);
    }

    proof fn lemma_bits_in_range(x: Self) {
    }

    proof fn lemma_value(x: Self) {
    }

    proof fn lemma_decode_value(bits: u64) {
        vstd::arithmetic::div_mod::lemma_small_mod(bits as nat, 0x100);
    }
}

impl ArrayElement for u16 {
    open spec fn dtype_spec() -> Dtype {
        Dtype::Uint16
    }

    open spec fn to_bits_spec(self) -> u64 {
        self as u64
    }

    open spec fn from_bits_spec(bits: u64) -> Self {
        (bits % 0x10000) as u16
    }

    open spec fn value_spec(self) -> int {
        self as int
    }

    fn dtype() -> Dtype {
        Dtype::Uint16
    }

    fn to_bits(self) -> u64 {
        self as u64
    }

    fn from_bits(bits: u64) -> Self {
        (bits % 0x10000) as u16
    }

    proof fn lemma_roundtrip(x: Self) {
        vstd::arithmetic::div_mod::lemma_small_mod(x as nat, 0x10000);
    }

    proof fn lemma_bits_in_range(x: Self) {
    }

    proof fn lemma_value(x: Self) {
    }

    proof fn lemma_decode_value(bits: u64) {
        vstd::arithmetic::div_mod::lemma_small_mod(bits as nat, 0x10000);
    }
}

impl ArrayElement for u32 {
    open spec fn dtype_spec() -> Dtype {
        Dtype::Uint32
    }

    open spec fn to_bits_spec(self) -> u64 {
        self as u64
    }

    open spec fn from_bits_spec(bits: u64) -> Self {
        (bits % 0x1_0000_0000) as u32
    }

    open spec fn value_spec(self) -> int {
        self as int
    }

    fn dtype() -> Dtype {
        Dtype::Uint32
    }

    fn to_bits(self) -> u64 {
        self as u64
    }

    fn from_bits(bits: u64) -> Self {
        (bits % 0x1_0000_0000) as u32
    }

    proof fn lemma_roundtrip(x: Self) {
        vstd::arithmetic::div_mod::lemma_small_mod(x as nat, 0x1_0000_0000);
    }

    proof fn lemma_bits_in_range(x: Self) {
    }

    proof fn lemma_value(x: Self) {
    }

    proof fn lemma_decode_value(bits: u64) {
        vstd::arithmetic::div_mod::lemma_small_mod(bits as nat, 0x1_0000_0000);
    }
}

impl ArrayElement for u64 {
    open spec fn dtype_spec() -> Dtype {
        Dtype::Uint64
    }

    open spec fn to_bits_spec(self) -> u64 {
        self
    }

    open spec fn from_bits_spec(bits: u64) -> Self {
        bits
    }

    open spec fn value_spec(self) -> int {
        self as int
    }

    fn dtype() -> Dtype {
        Dtype::Uint64
    }

    fn to_bits(self) -> u64 {
        self
    }

    fn from_bits(bits: u64) -> Self {
        bits
    }

    proof fn lemma_roundtrip(x: Self) {
    }

    proof fn lemma_bits_in_range(x: Self) {
    }

    proof fn lemma_value(x: Self) {
    }

    proof fn lemma_decode_value(bits: u64) {
    }
}

impl ArrayElement for i8 {
    open spec fn dtype_spec() -> Dtype {
        Dtype::Int8
    }

    open spec fn to_bits_spec(self) -> u64 {
        if self >= 0 {
            self as u64
        } else {
            (self + 0x100) as u64
        }
    }

    open spec fn from_bits_spec(bits: u64) -> Self {
        let r = bits % 0x100;
        if r < 0x80 {
            r as i8
        } else {
            (r - 0x100) as i8
        }
    }

    open spec fn value_spec(self) -> int {
        self as int
    }

    fn dtype() -> Dtype {
        Dtype::Int8
    }

    fn to_bits(self) -> u64 {
        if self >= 0 {
            self as u64
        } else {
            ((self as i64) + 0x100) as u64
        }
    }

    fn from_bits(bits: u64) -> Self {
        let r = bits % 0x100;
        if r < 0x80 {
            r as i8
        } else {
            ((r as i64) - 0x100) as i8
        }
    }

    proof fn lemma_roundtrip(x: Self) {
        vstd::arithmetic::div_mod::lemma_small_mod(x.to_bits_spec() as nat, 0x100);
    }

    proof fn lemma_bits_in_range(x: Self) {
    }

    proof fn lemma_value(x: Self) {
    }

    proof fn lemma_decode_value(bits: u64) {
        vstd::arithmetic::div_mod::lemma_small_mod(bits as nat, 0x100);
    }
}

impl ArrayElement for i16 {
    open spec fn dtype_spec() -> Dtype {
        Dtype::Int16
    }

    open spec fn to_bits_spec(self) -> u64 {
        if self >= 0 {
            self as u64
        } else {
            (self + 0x10000) as u64
        }
    }

    open spec fn from_bits_spec(bits: u64) -> Self {
        let r = bits % 0x10000;
        if r < 0x8000 {
            r as i16
        } else {
            (r - 0x10000) as i16
        }
    }

    open spec fn value_spec(self) -> int {
        self as int
    }

    fn dtype() -> Dtype {
        Dtype::Int16
    }

    fn to_bits(self) -> u64 {
        if self >= 0 {
            self as u64
        } else {
            ((self as i64) + 0x10000) as u64
        }
    }

    fn from_bits(bits: u64) -> Self {
        let r = bits % 0x10000;
        if r < 0x8000 {
            r as i16
        } else {
            ((r as i64) - 0x10000) as i16
        }
    }

    proof fn lemma_roundtrip(x: Self) {
        vstd::arithmetic::div_mod::lemma_small_mod(x.to_bits_spec() as nat, 0x10000);
    }

    proof fn lemma_bits_in_range(x: Self) {
    }

    proof fn lemma_value(x: Self) {
    }

    proof fn lemma_decode_value(bits: u64) {
        vstd::arithmetic::div_mod::lemma_small_mod(bits as nat, 0x10000);
    }
}

impl ArrayElement for i32 {
    open spec fn dtype_spec() -> Dtype {
        Dtype::Int32
    }

    open spec fn to_bits_spec(self) -> u64 {
        if self >= 0 {
            self as u64
        } else {
            (self + 0x1_0000_0000) as u64
        }
    }

    open spec fn from_bits_spec(bits: u64) -> Self {
        let r = bits % 0x1_0000_0000;
        if r < 0x8000_0000 {
            r as i32
        } else {
            (r - 0x1_0000_0000) as i32
        }
    }

    open spec fn value_spec(self) -> int {
        self as int
    }

    fn dtype() -> Dtype {
        Dtype::Int32
    }

    fn to_bits(self) -> u64 {
        if self >= 0 {
            self as u64
        } else {
            ((self as i64) + 0x1_0000_0000) as u64
        }
    }

    fn from_bits(bits: u64) -> Self {
        let r = bits % 0x1_0000_0000;
        if r < 0x8000_0000 {
            r as i32
        } else {
            ((r as i64) - 0x1_0000_0000) as i32
        }
    }

    proof fn lemma_roundtrip(x: Self) {
        vstd::arithmetic::div_mod::lemma_small_mod(x.to_bits_spec() as nat, 0x1_0000_0000);
    }

    proof fn lemma_bits_in_range(x: Self) {
    }

    proof fn lemma_value(x: Self) {
    }

    proof fn lemma_decode_value(bits: u64) {
        vstd::arithmetic::div_mod::lemma_small_mod(bits as nat, 0x1_0000_0000);
    }
}

impl ArrayElement for i64 {
    open spec fn dtype_spec() -> Dtype {
        Dtype::Int64
    }

    open spec fn to_bits_spec(self) -> u64 {
        if self >= 0 {
            self as u64
        } else {
            (self + 0x1_0000_0000_0000_0000) as u64
        }
    }

    open spec fn from_bits_spec(bits: u64) -> Self {
        if bits < 0x8000_0000_0000_0000 {
            bits as i64
        } else {
            (bits - 0x1_0000_0000_0000_0000) as i64
        }
    }

    open spec fn value_spec(self) -> int {
        self as int
    }

    fn dtype() -> Dtype {
        Dtype::Int64
    }

    fn to_bits(self) -> u64 {
        if self >= 0 {
            self as u64
        } else {
            (((self as i128) + 0x1_0000_0000_0000_0000) as u64)
        }
    }

    fn from_bits(bits: u64) -> Self {
        if bits < 0x8000_0000_0000_0000 {
            bits as i64
        } else {
            (((bits as i128) - 0x1_0000_0000_0000_0000) as i64)
        }
    }

    proof fn lemma_roundtrip(x: Self) {
    }

    proof fn lemma_bits_in_range(x: Self) {
    }

    proof fn lemma_value(x: Self) {
    }

    proof fn lemma_decode_value(bits: u64) {
    }
}

} // verus!
