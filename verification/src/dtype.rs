//! The closed set of array element types and their promotion lattice.

use vstd::prelude::*;

verus! {

/// Array element type.
#[derive(Debug, Clone, Copy, PartialEq, Eq, Hash, Structural)]
pub enum Dtype {
    /// bool
    Bool,
    /// u8
    Uint8,
    /// u16
    Uint16,
    /// u32
    Uint32,
    /// u64
    Uint64,
    /// i8
    Int8,
    /// i16
    Int16,
    /// i32
    Int32,
    /// i64
    Int64,
    /// f16
    Float16,
    /// f32
    Float32,
    /// bfloat16
    Bfloat16,
    /// complex64
    Complex64,
}

impl Dtype {
    /// The complex kind.
    pub open spec fn is_complex_spec(self) -> bool {
        self is Complex64
    }

    /// The floating kinds (complex excluded).
    pub open spec fn is_float_spec(self) -> bool {
        self is Float16 || self is Float32 || self is Bfloat16
    }

    /// The kinds that cannot represent every integer exactly.
    pub open spec fn is_inexact_spec(self) -> bool {
        self.is_float_spec() || self.is_complex_spec()
    }

    /// The unsigned integer kinds.
    pub open spec fn is_unsigned_spec(self) -> bool {
        self is Uint8 || self is Uint16 || self is Uint32 || self is Uint64
    }

    /// The signed integer kinds.
    pub open spec fn is_signed_spec(self) -> bool {
        self is Int8 || self is Int16 || self is Int32 || self is Int64
    }

    /// The integer kinds, signed or unsigned.
    pub open spec fn is_integer_spec(self) -> bool {
        self.is_unsigned_spec() || self.is_signed_spec()
    }

    /// Width in bits of an integer kind.
    pub open spec fn int_width_spec(self) -> int {
        match self {
            Dtype::Uint8 | Dtype::Int8 => 8,
            Dtype::Uint16 | Dtype::Int16 => 16,
            Dtype::Uint32 | Dtype::Int32 => 32,
            Dtype::Uint64 | Dtype::Int64 => 64,
            _ => 0,
        }
    }

    /// The unsigned kind of a given width.
    pub open spec fn unsigned_of_width(w: int) -> Dtype {
        if w == 8 {
            Dtype::Uint8
        } else if w == 16 {
            Dtype::Uint16
        } else if w == 32 {
            Dtype::Uint32
        } else {
            Dtype::Uint64
        }
    }

    /// The signed kind of a given width.
    pub open spec fn signed_of_width(w: int) -> Dtype {
        if w == 8 {
            Dtype::Int8
        } else if w == 16 {
            Dtype::Int16
        } else if w == 32 {
            Dtype::Int32
        } else {
            Dtype::Int64
        }
    }

    /// The promotion rule of the lattice, written so that each rule reads
    /// the two operands symmetrically: identity pairs map to themselves;
    /// boolean promotes to the other operand; the complex kind absorbs
    /// everything; the two 16-bit floating kinds promote to the 32-bit
    /// one between themselves, and otherwise a floating kind dominates
    /// the integers; same-signedness integer pairs widen to the larger
    /// width; a mixed-signedness pair widens to the signed kind that can
    /// hold both ranges, and to the 32-bit floating kind when no signed
    /// kind is wide enough.
    pub open spec fn promote_spec(self, other: Self) -> Self {
        if self == other {
            self
        } else if self is Bool {
            other
        } else if other is Bool {
            self
        } else if self is Complex64 || other is Complex64 {
            Dtype::Complex64
        } else if (self is Float16 && other is Bfloat16) || (self is Bfloat16
            && other is Float16) {
            Dtype::Float32
        } else if self is Float32 || other is Float32 {
            Dtype::Float32
        } else if self is Float16 || other is Float16 {
            Dtype::Float16
        } else if self is Bfloat16 || other is Bfloat16 {
            Dtype::Bfloat16
        } else if self.is_unsigned_spec() && other.is_unsigned_spec() {
            Dtype::unsigned_of_width(Self::width_max(self.int_width_spec(), other.int_width_spec()))
        } else if self.is_signed_spec() && other.is_signed_spec() {
            Dtype::signed_of_width(Self::width_max(self.int_width_spec(), other.int_width_spec()))
        } else {
            // one unsigned, one signed
            let uw = if self.is_unsigned_spec() {
                self.int_width_spec()
            } else {
                other.int_width_spec()
            };
            let sw = if self.is_unsigned_spec() {
                other.int_width_spec()
            } else {
                self.int_width_spec()
            };
            let need = Self::width_max(2 * uw, sw);
            if need > 64 {
                Dtype::Float32
            } else {
                Dtype::signed_of_width(need)
            }
        }
    }

    /// The size in bytes of one element of this kind.
    pub open spec fn item_size_spec(self) -> int {
        match self {
            Dtype::Bool | Dtype::Uint8 | Dtype::Int8 => 1,
            Dtype::Uint16 | Dtype::Int16 | Dtype::Float16 | Dtype::Bfloat16 => 2,
            Dtype::Uint32 | Dtype::Int32 | Dtype::Float32 => 4,
            Dtype::Uint64 | Dtype::Int64 | Dtype::Complex64 => 8,
        }
    }

    /// The larger of two widths.
    pub open spec fn width_max(a: int, b: int) -> int {
        if a >= b {
            a
        } else {
            b
        }
    }

    /// Returns `true` if the data type is complex.
    pub fn is_complex(&self) -> (r: bool)
        ensures
            r == self.is_complex_spec(),
    {
        matches!(self, Dtype::Complex64)
    }

    /// Returns `true` if the data type is floating point.
    pub fn is_float(&self) -> (r: bool)
        ensures
            r == self.is_float_spec(),
    {
        matches!(self, Dtype::Float16 | Dtype::Float32 | Dtype::Bfloat16)
    }

    /// Returns `true` if the data type is one of the floating kinds or the
    /// complex kind.
    pub fn is_inexact(&self) -> (r: bool)
        ensures
            r == self.is_inexact_spec(),
    {
        matches!(
            self,
            Dtype::Float16 | Dtype::Float32 | Dtype::Complex64 | Dtype::Bfloat16
        )
    }

    /// Returns the promotion type of two data types.
    pub fn from_promoting_types(a: Dtype, b: Dtype) -> (r: Self)
        ensures
            r == a.promote_spec(b),
    {
        a.promote_with(b)
    }

    fn is_unsigned(self) -> (r: bool)
        ensures
            r == self.is_unsigned_spec(),
    {
        matches!(self, Dtype::Uint8 | Dtype::Uint16 | Dtype::Uint32 | Dtype::Uint64)
    }

    fn is_signed(self) -> (r: bool)
        ensures
            r == self.is_signed_spec(),
    {
        matches!(self, Dtype::Int8 | Dtype::Int16 | Dtype::Int32 | Dtype::Int64)
    }

    fn int_width(self) -> (w: u32)
        ensures
            w == self.int_width_spec(),
    {
        match self {
            Dtype::Uint8 | Dtype::Int8 => 8,
            Dtype::Uint16 | Dtype::Int16 => 16,
            Dtype::Uint32 | Dtype::Int32 => 32,
            Dtype::Uint64 | Dtype::Int64 => 64,
            _ => 0,
        }
    }
}

pub(crate) trait TypePromotion: Sized {
    spec fn promotes_to(self, other: Self) -> Self;

    fn promote_with(self, other: Self) -> (r: Self)
        ensures
            r == self.promotes_to(other),
    ;
}

impl TypePromotion for Dtype {
    open spec fn promotes_to(self, other: Self) -> Self {
        self.promote_spec(other)
    }

    fn promote_with(self, other: Self) -> (r: Self) {
        if self == other {
            self
        } else if matches!(self, Dtype::Bool) {
            other
        } else if matches!(other, Dtype::Bool) {
            self
        } else if matches!(self, Dtype::Complex64) || matches!(other, Dtype::Complex64) {
            Dtype::Complex64
        } else if (matches!(self, Dtype::Float16) && matches!(other, Dtype::Bfloat16))
            || (matches!(self, Dtype::Bfloat16) && matches!(other, Dtype::Float16)) {
            Dtype::Float32
        } else if matches!(self, Dtype::Float32) || matches!(other, Dtype::Float32) {
            Dtype::Float32
        } else if matches!(self, Dtype::Float16) || matches!(other, Dtype::Float16) {
            Dtype::Float16
        } else if matches!(self, Dtype::Bfloat16) || matches!(other, Dtype::Bfloat16) {
            Dtype::Bfloat16
        } else {
            let wa = self.int_width();
            let wb = other.int_width();
            if self.is_unsigned() && other.is_unsigned() {
                Self::unsigned_of(if wa >= wb {
                    wa
                } else {
                    wb
                })
            } else if self.is_signed() && other.is_signed() {
                Self::signed_of(if wa >= wb {
                    wa
                } else {
                    wb
                })
            } else {
                let uw = if self.is_unsigned() {
                    wa
                } else {
                    wb
                };
                let sw = if self.is_unsigned() {
                    wb
                } else {
                    wa
                };
                let doubled = 2 * uw;
                let need = if doubled >= sw {
                    doubled
                } else {
                    sw
                };
                if need > 64 {
                    Dtype::Float32
                } else {
                    Self::signed_of(need)
                }
            }
        }
    }
}

impl Dtype {
    fn unsigned_of(w: u32) -> (r: Self)
        ensures
            r == Dtype::unsigned_of_width(w as int),
    {
        if w == 8 {
            Dtype::Uint8
        } else if w == 16 {
            Dtype::Uint16
        } else if w == 32 {
            Dtype::Uint32
        } else {
            Dtype::Uint64
        }
    }

    fn signed_of(w: u32) -> (r: Self)
        ensures
            r == Dtype::signed_of_width(w as int),
    {
        if w == 8 {
            Dtype::Int8
        } else if w == 16 {
            Dtype::Int16
        } else if w == 32 {
            Dtype::Int32
        } else {
            Dtype::Int64
        }
    }
}

/// The promotion rule is commutative: either operand order yields the
/// same promoted type, and the rule is defined for every pair.
pub proof fn lemma_promotion_commutes(a: Dtype, b: Dtype)
    ensures
        a.promote_spec(b) == b.promote_spec(a),
{
}

} // verus!
