//! The tensor value type: an array with a fixed element kind, a shape,
//! and per-element storage.
//!
//! An array owns its storage outright: constructing one copies the
//! caller's buffer, and cloning copies the data again rather than
//! sharing it, so no two arrays ever alias the same storage. Arrays of
//! an inexact kind whose contents would only arise from foreign
//! arithmetic carry no storage; reading one reports an absent buffer.

use vstd::prelude::*;

use crate::dtype::Dtype;
use crate::element::{
    cast_exact, cast_exact_spec, encoding_in_range, is_exact_kind, ArrayElement,
};
use crate::error::{
    AsSliceError, ErrorBridge, Exception, ItemError, OperationError, ReshapeError,
};
use crate::utils::{shape_product, shape_wf, suffix_product};
use crate::Sealed;

verus! {

/// An array value: an element kind, a shape, and the stored encoding of
/// each element in row-major order. Storage is absent only for arrays
/// whose element values the model does not carry.
#[derive(Debug)]
pub struct Array {
    dtype: Dtype,
    shape: Vec<i32>,
    data: Option<Vec<u64>>,
}

impl Sealed for Array {

}

impl<'a> Sealed for &'a Array {

}

impl Array {
    /// The array's element kind.
    pub closed spec fn dtype_spec(&self) -> Dtype {
        self.dtype
    }

    /// The array's shape; empty for a scalar.
    pub closed spec fn shape_spec(&self) -> Seq<i32> {
        self.shape@
    }

    /// The stored element encodings, row-major, when the model carries
    /// them.
    pub closed spec fn data_spec(&self) -> Option<Seq<u64>> {
        match self.data {
            Some(ref d) => Some(d@),
            None => None,
        }
    }

    /// The number of elements: the product of the extents, one for a
    /// scalar.
    pub open spec fn size_spec(&self) -> int {
        shape_product(self.shape_spec())
    }

    /// The number of dimensions.
    pub open spec fn ndim_spec(&self) -> int {
        self.shape_spec().len() as int
    }

    /// Every array holds a well-formed shape, and its storage, when
    /// present, has one in-range encoding per element.
    #[verifier::type_invariant]
    pub open spec fn inv(&self) -> bool {
        &&& shape_wf(self.shape_spec())
        &&& match self.data_spec() {
            Some(d) => {
                &&& d.len() == self.size_spec()
                &&& forall|i: int|
                    0 <= i < d.len() ==> #[trigger] encoding_in_range(self.dtype_spec(), d[i])
            },
            None => true,
        }
    }

    /// New array from a bool scalar.
    pub fn from_bool(val: bool) -> (r: Array)
        ensures
            r.dtype_spec() == Dtype::Bool,
            r.shape_spec() == Seq::<i32>::empty(),
            r.data_spec() == Some(seq![val.to_bits_spec()]),
    {
        Self::scalar_from_bits(Dtype::Bool, if val {
            1
        } else {
            0
        })
    }

    /// New array from an int scalar.
    pub fn from_int(val: i32) -> (r: Array)
        ensures
            r.dtype_spec() == Dtype::Int32,
            r.shape_spec() == Seq::<i32>::empty(),
            r.data_spec() == Some(seq![val.to_bits_spec()]),
    {
        proof {
            <i32 as ArrayElement>::lemma_bits_in_range(val);
        }
        Self::scalar_from_bits(Dtype::Int32, val.to_bits())
    }

    /// New scalar array holding one already-encoded element.
    pub fn scalar_from_bits(dtype: Dtype, bits: u64) -> (r: Array)
        requires
            encoding_in_range(dtype, bits),
        ensures
            r.dtype_spec() == dtype,
            r.shape_spec() == Seq::<i32>::empty(),
            r.data_spec() == Some(seq![bits]),
    {
        let shape: Vec<i32> = Vec::new();
        let mut data: Vec<u64> = Vec::new();
        data.push(bits);
        let r = Array { dtype, shape, data: Some(data) };
        proof {
            assert(r.shape_spec() =~= Seq::<i32>::empty());
            assert(r.data_spec() == Some(seq![bits]));
        }
        r
    }

    /// New array from an existing buffer, which is copied.
    ///
    /// The shape must be well-formed and its product must equal the
    /// buffer's length; the engine rejects anything else at the
    /// boundary, so those inputs are excluded here.
    pub fn from_slice<T: ArrayElement>(data: &[T], shape: &[i32]) -> (r: Array)
        requires
            shape_wf(shape@),
            shape_product(shape@) == data@.len(),
        ensures
            r.dtype_spec() == T::dtype_spec(),
            r.shape_spec() == shape@,
            r.data_spec() == Some(data@.map(|i: int, x: T| x.to_bits_spec())),
    {
        let n = data.len();
        let mut bits: Vec<u64> = Vec::new();
        let mut i: usize = 0;
        while i < n
            invariant
                i <= n,
                n == data@.len(),
                bits@.len() == i,
                forall|t: int| 0 <= t < i ==> bits@[t] == data@[t].to_bits_spec(),
                forall|t: int|
                    0 <= t < i ==> #[trigger] encoding_in_range(T::dtype_spec(), bits@[t]),
            decreases n - i,
        {
            let x = data[i];
            proof {
                T::lemma_bits_in_range(x);
            }
            bits.push(x.to_bits());
            i += 1;
        }
        let r = Array {
            dtype: T::dtype(),
            shape: vstd::slice::slice_to_vec(shape),
            data: Some(bits),
        };
        proof {
            assert(r.data_spec()->Some_0 =~= data@.map(|t: int, x: T| x.to_bits_spec()));
        }
        r
    }

    /// New array from a vector of elements, consumed; equivalent to
    /// collecting and calling [`Array::from_slice`].
    pub fn from_iter<T: ArrayElement>(data: Vec<T>, shape: &[i32]) -> (r: Array)
        requires
            shape_wf(shape@),
            shape_product(shape@) == data@.len(),
        ensures
            r.dtype_spec() == T::dtype_spec(),
            r.shape_spec() == shape@,
            r.data_spec() == Some(data@.map(|i: int, x: T| x.to_bits_spec())),
    {
        Self::from_slice(data.as_slice(), shape)
    }

    /// New array from already-encoded storage: the bits of each element
    /// at the given kind, row-major.
    pub fn from_bits_buffer(dtype: Dtype, bits: Vec<u64>, shape: &[i32]) -> (r: Array)
        requires
            shape_wf(shape@),
            shape_product(shape@) == bits@.len(),
            forall|i: int| 0 <= i < bits@.len() ==> #[trigger] encoding_in_range(dtype, bits@[i]),
        ensures
            r.dtype_spec() == dtype,
            r.shape_spec() == shape@,
            r.data_spec() == Some(bits@),
    {
        Array { dtype, shape: vstd::slice::slice_to_vec(shape), data: Some(bits) }
    }

    /// New array tracked by shape and kind alone, without element
    /// storage: its values would only arise from foreign arithmetic.
    pub(crate) fn without_storage(dtype: Dtype, shape: Vec<i32>) -> (r: Array)
        requires
            shape_wf(shape@),
        ensures
            r.dtype_spec() == dtype,
            r.shape_spec() == shape@,
            r.data_spec() is None,
    {
        Array { dtype, shape, data: None }
    }

    /// Returns a copy of the array's stored element encodings without
    /// interpreting them, when the model carries them: the safe
    /// counterpart of an unchecked buffer read, with the caller
    /// answering for what the encodings mean at the array's kind.
    pub fn data_bits(&self) -> (r: Option<Vec<u64>>)
        ensures
            match r {
                Some(v) => self.data_spec() == Some(v@),
                None => self.data_spec() is None,
            },
    {
        match &self.data {
            Some(d) => Some(vstd::slice::slice_to_vec(d.as_slice())),
            None => None,
        }
    }

    /// The array's storage, for the crate's own constructors.
    pub(crate) fn storage(&self) -> (r: &Option<Vec<u64>>)
        ensures
            match r {
                Some(d) => self.data_spec() == Some(d@),
                None => self.data_spec() is None,
            },
    {
        &self.data
    }

    /// The size of the array's element kind in bytes.
    pub fn item_size(&self) -> (r: usize)
        ensures
            r == self.dtype_spec().item_size_spec(),
    {
        match self.dtype {
            Dtype::Bool | Dtype::Uint8 | Dtype::Int8 => 1,
            Dtype::Uint16 | Dtype::Int16 | Dtype::Float16 | Dtype::Bfloat16 => 2,
            Dtype::Uint32 | Dtype::Int32 | Dtype::Float32 => 4,
            Dtype::Uint64 | Dtype::Int64 | Dtype::Complex64 => 8,
        }
    }

    /// Number of elements in the array.
    pub fn size(&self) -> (r: usize)
        ensures
            r == self.size_spec(),
    {
        proof {
            use_type_invariant(self);
        }
        let n = self.shape.len();
        let mut acc: usize = 1;
        let mut i: usize = n;
        while i > 0
            invariant
                i <= n,
                n == self.shape_spec().len(),
                shape_wf(self.shape_spec()),
                acc == suffix_product(self.shape_spec(), i as int),
            decreases i,
        {
            i -= 1;
            proof {
                crate::utils::lemma_suffix_product_nonneg(self.shape_spec(), i + 1);
                assert(suffix_product(self.shape_spec(), i as int) <= usize::MAX);
            }
            acc = (self.shape[i] as usize) * acc;
        }
        acc
    }

    /// The array's dimension.
    pub fn ndim(&self) -> (r: usize)
        ensures
            r == self.ndim_spec(),
    {
        self.shape.len()
    }

    /// The shape of the array; empty for a scalar.
    pub fn shape(&self) -> (r: &[i32])
        ensures
            r@ == self.shape_spec(),
    {
        self.shape.as_slice()
    }

    /// The strides of the array: the distance in elements between
    /// consecutive indices of each dimension, row-major; empty for a
    /// scalar.
    pub fn strides(&self) -> (r: Vec<usize>)
        ensures
            r@.len() == self.ndim_spec(),
            forall|i: int|
                0 <= i < r@.len() ==> r@[i] == suffix_product(self.shape_spec(), i + 1),
    {
        proof {
            use_type_invariant(self);
        }
        let n = self.shape.len();
        let mut rev: Vec<usize> = Vec::new();
        let mut acc: usize = 1;
        let mut i: usize = n;
        while i > 0
            invariant
                i <= n,
                n == self.shape_spec().len(),
                shape_wf(self.shape_spec()),
                acc == suffix_product(self.shape_spec(), i as int),
                rev@.len() == n - i,
                forall|t: int|
                    0 <= t < rev@.len() ==> rev@[t] == suffix_product(
                        self.shape_spec(),
                        n - t,
                    ),
            decreases i,
        {
            rev.push(acc);
            i -= 1;
            proof {
                crate::utils::lemma_suffix_product_nonneg(self.shape_spec(), i + 1);
                assert(suffix_product(self.shape_spec(), i as int) <= usize::MAX);
            }
            acc = (self.shape[i] as usize) * acc;
        }
        let mut out: Vec<usize> = Vec::new();
        let mut k: usize = 0;
        while k < n
            invariant
                k <= n,
                n == self.shape_spec().len(),
                rev@.len() == n,
                forall|t: int|
                    0 <= t < n ==> rev@[t] == suffix_product(self.shape_spec(), n - t),
                out@.len() == k,
                forall|t: int|
                    0 <= t < k ==> out@[t] == suffix_product(self.shape_spec(), t + 1),
            decreases n - k,
        {
            out.push(rev[n - 1 - k]);
            k += 1;
        }
        out
    }

    /// The number of bytes the array's elements occupy.
    pub fn nbytes(&self) -> (r: usize)
        requires
            self.size_spec() * self.dtype_spec().item_size_spec() <= usize::MAX,
        ensures
            r == self.size_spec() * self.dtype_spec().item_size_spec(),
    {
        proof {
            use_type_invariant(self);
            crate::utils::lemma_suffix_product_nonneg(self.shape_spec(), 0);
        }
        let s = self.size();
        let per = self.item_size();
        proof {
            assert(s * per == self.size_spec() * self.dtype_spec().item_size_spec())
                by (nonlinear_arith)
                requires
                    s == self.size_spec(),
                    per == self.dtype_spec().item_size_spec(),
            ;
        }
        s * per
    }

    /// The extent of one dimension, with a negative index counting from
    /// the end. The index must land in `[0, ndim)` after resolution, on
    /// an array that has at least one dimension; anything else is a
    /// caller error and is excluded here.
    pub fn dim(&self, dim: i32) -> (r: i32)
        requires
            0 <= crate::utils::norm_axis(dim as int, self.ndim_spec()) < self.ndim_spec(),
        ensures
            r == self.shape_spec()[crate::utils::norm_axis(dim as int, self.ndim_spec())],
    {
        proof {
            use_type_invariant(self);
        }
        let resolved: usize = if dim < 0 {
            ((self.shape.len() as i32) + dim) as usize
        } else {
            dim as usize
        };
        self.shape[resolved]
    }

    /// The array element type.
    pub fn dtype(&self) -> (r: Dtype)
        ensures
            r == self.dtype_spec(),
    {
        self.dtype
    }

    /// Forces materialization of pending computation for this array,
    /// polling the error bridge immediately after: the handler is
    /// installed if it is not yet, and a pending error is taken and
    /// returned as a typed failure. Idempotent: the array itself is
    /// unchanged either way.
    pub fn eval(&mut self, bridge: &mut ErrorBridge) -> (r: Result<(), Exception>)
        ensures
            *final(self) == *old(self),
            final(bridge).handler_installed_spec(),
            final(bridge).pending_spec() is None,
            match r {
                Ok(()) => old(bridge).pending_spec() is None,
                Err(e) => old(bridge).pending_spec() == Some(e.message@),
            },
    {
        if !bridge.is_error_handler_set() {
            bridge.setup_error_handler();
        }
        match bridge.get_and_clear_last_error() {
            Some(e) => Err(e),
            None => Ok(()),
        }
    }

    /// Checks whether this array can be reshaped to the given target
    /// shape: at most one entry of the target may be the inferred
    /// marker, which is solved so that the element counts match.
    pub fn can_reshape_to(&self, shape: &[i32]) -> (r: Result<(), ReshapeError>)
        requires
            self.size_spec() <= i32::MAX,
            crate::utils::wild_products_bounded(shape@),
        ensures
            r is Ok <==> crate::utils::reshape_ok_spec(
                self.shape_spec(),
                self.size_spec(),
                shape@,
            ),
            (r matches Err(ReshapeError::MultipleInferredDims)) <==> (self.shape_spec() != shape@
                && crate::utils::count_wild(shape@) >= 2),
            (r matches Err(ReshapeError::EmptyArray)) <==> (self.shape_spec() != shape@
                && crate::utils::count_wild(shape@) == 1 && crate::utils::wild_product(shape@)
                <= 0),
            match r {
                Err(ReshapeError::InvalidShape { size, shape: s }) => size == self.size_spec()
                    && s@ == shape@,
                _ => true,
            },
    {
        let size = self.size();
        crate::utils::can_reshape(self.shape.as_slice(), size, shape)
    }

    /// Checks that an optional axis lies within this array's
    /// dimensionality, counting negative axes from the end; a missing
    /// axis always passes.
    pub fn validate_axis_in_bounds(&self, axis: Option<i32>) -> (r: Result<(), OperationError>)
        ensures
            match r {
                Ok(()) => match axis {
                    Some(ax) => -self.ndim_spec() <= ax < self.ndim_spec(),
                    None => true,
                },
                Err(e) => match axis {
                    Some(ax) => !(-self.ndim_spec() <= ax < self.ndim_spec()) && e == (
                    OperationError::AxisOutOfBounds {
                        axis: ax,
                        dim: self.ndim_spec() as usize,
                    }),
                    None => false,
                },
            },
    {
        proof {
            use_type_invariant(self);
        }
        crate::utils::validate_axis(self.shape.len(), axis)
    }

    /// Access the value of a scalar array, failing when the array is
    /// not a scalar. If `T` is not the array's own kind, the element is
    /// cast by value first; the cast wraps exactly as the narrowing
    /// numeric cast would and is not bounds-checked.
    pub fn try_item<T: ArrayElement>(&self) -> (r: Result<T, ItemError>)
        ensures
            (r matches Err(ItemError::NotScalar)) <==> self.size_spec() != 1,
            r is Ok <==> (self.size_spec() == 1 && self.data_spec() is Some && is_exact_kind(
                self.dtype_spec(),
            )),
            match r {
                Ok(v) => v == T::from_bits_spec(
                    cast_exact_spec(
                        self.dtype_spec(),
                        T::dtype_spec(),
                        self.data_spec()->Some_0[0],
                    ),
                ),
                Err(ItemError::Exception(e)) => if self.data_spec() is None {
                    e.message@ == "element storage is absent"@
                } else {
                    e.message@ == "cannot read an element of an inexact kind"@
                },
                _ => true,
            },
    {
        proof {
            use_type_invariant(self);
        }
        if self.size() != 1 {
            return Err(ItemError::NotScalar);
        }
        match &self.data {
            None => Err(
                ItemError::Exception(
                    Exception { message: "element storage is absent".to_owned() },
                ),
            ),
            Some(bits) => {
                if self.dtype.is_inexact() {
                    Err(
                        ItemError::Exception(
                            Exception {
                                message: "cannot read an element of an inexact kind".to_owned(),
                            },
                        ),
                    )
                } else {
                    proof {
                        T::lemma_value(T::from_bits_spec(0));
                    }
                    let b = cast_exact(self.dtype, T::dtype(), bits[0]);
                    Ok(T::from_bits(b))
                }
            },
        }
    }

    /// Access the value of a scalar array. If `T` is not the array's
    /// own kind, the element is cast by value first. The array must be
    /// a scalar with readable storage; anything else is a caller error
    /// and is excluded here.
    pub fn item<T: ArrayElement>(&self) -> (r: T)
        requires
            self.size_spec() == 1,
            self.data_spec() is Some,
            is_exact_kind(self.dtype_spec()),
        ensures
            r == T::from_bits_spec(
                cast_exact_spec(self.dtype_spec(), T::dtype_spec(), self.data_spec()->Some_0[0]),
            ),
            self.dtype_spec() == T::dtype_spec() ==> r == T::from_bits_spec(
                self.data_spec()->Some_0[0],
            ),
    {
        proof {
            use_type_invariant(self);
            if self.dtype_spec() == T::dtype_spec() {
                crate::element::lemma_encode_decode(
                    self.dtype_spec(),
                    self.data_spec()->Some_0[0],
                );
            }
        }
        match self.try_item::<T>() {
            Ok(v) => v,
            Err(_) => {
                proof {
                    assert(false);
                }
                T::from_bits(0)
            },
        }
    }

    /// Access the first element of the array without checking that it
    /// is a scalar: the caller answers for the shape. The array must
    /// have readable storage with at least one element.
    pub fn item_unchecked<T: ArrayElement>(&self) -> (r: T)
        requires
            self.size_spec() >= 1,
            self.data_spec() is Some,
            is_exact_kind(self.dtype_spec()),
        ensures
            r == T::from_bits_spec(
                cast_exact_spec(self.dtype_spec(), T::dtype_spec(), self.data_spec()->Some_0[0]),
            ),
    {
        proof {
            use_type_invariant(self);
            T::lemma_value(T::from_bits_spec(0));
        }
        let bits = match &self.data {
            Some(b) => b,
            None => {
                proof {
                    assert(false);
                }
                return T::from_bits(0);
            },
        };
        let b = cast_exact(self.dtype, T::dtype(), bits[0]);
        T::from_bits(b)
    }

    /// Returns a copy of the array's elements, failing when `T` is not
    /// exactly the array's own kind (no implicit cast here), or when the
    /// buffer is absent or empty.
    pub fn try_as_slice<T: ArrayElement>(&self) -> (r: Result<Vec<T>, AsSliceError>)
        ensures
            r is Ok <==> (self.dtype_spec() == T::dtype_spec() && self.data_spec() is Some
                && self.size_spec() != 0),
            match r {
                Ok(v) => {
                    &&& v@.len() == self.size_spec()
                    &&& forall|i: int|
                        0 <= i < v@.len() ==> v@[i] == T::from_bits_spec(
                            self.data_spec()->Some_0[i],
                        )
                },
                Err(AsSliceError::DtypeMismatch { expecting, found }) => {
                    &&& expecting == T::dtype_spec()
                    &&& found == self.dtype_spec()
                    &&& T::dtype_spec() != self.dtype_spec()
                },
                Err(AsSliceError::Null) => self.dtype_spec() == T::dtype_spec() && (
                self.data_spec() is None || self.size_spec() == 0),
                Err(AsSliceError::Exception(_)) => false,
            },
    {
        proof {
            use_type_invariant(self);
        }
        if T::dtype() != self.dtype {
            return Err(AsSliceError::DtypeMismatch { expecting: T::dtype(), found: self.dtype });
        }
        let sz = self.size();
        match &self.data {
            None => Err(AsSliceError::Null),
            Some(bits) => {
                if sz == 0 {
                    return Err(AsSliceError::Null);
                }
                let mut out: Vec<T> = Vec::new();
                let mut i: usize = 0;
                while i < sz
                    invariant
                        i <= sz,
                        sz == bits@.len(),
                        forall|t: int|
                            0 <= t < bits@.len() ==> #[trigger] encoding_in_range(
                                T::dtype_spec(),
                                bits@[t],
                            ),
                        out@.len() == i,
                        forall|t: int|
                            0 <= t < i ==> out@[t] == T::from_bits_spec(bits@[t]),
                    decreases sz - i,
                {
                    out.push(T::from_bits(bits[i]));
                    i += 1;
                }
                Ok(out)
            },
        }
    }

    /// Returns a copy of the array's elements. `T` must be exactly the
    /// array's own kind and the buffer must be readable and nonempty;
    /// anything else is a caller error and is excluded here.
    pub fn as_slice<T: ArrayElement>(&self) -> (r: Vec<T>)
        requires
            self.dtype_spec() == T::dtype_spec(),
            self.data_spec() is Some,
            self.size_spec() != 0,
        ensures
            r@.len() == self.size_spec(),
            forall|i: int|
                0 <= i < r@.len() ==> r@[i] == T::from_bits_spec(self.data_spec()->Some_0[i]),
    {
        match self.try_as_slice::<T>() {
            Ok(v) => v,
            Err(_) => {
                proof {
                    assert(false);
                }
                Vec::new()
            },
        }
    }
}

/// One stored element of each array reads as the same value: numeric
/// equality between two exact kinds, identical encoding at the same
/// kind otherwise.
pub open spec fn elems_equal(d1: Dtype, b1: u64, d2: Dtype, b2: u64) -> bool {
    if is_exact_kind(d1) && is_exact_kind(d2) {
        crate::element::decode_int(d1, b1) == crate::element::decode_int(d2, b2)
    } else {
        d1 == d2 && b1 == b2
    }
}

/// Two arrays are equal when their shapes are identical and their
/// stored elements read as the same values position by position; the
/// kinds need not match. Arrays without readable storage never compare
/// equal: the model cannot decide equality of values it does not
/// carry.
pub open spec fn array_eq_spec(a: &Array, b: &Array) -> bool {
    &&& a.shape_spec() == b.shape_spec()
    &&& a.data_spec() is Some
    &&& b.data_spec() is Some
    &&& a.data_spec()->Some_0.len() == b.data_spec()->Some_0.len()
    &&& forall|i: int|
        0 <= i < a.data_spec()->Some_0.len() ==> elems_equal(
            a.dtype_spec(),
            a.data_spec()->Some_0[i],
            b.dtype_spec(),
            b.data_spec()->Some_0[i],
        )
}

impl PartialEq for Array {
    /// Array equality: the shapes must be identical and the elements
    /// equal by value; the kinds need not match.
    fn eq(&self, other: &Self) -> (r: bool) {
        proof {
            use_type_invariant(self);
            use_type_invariant(other);
        }
        if !crate::utils::slices_equal(self.shape.as_slice(), other.shape.as_slice()) {
            return false;
        }
        match (&self.data, &other.data) {
            (Some(x), Some(y)) => {
                if x.len() != y.len() {
                    return false;
                }
                let n = x.len();
                let mut i: usize = 0;
                while i < n
                    invariant
                        i <= n,
                        n == x@.len() == y@.len(),
                        self.data_spec() == Some(x@),
                        other.data_spec() == Some(y@),
                        forall|t: int|
                            0 <= t < x@.len() ==> #[trigger] encoding_in_range(
                                self.dtype_spec(),
                                x@[t],
                            ),
                        forall|t: int|
                            0 <= t < y@.len() ==> #[trigger] encoding_in_range(
                                other.dtype_spec(),
                                y@[t],
                            ),
                        forall|t: int|
                            0 <= t < i ==> elems_equal(
                                self.dtype_spec(),
                                x@[t],
                                other.dtype_spec(),
                                y@[t],
                            ),
                    decreases n - i,
                {
                    let same = if !self.dtype.is_inexact() && !other.dtype.is_inexact() {
                        crate::element::decode_value(self.dtype, x[i])
                            == crate::element::decode_value(other.dtype, y[i])
                    } else {
                        self.dtype == other.dtype && x[i] == y[i]
                    };
                    if !same {
                        assert(!elems_equal(
                            self.dtype_spec(),
                            x@[i as int],
                            other.dtype_spec(),
                            y@[i as int],
                        ));
                        return false;
                    }
                    i += 1;
                }
                true
            },
            _ => false,
        }
    }
}

impl vstd::std_specs::cmp::PartialEqSpecImpl for Array {
    open spec fn obeys_eq_spec() -> bool {
        true
    }

    open spec fn eq_spec(&self, other: &Array) -> bool {
        array_eq_spec(self, other)
    }
}

impl Clone for Array {
    /// Clone by copying the data: the clone owns fresh storage with the
    /// same contents, shape, and kind, and shares nothing with the
    /// original.
    fn clone(&self) -> (res: Self)
        ensures
            res.dtype_spec() == self.dtype_spec(),
            res.shape_spec() == self.shape_spec(),
            res.data_spec() == self.data_spec(),
    {
        proof {
            use_type_invariant(self);
        }
        let data = match &self.data {
            Some(d) => Some(vstd::slice::slice_to_vec(d.as_slice())),
            None => None,
        };
        Array { dtype: self.dtype, shape: vstd::slice::slice_to_vec(self.shape.as_slice()), data }
    }
}

/// A helper trait to construct [`Array`] from nested forms of element
/// data, each form carrying its own shape.
pub trait FromNested<T> {
    /// The nested form is buildable: its dimensions fit the engine's
    /// dimension type.
    spec fn nested_ok(data: &T) -> bool;

    /// The element kind the form stores as.
    spec fn nested_dtype(data: &T) -> Dtype;

    /// The shape the form describes.
    spec fn nested_shape(data: &T) -> Seq<i32>;

    /// The elements the form holds, row-major, as stored encodings.
    spec fn nested_bits(data: &T) -> Seq<u64>;

    /// Builds the array the nested form describes.
    fn from_nested(data: T) -> (r: Array)
        requires
            Self::nested_ok(&data),
        ensures
            r.dtype_spec() == Self::nested_dtype(&data),
            r.shape_spec() == Self::nested_shape(&data),
            r.data_spec() == Some(Self::nested_bits(&data)),
    ;
}

impl<'a, T: ArrayElement> FromNested<&'a [T]> for Array {
    open spec fn nested_ok(data: &&'a [T]) -> bool {
        data@.len() <= i32::MAX
    }

    open spec fn nested_dtype(data: &&'a [T]) -> Dtype {
        T::dtype_spec()
    }

    open spec fn nested_shape(data: &&'a [T]) -> Seq<i32> {
        seq![data@.len() as i32]
    }

    open spec fn nested_bits(data: &&'a [T]) -> Seq<u64> {
        data@.map(|i: int, x: T| x.to_bits_spec())
    }

    fn from_nested(data: &'a [T]) -> (r: Array) {
        let n = data.len() as i32;
        let shape: Vec<i32> = vec![n];
        proof {
            assert(shape@ =~= seq![n]);
            assert(suffix_product(shape@, 1) == 1);
            assert(suffix_product(shape@, 0) == n * 1);
            assert(shape_wf(shape@)) by {
                assert forall|k: int| 0 <= k <= 1 implies #[trigger] suffix_product(shape@, k)
                    <= usize::MAX by {}
            }
        }
        Array::from_slice(data, shape.as_slice())
    }
}

impl<T: ArrayElement, const N: usize> FromNested<[T; N]> for Array {
    open spec fn nested_ok(data: &[T; N]) -> bool {
        N <= i32::MAX
    }

    open spec fn nested_dtype(data: &[T; N]) -> Dtype {
        T::dtype_spec()
    }

    open spec fn nested_shape(data: &[T; N]) -> Seq<i32> {
        seq![N as i32]
    }

    open spec fn nested_bits(data: &[T; N]) -> Seq<u64> {
        data@.map(|i: int, x: T| x.to_bits_spec())
    }

    fn from_nested(data: [T; N]) -> (r: Array) {
        let n = N as i32;
        let shape: Vec<i32> = vec![n];
        proof {
            assert(shape@ =~= seq![n]);
            assert(suffix_product(shape@, 1) == 1);
            assert(suffix_product(shape@, 0) == n * 1);
            assert(shape_wf(shape@)) by {
                assert forall|k: int| 0 <= k <= 1 implies #[trigger] suffix_product(shape@, k)
                    <= usize::MAX by {}
            }
        }
        Array::from_slice(data.as_slice(), shape.as_slice())
    }
}

impl<'a, T: ArrayElement, const N: usize> FromNested<&'a [T; N]> for Array {
    open spec fn nested_ok(data: &&'a [T; N]) -> bool {
        N <= i32::MAX
    }

    open spec fn nested_dtype(data: &&'a [T; N]) -> Dtype {
        T::dtype_spec()
    }

    open spec fn nested_shape(data: &&'a [T; N]) -> Seq<i32> {
        seq![N as i32]
    }

    open spec fn nested_bits(data: &&'a [T; N]) -> Seq<u64> {
        data@.map(|i: int, x: T| x.to_bits_spec())
    }

    fn from_nested(data: &'a [T; N]) -> (r: Array) {
        let n = N as i32;
        let shape: Vec<i32> = vec![n];
        proof {
            assert(shape@ =~= seq![n]);
            assert(suffix_product(shape@, 1) == 1);
            assert(suffix_product(shape@, 0) == n * 1);
            assert(shape_wf(shape@)) by {
                assert forall|k: int| 0 <= k <= 1 implies #[trigger] suffix_product(shape@, k)
                    <= usize::MAX by {}
            }
        }
        Array::from_slice(data.as_slice(), shape.as_slice())
    }
}

/// Reading back what was stored returns the original buffer: decoding
/// undoes encoding element by element, so an array built from a buffer
/// hands the same buffer back through the exact-kind slice accessor.
pub proof fn lemma_slice_roundtrip<T: ArrayElement>(data: Seq<T>)
    ensures
        forall|i: int|
            0 <= i < data.len() ==> T::from_bits_spec(#[trigger] data[i].to_bits_spec())
                == data[i],
{
    assert forall|i: int| 0 <= i < data.len() implies T::from_bits_spec(
        #[trigger] data[i].to_bits_spec(),
    ) == data[i] by {
        T::lemma_roundtrip(data[i]);
    }
}

} // verus!

