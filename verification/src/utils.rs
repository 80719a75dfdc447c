//! Pure validation helpers: index resolution, broadcast compatibility,
//! reduction axes, and reshape legality.

use vstd::prelude::*;

use crate::error::{OperationError, ReshapeError};

verus! {

/// Resolution of a possibly negative index against a length: a negative
/// index counts from the end; anything still outside `[0, len)` is
/// rejected.
pub open spec fn resolve_index_spec(index: int, len: int) -> Option<int> {
    if index < 0 {
        if -index <= len {
            Some(len + index)
        } else {
            None
        }
    } else {
        if index < len {
            Some(index)
        } else {
            None
        }
    }
}

/// Resolves a negative index by counting from the end, without checking
/// that the result lies in bounds: the caller answers for the outcome.
pub fn resolve_index_unchecked(index: i32, len: usize) -> (r: usize)
    requires
        len <= i32::MAX,
        index >= 0 || len + index >= 0,
    ensures
        index < 0 ==> r == len + index,
        index >= 0 ==> r == index,
{
    if index < 0 {
        ((len as i32) + index) as usize
    } else {
        index as usize
    }
}

/// Resolves a possibly negative index against a length, rejecting one
/// that falls outside `[0, len)` after resolution.
pub fn resolve_index(index: i32, len: usize) -> (r: Option<usize>)
    requires
        index > i32::MIN,
    ensures
        match r {
            Some(u) => resolve_index_spec(index as int, len as int) == Some(u as int),
            None => resolve_index_spec(index as int, len as int) is None,
        },
{
    let abs_index: usize = if index < 0 {
        (-index) as usize
    } else {
        index as usize
    };

    if index < 0 {
        if abs_index <= len {
            Some(len - abs_index)
        } else {
            None
        }
    } else {
        if abs_index < len {
            Some(abs_index)
        } else {
            None
        }
    }
}

/// Some entry before position `j` equals the entry at `j`.
pub open spec fn dup_at(s: Seq<i32>, j: int) -> bool {
    exists|i: int| 0 <= i < j && s[i] == s[j]
}

/// Checks that no value occurs twice, returning the first value whose
/// second occurrence is found in scan order.
pub fn all_unique(arr: &[i32]) -> (r: Result<(), i32>)
    ensures
        match r {
            Ok(()) => forall|j: int| 0 <= j < arr@.len() ==> !dup_at(arr@, j),
            Err(x) => exists|j: int|
                {
                    &&& 0 <= j < arr@.len()
                    &&& #[trigger] dup_at(arr@, j)
                    &&& arr@[j] == x
                    &&& forall|k: int| 0 <= k < j ==> !dup_at(arr@, k)
                },
        },
{
    let n = arr.len();
    let mut j: usize = 0;
    while j < n
        invariant
            j <= n,
            n == arr@.len(),
            forall|k: int| 0 <= k < j ==> !dup_at(arr@, k),
        decreases n - j,
    {
        let mut i: usize = 0;
        while i < j
            invariant
                i <= j < n,
                n == arr@.len(),
                forall|k: int| 0 <= k < j ==> !dup_at(arr@, k),
                forall|t: int| 0 <= t < i ==> arr@[t] != arr@[j as int],
            decreases j - i,
        {
            if arr[i] == arr[j] {
                assert(dup_at(arr@, j as int));
                return Err(arr[j]);
            }
            i += 1;
        }
        assert(!dup_at(arr@, j as int));
        j += 1;
    }
    Ok(())
}

/// A pair of extents is compatible for broadcasting when they are equal
/// or either is one.
pub open spec fn dims_broadcast(x: i32, y: i32) -> bool {
    x == 1 || y == 1 || x == y
}

/// Trailing-aligned broadcast compatibility: the shorter shape is read
/// as if padded with leading ones, so only the overlapping trailing
/// extents are compared.
pub open spec fn is_broadcastable_spec(a: Seq<i32>, b: Seq<i32>) -> bool {
    forall|k: int|
        0 <= k < vstd::math::min(a.len() as int, b.len() as int) ==> #[trigger] dims_broadcast(
            a[a.len() - 1 - k],
            b[b.len() - 1 - k],
        )
}

/// Checks whether two shapes are compatible for broadcasting: the size
/// of each trailing axis must be the same in both, or one in either.
pub fn is_broadcastable(a: &[i32], b: &[i32]) -> (r: bool)
    ensures
        r == is_broadcastable_spec(a@, b@),
{
    let m = if a.len() <= b.len() {
        a.len()
    } else {
        b.len()
    };
    let mut k: usize = 0;
    while k < m
        invariant
            k <= m,
            m == vstd::math::min(a@.len() as int, b@.len() as int),
            forall|t: int|
                0 <= t < k ==> #[trigger] dims_broadcast(a@[a@.len() - 1 - t], b@[b@.len() - 1 - t]),
        decreases m - k,
    {
        let x = a[a.len() - 1 - k];
        let y = b[b.len() - 1 - k];
        if !(x == 1 || y == 1 || x == y) {
            assert(!dims_broadcast(a@[a@.len() - 1 - k], b@[b@.len() - 1 - k]));
            return false;
        }
        k += 1;
    }
    true
}

/// A reduction axis normalized against a dimensionality: a negative
/// axis counts from the end.
pub open spec fn norm_axis(ax: int, ndim: int) -> int {
    if ax < 0 {
        ax + ndim
    } else {
        ax
    }
}

/// An axis lies in bounds when its normalized form falls in `[0, ndim)`.
pub open spec fn axis_in_bounds(ax: int, ndim: int) -> bool {
    0 <= norm_axis(ax, ndim) < ndim
}

/// Two axes in the list collide after normalization.
pub open spec fn has_dup_axis(axes: Seq<i32>, ndim: int) -> bool {
    exists|i: int, j: int|
        0 <= i < j < axes.len() && norm_axis(axes[i] as int, ndim) == norm_axis(
            axes[j] as int,
            ndim,
        )
}

/// Checks that a reduction over `axes` is well-formed for `shape`:
/// every axis must lie in bounds after normalization, and no two axes
/// may name the same dimension.
pub fn can_reduce_shape(shape: &[i32], axes: &[i32]) -> (r: Result<(), OperationError>)
    requires
        shape@.len() <= i32::MAX,
    ensures
        match r {
            Ok(()) => (forall|k: int|
                0 <= k < axes@.len() ==> axis_in_bounds(axes@[k] as int, shape@.len() as int))
                && !has_dup_axis(axes@, shape@.len() as int),
            Err(OperationError::AxisOutOfBounds { axis, dim }) => {
                &&& dim == shape@.len()
                &&& exists|k: int|
                    {
                        &&& 0 <= k < axes@.len()
                        &&& !#[trigger] axis_in_bounds(axes@[k] as int, shape@.len() as int)
                        &&& axes@[k] == axis
                        &&& forall|t: int|
                            0 <= t < k ==> axis_in_bounds(axes@[t] as int, shape@.len() as int)
                    }
            },
            Err(OperationError::WrongInput(m)) => {
                &&& forall|k: int|
                    0 <= k < axes@.len() ==> axis_in_bounds(axes@[k] as int, shape@.len() as int)
                &&& has_dup_axis(axes@, shape@.len() as int)
                &&& m@ == "duplicate reduction axes"@
            },
        },
{
    let ndim = shape.len() as i32;
    let n = axes.len();
    let mut norm: Vec<i32> = Vec::new();
    let mut k: usize = 0;
    while k < n
        invariant
            k <= n,
            n == axes@.len(),
            ndim == shape@.len(),
            shape@.len() <= i32::MAX,
            norm@.len() == k,
            forall|t: int| 0 <= t < k ==> axis_in_bounds(axes@[t] as int, ndim as int),
            forall|t: int| 0 <= t < k ==> norm@[t] == norm_axis(axes@[t] as int, ndim as int),
        decreases n - k,
    {
        let axis = axes[k];
        let ax = if axis < 0 {
            axis + ndim
        } else {
            axis
        };
        if ax < 0 || ax >= ndim {
            assert(!axis_in_bounds(axes@[k as int] as int, ndim as int));
            return Err(OperationError::AxisOutOfBounds { axis, dim: shape.len() });
        }
        norm.push(ax);
        k += 1;
    }

    let mut j: usize = 0;
    while j < n
        invariant
            j <= n,
            n == axes@.len(),
            ndim == shape@.len(),
            norm@.len() == n,
            forall|t: int| 0 <= t < n ==> axis_in_bounds(axes@[t] as int, ndim as int),
            forall|t: int| 0 <= t < n ==> norm@[t] == norm_axis(axes@[t] as int, ndim as int),
            forall|a: int, b: int| 0 <= a < b < j ==> norm@[a] != norm@[b],
        decreases n - j,
    {
        let mut i: usize = 0;
        while i < j
            invariant
                i <= j < n,
                n == axes@.len(),
                ndim == shape@.len(),
                norm@.len() == n,
                forall|t: int| 0 <= t < n ==> axis_in_bounds(axes@[t] as int, ndim as int),
                forall|t: int| 0 <= t < n ==> norm@[t] == norm_axis(axes@[t] as int, ndim as int),
                forall|t: int| 0 <= t < i ==> norm@[t] != norm@[j as int],
            decreases j - i,
        {
            if norm[i] == norm[j] {
                assert(norm_axis(axes@[i as int] as int, ndim as int) == norm_axis(
                    axes@[j as int] as int,
                    ndim as int,
                ));
                assert(has_dup_axis(axes@, ndim as int));
                return Err(OperationError::WrongInput("duplicate reduction axes".to_owned()));
            }
            i += 1;
        }
        j += 1;
    }
    assert(!has_dup_axis(axes@, ndim as int)) by {
        assert forall|a: int, b: int|
            0 <= a < b < axes@.len() implies norm_axis(axes@[a] as int, ndim as int) != norm_axis(
            axes@[b] as int,
            ndim as int,
        ) by {
            assert(norm@[a] != norm@[b]);
        }
    }
    Ok(())
}

/// The product of a shape's extents from position `k` on.
pub open spec fn suffix_product(s: Seq<i32>, k: int) -> int
    decreases s.len() - k,
{
    if k < 0 || k >= s.len() {
        1
    } else {
        s[k] * suffix_product(s, k + 1)
    }
}

/// The number of elements a shape describes: the product of its
/// extents, one for the empty shape of a scalar.
pub open spec fn shape_product(s: Seq<i32>) -> int {
    suffix_product(s, 0)
}

/// A shape is well-formed when every extent is nonnegative, the
/// product of every suffix fits the machine word, and the number of
/// dimensions fits the engine's dimension type.
pub open spec fn shape_wf(s: Seq<i32>) -> bool {
    &&& s.len() <= i32::MAX
    &&& forall|i: int| 0 <= i < s.len() ==> s[i] >= 0
    &&& forall|k: int| 0 <= k <= s.len() ==> #[trigger] suffix_product(s, k) <= usize::MAX
}

/// Suffix products of a nonnegative shape are nonnegative.
pub proof fn lemma_suffix_product_nonneg(s: Seq<i32>, k: int)
    requires
        forall|i: int| 0 <= i < s.len() ==> s[i] >= 0,
    ensures
        suffix_product(s, k) >= 0,
    decreases s.len() - k,
{
    if 0 <= k < s.len() {
        lemma_suffix_product_nonneg(s, k + 1);
        assert(s[k] * suffix_product(s, k + 1) >= 0) by (nonlinear_arith)
            requires
                s[k] >= 0,
                suffix_product(s, k + 1) >= 0,
        ;
    }
}

/// A positive suffix product forces every extent it covers, and every
/// shorter suffix, to be positive.
pub proof fn lemma_positive_suffix(s: Seq<i32>, k: int)
    requires
        forall|i: int| 0 <= i < s.len() ==> s[i] >= 0,
        0 <= k <= s.len(),
        suffix_product(s, k) > 0,
    ensures
        forall|t: int| k <= t < s.len() ==> s[t] >= 1,
        forall|t: int| k <= t <= s.len() ==> #[trigger] suffix_product(s, t) >= 1,
    decreases s.len() - k,
{
    if k < s.len() {
        assert(suffix_product(s, k) == s[k] * suffix_product(s, k + 1));
        assert(s[k] >= 1 && suffix_product(s, k + 1) > 0) by (nonlinear_arith)
            requires
                s[k] >= 0,
                s[k] * suffix_product(s, k + 1) > 0,
        ;
        lemma_positive_suffix(s, k + 1);
    }
}

/// A shape whose every extent is positive has positive suffix
/// products.
pub proof fn lemma_pos_dims_pos_suffix(s: Seq<i32>, k: int)
    requires
        forall|i: int| 0 <= i < s.len() ==> s[i] >= 1,
        0 <= k <= s.len(),
    ensures
        suffix_product(s, k) >= 1,
    decreases s.len() - k,
{
    if k < s.len() {
        lemma_pos_dims_pos_suffix(s, k + 1);
        assert(s[k] * suffix_product(s, k + 1) >= 1) by (nonlinear_arith)
            requires
                s[k] >= 1,
                suffix_product(s, k + 1) >= 1,
        ;
    }
}

/// The product of the extents in `[j, k)`.
pub open spec fn range_product(s: Seq<i32>, j: int, k: int) -> int
    decreases k - j,
{
    if j < 0 || j >= k || k > s.len() {
        1
    } else {
        s[j] * range_product(s, j + 1, k)
    }
}

/// A suffix product splits at any midpoint.
pub proof fn lemma_suffix_split(s: Seq<i32>, j: int, k: int)
    requires
        0 <= j <= k <= s.len(),
    ensures
        suffix_product(s, j) == range_product(s, j, k) * suffix_product(s, k),
    decreases k - j,
{
    if j < k {
        lemma_suffix_split(s, j + 1, k);
        assert(s[j] * (range_product(s, j + 1, k) * suffix_product(s, k)) == (s[j]
            * range_product(s, j + 1, k)) * suffix_product(s, k)) by (nonlinear_arith);
    }
}

/// The extents at and beyond `k` decide a suffix product alone.
pub proof fn lemma_suffix_product_update(s: Seq<i32>, ax: int, v: i32, k: int)
    requires
        0 <= ax < s.len(),
        ax < k <= s.len(),
    ensures
        suffix_product(s.update(ax, v), k) == suffix_product(s, k),
    decreases s.len() - k,
{
    if k < s.len() {
        lemma_suffix_product_update(s, ax, v, k + 1);
        assert(s.update(ax, v)[k] == s[k]);
    }
}

/// The extents before `k` decide a range product alone.
pub proof fn lemma_range_product_update(s: Seq<i32>, ax: int, v: i32, j: int, k: int)
    requires
        0 <= j <= k <= ax < s.len(),
    ensures
        range_product(s.update(ax, v), j, k) == range_product(s, j, k),
    decreases k - j,
{
    if j < k {
        assert(s.update(ax, v)[j] == s[j]);
        lemma_range_product_update(s, ax, v, j + 1, k);
    }
}

/// Positive extents over a range give a positive product.
pub proof fn lemma_pos_range(s: Seq<i32>, j: int, k: int)
    requires
        0 <= j <= k <= s.len(),
        forall|i: int| j <= i < k ==> s[i] >= 1,
    ensures
        range_product(s, j, k) >= 1,
    decreases k - j,
{
    if j < k {
        lemma_pos_range(s, j + 1, k);
        assert(s[j] * range_product(s, j + 1, k) >= 1) by (nonlinear_arith)
            requires
                s[j] >= 1,
                range_product(s, j + 1, k) >= 1,
        ;
    }
}

/// How many entries of a target shape are the inferred-dimension marker.
pub open spec fn count_wild(t: Seq<i32>) -> int
    decreases t.len(),
{
    if t.len() == 0 {
        0
    } else {
        count_wild(t.drop_last()) + if t.last() == -1 {
            1int
        } else {
            0int
        }
    }
}

/// The product of the entries of a target shape, skipping the
/// inferred-dimension markers.
pub open spec fn wild_product(t: Seq<i32>) -> int
    decreases t.len(),
{
    if t.len() == 0 {
        1
    } else {
        wild_product(t.drop_last()) * (if t.last() == -1 {
            1int
        } else {
            t.last() as int
        })
    }
}

/// The product of a shape's extents.
pub open spec fn product_int(s: Seq<int>) -> int
    decreases s.len(),
{
    if s.len() == 0 {
        1
    } else {
        product_int(s.drop_last()) * s.last()
    }
}

/// The target shape with each inferred-dimension marker replaced by `q`.
pub open spec fn subst_wild(t: Seq<i32>, q: int) -> Seq<int>
    decreases t.len(),
{
    if t.len() == 0 {
        Seq::empty()
    } else {
        subst_wild(t.drop_last(), q).push(
            if t.last() == -1 {
                q
            } else {
                t.last() as int
            },
        )
    }
}

/// The size the target shape resolves to against an array of
/// `cur_size` elements: with a single inferred dimension and a positive
/// fixed product, the marker is solved as the integer quotient;
/// otherwise the fixed product stands as is.
pub open spec fn resolved_size(cur_size: int, t: Seq<i32>) -> int {
    if count_wild(t) == 1 && wild_product(t) > 0 {
        wild_product(t) * (cur_size / wild_product(t))
    } else {
        wild_product(t)
    }
}

/// The reshape is legal: either the target is the current shape
/// verbatim, or it holds at most one inferred dimension, that inferred
/// dimension (if any) is solvable against a positive fixed product, and
/// the resolved size covers the array exactly.
pub open spec fn reshape_ok_spec(cur: Seq<i32>, cur_size: int, target: Seq<i32>) -> bool {
    ||| cur == target
    ||| {
        &&& count_wild(target) <= 1
        &&& !(count_wild(target) == 1 && wild_product(target) <= 0)
        &&& resolved_size(cur_size, target) == cur_size
    }
}

/// Every prefix product of the target's fixed entries stays in `i32`
/// range, so the scan below cannot overflow.
pub open spec fn wild_products_bounded(t: Seq<i32>) -> bool {
    forall|p: int|
        0 <= p <= t.len() ==> -0x8000_0000 <= #[trigger] wild_product(t.take(p)) <= 0x7fff_ffff
}

/// Checks whether an array of `current_size` elements with shape
/// `current_shape` can be reshaped to `target`: at most one entry of
/// the target may be the inferred marker, which is then solved so that
/// the products match; the error names what failed.
pub fn can_reshape(current_shape: &[i32], current_size: usize, target: &[i32]) -> (r: Result<
    (),
    ReshapeError,
>)
    requires
        current_size <= i32::MAX,
        wild_products_bounded(target@),
    ensures
        r is Ok <==> reshape_ok_spec(current_shape@, current_size as int, target@),
        (r matches Err(ReshapeError::MultipleInferredDims)) <==> (current_shape@ != target@
            && count_wild(target@) >= 2),
        (r matches Err(ReshapeError::EmptyArray)) <==> (current_shape@ != target@ && count_wild(
            target@,
        ) == 1 && wild_product(target@) <= 0),
        match r {
            Err(ReshapeError::InvalidShape { size, shape }) => size == current_size && shape@
                == target@,
            _ => true,
        },
{
    if slices_equal(current_shape, target) {
        return Ok(());
    }

    let n = target.len();
    let mut size: i32 = 1;
    let mut infer = false;
    let mut i: usize = 0;
    while i < n
        invariant
            i <= n,
            n == target@.len(),
            current_shape@ != target@,
            current_size <= i32::MAX,
            wild_products_bounded(target@),
            size == wild_product(target@.take(i as int)),
            infer <==> count_wild(target@.take(i as int)) == 1,
            count_wild(target@.take(i as int)) <= 1,
        decreases n - i,
    {
        assert(target@.take(i + 1).drop_last() =~= target@.take(i as int));
        assert(target@.take(i + 1).last() == target@[i as int]);
        if target[i] == -1 {
            proof {
                lemma_count_wild_nonneg(target@.take(i as int));
            }
            assert(count_wild(target@.take(i + 1)) == count_wild(target@.take(i as int)) + 1);
            if infer {
                assert(count_wild(target@.take(i + 1)) == 2);
                proof {
                    lemma_count_wild_monotonic(target@, i + 1);
                }
                return Err(ReshapeError::MultipleInferredDims);
            }
            infer = true;
            assert(wild_product(target@.take(i + 1)) == wild_product(target@.take(i as int)));
        } else {
            assert(count_wild(target@.take(i + 1)) == count_wild(target@.take(i as int)));
            assert(wild_product(target@.take(i + 1)) == size * target@[i as int]);
            assert(-0x8000_0000 <= wild_product(target@.take(i + 1)) <= 0x7fff_ffff);
            size = size * target[i];
        }
        i += 1;
    }
    assert(target@.take(n as int) =~= target@);

    if size > 0 {
        let quotient = current_size / (size as usize);
        if infer {
            proof {
                vstd::arithmetic::div_mod::lemma_fundamental_div_mod(
                    current_size as int,
                    size as int,
                );
                vstd::arithmetic::div_mod::lemma_div_pos_is_pos(current_size as int, size as int);
            }
            size = size * (quotient as i32);
        }
    } else if infer {
        return Err(ReshapeError::EmptyArray);
    }

    if size < 0 || current_size != (size as usize) {
        return Err(
            ReshapeError::InvalidShape {
                size: current_size,
                shape: vstd::slice::slice_to_vec(target),
            },
        );
    }

    Ok(())
}

/// Counting inferred markers over a longer prefix never loses any.
proof fn lemma_count_wild_monotonic(t: Seq<i32>, p: int)
    requires
        0 <= p <= t.len(),
    ensures
        count_wild(t) >= count_wild(t.take(p)),
    decreases t.len() - p,
{
    if p < t.len() {
        assert(t.take(p + 1).drop_last() =~= t.take(p));
        lemma_count_wild_monotonic(t, p + 1);
    } else {
        assert(t.take(p) =~= t);
    }
}

/// Element-for-element equality of two shape slices.
pub(crate) fn slices_equal(a: &[i32], b: &[i32]) -> (r: bool)
    ensures
        r == (a@ == b@),
{
    if a.len() != b.len() {
        assert(a@ != b@);
        return false;
    }
    let n = a.len();
    let mut i: usize = 0;
    while i < n
        invariant
            i <= n,
            n == a@.len() == b@.len(),
            forall|t: int| 0 <= t < i ==> a@[t] == b@[t],
        decreases n - i,
    {
        if a[i] != b[i] {
            assert(a@ != b@);
            return false;
        }
        i += 1;
    }
    assert(a@ =~= b@);
    true
}

/// Identity reshape is always legal: a target equal to the current
/// shape passes the check whatever the size.
pub proof fn lemma_reshape_identity(shape: Seq<i32>, size: int)
    ensures
        reshape_ok_spec(shape, size, shape),
{
}

/// A target with two or more inferred dimensions is never legal against
/// a real shape, whose extents are nonnegative.
pub proof fn lemma_two_wildcards_never_legal(cur: Seq<i32>, cur_size: int, target: Seq<i32>)
    requires
        forall|i: int| 0 <= i < cur.len() ==> cur[i] >= 0,
        count_wild(target) >= 2,
    ensures
        !reshape_ok_spec(cur, cur_size, target),
{
    if cur == target {
        lemma_nonneg_has_no_wild(cur);
    }
}

/// A shape with nonnegative extents holds no inferred markers.
proof fn lemma_nonneg_has_no_wild(s: Seq<i32>)
    requires
        forall|i: int| 0 <= i < s.len() ==> s[i] >= 0,
    ensures
        count_wild(s) == 0,
    decreases s.len(),
{
    if s.len() > 0 {
        lemma_nonneg_has_no_wild(s.drop_last());
    }
}

/// With exactly one inferred dimension, a legal reshape resolves it so
/// that the product of the resolved target equals the array's size.
pub proof fn lemma_wildcard_resolves(cur: Seq<i32>, cur_size: int, target: Seq<i32>)
    requires
        forall|i: int| 0 <= i < cur.len() ==> cur[i] >= 0,
        count_wild(target) == 1,
        reshape_ok_spec(cur, cur_size, target),
    ensures
        product_int(subst_wild(target, cur_size / wild_product(target))) == cur_size,
{
    if cur == target {
        lemma_nonneg_has_no_wild(cur);
    }
    let q = cur_size / wild_product(target);
    lemma_subst_product_one_wild(target, q);
}

/// Substituting `q` for the single inferred marker multiplies the fixed
/// product by `q`.
proof fn lemma_subst_product_one_wild(t: Seq<i32>, q: int)
    requires
        count_wild(t) == 1,
    ensures
        product_int(subst_wild(t, q)) == wild_product(t) * q,
    decreases t.len(),
{
    lemma_count_wild_nonneg(t);
    assert(t.len() > 0);
    let prefix = t.drop_last();
    lemma_count_wild_nonneg(prefix);
    assert(subst_wild(t, q).drop_last() =~= subst_wild(prefix, q));
    if t.last() == -1 {
        lemma_subst_product_no_wild(prefix, q);
    } else {
        lemma_subst_product_one_wild(prefix, q);
        assert(product_int(subst_wild(t, q)) == (wild_product(prefix) * q) * (t.last() as int));
        assert((wild_product(prefix) * q) * (t.last() as int) == (wild_product(prefix) * (
        t.last() as int)) * q) by (nonlinear_arith);
    }
}

/// Substitution changes nothing when no marker is present.
proof fn lemma_subst_product_no_wild(t: Seq<i32>, q: int)
    requires
        count_wild(t) == 0,
    ensures
        product_int(subst_wild(t, q)) == wild_product(t),
    decreases t.len(),
{
    if t.len() > 0 {
        lemma_count_wild_nonneg(t.drop_last());
        assert(subst_wild(t, q).drop_last() =~= subst_wild(t.drop_last(), q));
        lemma_subst_product_no_wild(t.drop_last(), q);
    }
}

/// The count of inferred markers is never negative.
proof fn lemma_count_wild_nonneg(t: Seq<i32>)
    ensures
        count_wild(t) >= 0,
    decreases t.len(),
{
    if t.len() > 0 {
        lemma_count_wild_nonneg(t.drop_last());
    }
}

/// Checks that an optional axis lies within `[-ndim, ndim)` for an
/// array of dimensionality `ndim`; a missing axis always passes.
pub fn validate_axis(ndim: usize, axis: Option<i32>) -> (r: Result<(), OperationError>)
    requires
        ndim <= i32::MAX,
    ensures
        match r {
            Ok(()) => match axis {
                Some(ax) => -(ndim as int) <= ax < ndim,
                None => true,
            },
            Err(e) => match axis {
                Some(ax) => !(-(ndim as int) <= ax < ndim) && e == (OperationError::AxisOutOfBounds {
                    axis: ax,
                    dim: ndim,
                }),
                None => false,
            },
        },
{
    if let Some(ax) = axis {
        if ax >= (ndim as i32) || ax < -(ndim as i32) {
            return Err(OperationError::AxisOutOfBounds { axis: ax, dim: ndim });
        }
    }
    Ok(())
}

/// A convenience trait to convert a single value or a pair of values
/// into a pair of values.
pub trait IntOrPair {
    /// Converts the value into a pair of values.
    fn into_pair(self) -> (i32, i32);
}

impl IntOrPair for i32 {
    fn into_pair(self) -> (r: (i32, i32))
        ensures
            r == (self, self),
    {
        (self, self)
    }
}

impl IntOrPair for (i32, i32) {
    fn into_pair(self) -> (r: (i32, i32))
        ensures
            r == self,
    {
        self
    }
}

/// A convenience trait to convert a single value or a triple of values
/// into a triple of values.
pub trait IntOrTriple {
    /// Converts the value into a triple of values.
    fn into_triple(self) -> (i32, i32, i32);
}

impl IntOrTriple for i32 {
    fn into_triple(self) -> (r: (i32, i32, i32))
        ensures
            r == (self, self, self),
    {
        (self, self, self)
    }
}

impl IntOrTriple for (i32, i32, i32) {
    fn into_triple(self) -> (r: (i32, i32, i32))
        ensures
            r == self,
    {
        self
    }
}

} // verus!
