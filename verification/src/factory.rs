//! Factory constructors: arrays filled from fixed patterns.
//!
//! Each constructor validates its parameters locally and builds the
//! array's storage outright; an invalid shape or count is the typed
//! failure the engine would raise at the boundary. Element values that
//! only foreign arithmetic could produce — evenly spaced fractional
//! samples — are tracked by shape and kind alone, without storage.

use vstd::prelude::*;

use crate::array::Array;
use crate::device::Device;
use crate::dtype::Dtype;
use crate::element::{encode_int, encoding_in_range, is_exact_kind, ArrayElement};
use crate::error::Exception;
use crate::utils::{shape_product, shape_wf, suffix_product};

verus! {

/// The stored encoding of value one at each kind.
pub open spec fn one_bits_spec(d: Dtype) -> u64 {
    match d {
        Dtype::Float16 => 0x3c00,
        Dtype::Bfloat16 => 0x3f80,
        Dtype::Float32 => 0x3f80_0000,
        Dtype::Complex64 => 0x3f80_0000,
        _ => 1,
    }
}

fn one_bits(d: Dtype) -> (r: u64)
    ensures
        r == one_bits_spec(d),
        encoding_in_range(d, r),
{
    match d {
        Dtype::Float16 => 0x3c00,
        Dtype::Bfloat16 => 0x3f80,
        Dtype::Float32 => 0x3f80_0000,
        Dtype::Complex64 => 0x3f80_0000,
        _ => 1,
    }
}

/// Checks a shape for well-formedness: nonnegative extents whose
/// suffix products all fit the machine word.
fn check_shape(shape: &[i32]) -> (r: bool)
    ensures
        r == shape_wf(shape@),
{
    let n = shape.len();
    if n > 0x7fff_ffff {
        return false;
    }
    let mut i: usize = 0;
    while i < n
        invariant
            i <= n,
            n == shape@.len(),
            forall|t: int| 0 <= t < i ==> shape@[t] >= 0,
        decreases n - i,
    {
        if shape[i] < 0 {
            return false;
        }
        i += 1;
    }
    let mut acc: usize = 1;
    let mut k: usize = n;
    while k > 0
        invariant
            k <= n,
            n == shape@.len(),
            forall|t: int| 0 <= t < n ==> shape@[t] >= 0,
            acc == suffix_product(shape@, k as int),
            forall|t: int|
                k <= t <= n ==> #[trigger] suffix_product(shape@, t) <= usize::MAX,
        decreases k,
    {
        k -= 1;
        match (shape[k] as usize).checked_mul(acc) {
            Some(next) => {
                acc = next;
            },
            None => {
                assert(suffix_product(shape@, k as int) > usize::MAX);
                return false;
            },
        }
    }
    true
}

/// The number of elements a well-formed shape describes.
fn shape_size(shape: &[i32]) -> (r: usize)
    requires
        shape_wf(shape@),
    ensures
        r == shape_product(shape@),
{
    let n = shape.len();
    let mut acc: usize = 1;
    let mut k: usize = n;
    while k > 0
        invariant
            k <= n,
            n == shape@.len(),
            shape_wf(shape@),
            acc == suffix_product(shape@, k as int),
        decreases k,
    {
        k -= 1;
        proof {
            crate::utils::lemma_suffix_product_nonneg(shape@, k + 1);
            assert(suffix_product(shape@, k as int) <= usize::MAX);
        }
        acc = (shape[k] as usize) * acc;
    }
    acc
}

/// Builds an array whose every element stores the same encoding.
fn filled(dtype: Dtype, shape: &[i32], bits: u64) -> (r: Array)
    requires
        shape_wf(shape@),
        encoding_in_range(dtype, bits),
    ensures
        r.dtype_spec() == dtype,
        r.shape_spec() == shape@,
        r.data_spec() == Some(Seq::new(shape_product(shape@) as nat, |i: int| bits)),
{
    let total = shape_size(shape);
    proof {
        crate::utils::lemma_suffix_product_nonneg(shape@, 0);
    }
    let mut data: Vec<u64> = Vec::new();
    let mut i: usize = 0;
    while i < total
        invariant
            i <= total,
            data@.len() == i,
            forall|t: int| 0 <= t < i ==> data@[t] == bits,
        decreases total - i,
    {
        data.push(bits);
        i += 1;
    }
    let r = Array::from_bits_buffer(dtype, data, shape);
    proof {
        assert(r.data_spec()->Some_0 =~= Seq::new(shape_product(shape@) as nat, |i: int| bits));
    }
    r
}

/// Construct an array of zeros of the given kind, failing when the
/// shape is invalid.
pub fn zeros_dtype_device(shape: &[i32], dtype: Dtype, device: &Device) -> (r: Result<
    Array,
    Exception,
>)
    ensures
        r is Ok <==> shape_wf(shape@),
        match r {
            Ok(a) => {
                &&& a.dtype_spec() == dtype
                &&& a.shape_spec() == shape@
                &&& a.data_spec() == Some(
                    Seq::new(shape_product(shape@) as nat, |i: int| 0u64),
                )
            },
            Err(e) => e.message@ == "invalid shape"@,
        },
{
    if !check_shape(shape) {
        return Err(Exception { message: "invalid shape".to_owned() });
    }
    Ok(filled(dtype, shape, 0))
}

/// See [`zeros_dtype_device`], on the default device.
pub fn zeros_dtype(shape: &[i32], dtype: Dtype) -> (r: Result<Array, Exception>)
    ensures
        r is Ok <==> shape_wf(shape@),
        match r {
            Ok(a) => {
                &&& a.dtype_spec() == dtype
                &&& a.shape_spec() == shape@
                &&& a.data_spec() == Some(
                    Seq::new(shape_product(shape@) as nat, |i: int| 0u64),
                )
            },
            Err(e) => e.message@ == "invalid shape"@,
        },
{
    zeros_dtype_device(shape, dtype, &Device::default())
}

/// Construct an array of ones of the given kind, failing when the
/// shape is invalid.
pub fn ones_dtype_device(shape: &[i32], dtype: Dtype, device: &Device) -> (r: Result<
    Array,
    Exception,
>)
    ensures
        r is Ok <==> shape_wf(shape@),
        match r {
            Ok(a) => {
                &&& a.dtype_spec() == dtype
                &&& a.shape_spec() == shape@
                &&& a.data_spec() == Some(
                    Seq::new(shape_product(shape@) as nat, |i: int| one_bits_spec(dtype)),
                )
            },
            Err(e) => e.message@ == "invalid shape"@,
        },
{
    if !check_shape(shape) {
        return Err(Exception { message: "invalid shape".to_owned() });
    }
    Ok(filled(dtype, shape, one_bits(dtype)))
}

/// See [`ones_dtype_device`], on the default device.
pub fn ones_dtype(shape: &[i32], dtype: Dtype) -> (r: Result<Array, Exception>)
    ensures
        r is Ok <==> shape_wf(shape@),
        match r {
            Ok(a) => {
                &&& a.dtype_spec() == dtype
                &&& a.shape_spec() == shape@
                &&& a.data_spec() == Some(
                    Seq::new(shape_product(shape@) as nat, |i: int| one_bits_spec(dtype)),
                )
            },
            Err(e) => e.message@ == "invalid shape"@,
        },
{
    ones_dtype_device(shape, dtype, &Device::default())
}

/// An array of zeros shaped and typed like the input.
pub fn zeros_like_device(input: &Array, device: &Device) -> (r: Result<Array, Exception>)
    ensures
        match r {
            Ok(a) => {
                &&& a.dtype_spec() == input.dtype_spec()
                &&& a.shape_spec() == input.shape_spec()
                &&& a.data_spec() == Some(
                    Seq::new(input.size_spec() as nat, |i: int| 0u64),
                )
            },
            Err(_) => false,
        },
{
    proof {
        use_type_invariant(input);
    }
    zeros_dtype_device(input.shape(), input.dtype(), device)
}

/// An array of ones shaped and typed like the input.
pub fn ones_like_device(input: &Array, device: &Device) -> (r: Result<Array, Exception>)
    ensures
        match r {
            Ok(a) => {
                &&& a.dtype_spec() == input.dtype_spec()
                &&& a.shape_spec() == input.shape_spec()
                &&& a.data_spec() == Some(
                    Seq::new(input.size_spec() as nat, |i: int| one_bits_spec(
                        input.dtype_spec(),
                    )),
                )
            },
            Err(_) => false,
        },
{
    proof {
        use_type_invariant(input);
    }
    ones_dtype_device(input.shape(), input.dtype(), device)
}

/// A signed value's storage encoding is its value wrapped to the full
/// 64-bit range.
proof fn lemma_i64_bits_mod(x: i64)
    ensures
        x.to_bits_spec() == (x as int) % 0x1_0000_0000_0000_0000,
{
    if x >= 0 {
        vstd::arithmetic::div_mod::lemma_small_mod(x as nat, 0x1_0000_0000_0000_0000);
    } else {
        vstd::arithmetic::div_mod::lemma_fundamental_div_mod_converse(
            x as int,
            0x1_0000_0000_0000_0000,
            -1,
            x + 0x1_0000_0000_0000_0000,
        );
    }
}

/// Narrows a full-width two's-complement image to the encoding of an
/// integer kind.
fn truncate_bits(d: Dtype, cur: u64, Ghost(v): Ghost<int>) -> (b: u64)
    requires
        is_exact_kind(d),
        !(d is Bool),
        cur == v % 0x1_0000_0000_0000_0000,
    ensures
        b == encode_int(d, v),
        encoding_in_range(d, b),
{
    proof {
        vstd::arithmetic::div_mod::lemma_mod_bound(v, 0x1_0000_0000_0000_0000);
    }
    match d {
        Dtype::Uint8 | Dtype::Int8 => {
            proof {
                vstd::arithmetic::div_mod::lemma_mod_mod(v, 0x100, 0x1_0000_0000_0000_00);
                vstd::arithmetic::div_mod::lemma_mod_bound(v, 0x100);
            }
            cur % 0x100
        },
        Dtype::Uint16 | Dtype::Int16 => {
            proof {
                vstd::arithmetic::div_mod::lemma_mod_mod(v, 0x10000, 0x1_0000_0000_0000);
                vstd::arithmetic::div_mod::lemma_mod_bound(v, 0x10000);
            }
            cur % 0x10000
        },
        Dtype::Uint32 | Dtype::Int32 => {
            proof {
                vstd::arithmetic::div_mod::lemma_mod_mod(v, 0x1_0000_0000, 0x1_0000_0000);
                vstd::arithmetic::div_mod::lemma_mod_bound(v, 0x1_0000_0000);
            }
            cur % 0x1_0000_0000
        },
        _ => cur,
    }
}

/// The start an arange request resolves to: zero when none is given.
pub open spec fn arange_start(start: Option<i64>) -> int {
    match start {
        Some(s) => s as int,
        None => 0,
    }
}

/// The step an arange request resolves to: one when none is given.
pub open spec fn arange_step(step: Option<i64>) -> int {
    match step {
        Some(s) => s as int,
        None => 1,
    }
}

/// How many values `[start, stop)` holds in increments of `step`.
pub open spec fn arange_count(start: int, stop: int, step: int) -> int {
    if step > 0 {
        if stop > start {
            (stop - start + step - 1) / step
        } else {
            0
        }
    } else {
        if stop < start {
            (start - stop + (-step) - 1) / (-step)
        } else {
            0
        }
    }
}

/// Generate numbers in the half-open interval `[start, stop)` in
/// increments of `step`, which defaults to one from a start of zero.
/// The boolean kind is rejected, as are a zero step and a range whose
/// length does not fit the engine's dimension type. An inexact kind is
/// tracked by shape and kind alone, without element storage; an
/// integer kind stores each value wrapped to its width.
pub fn arange_device(
    start: Option<i64>,
    stop: i64,
    step: Option<i64>,
    dtype: Dtype,
    device: &Device,
) -> (r: Result<Array, Exception>)
    ensures
        r is Ok <==> (!(dtype is Bool) && arange_step(step) != 0 && arange_count(
            arange_start(start),
            stop as int,
            arange_step(step),
        ) <= 0x7fff_ffff),
        match r {
            Ok(a) => {
                &&& a.dtype_spec() == dtype
                &&& a.shape_spec() =~= seq![
                    arange_count(arange_start(start), stop as int, arange_step(step)) as i32,
                ]
                &&& a.data_spec() == (if is_exact_kind(dtype) {
                    Some(
                        Seq::new(
                            arange_count(
                                arange_start(start),
                                stop as int,
                                arange_step(step),
                            ) as nat,
                            |i: int|
                                encode_int(
                                    dtype,
                                    arange_start(start) + i * arange_step(step),
                                ),
                        ),
                    )
                } else {
                    None
                })
            },
            Err(e) => {
                ||| (dtype is Bool && e.message@ == "arange does not support a boolean kind"@)
                ||| (!(dtype is Bool) && arange_step(step) == 0 && e.message@
                    == "step must be nonzero"@)
                ||| (!(dtype is Bool) && arange_step(step) != 0 && e.message@
                    == "arange range is too large"@)
            },
        },
{
    if matches!(dtype, Dtype::Bool) {
        return Err(Exception { message: "arange does not support a boolean kind".to_owned() });
    }
    let start_v: i64 = match start {
        Some(s) => s,
        None => 0,
    };
    let step_v: i64 = match step {
        Some(s) => s,
        None => 1,
    };
    if step_v == 0 {
        return Err(Exception { message: "step must be nonzero".to_owned() });
    }
    let count: i128 = if step_v > 0 {
        if stop > start_v {
            ((stop as i128) - (start_v as i128) + (step_v as i128) - 1) / (step_v as i128)
        } else {
            0
        }
    } else {
        if stop < start_v {
            ((start_v as i128) - (stop as i128) + (-(step_v as i128)) - 1) / (-(step_v as i128))
        } else {
            0
        }
    };
    proof {
        if step_v > 0 && stop > start_v {
            vstd::arithmetic::div_mod::lemma_div_pos_is_pos(
                stop - start_v + step_v - 1,
                step_v as int,
            );
        }
        if step_v < 0 && stop < start_v {
            vstd::arithmetic::div_mod::lemma_div_pos_is_pos(
                start_v - stop + (-(step_v as int)) - 1,
                -(step_v as int),
            );
        }
    }
    if count > 0x7fff_ffff {
        return Err(Exception { message: "arange range is too large".to_owned() });
    }
    let n = count as i32;
    let shape: Vec<i32> = vec![n];
    proof {
        assert(shape@ =~= seq![n]);
        assert(suffix_product(shape@, 1) == 1);
        assert(suffix_product(shape@, 0) == n * 1);
        assert(shape_wf(shape@)) by {
            assert forall|k: int| 0 <= k <= 1 implies #[trigger] suffix_product(shape@, k)
                <= usize::MAX by {}
        }
    }
    if dtype.is_inexact() {
        return Ok(Array::without_storage(dtype, shape));
    }
    let total = n as usize;
    let ghost start_i = start_v as int;
    let ghost step_i = step_v as int;
    let mut cur: u64 = start_v.to_bits();
    let step_bits: u64 = step_v.to_bits();
    proof {
        lemma_i64_bits_mod(start_v);
        lemma_i64_bits_mod(step_v);
    }
    let mut data: Vec<u64> = Vec::new();
    let mut i: usize = 0;
    while i < total
        invariant
            i <= total,
            total == n,
            !(dtype is Bool),
            is_exact_kind(dtype),
            cur == (start_i + i * step_i) % 0x1_0000_0000_0000_0000,
            step_bits == step_i % 0x1_0000_0000_0000_0000,
            data@.len() == i,
            forall|t: int| 0 <= t < i ==> data@[t] == encode_int(dtype, start_i + t * step_i),
            forall|t: int| 0 <= t < i ==> #[trigger] encoding_in_range(dtype, data@[t]),
        decreases total - i,
    {
        let b = truncate_bits(dtype, cur, Ghost(start_i + i * step_i));
        data.push(b);
        proof {
            vstd::arithmetic::div_mod::lemma_add_mod_noop(
                start_i + i * step_i,
                step_i,
                0x1_0000_0000_0000_0000,
            );
            assert(start_i + i * step_i + step_i == start_i + (i + 1) * step_i) by (nonlinear_arith);
        }
        cur = cur.wrapping_add(step_bits);
        i += 1;
    }
    let r = Array::from_bits_buffer(dtype, data, shape.as_slice());
    proof {
        assert(r.data_spec()->Some_0 =~= Seq::new(
            arange_count(arange_start(start), stop as int, arange_step(step)) as nat,
            |t: int| encode_int(dtype, arange_start(start) + t * arange_step(step)),
        ));
    }
    Ok(r)
}

/// See [`arange_device`], on the default device.
pub fn arange(start: Option<i64>, stop: i64, step: Option<i64>, dtype: Dtype) -> (r: Result<
    Array,
    Exception,
>)
    ensures
        r is Ok <==> (!(dtype is Bool) && arange_step(step) != 0 && arange_count(
            arange_start(start),
            stop as int,
            arange_step(step),
        ) <= 0x7fff_ffff),
        match r {
            Ok(a) => {
                &&& a.dtype_spec() == dtype
                &&& a.shape_spec() =~= seq![
                    arange_count(arange_start(start), stop as int, arange_step(step)) as i32,
                ]
                &&& a.data_spec() == (if is_exact_kind(dtype) {
                    Some(
                        Seq::new(
                            arange_count(
                                arange_start(start),
                                stop as int,
                                arange_step(step),
                            ) as nat,
                            |i: int|
                                encode_int(
                                    dtype,
                                    arange_start(start) + i * arange_step(step),
                                ),
                        ),
                    )
                } else {
                    None
                })
            },
            Err(_) => true,
        },
{
    arange_device(start, stop, step, dtype, &Device::default())
}

/// Generate evenly spaced samples over `[start, stop]`, failing when
/// the requested count is negative. The sample spacing is generally
/// fractional, so the result is tracked by shape and kind alone,
/// without element storage. The count defaults to `50`.
pub fn linspace_device(
    start: i64,
    stop: i64,
    count: Option<i32>,
    dtype: Dtype,
    device: &Device,
) -> (r: Result<Array, Exception>)
    ensures
        r is Ok <==> linspace_count(count) >= 0,
        match r {
            Ok(a) => {
                &&& a.dtype_spec() == dtype
                &&& a.shape_spec() == seq![linspace_count(count)]
                &&& a.data_spec() is None
            },
            Err(e) => e.message@ == "number of samples must be nonnegative"@,
        },
{
    let c = match count {
        Some(c) => c,
        None => 50,
    };
    if c < 0 {
        return Err(Exception { message: "number of samples must be nonnegative".to_owned() });
    }
    let shape: Vec<i32> = vec![c];
    proof {
        assert(shape@ =~= seq![c]);
        assert(suffix_product(shape@, 1) == 1);
        assert(suffix_product(shape@, 0) == c);
        assert(shape_wf(shape@)) by {
            assert forall|k: int| 0 <= k <= 1 implies #[trigger] suffix_product(shape@, k)
                <= usize::MAX by {
                if k == 0 {
                    assert(suffix_product(shape@, 0) == c);
                }
            }
        }
    }
    Ok(Array::without_storage(dtype, shape))
}

/// The sample count a linspace request resolves to.
pub open spec fn linspace_count(count: Option<i32>) -> i32 {
    match count {
        Some(c) => c,
        None => 50,
    }
}

/// A source shape broadcasts to a target shape when, aligned at the
/// trailing side, each source extent equals the target's or is one.
pub open spec fn broadcasts_to(src: Seq<i32>, tgt: Seq<i32>) -> bool {
    &&& src.len() <= tgt.len()
    &&& forall|j: int|
        0 <= j < src.len() ==> (src[j] == 1 || src[j] == tgt[j + (tgt.len() - src.len())])
}

/// The flat source position that target position `flat` draws from
/// under broadcasting, summed over the source dimensions from `j` on:
/// a source extent of one addedutes nothing, repeating its single
/// entry; any other follows the target's coordinate.
pub open spec fn bsi_from(src: Seq<i32>, tgt: Seq<i32>, flat: int, j: int) -> int
    decreases src.len() - j,
{
    if j < 0 || j >= src.len() {
        0
    } else {
        let off = tgt.len() - src.len();
        let coord = (flat / suffix_product(tgt, j + off + 1)) % (tgt[j + off] as int);
        (if src[j] == 1 {
            0
        } else {
            coord
        }) * suffix_product(src, j + 1) + bsi_from(src, tgt, flat, j + 1)
    }
}

/// The flat source position that target position `flat` draws from
/// under broadcasting.
pub open spec fn broadcast_src_index(src: Seq<i32>, tgt: Seq<i32>, flat: int) -> int {
    bsi_from(src, tgt, flat, 0)
}

/// The broadcast source position always lands inside the source.
proof fn lemma_bsi_bound(src: Seq<i32>, tgt: Seq<i32>, flat: int, j: int)
    requires
        broadcasts_to(src, tgt),
        forall|i: int| 0 <= i < tgt.len() ==> tgt[i] >= 1,
        0 <= j <= src.len(),
        flat >= 0,
    ensures
        0 <= bsi_from(src, tgt, flat, j) <= suffix_product(src, j) - 1,
    decreases src.len() - j,
{
    if j == src.len() {
        assert(suffix_product(src, j) == 1);
    } else {
        lemma_bsi_bound(src, tgt, flat, j + 1);
        let off = tgt.len() - src.len();
        let tstride = suffix_product(tgt, j + off + 1);
        proof_tgt_pos(tgt, j + off + 1);
        vstd::arithmetic::div_mod::lemma_mod_bound(flat / tstride, tgt[j + off] as int);
        let coord = (flat / tstride) % (tgt[j + off] as int);
        let sdim = src[j] as int;
        let rest = bsi_from(src, tgt, flat, j + 1);
        let inner = suffix_product(src, j + 1);
        assert(sdim == 1 || sdim == tgt[j + off]);
        assert(sdim >= 1);
        if src[j] == 1 {
            assert(bsi_from(src, tgt, flat, j) == rest);
            assert(suffix_product(src, j) == 1 * inner);
        } else {
            assert(0 <= coord <= sdim - 1);
            assert(coord * inner + rest <= sdim * inner - 1) by (nonlinear_arith)
                requires
                    0 <= coord <= sdim - 1,
                    0 <= rest <= inner - 1,
                    inner >= 1,
            ;
            assert(coord * inner >= 0) by (nonlinear_arith)
                requires
                    coord >= 0,
                    inner >= 1,
            ;
            assert(suffix_product(src, j) == sdim * inner);
        }
    }
}

/// Helper: positive target extents give positive target strides.
proof fn proof_tgt_pos(tgt: Seq<i32>, k: int)
    requires
        forall|i: int| 0 <= i < tgt.len() ==> tgt[i] >= 1,
        0 <= k,
    ensures
        suffix_product(tgt, k) >= 1,
{
    if k <= tgt.len() {
        crate::utils::lemma_pos_dims_pos_suffix(tgt, k);
    }
}

/// Checks that a source shape broadcasts to a target shape.
fn check_broadcasts_to(src: &[i32], tgt: &[i32]) -> (r: bool)
    ensures
        r == broadcasts_to(src@, tgt@),
{
    if src.len() > tgt.len() {
        return false;
    }
    let off = tgt.len() - src.len();
    let n = src.len();
    let tlen = tgt.len();
    let mut j: usize = 0;
    while j < n
        invariant
            j <= n,
            n == src@.len(),
            tlen == tgt@.len(),
            src@.len() <= tgt@.len(),
            off + n == tlen,
            forall|t: int|
                0 <= t < j ==> (src@[t] == 1 || src@[t] == tgt@[t + (tgt@.len()
                    - src@.len())]),
        decreases n - j,
    {
        if !(src[j] == 1 || src[j] == tgt[j + off]) {
            return false;
        }
        j += 1;
    }
    true
}

/// The strides of a well-formed shape: the suffix product after each
/// position.
fn slice_strides(shape: &[i32]) -> (r: Vec<usize>)
    requires
        shape_wf(shape@),
    ensures
        r@.len() == shape@.len(),
        forall|j: int| 0 <= j < r@.len() ==> r@[j] == suffix_product(shape@, j + 1),
{
    let n = shape.len();
    let mut rev: Vec<usize> = Vec::new();
    let mut acc: usize = 1;
    let mut i: usize = n;
    while i > 0
        invariant
            i <= n,
            n == shape@.len(),
            shape_wf(shape@),
            acc == suffix_product(shape@, i as int),
            rev@.len() == n - i,
            forall|t: int|
                0 <= t < rev@.len() ==> rev@[t] == suffix_product(shape@, n - t),
        decreases i,
    {
        rev.push(acc);
        i -= 1;
        proof {
            crate::utils::lemma_suffix_product_nonneg(shape@, i + 1);
            assert(suffix_product(shape@, i as int) <= usize::MAX);
        }
        acc = (shape[i] as usize) * acc;
    }
    let mut out: Vec<usize> = Vec::new();
    let mut k: usize = 0;
    while k < n
        invariant
            k <= n,
            n == shape@.len(),
            rev@.len() == n,
            forall|t: int| 0 <= t < n ==> rev@[t] == suffix_product(shape@, n - t),
            out@.len() == k,
            forall|t: int| 0 <= t < k ==> out@[t] == suffix_product(shape@, t + 1),
        decreases n - k,
    {
        out.push(rev[n - 1 - k]);
        k += 1;
    }
    out
}

/// The storage the result of a broadcast-and-cast fill holds: absent
/// when the source's values are not carried or the cast would need
/// foreign arithmetic, the source's entries re-encoded otherwise.
pub open spec fn full_data_spec(
    src_dtype: Dtype,
    src_shape: Seq<i32>,
    src_data: Option<Seq<u64>>,
    dtype: Dtype,
    tgt: Seq<i32>,
) -> Option<Seq<u64>> {
    match src_data {
        None => None,
        Some(d) => if src_dtype == dtype {
            Some(
                Seq::new(
                    shape_product(tgt) as nat,
                    |f: int| d[broadcast_src_index(src_shape, tgt, f)],
                ),
            )
        } else if is_exact_kind(src_dtype) && is_exact_kind(dtype) {
            Some(
                Seq::new(
                    shape_product(tgt) as nat,
                    |f: int|
                        crate::element::cast_exact_spec(
                            src_dtype,
                            dtype,
                            d[broadcast_src_index(src_shape, tgt, f)],
                        ),
                ),
            )
        } else {
            None
        },
    }
}

/// Construct an array of the given shape with the source's values
/// broadcast into it, cast by value to the requested kind where the
/// kinds differ. Fails when the shape is invalid or the source does
/// not broadcast to it. A cast in or out of an inexact kind would
/// need foreign arithmetic, so such a result is tracked by shape and
/// kind alone, without element storage.
pub fn full_device(shape: &[i32], values: &Array, dtype: Dtype, device: &Device) -> (r: Result<
    Array,
    Exception,
>)
    ensures
        r is Ok <==> (shape_wf(shape@) && broadcasts_to(values.shape_spec(), shape@)),
        match r {
            Ok(a) => {
                &&& a.dtype_spec() == dtype
                &&& a.shape_spec() == shape@
                &&& a.data_spec() == full_data_spec(
                    values.dtype_spec(),
                    values.shape_spec(),
                    values.data_spec(),
                    dtype,
                    shape@,
                )
            },
            Err(e) => {
                ||| (!shape_wf(shape@) && e.message@ == "invalid shape"@)
                ||| (shape_wf(shape@) && !broadcasts_to(values.shape_spec(), shape@)
                    && e.message@ == "broadcast mismatch"@)
            },
        },
{
    proof {
        use_type_invariant(values);
    }
    if !check_shape(shape) {
        return Err(Exception { message: "invalid shape".to_owned() });
    }
    if !check_broadcasts_to(values.shape(), shape) {
        return Err(Exception { message: "broadcast mismatch".to_owned() });
    }
    let src_dtype = values.dtype();
    let total = shape_size(shape);
    proof {
        crate::utils::lemma_suffix_product_nonneg(shape@, 0);
    }
    let same_kind = src_dtype == dtype;
    let castable = !src_dtype.is_inexact() && !dtype.is_inexact();
    match values.storage() {
        None => Ok(Array::without_storage(dtype, vstd::slice::slice_to_vec(shape))),
        Some(d) => {
            if !(same_kind || castable) {
                return Ok(Array::without_storage(dtype, vstd::slice::slice_to_vec(shape)));
            }
            let src_shape = values.shape();
            let tstrides = slice_strides(shape);
            let sstrides = slice_strides(src_shape);
            let off = shape.len() - src_shape.len();
            let sn = src_shape.len();
            let mut out: Vec<u64> = Vec::new();
            let mut f: usize = 0;
            while f < total
                invariant
                    f <= total,
                    total == shape_product(shape@),
                    shape_wf(shape@),
                    shape_wf(values.shape_spec()),
                    src_shape@ == values.shape_spec(),
                    broadcasts_to(src_shape@, shape@),
                    values.data_spec() == Some(d@),
                    d@.len() == shape_product(src_shape@),
                    forall|t: int|
                        0 <= t < d@.len() ==> #[trigger] encoding_in_range(
                            values.dtype_spec(),
                            d@[t],
                        ),
                    src_dtype == values.dtype_spec(),
                    same_kind == (src_dtype == dtype),
                    castable == (is_exact_kind(src_dtype) && is_exact_kind(dtype)),
                    same_kind || castable,
                    off == shape@.len() - src_shape@.len(),
                    sn == src_shape@.len(),
                    tstrides@.len() == shape@.len(),
                    forall|t: int|
                        0 <= t < tstrides@.len() ==> tstrides@[t] == suffix_product(
                            shape@,
                            t + 1,
                        ),
                    sstrides@.len() == src_shape@.len(),
                    forall|t: int|
                        0 <= t < sstrides@.len() ==> sstrides@[t] == suffix_product(
                            src_shape@,
                            t + 1,
                        ),
                    out@.len() == f,
                    forall|t: int|
                        0 <= t < f ==> out@[t] == (if same_kind {
                            d@[broadcast_src_index(src_shape@, shape@, t)]
                        } else {
                            crate::element::cast_exact_spec(
                                src_dtype,
                                dtype,
                                d@[broadcast_src_index(src_shape@, shape@, t)],
                            )
                        }),
                    forall|t: int|
                        0 <= t < f ==> #[trigger] encoding_in_range(dtype, out@[t]),
                decreases total - f,
            {
                proof {
                    crate::utils::lemma_positive_suffix(shape@, 0);
                    lemma_bsi_bound(src_shape@, shape@, f as int, 0);
                }
                let mut idx: usize = 0;
                let mut j: usize = 0;
                while j < sn
                    invariant
                        j <= sn,
                        sn == src_shape@.len(),
                        shape_wf(shape@),
                        shape_wf(src_shape@),
                        broadcasts_to(src_shape@, shape@),
                        forall|i: int| 0 <= i < shape@.len() ==> shape@[i] >= 1,
                        off == shape@.len() - src_shape@.len(),
                        tstrides@.len() == shape@.len(),
                        forall|t: int|
                            0 <= t < tstrides@.len() ==> tstrides@[t] == suffix_product(
                                shape@,
                                t + 1,
                            ),
                        sstrides@.len() == src_shape@.len(),
                        forall|t: int|
                            0 <= t < sstrides@.len() ==> sstrides@[t] == suffix_product(
                                src_shape@,
                                t + 1,
                            ),
                        idx + bsi_from(src_shape@, shape@, f as int, j as int) == bsi_from(
                            src_shape@,
                            shape@,
                            f as int,
                            0,
                        ),
                        0 <= f,
                    decreases sn - j,
                {
                    proof {
                        lemma_bsi_bound(src_shape@, shape@, f as int, 0);
                        lemma_bsi_bound(src_shape@, shape@, f as int, j as int);
                        lemma_bsi_bound(src_shape@, shape@, f as int, j + 1);
                        proof_tgt_pos(shape@, j + off + 1);
                        vstd::arithmetic::div_mod::lemma_mod_bound(
                            (f as int) / suffix_product(shape@, j + off + 1),
                            shape@[j + off] as int,
                        );
                        crate::utils::lemma_suffix_product_nonneg(src_shape@, j + 1);
                        crate::utils::lemma_suffix_product_nonneg(src_shape@, 0);
                        assert(suffix_product(src_shape@, 0) <= usize::MAX);
                    }
                    let coord = (f / tstrides[j + off]) % (shape[j + off] as usize);
                    proof {
                        assert((coord as int) == ((f as int) / suffix_product(
                            shape@,
                            j + off + 1,
                        )) % (shape@[j + off] as int));
                    }
                    let added: usize = if src_shape[j] == 1 {
                        assert(bsi_from(src_shape@, shape@, f as int, j as int) == 0
                            * suffix_product(src_shape@, j + 1) + bsi_from(
                            src_shape@,
                            shape@,
                            f as int,
                            j + 1,
                        ));
                        0
                    } else {
                        assert((coord as int) * suffix_product(src_shape@, j + 1) + bsi_from(
                            src_shape@,
                            shape@,
                            f as int,
                            j + 1,
                        ) == bsi_from(src_shape@, shape@, f as int, j as int));
                        assert((coord as int) * suffix_product(src_shape@, j + 1)
                            <= suffix_product(src_shape@, j as int) - 1);
                        coord * sstrides[j]
                    };
                    idx = idx + added;
                    j += 1;
                }
                assert(idx == broadcast_src_index(src_shape@, shape@, f as int));
                let bits = d[idx];
                let elem = if same_kind {
                    bits
                } else {
                    crate::element::cast_exact(src_dtype, dtype, bits)
                };
                out.push(elem);
                f += 1;
            }
            let r = Array::from_bits_buffer(dtype, out, shape);
            proof {
                if same_kind {
                    assert(r.data_spec()->Some_0 =~= full_data_spec(
                        values.dtype_spec(),
                        values.shape_spec(),
                        values.data_spec(),
                        dtype,
                        shape@,
                    )->Some_0);
                } else {
                    assert(r.data_spec()->Some_0 =~= full_data_spec(
                        values.dtype_spec(),
                        values.shape_spec(),
                        values.data_spec(),
                        dtype,
                        shape@,
                    )->Some_0);
                }
            }
            Ok(r)
        },
    }
}

/// See [`full_device`], on the default device.
pub fn full(shape: &[i32], values: &Array, dtype: Dtype) -> (r: Result<Array, Exception>)
    ensures
        r is Ok <==> (shape_wf(shape@) && broadcasts_to(values.shape_spec(), shape@)),
        match r {
            Ok(a) => {
                &&& a.dtype_spec() == dtype
                &&& a.shape_spec() == shape@
                &&& a.data_spec() == full_data_spec(
                    values.dtype_spec(),
                    values.shape_spec(),
                    values.data_spec(),
                    dtype,
                    shape@,
                )
            },
            Err(_) => true,
        },
{
    full_device(shape, values, dtype, &Device::default())
}

/// Construct an array of zeros stored as the element type `T`.
pub fn zeros_device<T: ArrayElement>(shape: &[i32], device: &Device) -> (r: Result<
    Array,
    Exception,
>)
    ensures
        r is Ok <==> shape_wf(shape@),
        match r {
            Ok(a) => {
                &&& a.dtype_spec() == T::dtype_spec()
                &&& a.shape_spec() == shape@
                &&& a.data_spec() == Some(
                    Seq::new(shape_product(shape@) as nat, |i: int| 0u64),
                )
            },
            Err(e) => e.message@ == "invalid shape"@,
        },
{
    zeros_dtype_device(shape, T::dtype(), device)
}

/// See [`zeros_device`], on the default device.
pub fn zeros<T: ArrayElement>(shape: &[i32]) -> (r: Result<Array, Exception>)
    ensures
        r is Ok <==> shape_wf(shape@),
        match r {
            Ok(a) => {
                &&& a.dtype_spec() == T::dtype_spec()
                &&& a.shape_spec() == shape@
                &&& a.data_spec() == Some(
                    Seq::new(shape_product(shape@) as nat, |i: int| 0u64),
                )
            },
            Err(e) => e.message@ == "invalid shape"@,
        },
{
    zeros_device::<T>(shape, &Device::default())
}

/// Construct an array of ones stored as the element type `T`.
pub fn ones_device<T: ArrayElement>(shape: &[i32], device: &Device) -> (r: Result<
    Array,
    Exception,
>)
    ensures
        r is Ok <==> shape_wf(shape@),
        match r {
            Ok(a) => {
                &&& a.dtype_spec() == T::dtype_spec()
                &&& a.shape_spec() == shape@
                &&& a.data_spec() == Some(
                    Seq::new(
                        shape_product(shape@) as nat,
                        |i: int| one_bits_spec(T::dtype_spec()),
                    ),
                )
            },
            Err(e) => e.message@ == "invalid shape"@,
        },
{
    ones_dtype_device(shape, T::dtype(), device)
}

/// See [`ones_device`], on the default device.
pub fn ones<T: ArrayElement>(shape: &[i32]) -> (r: Result<Array, Exception>)
    ensures
        r is Ok <==> shape_wf(shape@),
        match r {
            Ok(a) => {
                &&& a.dtype_spec() == T::dtype_spec()
                &&& a.shape_spec() == shape@
                &&& a.data_spec() == Some(
                    Seq::new(
                        shape_product(shape@) as nat,
                        |i: int| one_bits_spec(T::dtype_spec()),
                    ),
                )
            },
            Err(e) => e.message@ == "invalid shape"@,
        },
{
    ones_device::<T>(shape, &Device::default())
}

/// The storage a flattened repeat yields: each source entry stands
/// `count` times in a row.
pub open spec fn repeat_all_data_spec(src_data: Option<Seq<u64>>, count: int, total: int) -> Option<
    Seq<u64>,
> {
    match src_data {
        None => None,
        Some(d) => Some(Seq::new(total as nat, |f: int| d[f / count])),
    }
}

/// Repeat a flattened array along its single axis: each element
/// stands `count` times in a row. Fails when the count is negative or
/// the flattened length does not fit the engine's dimension type.
pub fn repeat_all_device(array: Array, count: i32, device: &Device) -> (r: Result<
    Array,
    Exception,
>)
    ensures
        r is Ok <==> (count >= 0 && array.size_spec() * count <= 0x7fff_ffff),
        match r {
            Ok(a) => {
                &&& a.dtype_spec() == array.dtype_spec()
                &&& a.shape_spec() =~= seq![(array.size_spec() * count) as i32]
                &&& a.data_spec() == repeat_all_data_spec(
                    array.data_spec(),
                    count as int,
                    array.size_spec() * count,
                )
            },
            Err(e) => {
                ||| (count < 0 && e.message@ == "negative repeat count"@)
                ||| (count >= 0 && array.size_spec() * count > 0x7fff_ffff && e.message@
                    == "invalid shape"@)
            },
        },
{
    proof {
        use_type_invariant(&array);
        crate::utils::lemma_suffix_product_nonneg(array.shape_spec(), 0);
    }
    if count < 0 {
        return Err(Exception { message: "negative repeat count".to_owned() });
    }
    let size = array.size();
    proof {
        assert(0 <= (size as int) * (count as int) <= 0xffff_ffff_ffff_ffff
            * 0x7fff_ffffint) by (nonlinear_arith)
            requires
                0 <= size <= 0xffff_ffff_ffff_ffff,
                0 <= count <= 0x7fff_ffff,
        ;
    }
    let total128: i128 = (size as i128) * (count as i128);
    if total128 > 0x7fff_ffff {
        return Err(Exception { message: "invalid shape".to_owned() });
    }
    let total = (total128 as i32) as usize;
    let n = total128 as i32;
    let shape: Vec<i32> = vec![n];
    proof {
        assert(shape@ =~= seq![n]);
        assert(suffix_product(shape@, 1) == 1);
        assert(suffix_product(shape@, 0) == n * 1);
        assert(shape_wf(shape@)) by {
            assert forall|k: int| 0 <= k <= 1 implies #[trigger] suffix_product(shape@, k)
                <= usize::MAX by {}
        }
        assert((size as int) * (count as int) >= 0) by (nonlinear_arith)
            requires
                size >= 0,
                count >= 0,
        ;
    }
    match array.storage() {
        None => Ok(Array::without_storage(array.dtype(), shape)),
        Some(d) => {
            let mut out: Vec<u64> = Vec::new();
            let mut f: usize = 0;
            while f < total
                invariant
                    f <= total,
                    total == array.size_spec() * count,
                    count >= 0,
                    d@.len() == array.size_spec(),
                    array.data_spec() == Some(d@),
                    forall|t: int|
                        0 <= t < d@.len() ==> #[trigger] encoding_in_range(
                            array.dtype_spec(),
                            d@[t],
                        ),
                    out@.len() == f,
                    forall|t: int| 0 <= t < f ==> out@[t] == d@[t / (count as int)],
                    forall|t: int|
                        0 <= t < f ==> #[trigger] encoding_in_range(
                            array.dtype_spec(),
                            out@[t],
                        ),
                decreases total - f,
            {
                proof {
                    assert(count >= 1) by (nonlinear_arith)
                        requires
                            (d@.len() as int) * (count as int) > f,
                            f >= 0,
                            count >= 0,
                    ;
                    vstd::arithmetic::div_mod::lemma_multiply_divide_lt(
                        f as int,
                        count as int,
                        d@.len() as int,
                    );
                    vstd::arithmetic::div_mod::lemma_div_pos_is_pos(f as int, count as int);
                }
                let idx = f / (count as usize);
                out.push(d[idx]);
                f += 1;
            }
            let r = Array::from_bits_buffer(array.dtype(), out, shape.as_slice());
            proof {
                assert(r.data_spec()->Some_0 =~= repeat_all_data_spec(
                    array.data_spec(),
                    count as int,
                    array.size_spec() * count,
                )->Some_0);
            }
            Ok(r)
        },
    }
}

/// See [`repeat_all_device`], on the default device.
pub fn repeat_all(array: Array, count: i32) -> (r: Result<Array, Exception>)
    ensures
        r is Ok <==> (count >= 0 && array.size_spec() * count <= 0x7fff_ffff),
        match r {
            Ok(a) => {
                &&& a.dtype_spec() == array.dtype_spec()
                &&& a.shape_spec() =~= seq![(array.size_spec() * count) as i32]
                &&& a.data_spec() == repeat_all_data_spec(
                    array.data_spec(),
                    count as int,
                    array.size_spec() * count,
                )
            },
            Err(_) => true,
        },
{
    repeat_all_device(array, count, &Device::default())
}

/// The flat source position an axis repeat draws from for target
/// position `f`: the repeated axis's coordinate collapses back by the
/// repeat count, everything else maps through unchanged.
pub open spec fn repeat_src_index(src: Seq<i32>, ax: int, count: int, f: int) -> int {
    let inner = suffix_product(src, ax + 1);
    let sdim = src[ax] as int;
    let block = f / inner;
    ((block / (sdim * count)) * sdim + (block % (sdim * count)) / count) * inner + f % inner
}

/// The shape an axis repeat yields: the source with the repeated
/// axis's extent multiplied by the count.
pub open spec fn repeat_new_shape(src: Seq<i32>, ax: int, count: int) -> Seq<i32> {
    src.update(ax, ((src[ax] as int) * count) as i32)
}

/// The storage an axis repeat yields: each entry of the repeated axis
/// stands `count` times in a row.
pub open spec fn repeat_data_spec(
    src_data: Option<Seq<u64>>,
    src_shape: Seq<i32>,
    ax: int,
    count: int,
    total: int,
) -> Option<Seq<u64>> {
    match src_data {
        None => None,
        Some(d) => Some(
            Seq::new(total as nat, |f: int| d[repeat_src_index(src_shape, ax, count, f)]),
        ),
    }
}

/// Repeat an array along the given axis, which may be negative to
/// count from the end: each entry of that axis stands `count` times in
/// a row. Fails when the count is negative, the axis lies out of
/// bounds, or the widened shape does not fit the machine.
pub fn repeat_device(array: Array, count: i32, axis: i32, device: &Device) -> (r: Result<
    Array,
    Exception,
>)
    ensures
        r is Ok <==> (count >= 0 && crate::utils::axis_in_bounds(
            axis as int,
            array.ndim_spec(),
        ) && (array.shape_spec()[crate::utils::norm_axis(axis as int, array.ndim_spec())] as int)
            * count <= 0x7fff_ffff && shape_wf(
            repeat_new_shape(
                array.shape_spec(),
                crate::utils::norm_axis(axis as int, array.ndim_spec()),
                count as int,
            ),
        )),
        match r {
            Ok(a) => {
                &&& a.dtype_spec() == array.dtype_spec()
                &&& a.shape_spec() == repeat_new_shape(
                    array.shape_spec(),
                    crate::utils::norm_axis(axis as int, array.ndim_spec()),
                    count as int,
                )
                &&& a.data_spec() == repeat_data_spec(
                    array.data_spec(),
                    array.shape_spec(),
                    crate::utils::norm_axis(axis as int, array.ndim_spec()),
                    count as int,
                    shape_product(
                        repeat_new_shape(
                            array.shape_spec(),
                            crate::utils::norm_axis(axis as int, array.ndim_spec()),
                            count as int,
                        ),
                    ),
                )
            },
            Err(e) => {
                ||| (count < 0 && e.message@ == "negative repeat count"@)
                ||| (count >= 0 && !crate::utils::axis_in_bounds(
                    axis as int,
                    array.ndim_spec(),
                ) && e.message@ == "axis out of bounds"@)
                ||| (count >= 0 && crate::utils::axis_in_bounds(axis as int, array.ndim_spec())
                    && e.message@ == "invalid shape"@)
            },
        },
{
    proof {
        use_type_invariant(&array);
    }
    if count < 0 {
        return Err(Exception { message: "negative repeat count".to_owned() });
    }
    let ndim_i = array.ndim() as i32;
    let nax_i = if axis < 0 {
        axis + ndim_i
    } else {
        axis
    };
    if nax_i < 0 || nax_i >= ndim_i {
        return Err(Exception { message: "axis out of bounds".to_owned() });
    }
    let nax = nax_i as usize;
    let ghost src = array.shape_spec();
    let ghost naxg = nax as int;
    let sdim = array.shape()[nax];
    proof {
        assert(0 <= (sdim as int) * (count as int) <= 0x7fff_ffff * 0x7fff_ffffint)
            by (nonlinear_arith)
            requires
                0 <= sdim <= 0x7fff_ffff,
                0 <= count <= 0x7fff_ffff,
        ;
    }
    let newdim128: i128 = (sdim as i128) * (count as i128);
    if newdim128 > 0x7fff_ffff {
        return Err(Exception { message: "invalid shape".to_owned() });
    }
    let newdim = newdim128 as i32;
    let shape_ref = array.shape();
    let n = shape_ref.len();
    let mut new_shape: Vec<i32> = Vec::new();
    let mut t: usize = 0;
    while t < n
        invariant
            t <= n,
            n == src.len(),
            shape_ref@ == src,
            naxg == nax,
            nax < n,
            newdim == (src[naxg] as int) * (count as int),
            new_shape@.len() == t,
            forall|j: int|
                0 <= j < t ==> new_shape@[j] == (if j == naxg {
                    newdim
                } else {
                    src[j]
                }),
        decreases n - t,
    {
        if t == nax {
            new_shape.push(newdim);
        } else {
            new_shape.push(shape_ref[t]);
        }
        t += 1;
    }
    proof {
        assert(new_shape@ =~= repeat_new_shape(src, naxg, count as int));
    }
    if !check_shape(new_shape.as_slice()) {
        return Err(Exception { message: "invalid shape".to_owned() });
    }
    let total = shape_size(new_shape.as_slice());
    let sstrides = slice_strides(array.shape());
    let inner_u = sstrides[nax];
    proof {
        crate::utils::lemma_suffix_product_update(src, naxg, newdim, naxg + 1);
    }
    match array.storage() {
        None => Ok(Array::without_storage(array.dtype(), new_shape)),
        Some(d) => {
            let ghost new = new_shape@;
            let mut out: Vec<u64> = Vec::new();
            let mut f: usize = 0;
            while f < total
                invariant
                    f <= total,
                    new == new_shape@,
                    new == repeat_new_shape(src, naxg, count as int),
                    total == shape_product(new),
                    shape_wf(new),
                    shape_wf(src),
                    naxg == nax,
                    0 <= naxg < src.len(),
                    count >= 0,
                    sdim == src[naxg],
                    newdim == (src[naxg] as int) * (count as int),
                    inner_u == suffix_product(src, naxg + 1),
                    suffix_product(new, naxg + 1) == suffix_product(src, naxg + 1),
                    array.data_spec() == Some(d@),
                    d@.len() == shape_product(src),
                    forall|j: int|
                        0 <= j < d@.len() ==> #[trigger] encoding_in_range(
                            array.dtype_spec(),
                            d@[j],
                        ),
                    out@.len() == f,
                    forall|j: int|
                        0 <= j < f ==> out@[j] == d@[repeat_src_index(
                            src,
                            naxg,
                            count as int,
                            j,
                        )],
                    forall|j: int|
                        0 <= j < f ==> #[trigger] encoding_in_range(
                            array.dtype_spec(),
                            out@[j],
                        ),
                decreases total - f,
            {
                let ghost sdim_i = src[naxg] as int;
                let ghost cnt = count as int;
                let ghost inner = suffix_product(src, naxg + 1);
                let ghost pre = crate::utils::range_product(src, 0, naxg);
                proof {
                    crate::utils::lemma_positive_suffix(new, 0);
                    assert(new[naxg] == ((src[naxg] as int) * cnt) as i32);
                    assert((new[naxg] as int) == sdim_i * cnt);
                    assert(sdim_i >= 1 && cnt >= 1) by (nonlinear_arith)
                        requires
                            sdim_i * cnt >= 1,
                            sdim_i >= 0,
                            cnt >= 0,
                    ;
                    crate::utils::lemma_suffix_split(new, 0, naxg);
                    crate::utils::lemma_suffix_split(src, 0, naxg);
                    crate::utils::lemma_range_product_update(src, naxg, newdim, 0, naxg);
                    assert(suffix_product(new, naxg) == (new[naxg] as int) * inner);
                    assert(suffix_product(src, naxg) == sdim_i * inner);
                    assert(shape_product(new) == pre * ((sdim_i * cnt) * inner));
                    assert(shape_product(src) == pre * (sdim_i * inner));
                    assert(pre >= 1) by {
                        crate::utils::lemma_pos_range(new, 0, naxg);
                        crate::utils::lemma_range_product_update(src, naxg, newdim, 0, naxg);
                    }
                    assert(inner >= 1);
                    assert((f as int) < inner * (pre * (sdim_i * cnt))) by (nonlinear_arith)
                        requires
                            (f as int) < pre * ((sdim_i * cnt) * inner),
                    ;
                    vstd::arithmetic::div_mod::lemma_multiply_divide_lt(
                        f as int,
                        inner,
                        pre * (sdim_i * cnt),
                    );
                    vstd::arithmetic::div_mod::lemma_div_pos_is_pos(f as int, inner);
                    let block = (f as int) / inner;
                    assert(block < (sdim_i * cnt) * pre) by (nonlinear_arith)
                        requires
                            block < pre * (sdim_i * cnt),
                    ;
                    assert(sdim_i * cnt >= 1) by (nonlinear_arith)
                        requires
                            sdim_i >= 1,
                            cnt >= 1,
                    ;
                    vstd::arithmetic::div_mod::lemma_multiply_divide_lt(
                        block,
                        sdim_i * cnt,
                        pre,
                    );
                    vstd::arithmetic::div_mod::lemma_div_pos_is_pos(block, sdim_i * cnt);
                    vstd::arithmetic::div_mod::lemma_mod_bound(block, sdim_i * cnt);
                    let outer = block / (sdim_i * cnt);
                    let a_new = block % (sdim_i * cnt);
                    assert(a_new < cnt * sdim_i) by (nonlinear_arith)
                        requires
                            a_new < sdim_i * cnt,
                    ;
                    vstd::arithmetic::div_mod::lemma_multiply_divide_lt(a_new, cnt, sdim_i);
                    vstd::arithmetic::div_mod::lemma_div_pos_is_pos(a_new, cnt);
                    let a_src = a_new / cnt;
                    let row = outer * sdim_i + a_src;
                    assert(0 <= row <= pre * sdim_i - 1) by (nonlinear_arith)
                        requires
                            0 <= outer <= pre - 1,
                            0 <= a_src <= sdim_i - 1,
                            sdim_i >= 1,
                            pre >= 1,
                            row == outer * sdim_i + a_src,
                    ;
                    vstd::arithmetic::div_mod::lemma_mod_bound(f as int, inner);
                    let rem = (f as int) % inner;
                    assert(0 <= row * inner + rem <= pre * (sdim_i * inner) - 1)
                        by (nonlinear_arith)
                        requires
                            0 <= row <= pre * sdim_i - 1,
                            0 <= rem <= inner - 1,
                            inner >= 1,
                            pre >= 1,
                            sdim_i >= 1,
                    ;
                    assert(row * inner + rem == repeat_src_index(src, naxg, cnt, f as int));
                    assert(pre * sdim_i <= pre * (sdim_i * inner)) by (nonlinear_arith)
                        requires
                            pre >= 1,
                            sdim_i >= 1,
                            inner >= 1,
                    ;
                }
                let block_u = f / inner_u;
                let ndim_ax_u = newdim as usize;
                let outer_u = block_u / ndim_ax_u;
                let a_new_u = block_u % ndim_ax_u;
                let a_src_u = a_new_u / (count as usize);
                proof {
                    let block = (f as int) / inner;
                    let outer = block / (sdim_i * cnt);
                    let a_new = block % (sdim_i * cnt);
                    let a_src = a_new / cnt;
                    assert(block_u == block);
                    assert((ndim_ax_u as int) == sdim_i * cnt);
                    assert(outer_u == outer);
                    assert(a_new_u == a_new);
                    assert(a_src_u == a_src);
                    assert((outer_u as int) * sdim_i + a_src_u == outer * sdim_i + a_src);
                }
                let row_u = outer_u * (sdim as usize) + a_src_u;
                let idx = row_u * inner_u + f % inner_u;
                proof {
                    assert((idx as int) == repeat_src_index(src, naxg, cnt, f as int));
                }
                out.push(d[idx]);
                f += 1;
            }
            let r = Array::from_bits_buffer(array.dtype(), out, new_shape.as_slice());
            proof {
                assert(r.data_spec()->Some_0 =~= repeat_data_spec(
                    array.data_spec(),
                    src,
                    naxg,
                    count as int,
                    shape_product(new),
                )->Some_0);
            }
            Ok(r)
        },
    }
}

/// See [`repeat_device`], on the default device.
pub fn repeat(array: Array, count: i32, axis: i32) -> (r: Result<Array, Exception>)
    ensures
        r is Ok <==> (count >= 0 && crate::utils::axis_in_bounds(
            axis as int,
            array.ndim_spec(),
        ) && (array.shape_spec()[crate::utils::norm_axis(axis as int, array.ndim_spec())] as int)
            * count <= 0x7fff_ffff && shape_wf(
            repeat_new_shape(
                array.shape_spec(),
                crate::utils::norm_axis(axis as int, array.ndim_spec()),
                count as int,
            ),
        )),
        match r {
            Ok(a) => {
                &&& a.dtype_spec() == array.dtype_spec()
                &&& a.shape_spec() == repeat_new_shape(
                    array.shape_spec(),
                    crate::utils::norm_axis(axis as int, array.ndim_spec()),
                    count as int,
                )
                &&& a.data_spec() == repeat_data_spec(
                    array.data_spec(),
                    array.shape_spec(),
                    crate::utils::norm_axis(axis as int, array.ndim_spec()),
                    count as int,
                    shape_product(
                        repeat_new_shape(
                            array.shape_spec(),
                            crate::utils::norm_axis(axis as int, array.ndim_spec()),
                            count as int,
                        ),
                    ),
                )
            },
            Err(_) => true,
        },
{
    repeat_device(array, count, axis, &Device::default())
}

/// The column count an identity-like request resolves to: the row
/// count when none is given.
pub open spec fn eye_cols(n: i32, m: Option<i32>) -> i32 {
    match m {
        Some(v) => v,
        None => n,
    }
}

/// The diagonal a request names: the main one when none is given.
pub open spec fn diag_offset(k: Option<i32>) -> i32 {
    match k {
        Some(v) => v,
        None => 0,
    }
}

/// The entry of an identity-like matrix at flat position `f`: one on
/// the diagonal offset by `k`, zero elsewhere.
pub open spec fn eye_entry(cols: int, k: int, one: u64, f: int) -> u64 {
    if f % cols == f / cols + k {
        one
    } else {
        0
    }
}

/// The entry of a lower-triangular mask at flat position `f`: one at
/// and below the diagonal offset by `k`, zero elsewhere.
pub open spec fn tri_entry(cols: int, k: int, one: u64, f: int) -> u64 {
    if f % cols <= f / cols + k {
        one
    } else {
        0
    }
}

/// Fills an `n` by `cols` matrix by a per-position rule: diagonal ones
/// when `lower` is false, the lower-triangular mask when it is true.
fn fill_diagonal(n: i32, cols: i32, kv: i32, dtype: Dtype, lower: bool) -> (r: Result<
    Array,
    Exception,
>)
    ensures
        r is Ok <==> shape_wf(seq![n, cols]),
        match r {
            Ok(a) => {
                &&& a.dtype_spec() == dtype
                &&& a.shape_spec() == seq![n, cols]
                &&& a.data_spec() == Some(
                    Seq::new(
                        shape_product(seq![n, cols]) as nat,
                        |f: int|
                            if lower {
                                tri_entry(cols as int, kv as int, one_bits_spec(dtype), f)
                            } else {
                                eye_entry(cols as int, kv as int, one_bits_spec(dtype), f)
                            },
                    ),
                )
            },
            Err(e) => e.message@ == "invalid shape"@,
        },
{
    let shape: Vec<i32> = vec![n, cols];
    proof {
        assert(shape@ =~= seq![n, cols]);
    }
    if !check_shape(shape.as_slice()) {
        return Err(Exception { message: "invalid shape".to_owned() });
    }
    let total = shape_size(shape.as_slice());
    proof {
        assert(suffix_product(shape@, 2) == 1);
        assert(suffix_product(shape@, 1) == cols * 1);
        assert(shape_product(shape@) == n * (cols as int));
    }
    let one = one_bits(dtype);
    let mut data: Vec<u64> = Vec::new();
    let mut f: usize = 0;
    while f < total
        invariant
            f <= total,
            total == shape_product(shape@),
            shape_product(shape@) == n * (cols as int),
            shape@ =~= seq![n, cols],
            shape_wf(shape@),
            one == one_bits_spec(dtype),
            encoding_in_range(dtype, one),
            data@.len() == f,
            forall|t: int|
                0 <= t < f ==> data@[t] == (if lower {
                    tri_entry(cols as int, kv as int, one_bits_spec(dtype), t)
                } else {
                    eye_entry(cols as int, kv as int, one_bits_spec(dtype), t)
                }),
            forall|t: int|
                0 <= t < f ==> #[trigger] encoding_in_range(dtype, data@[t]),
        decreases total - f,
    {
        proof {
            crate::utils::lemma_positive_suffix(shape@, 0);
            assert(shape_product(shape@) <= 0x4000_0000_0000_0000) by (nonlinear_arith)
                requires
                    shape_product(shape@) == n * (cols as int),
                    0 <= n <= 0x7fff_ffff,
                    0 <= cols <= 0x7fff_ffff,
            ;
        }
        let col = f % (cols as usize);
        let row = f / (cols as usize);
        let on = if lower {
            (col as i64) <= (row as i64) + (kv as i64)
        } else {
            (col as i64) == (row as i64) + (kv as i64)
        };
        data.push(if on {
            one
        } else {
            0
        });
        f += 1;
    }
    let r = Array::from_bits_buffer(dtype, data, shape.as_slice());
    proof {
        assert(r.data_spec()->Some_0 =~= Seq::new(
            shape_product(seq![n, cols]) as nat,
            |f: int|
                if lower {
                    tri_entry(cols as int, kv as int, one_bits_spec(dtype), f)
                } else {
                    eye_entry(cols as int, kv as int, one_bits_spec(dtype), f)
                },
        ));
    }
    Ok(r)
}

/// Create an identity-like matrix: ones on the diagonal offset by `k`,
/// zeros elsewhere; `m` columns, or square when `m` is absent.
pub fn eye_device(n: i32, m: Option<i32>, k: Option<i32>, dtype: Dtype, device: &Device) -> (r:
    Result<Array, Exception>)
    ensures
        r is Ok <==> shape_wf(seq![n, eye_cols(n, m)]),
        match r {
            Ok(a) => {
                &&& a.dtype_spec() == dtype
                &&& a.shape_spec() == seq![n, eye_cols(n, m)]
                &&& a.data_spec() == Some(
                    Seq::new(
                        shape_product(seq![n, eye_cols(n, m)]) as nat,
                        |f: int|
                            eye_entry(
                                eye_cols(n, m) as int,
                                diag_offset(k) as int,
                                one_bits_spec(dtype),
                                f,
                            ),
                    ),
                )
            },
            Err(e) => e.message@ == "invalid shape"@,
        },
{
    let cols = match m {
        Some(v) => v,
        None => n,
    };
    let kv = match k {
        Some(v) => v,
        None => 0,
    };
    fill_diagonal(n, cols, kv, dtype, false)
}

/// See [`eye_device`], on the default device.
pub fn eye(n: i32, m: Option<i32>, k: Option<i32>, dtype: Dtype) -> (r: Result<Array, Exception>)
    ensures
        r is Ok <==> shape_wf(seq![n, eye_cols(n, m)]),
        match r {
            Ok(a) => {
                &&& a.dtype_spec() == dtype
                &&& a.shape_spec() == seq![n, eye_cols(n, m)]
                &&& a.data_spec() == Some(
                    Seq::new(
                        shape_product(seq![n, eye_cols(n, m)]) as nat,
                        |f: int|
                            eye_entry(
                                eye_cols(n, m) as int,
                                diag_offset(k) as int,
                                one_bits_spec(dtype),
                                f,
                            ),
                    ),
                )
            },
            Err(e) => e.message@ == "invalid shape"@,
        },
{
    eye_device(n, m, k, dtype, &Device::default())
}

/// Create a square identity matrix.
pub fn identity_device(n: i32, dtype: Dtype, device: &Device) -> (r: Result<Array, Exception>)
    ensures
        r is Ok <==> shape_wf(seq![n, n]),
        match r {
            Ok(a) => {
                &&& a.dtype_spec() == dtype
                &&& a.shape_spec() == seq![n, n]
                &&& a.data_spec() == Some(
                    Seq::new(
                        shape_product(seq![n, n]) as nat,
                        |f: int| eye_entry(n as int, 0, one_bits_spec(dtype), f),
                    ),
                )
            },
            Err(e) => e.message@ == "invalid shape"@,
        },
{
    eye_device(n, None, None, dtype, device)
}

/// See [`identity_device`], on the default device.
pub fn identity(n: i32, dtype: Dtype) -> (r: Result<Array, Exception>)
    ensures
        r is Ok <==> shape_wf(seq![n, n]),
        match r {
            Ok(a) => {
                &&& a.dtype_spec() == dtype
                &&& a.shape_spec() == seq![n, n]
                &&& a.data_spec() == Some(
                    Seq::new(
                        shape_product(seq![n, n]) as nat,
                        |f: int| eye_entry(n as int, 0, one_bits_spec(dtype), f),
                    ),
                )
            },
            Err(e) => e.message@ == "invalid shape"@,
        },
{
    identity_device(n, dtype, &Device::default())
}

/// An array with ones at and below the given diagonal and zeros
/// elsewhere.
pub fn tri_device(n: i32, m: Option<i32>, k: Option<i32>, dtype: Dtype, device: &Device) -> (r:
    Result<Array, Exception>)
    ensures
        r is Ok <==> shape_wf(seq![n, eye_cols(n, m)]),
        match r {
            Ok(a) => {
                &&& a.dtype_spec() == dtype
                &&& a.shape_spec() == seq![n, eye_cols(n, m)]
                &&& a.data_spec() == Some(
                    Seq::new(
                        shape_product(seq![n, eye_cols(n, m)]) as nat,
                        |f: int|
                            tri_entry(
                                eye_cols(n, m) as int,
                                diag_offset(k) as int,
                                one_bits_spec(dtype),
                                f,
                            ),
                    ),
                )
            },
            Err(e) => e.message@ == "invalid shape"@,
        },
{
    let cols = match m {
        Some(v) => v,
        None => n,
    };
    let kv = match k {
        Some(v) => v,
        None => 0,
    };
    fill_diagonal(n, cols, kv, dtype, true)
}

/// See [`tri_device`], on the default device.
pub fn tri(n: i32, m: Option<i32>, k: Option<i32>, dtype: Dtype) -> (r: Result<Array, Exception>)
    ensures
        r is Ok <==> shape_wf(seq![n, eye_cols(n, m)]),
        match r {
            Ok(a) => {
                &&& a.dtype_spec() == dtype
                &&& a.shape_spec() == seq![n, eye_cols(n, m)]
                &&& a.data_spec() == Some(
                    Seq::new(
                        shape_product(seq![n, eye_cols(n, m)]) as nat,
                        |f: int|
                            tri_entry(
                                eye_cols(n, m) as int,
                                diag_offset(k) as int,
                                one_bits_spec(dtype),
                                f,
                            ),
                    ),
                )
            },
            Err(e) => e.message@ == "invalid shape"@,
        },
{
    tri_device(n, m, k, dtype, &Device::default())
}

/// See [`linspace_device`], on the default device.
pub fn linspace(start: i64, stop: i64, count: Option<i32>, dtype: Dtype) -> (r: Result<
    Array,
    Exception,
>)
    ensures
        r is Ok <==> linspace_count(count) >= 0,
        match r {
            Ok(a) => {
                &&& a.dtype_spec() == dtype
                &&& a.shape_spec() == seq![linspace_count(count)]
                &&& a.data_spec() is None
            },
            Err(e) => e.message@ == "number of samples must be nonnegative"@,
        },
{
    linspace_device(start, stop, count, dtype, &Device::default())
}

} // verus!
