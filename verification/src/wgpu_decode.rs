//! Host-side checks of the specialized `q_len = 1` decode dispatch over
//! fixed-capacity resident K/V storage.
//!
//! K/V come either from a [`ResidentKvCacheState`] or from framework-owned
//! buffers of the same physical layout `[batch, capacity, kv_heads * head_dim]`;
//! only rows `[0, len)` of each batch are live and the physical capacity stays
//! the batch stride. Everything the host decides before recording the dispatch
//! is here: the output geometry, buffer and binding limits, causal visibility
//! and the uniform parameter words.
use crate::attention_shape::{AsymmetricGroupedAttentionShape, FlatAttentionError};
use crate::research_structural_wgpu::DeviceDispatchLimits;
use crate::wgpu_kv_cache::{tensor_bytes_of, ResidentKvCacheState};
use vstd::prelude::*;

verus! {

/// Output geometry for one resident decode dispatch.
#[derive(Debug, Clone, Copy, PartialEq, Eq, Structural)]
pub struct ResidentDecodeLayout {
    pub q_elements: usize,
    pub output_elements: usize,
    pub lse_elements: usize,
    pub combined_elements: usize,
    pub q_bytes: u64,
    pub combined_bytes: u64,
}

/// Explicit decode failures. A rejected RoPE theta carries its IEEE-754 bits.
#[derive(Debug, Clone, PartialEq)]
#[non_exhaustive]
pub enum ResidentDecodeError {
    Core(FlatAttentionError),
    EmptyCache,
    InvalidCacheLength { len: usize, capacity: usize },
    InvalidQueryLen { actual: usize },
    CausalVisibilityMismatch { query_position: usize, kv_len: usize },
    UnsupportedHeadDim { actual: usize, maximum: usize },
    IndexSpaceExceeded { elements: usize },
    DispatchLimit { actual: usize, maximum: u32 },
    BufferTooSmall { tensor: &'static str, actual_bytes: u64, required_bytes: u64 },
    StorageBindingTooLarge { tensor: &'static str, required_bytes: u64, maximum_bytes: u64 },
    InvalidTheta(u32),
    PipelineValidation(String),
}

/// Geometry and buffer sizes of resident K/V storage.
#[derive(Debug, Clone, Copy, PartialEq, Eq, Structural)]
pub struct ResidentKvGeometry {
    pub batch: usize,
    pub kv_heads: usize,
    pub capacity: usize,
    pub head_dim: usize,
    pub len: usize,
    pub k_bytes: u64,
    pub v_bytes: u64,
}

/// Sizes of the caller-owned query and `O|LSE` buffers.
#[derive(Debug, Clone, Copy, PartialEq, Eq, Structural)]
pub struct ResidentDecodeBuffers {
    pub q_bytes: u64,
    pub out_and_lse_bytes: u64,
}

/// Everything the host encodes for one decode dispatch.
#[derive(Debug, Clone, PartialEq, Eq)]
pub struct ResidentDecodeDispatch {
    pub layout: ResidentDecodeLayout,
    pub kv_bytes: u64,
    pub params: Vec<u32>,
    pub workgroups: u32,
}

pub open spec fn decode_failure(e: ResidentDecodeError) -> Result<(), ResidentDecodeError> {
    Err(e)
}

pub open spec fn core_failure(e: FlatAttentionError) -> Result<(), ResidentDecodeError> {
    Err(ResidentDecodeError::Core(e))
}

/// Scalars of the whole K (or V) storage.
pub open spec fn kv_elements_of(kv: ResidentKvGeometry) -> int {
    (kv.batch * kv.capacity) * (kv.kv_heads * kv.head_dim)
}

/// A RoPE theta is accepted exactly when it is finite and positive; over the
/// IEEE-754 single-precision bits that is `0 < bits < 0x7f80_0000`.
pub open spec fn theta_bits_valid(bits: u32) -> bool {
    0 < bits && bits < 0x7f80_0000
}

/// Validity of resident K/V storage, first failure first.
pub open spec fn kv_view_rule(kv: ResidentKvGeometry, max_head_dim: usize) -> Result<
    (),
    ResidentDecodeError,
> {
    let elements = kv_elements_of(kv);
    if kv.batch == 0 || kv.kv_heads == 0 || kv.capacity == 0 || kv.head_dim == 0 {
        core_failure(FlatAttentionError::ZeroDimension)
    } else if kv.len == 0 {
        decode_failure(ResidentDecodeError::EmptyCache)
    } else if kv.len > kv.capacity {
        decode_failure(
            ResidentDecodeError::InvalidCacheLength { len: kv.len, capacity: kv.capacity },
        )
    } else if kv.head_dim % 2 != 0 {
        core_failure(FlatAttentionError::InvalidRotaryHeadDim { head_dim: kv.head_dim })
    } else if kv.head_dim > max_head_dim {
        decode_failure(
            ResidentDecodeError::UnsupportedHeadDim { actual: kv.head_dim, maximum: max_head_dim },
        )
    } else if kv.batch * kv.capacity > usize::MAX || kv.kv_heads * kv.head_dim > usize::MAX
        || elements > usize::MAX {
        core_failure(FlatAttentionError::ShapeOverflow)
    } else if elements > u32::MAX {
        decode_failure(ResidentDecodeError::IndexSpaceExceeded { elements: elements as usize })
    } else if 4 * elements > usize::MAX {
        core_failure(FlatAttentionError::ShapeOverflow)
    } else if kv.k_bytes < 4 * elements {
        decode_failure(
            ResidentDecodeError::BufferTooSmall {
                tensor: "K",
                actual_bytes: kv.k_bytes,
                required_bytes: (4 * elements) as u64,
            },
        )
    } else if kv.v_bytes < 4 * elements {
        decode_failure(
            ResidentDecodeError::BufferTooSmall {
                tensor: "V",
                actual_bytes: kv.v_bytes,
                required_bytes: (4 * elements) as u64,
            },
        )
    } else {
        Ok(())
    }
}

/// The output geometry of `q_heads` query heads over `kv`, or why there is none.
pub open spec fn layout_rule(kv: ResidentKvGeometry, q_heads: usize, max_head_dim: usize) -> Result<
    ResidentDecodeLayout,
    ResidentDecodeError,
> {
    let rows = kv.batch * q_heads;
    let q = rows * kv.head_dim;
    let combined = q + rows;
    if kv_view_rule(kv, max_head_dim) is Err {
        Err(kv_view_rule(kv, max_head_dim)->Err_0)
    } else if q_heads == 0 || q_heads % kv.kv_heads != 0 {
        Err(
            ResidentDecodeError::Core(
                FlatAttentionError::InvalidHeadGrouping { q_heads, kv_heads: kv.kv_heads },
            ),
        )
    } else if rows > usize::MAX || q > usize::MAX || combined > usize::MAX || 4 * combined
        > usize::MAX {
        Err(ResidentDecodeError::Core(FlatAttentionError::ShapeOverflow))
    } else {
        Ok(
            ResidentDecodeLayout {
                q_elements: q as usize,
                output_elements: q as usize,
                lse_elements: rows as usize,
                combined_elements: combined as usize,
                q_bytes: (4 * q) as u64,
                combined_bytes: (4 * combined) as u64,
            },
        )
    }
}

pub open spec fn word_rule(value: int) -> Result<(), ResidentDecodeError> {
    if value > u32::MAX {
        decode_failure(ResidentDecodeError::IndexSpaceExceeded { elements: value as usize })
    } else {
        Ok(())
    }
}

pub open spec fn binding_rule(tensor: &'static str, bytes: int, maximum: u64) -> Result<
    (),
    ResidentDecodeError,
> {
    if bytes > maximum {
        decode_failure(
            ResidentDecodeError::StorageBindingTooLarge {
                tensor,
                required_bytes: bytes as u64,
                maximum_bytes: maximum,
            },
        )
    } else {
        Ok(())
    }
}

pub open spec fn first_of(
    first: Result<(), ResidentDecodeError>,
    second: Result<(), ResidentDecodeError>,
) -> Result<(), ResidentDecodeError> {
    if first is Err {
        first
    } else {
        second
    }
}

/// Every check of one decode dispatch, in the order the host makes them.
/// `scale_bits` is the resolved softmax scale of the configuration, or why it
/// has none.
pub open spec fn dispatch_rule(
    kv: ResidentKvGeometry,
    q_heads: usize,
    max_head_dim: usize,
    buffers: ResidentDecodeBuffers,
    theta_bits: u32,
    causal: bool,
    q_rope_position: usize,
    q_causal_position: usize,
    scale_bits: Result<u32, FlatAttentionError>,
    limits: DeviceDispatchLimits,
) -> Result<(), ResidentDecodeError> {
    let layout = layout_rule(kv, q_heads, max_head_dim);
    let kv_bytes = 4 * kv_elements_of(kv);
    let rows = kv.batch * q_heads;
    let storage = limits.max_storage_buffer_binding_size;
    if layout is Err {
        Err(layout->Err_0)
    } else if buffers.q_bytes < layout->Ok_0.q_bytes {
        decode_failure(
            ResidentDecodeError::BufferTooSmall {
                tensor: "Q",
                actual_bytes: buffers.q_bytes,
                required_bytes: layout->Ok_0.q_bytes,
            },
        )
    } else if buffers.out_and_lse_bytes < layout->Ok_0.combined_bytes {
        decode_failure(
            ResidentDecodeError::BufferTooSmall {
                tensor: "O|LSE",
                actual_bytes: buffers.out_and_lse_bytes,
                required_bytes: layout->Ok_0.combined_bytes,
            },
        )
    } else if !theta_bits_valid(theta_bits) {
        decode_failure(ResidentDecodeError::InvalidTheta(theta_bits))
    } else if causal && q_causal_position == usize::MAX {
        core_failure(FlatAttentionError::PositionOverflow)
    } else if causal && q_causal_position + 1 < kv.len {
        decode_failure(
            ResidentDecodeError::CausalVisibilityMismatch {
                query_position: q_causal_position,
                kv_len: kv.len,
            },
        )
    } else if scale_bits is Err {
        core_failure(scale_bits->Err_0)
    } else if rows > limits.max_compute_workgroups_per_dimension {
        decode_failure(
            ResidentDecodeError::DispatchLimit {
                actual: rows as usize,
                maximum: limits.max_compute_workgroups_per_dimension,
            },
        )
    } else {
        first_of(
            binding_rule("Q", layout->Ok_0.q_bytes as int, storage),
            first_of(
                binding_rule("K", kv_bytes, storage),
                first_of(
                    binding_rule("V", kv_bytes, storage),
                    first_of(
                        binding_rule("O|LSE", layout->Ok_0.combined_bytes as int, storage),
                        first_of(word_rule(q_rope_position as int), word_rule(rows)),
                    ),
                ),
            ),
        )
    }
}

/// The twelve uniform parameter words of an accepted dispatch.
pub open spec fn decode_params(
    kv: ResidentKvGeometry,
    q_heads: usize,
    scale: u32,
    theta_bits: u32,
    q_rope_position: usize,
) -> Seq<u32> {
    seq![
        kv.len as u32,
        kv.capacity as u32,
        kv.head_dim as u32,
        q_heads as u32,
        kv.kv_heads as u32,
        kv.batch as u32,
        scale,
        theta_bits,
        q_rope_position as u32,
        0u32,
        0u32,
        0u32,
    ]
}

/// A resident cache's own K and V buffers always satisfy the decode's storage
/// checks: once the cache holds a live row and its geometry is supported by
/// the kernel (even head dimension within `max_head_dim`, storage within the
/// `u32` index space), the view of that cache is accepted.
pub proof fn lemma_cache_storage_accepted(
    batch: usize,
    kv_heads: usize,
    capacity: usize,
    head_dim: usize,
    len: usize,
    max_head_dim: usize,
)
    requires
        batch > 0 && kv_heads > 0 && capacity > 0 && head_dim > 0,
        0 < len <= capacity,
        head_dim % 2 == 0,
        head_dim <= max_head_dim,
        batch * capacity <= usize::MAX,
        kv_heads * head_dim <= usize::MAX,
        (batch * capacity) * (kv_heads * head_dim) <= u32::MAX,
        4 * ((batch * capacity) * (kv_heads * head_dim)) <= usize::MAX,
        tensor_bytes_of(batch, capacity, kv_heads, head_dim) <= u64::MAX,
    ensures
        kv_view_rule(
            ResidentKvGeometry {
                batch,
                kv_heads,
                capacity,
                head_dim,
                len,
                k_bytes: tensor_bytes_of(batch, capacity, kv_heads, head_dim) as u64,
                v_bytes: tensor_bytes_of(batch, capacity, kv_heads, head_dim) as u64,
            },
            max_head_dim,
        ) is Ok,
{
    let rows = batch * capacity;
    let width = kv_heads * head_dim;
    assert(rows * (4 * width) == 4 * (rows * width)) by (nonlinear_arith);
}

impl ResidentKvGeometry {
    /// The live storage of a resident cache, whose K and V buffers each hold
    /// exactly the cache's tensor bytes.
    pub fn from_cache(cache: &ResidentKvCacheState) -> (kv: Self)
        ensures
            kv.batch == cache.spec_batch(),
            kv.kv_heads == cache.spec_kv_heads(),
            kv.capacity == cache.spec_capacity(),
            kv.head_dim == cache.spec_head_dim(),
            kv.len == cache.spec_len(),
            kv.k_bytes == tensor_bytes_of(
                cache.spec_batch(),
                cache.spec_capacity(),
                cache.spec_kv_heads(),
                cache.spec_head_dim(),
            ),
            kv.v_bytes == kv.k_bytes,
    {
        let bytes = cache.tensor_bytes();
        ResidentKvGeometry {
            batch: cache.batch(),
            kv_heads: cache.kv_heads(),
            capacity: cache.capacity(),
            head_dim: cache.head_dim(),
            len: cache.len(),
            k_bytes: bytes,
            v_bytes: bytes,
        }
    }
}

/// Bytes of `elements` f32 scalars, computed in `usize`.
fn f32_bytes(elements: usize) -> (r: Result<u64, ResidentDecodeError>)
    ensures
        4 * elements > usize::MAX ==> r == Err::<u64, ResidentDecodeError>(
            ResidentDecodeError::Core(FlatAttentionError::ShapeOverflow),
        ),
        4 * elements <= usize::MAX ==> r == Ok::<u64, ResidentDecodeError>((4 * elements) as u64),
{
    match elements.checked_mul(4) {
        Some(bytes) => Ok(bytes as u64),
        None => Err(ResidentDecodeError::Core(FlatAttentionError::ShapeOverflow)),
    }
}

fn checked_mul(a: usize, b: usize) -> (r: Result<usize, ResidentDecodeError>)
    ensures
        a * b > usize::MAX ==> r == Err::<usize, ResidentDecodeError>(
            ResidentDecodeError::Core(FlatAttentionError::ShapeOverflow),
        ),
        a * b <= usize::MAX ==> r == Ok::<usize, ResidentDecodeError>((a * b) as usize),
{
    match a.checked_mul(b) {
        Some(product) => Ok(product),
        None => Err(ResidentDecodeError::Core(FlatAttentionError::ShapeOverflow)),
    }
}

fn checked_u32(value: usize) -> (r: Result<u32, ResidentDecodeError>)
    ensures
        r == (match word_rule(value as int) {
            Err(e) => Err::<u32, ResidentDecodeError>(e),
            Ok(()) => Ok::<u32, ResidentDecodeError>(value as u32),
        }),
{
    if value > 0xffff_ffffusize {
        Err(ResidentDecodeError::IndexSpaceExceeded { elements: value })
    } else {
        Ok(value as u32)
    }
}

fn storage_binding(tensor: &'static str, bytes: u64, maximum: u64) -> (r: Result<
    (),
    ResidentDecodeError,
>)
    ensures
        r == binding_rule(tensor, bytes as int, maximum),
{
    if bytes > maximum {
        Err(
            ResidentDecodeError::StorageBindingTooLarge {
                tensor,
                required_bytes: bytes,
                maximum_bytes: maximum,
            },
        )
    } else {
        Ok(())
    }
}

/// Validates resident K/V storage and returns the bytes of K (and of V).
fn validate_kv_view(kv: ResidentKvGeometry, max_head_dim: usize) -> (r: Result<
    u64,
    ResidentDecodeError,
>)
    ensures
        kv_view_rule(kv, max_head_dim) is Err ==> r == Err::<u64, ResidentDecodeError>(
            kv_view_rule(kv, max_head_dim)->Err_0,
        ),
        kv_view_rule(kv, max_head_dim) is Ok ==> r == Ok::<u64, ResidentDecodeError>(
            (4 * kv_elements_of(kv)) as u64,
        ),
{
    if kv.batch == 0 || kv.kv_heads == 0 || kv.capacity == 0 || kv.head_dim == 0 {
        return Err(ResidentDecodeError::Core(FlatAttentionError::ZeroDimension));
    }
    if kv.len == 0 {
        return Err(ResidentDecodeError::EmptyCache);
    }
    if kv.len > kv.capacity {
        return Err(ResidentDecodeError::InvalidCacheLength { len: kv.len, capacity: kv.capacity });
    }
    if kv.head_dim % 2 != 0 {
        return Err(
            ResidentDecodeError::Core(
                FlatAttentionError::InvalidRotaryHeadDim { head_dim: kv.head_dim },
            ),
        );
    }
    if kv.head_dim > max_head_dim {
        return Err(
            ResidentDecodeError::UnsupportedHeadDim { actual: kv.head_dim, maximum: max_head_dim },
        );
    }
    let rows = checked_mul(kv.batch, kv.capacity)?;
    let width = checked_mul(kv.kv_heads, kv.head_dim)?;
    let elements = checked_mul(rows, width)?;
    if elements > 0xffff_ffffusize {
        return Err(ResidentDecodeError::IndexSpaceExceeded { elements });
    }
    let required = f32_bytes(elements)?;
    if kv.k_bytes < required {
        return Err(
            ResidentDecodeError::BufferTooSmall {
                tensor: "K",
                actual_bytes: kv.k_bytes,
                required_bytes: required,
            },
        );
    }
    if kv.v_bytes < required {
        return Err(
            ResidentDecodeError::BufferTooSmall {
                tensor: "V",
                actual_bytes: kv.v_bytes,
                required_bytes: required,
            },
        );
    }
    Ok(required)
}

/// Output geometry of one decode dispatch of `q_heads` query heads over `kv`;
/// `max_head_dim` is the largest head dimension the kernel supports.
pub fn resident_decode_layout(kv: ResidentKvGeometry, q_heads: usize, max_head_dim: usize) -> (r:
    Result<ResidentDecodeLayout, ResidentDecodeError>)
    ensures
        r == layout_rule(kv, q_heads, max_head_dim),
{
    validate_kv_view(kv, max_head_dim)?;
    if q_heads == 0 || q_heads % kv.kv_heads != 0 {
        return Err(
            ResidentDecodeError::Core(
                FlatAttentionError::InvalidHeadGrouping { q_heads, kv_heads: kv.kv_heads },
            ),
        );
    }
    let rows = checked_mul(kv.batch, q_heads)?;
    let q_elements = checked_mul(rows, kv.head_dim)?;
    let combined_elements = match q_elements.checked_add(rows) {
        Some(total) => total,
        None => return Err(ResidentDecodeError::Core(FlatAttentionError::ShapeOverflow)),
    };
    let q_bytes = f32_bytes(q_elements)?;
    let combined_bytes = f32_bytes(combined_elements)?;
    Ok(
        ResidentDecodeLayout {
            q_elements,
            output_elements: q_elements,
            lse_elements: rows,
            combined_elements,
            q_bytes,
            combined_bytes,
        },
    )
}

/// Plans one `q_len = 1` decode dispatch: checks every buffer, limit and the
/// causal visibility of the live prefix, and returns the geometry, the bytes
/// bound for K and V, the uniform parameter words and the workgroup count
/// (one workgroup per batch and query head).
pub fn plan_resident_decode(
    kv: ResidentKvGeometry,
    q_heads: usize,
    max_head_dim: usize,
    buffers: ResidentDecodeBuffers,
    theta_bits: u32,
    causal: bool,
    q_rope_position: usize,
    q_causal_position: usize,
    scale_bits: Result<u32, FlatAttentionError>,
    limits: DeviceDispatchLimits,
) -> (r: Result<ResidentDecodeDispatch, ResidentDecodeError>)
    ensures
        ({
            let rule = dispatch_rule(
                kv,
                q_heads,
                max_head_dim,
                buffers,
                theta_bits,
                causal,
                q_rope_position,
                q_causal_position,
                scale_bits,
                limits,
            );
            &&& rule is Err ==> r == Err::<ResidentDecodeDispatch, ResidentDecodeError>(rule->Err_0)
            &&& rule is Ok ==> (r matches Ok(dispatch) && {
                &&& dispatch.layout == layout_rule(kv, q_heads, max_head_dim)->Ok_0
                &&& dispatch.kv_bytes == 4 * kv_elements_of(kv)
                &&& dispatch.params@ == decode_params(
                    kv,
                    q_heads,
                    scale_bits->Ok_0,
                    theta_bits,
                    q_rope_position,
                )
                &&& dispatch.workgroups == kv.batch * q_heads
            })
        }),
{
    let layout = resident_decode_layout(kv, q_heads, max_head_dim)?;
    let kv_bytes = validate_kv_view(kv, max_head_dim)?;
    if buffers.q_bytes < layout.q_bytes {
        return Err(
            ResidentDecodeError::BufferTooSmall {
                tensor: "Q",
                actual_bytes: buffers.q_bytes,
                required_bytes: layout.q_bytes,
            },
        );
    }
    if buffers.out_and_lse_bytes < layout.combined_bytes {
        return Err(
            ResidentDecodeError::BufferTooSmall {
                tensor: "O|LSE",
                actual_bytes: buffers.out_and_lse_bytes,
                required_bytes: layout.combined_bytes,
            },
        );
    }
    if !(0 < theta_bits && theta_bits < 0x7f80_0000) {
        return Err(ResidentDecodeError::InvalidTheta(theta_bits));
    }
    if causal {
        let visible = match q_causal_position.checked_add(1) {
            Some(visible) => visible,
            None => return Err(ResidentDecodeError::Core(FlatAttentionError::PositionOverflow)),
        };
        if visible < kv.len {
            return Err(
                ResidentDecodeError::CausalVisibilityMismatch {
                    query_position: q_causal_position,
                    kv_len: kv.len,
                },
            );
        }
    }
    let scale = match scale_bits {
        Ok(bits) => bits,
        Err(error) => return Err(ResidentDecodeError::Core(error)),
    };
    let rows = layout.lse_elements;
    let maximum = limits.max_compute_workgroups_per_dimension;
    if rows > maximum as usize {
        return Err(ResidentDecodeError::DispatchLimit { actual: rows, maximum });
    }
    let storage = limits.max_storage_buffer_binding_size;
    storage_binding("Q", layout.q_bytes, storage)?;
    storage_binding("K", kv_bytes, storage)?;
    storage_binding("V", kv_bytes, storage)?;
    storage_binding("O|LSE", layout.combined_bytes, storage)?;
    let rope_word = checked_u32(q_rope_position)?;
    let workgroups = checked_u32(rows)?;
    let mut params: Vec<u32> = Vec::new();
    params.push(kv.len as u32);
    params.push(kv.capacity as u32);
    params.push(kv.head_dim as u32);
    params.push(q_heads as u32);
    params.push(kv.kv_heads as u32);
    params.push(kv.batch as u32);
    params.push(scale);
    params.push(theta_bits);
    params.push(rope_word);
    params.push(0);
    params.push(0);
    params.push(0);
    proof {
        assert(params@ =~= decode_params(kv, q_heads, scale, theta_bits, q_rope_position));
    }
    Ok(ResidentDecodeDispatch { layout, kv_bytes, params, workgroups })
}

/// The external decode contract: exactly one query row, and under a causal
/// configuration a query position that sees every live key.
pub open spec fn external_semantics_rule(shape: AsymmetricGroupedAttentionShape, causal: bool) -> Result<
    (),
    ResidentDecodeError,
> {
    if shape.query_len != 1 {
        decode_failure(ResidentDecodeError::InvalidQueryLen { actual: shape.query_len })
    } else if causal && (if shape.query_position_offset == usize::MAX {
        usize::MAX as int
    } else {
        shape.query_position_offset + 1
    }) < shape.kv_len {
        decode_failure(
            ResidentDecodeError::CausalVisibilityMismatch {
                query_position: shape.query_position_offset,
                kv_len: shape.kv_len,
            },
        )
    } else {
        Ok(())
    }
}

/// Checks the single-row, causal-visibility contract of a decode over
/// framework-owned K/V.
pub fn validate_external_decode_semantics(shape: AsymmetricGroupedAttentionShape, causal: bool) -> (r:
    Result<(), ResidentDecodeError>)
    ensures
        r == external_semantics_rule(shape, causal),
{
    if shape.query_len != 1 {
        return Err(ResidentDecodeError::InvalidQueryLen { actual: shape.query_len });
    }
    if causal && shape.query_position_offset.saturating_add(1) < shape.kv_len {
        return Err(
            ResidentDecodeError::CausalVisibilityMismatch {
                query_position: shape.query_position_offset,
                kv_len: shape.kv_len,
            },
        );
    }
    Ok(())
}

/// Plans the decode kernel directly over framework-owned K/V buffers of
/// physical capacity `kv_capacity`, whose K is already RoPE-rotated. The
/// live length is `shape.kv_len`; the causal position is the shape's query
/// offset and the RoPE position is `q_rope_position`.
pub fn plan_external_pre_rotated_decode(
    shape: AsymmetricGroupedAttentionShape,
    kv_capacity: usize,
    k_bytes: u64,
    v_bytes: u64,
    max_head_dim: usize,
    buffers: ResidentDecodeBuffers,
    theta_bits: u32,
    causal: bool,
    q_rope_position: usize,
    scale_bits: Result<u32, FlatAttentionError>,
    limits: DeviceDispatchLimits,
) -> (r: Result<ResidentDecodeDispatch, ResidentDecodeError>)
    ensures
        ({
            let kv = ResidentKvGeometry {
                batch: shape.batch,
                kv_heads: shape.kv_heads,
                capacity: kv_capacity,
                head_dim: shape.head_dim,
                len: shape.kv_len,
                k_bytes,
                v_bytes,
            };
            let rule = first_of(
                external_semantics_rule(shape, causal),
                dispatch_rule(
                    kv,
                    shape.q_heads,
                    max_head_dim,
                    buffers,
                    theta_bits,
                    causal,
                    q_rope_position,
                    shape.query_position_offset,
                    scale_bits,
                    limits,
                ),
            );
            &&& rule is Err ==> r == Err::<ResidentDecodeDispatch, ResidentDecodeError>(rule->Err_0)
            &&& rule is Ok ==> (r matches Ok(dispatch) && {
                &&& dispatch.layout == layout_rule(kv, shape.q_heads, max_head_dim)->Ok_0
                &&& dispatch.kv_bytes == 4 * kv_elements_of(kv)
                &&& dispatch.params@ == decode_params(
                    kv,
                    shape.q_heads,
                    scale_bits->Ok_0,
                    theta_bits,
                    q_rope_position,
                )
                &&& dispatch.workgroups == kv.batch * shape.q_heads
            })
        }),
{
    validate_external_decode_semantics(shape, causal)?;
    let kv = ResidentKvGeometry {
        batch: shape.batch,
        kv_heads: shape.kv_heads,
        capacity: kv_capacity,
        head_dim: shape.head_dim,
        len: shape.kv_len,
        k_bytes,
        v_bytes,
    };
    plan_resident_decode(
        kv,
        shape.q_heads,
        max_head_dim,
        buffers,
        theta_bits,
        causal,
        q_rope_position,
        shape.query_position_offset,
        scale_bits,
        limits,
    )
}

} // verus!
