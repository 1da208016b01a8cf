//! Host-side checks of the caller-owned fused projection + RoPE + GQA pass.
//!
//! The framework owns the device, every buffer, the encoder and submission;
//! this module decides what one dispatch needs: the exact buffer geometry,
//! the device and index-space limits, and the uniform parameter words. Q/K/V
//! use the sequence-major projection layout; the output buffer holds O first
//! and the LSE rows in its tail.
use crate::attention_shape::{FlatAttentionError, GroupedAttentionShape};
use crate::research_structural_wgpu::DeviceDispatchLimits;
use crate::rotary_grouped::RotaryEmbeddingConfig;
use vstd::prelude::*;

verus! {

/// Byte/element geometry of one caller-owned projection-layout dispatch.
/// The output buffer stores O first and LSE in its tail.
#[derive(Debug, Clone, Copy, PartialEq, Eq, Structural)]
pub struct ExternalProjectionLayout {
    pub q_elements: usize,
    pub kv_elements: usize,
    pub output_elements: usize,
    pub lse_elements: usize,
    pub combined_elements: usize,
    pub q_bytes: u64,
    pub kv_bytes: u64,
    pub combined_bytes: u64,
}

/// Errors specific to caller-owned WGPU encoding.
#[derive(Debug, Clone, PartialEq, Eq)]
#[non_exhaustive]
pub enum ExternalWgpuError {
    Core(FlatAttentionError),
    UnsupportedHeadDim { actual: usize, maximum: usize },
    IndexSpaceExceeded { elements: usize },
    DispatchLimit { axis: &'static str, actual: usize, maximum: u32 },
    BufferTooSmall { tensor: &'static str, actual_bytes: u64, required_bytes: u64 },
    DeviceBufferLimit { required_bytes: u64, maximum_bytes: u64 },
    CandidateNotEnabled { candidate: &'static str },
    UnsupportedCandidateShape { candidate: &'static str, reason: &'static str },
    PipelineValidation(String),
}

/// Sizes of the four caller-owned buffers of one pass.
#[derive(Debug, Clone, Copy, PartialEq, Eq, Structural)]
pub struct ExternalProjectionBuffers {
    pub q_bytes: u64,
    pub k_bytes: u64,
    pub v_bytes: u64,
    pub out_and_lse_bytes: u64,
}

/// Everything the host encodes for one pass: the geometry, the uniform
/// parameter words and the workgroup grid `(query_workgroups, q_batch_heads)`.
#[derive(Debug, Clone, PartialEq, Eq)]
pub struct ExternalProjectionDispatch {
    pub layout: ExternalProjectionLayout,
    pub params: Vec<u32>,
    pub query_workgroups: u32,
    pub q_batch_heads: u32,
}

pub open spec fn external_failure(e: ExternalWgpuError) -> Result<(), ExternalWgpuError> {
    Err(e)
}

/// Bytes of `len` f32 scalars, computed in `usize`.
pub(crate) fn bytes_for_f32_len(len: usize) -> (r: Result<u64, ExternalWgpuError>)
    ensures
        r == (if 4 * len > usize::MAX {
            Err(ExternalWgpuError::Core(FlatAttentionError::ShapeOverflow))
        } else {
            Ok::<u64, ExternalWgpuError>((4 * len) as u64)
        }),
{
    match len.checked_mul(4) {
        Some(bytes) => Ok(bytes as u64),
        None => Err(ExternalWgpuError::Core(FlatAttentionError::ShapeOverflow)),
    }
}

/// Why a grouped shape is rejected, first failure first.
pub open spec fn grouped_shape_rule(shape: GroupedAttentionShape) -> Result<(), FlatAttentionError> {
    if shape.batch == 0 || shape.q_heads == 0 || shape.kv_heads == 0 || shape.seq_len == 0
        || shape.head_dim == 0 {
        Err(FlatAttentionError::ZeroDimension)
    } else if shape.q_heads % shape.kv_heads != 0 {
        Err(FlatAttentionError::InvalidHeadGrouping { q_heads: shape.q_heads, kv_heads: shape.kv_heads })
    } else if !shape.valid() {
        Err(FlatAttentionError::ShapeOverflow)
    } else {
        Ok(())
    }
}

/// Exact buffer geometry of a grouped projection-layout pass.
pub open spec fn external_layout_rule(shape: GroupedAttentionShape) -> Result<
    ExternalProjectionLayout,
    ExternalWgpuError,
> {
    let q = shape.batch * shape.q_heads * shape.seq_len * shape.head_dim;
    let kv = shape.batch * shape.kv_heads * shape.seq_len * shape.head_dim;
    let rows = shape.batch * shape.q_heads * shape.seq_len;
    let combined = q + rows;
    if grouped_shape_rule(shape) is Err {
        Err(ExternalWgpuError::Core(grouped_shape_rule(shape)->Err_0))
    } else if combined > usize::MAX || 4 * q > usize::MAX || 4 * kv > usize::MAX || 4 * combined
        > usize::MAX {
        Err(ExternalWgpuError::Core(FlatAttentionError::ShapeOverflow))
    } else {
        Ok(
            ExternalProjectionLayout {
                q_elements: q as usize,
                kv_elements: kv as usize,
                output_elements: q as usize,
                lse_elements: rows as usize,
                combined_elements: combined as usize,
                q_bytes: (4 * q) as u64,
                kv_bytes: (4 * kv) as u64,
                combined_bytes: (4 * combined) as u64,
            },
        )
    }
}

/// Exact logical and byte requirements of one pass, without allocating.
pub fn external_projection_layout(shape: GroupedAttentionShape) -> (r: Result<
    ExternalProjectionLayout,
    ExternalWgpuError,
>)
    ensures
        r == external_layout_rule(shape),
{
    match shape.validate() {
        Ok(()) => {},
        Err(e) => return Err(ExternalWgpuError::Core(e)),
    }
    let q_elements = match shape.q_tensor_len() {
        Ok(v) => v,
        Err(e) => return Err(ExternalWgpuError::Core(e)),
    };
    let kv_elements = match shape.kv_tensor_len() {
        Ok(v) => v,
        Err(e) => return Err(ExternalWgpuError::Core(e)),
    };
    let lse_elements = match shape.lse_len() {
        Ok(v) => v,
        Err(e) => return Err(ExternalWgpuError::Core(e)),
    };
    let combined_elements = match q_elements.checked_add(lse_elements) {
        Some(v) => v,
        None => return Err(ExternalWgpuError::Core(FlatAttentionError::ShapeOverflow)),
    };
    let q_bytes = bytes_for_f32_len(q_elements)?;
    let kv_bytes = bytes_for_f32_len(kv_elements)?;
    let combined_bytes = bytes_for_f32_len(combined_elements)?;
    Ok(
        ExternalProjectionLayout {
            q_elements,
            kv_elements,
            output_elements: q_elements,
            lse_elements,
            combined_elements,
            q_bytes,
            kv_bytes,
            combined_bytes,
        },
    )
}

/// Bytes of the combined `[O | LSE]` buffer of a pass, which must fit one
/// storage binding of at most `max_storage_bytes`.
pub fn external_output_buffer_bytes(shape: GroupedAttentionShape, max_storage_bytes: u64) -> (r:
    Result<u64, ExternalWgpuError>)
    ensures
        external_layout_rule(shape) is Err ==> r == Err::<u64, ExternalWgpuError>(
            external_layout_rule(shape)->Err_0,
        ),
        external_layout_rule(shape) is Ok ==> r == (if external_layout_rule(shape)->Ok_0.combined_bytes
            > max_storage_bytes {
            Err::<u64, ExternalWgpuError>(
                ExternalWgpuError::DeviceBufferLimit {
                    required_bytes: external_layout_rule(shape)->Ok_0.combined_bytes,
                    maximum_bytes: max_storage_bytes,
                },
            )
        } else {
            Ok::<u64, ExternalWgpuError>(external_layout_rule(shape)->Ok_0.combined_bytes)
        }),
{
    let layout = external_projection_layout(shape)?;
    if layout.combined_bytes > max_storage_bytes {
        return Err(
            ExternalWgpuError::DeviceBufferLimit {
                required_bytes: layout.combined_bytes,
                maximum_bytes: max_storage_bytes,
            },
        );
    }
    Ok(layout.combined_bytes)
}

/// Workgroups of `query_rows` query rows covering `seq_len` rows.
pub open spec fn query_tiles(seq_len: usize, query_rows: usize) -> int {
    (seq_len + query_rows - 1) / (query_rows as int)
}

pub open spec fn word_rule(value: int) -> Result<(), ExternalWgpuError> {
    if value > u32::MAX {
        external_failure(ExternalWgpuError::IndexSpaceExceeded { elements: value as usize })
    } else {
        Ok(())
    }
}

pub open spec fn buffer_rule(tensor: &'static str, actual: u64, required: u64) -> Result<
    (),
    ExternalWgpuError,
> {
    if actual < required {
        external_failure(
            ExternalWgpuError::BufferTooSmall { tensor, actual_bytes: actual, required_bytes: required },
        )
    } else {
        Ok(())
    }
}

pub open spec fn first_of(
    first: Result<(), ExternalWgpuError>,
    second: Result<(), ExternalWgpuError>,
) -> Result<(), ExternalWgpuError> {
    if first is Err {
        first
    } else {
        second
    }
}

/// Every check of one pass, in the order the host makes them. `scale_bits`
/// is the resolved softmax scale of the configuration, or why it has none;
/// `query_rows` is the number of query rows one workgroup covers.
pub open spec fn projection_dispatch_rule(
    shape: GroupedAttentionShape,
    rotary: RotaryEmbeddingConfig,
    buffers: ExternalProjectionBuffers,
    scale_bits: Result<u32, FlatAttentionError>,
    limits: DeviceDispatchLimits,
    max_head_dim: usize,
    query_rows: usize,
) -> Result<(), ExternalWgpuError> {
    let layout = external_layout_rule(shape)->Ok_0;
    let q_batch_heads = shape.batch * shape.q_heads;
    let tiles = query_tiles(shape.seq_len, query_rows);
    let maximum = limits.max_compute_workgroups_per_dimension;
    if grouped_shape_rule(shape) is Err {
        external_failure(ExternalWgpuError::Core(grouped_shape_rule(shape)->Err_0))
    } else if rotary.rotary_rule(shape.head_dim, shape.seq_len) is Err {
        external_failure(
            ExternalWgpuError::Core(rotary.rotary_rule(shape.head_dim, shape.seq_len)->Err_0),
        )
    } else if shape.head_dim > max_head_dim {
        external_failure(
            ExternalWgpuError::UnsupportedHeadDim { actual: shape.head_dim, maximum: max_head_dim },
        )
    } else if rotary.position_offset + shape.seq_len - 1 > u32::MAX {
        external_failure(ExternalWgpuError::Core(FlatAttentionError::PositionOverflow))
    } else if external_layout_rule(shape) is Err {
        external_failure(external_layout_rule(shape)->Err_0)
    } else if layout.combined_elements > u32::MAX || layout.kv_elements > u32::MAX {
        external_failure(
            ExternalWgpuError::IndexSpaceExceeded {
                elements: if layout.combined_elements >= layout.kv_elements {
                    layout.combined_elements
                } else {
                    layout.kv_elements
                },
            },
        )
    } else if tiles > maximum {
        external_failure(
            ExternalWgpuError::DispatchLimit {
                axis: "x/query_tiles",
                actual: tiles as usize,
                maximum,
            },
        )
    } else if q_batch_heads > maximum {
        external_failure(
            ExternalWgpuError::DispatchLimit {
                axis: "y/batch_q_heads",
                actual: q_batch_heads as usize,
                maximum,
            },
        )
    } else {
        first_of(
            buffer_rule("Q", buffers.q_bytes, layout.q_bytes),
            first_of(
                buffer_rule("K", buffers.k_bytes, layout.kv_bytes),
                first_of(
                    buffer_rule("V", buffers.v_bytes, layout.kv_bytes),
                    first_of(
                        buffer_rule("O|LSE", buffers.out_and_lse_bytes, layout.combined_bytes),
                        if scale_bits is Err {
                            external_failure(ExternalWgpuError::Core(scale_bits->Err_0))
                        } else {
                            Ok(())
                        },
                    ),
                ),
            ),
        )
    }
}

/// The twelve uniform parameter words of an accepted pass.
pub open spec fn projection_params(
    shape: GroupedAttentionShape,
    rotary: RotaryEmbeddingConfig,
    causal: bool,
    scale: u32,
) -> Seq<u32> {
    seq![
        shape.seq_len as u32,
        shape.head_dim as u32,
        shape.q_heads as u32,
        shape.kv_heads as u32,
        shape.batch as u32,
        if causal {
            1u32
        } else {
            0u32
        },
        scale,
        rotary.theta_bits,
        rotary.position_offset as u32,
        0u32,
        0u32,
        0u32,
    ]
}

pub(crate) fn check_buffer(tensor: &'static str, actual: u64, required: u64) -> (r: Result<
    (),
    ExternalWgpuError,
>)
    ensures
        r == buffer_rule(tensor, actual, required),
{
    if actual < required {
        Err(ExternalWgpuError::BufferTooSmall { tensor, actual_bytes: actual, required_bytes: required })
    } else {
        Ok(())
    }
}

/// `whole + [remainder != 0]` is the ceiling of `s / q`.
pub(crate) proof fn lemma_ceil_div(s: int, q: int, whole: int, result: int)
    requires
        q > 0,
        s >= 0,
        whole == s / q,
        result == whole + if s % q != 0 {
            1int
        } else {
            0int
        },
    ensures
        result == (s + q - 1) / q,
{
    vstd::arithmetic::div_mod::lemma_fundamental_div_mod(s, q);
    vstd::arithmetic::mul::lemma_mul_is_commutative(q, whole);
    if s % q == 0 {
        vstd::arithmetic::div_mod::lemma_fundamental_div_mod_converse_div(s + q - 1, q, whole, q - 1);
    } else {
        vstd::arithmetic::mul::lemma_mul_is_distributive_add_other_way(q, whole, 1);
        vstd::arithmetic::div_mod::lemma_fundamental_div_mod_converse_div(
            s + q - 1,
            q,
            whole + 1,
            s % q - 1,
        );
    }
}

pub(crate) proof fn lemma_grid_words(shape: GroupedAttentionShape, query_rows: usize, combined: int)
    requires
        shape.valid(),
        query_rows > 0,
        combined == shape.batch * shape.q_heads * shape.seq_len * shape.head_dim + shape.batch
            * shape.q_heads * shape.seq_len,
        combined <= u32::MAX,
    ensures
        shape.seq_len <= u32::MAX,
        shape.head_dim <= u32::MAX,
        shape.q_heads <= u32::MAX,
        shape.batch <= u32::MAX,
        shape.kv_heads <= u32::MAX,
        query_tiles(shape.seq_len, query_rows) <= shape.seq_len,
{
    let b = shape.batch as int;
    let h = shape.q_heads as int;
    let s = shape.seq_len as int;
    let d = shape.head_dim as int;
    assert(b * h * s >= 1) by (nonlinear_arith)
        requires
            b >= 1,
            h >= 1,
            s >= 1,
    ;
    assert(b * h * s * d >= 1) by (nonlinear_arith)
        requires
            b * h * s >= 1,
            d >= 1,
    ;
    assert(b <= b * h * s && h <= b * h * s && s <= b * h * s) by (nonlinear_arith)
        requires
            b >= 1,
            h >= 1,
            s >= 1,
    ;
    assert(d <= b * h * s * d) by (nonlinear_arith)
        requires
            b * h * s >= 1,
            d >= 1,
    ;
    assert(shape.kv_heads <= shape.q_heads) by (nonlinear_arith)
        requires
            shape.q_heads % shape.kv_heads == 0,
            shape.q_heads >= 1,
            shape.kv_heads >= 1,
    {
        vstd::arithmetic::div_mod::lemma_fundamental_div_mod(shape.q_heads as int, shape.kv_heads as int);
    }
    assert((s + query_rows - 1) / (query_rows as int) <= s) by (nonlinear_arith)
        requires
            s >= 1,
            query_rows >= 1,
    {
        vstd::arithmetic::div_mod::lemma_div_is_ordered(
            s + query_rows - 1,
            s * query_rows,
            query_rows as int,
        );
        vstd::arithmetic::div_mod::lemma_div_multiples_vanish(s, query_rows as int);
    }
}

/// Plans one fused projection + RoPE + GQA pass over caller-owned buffers
/// and returns its geometry, uniform words and workgroup grid.
pub fn plan_external_projection(
    shape: GroupedAttentionShape,
    rotary: RotaryEmbeddingConfig,
    buffers: ExternalProjectionBuffers,
    causal: bool,
    scale_bits: Result<u32, FlatAttentionError>,
    limits: DeviceDispatchLimits,
    max_head_dim: usize,
    query_rows: usize,
) -> (r: Result<ExternalProjectionDispatch, ExternalWgpuError>)
    requires
        query_rows > 0,
    ensures
        ({
            let rule = projection_dispatch_rule(
                shape,
                rotary,
                buffers,
                scale_bits,
                limits,
                max_head_dim,
                query_rows,
            );
            &&& rule is Err ==> r == Err::<ExternalProjectionDispatch, ExternalWgpuError>(rule->Err_0)
            &&& rule is Ok ==> (r matches Ok(dispatch) && {
                &&& dispatch.layout == external_layout_rule(shape)->Ok_0
                &&& dispatch.params@ == projection_params(shape, rotary, causal, scale_bits->Ok_0)
                &&& dispatch.query_workgroups == query_tiles(shape.seq_len, query_rows)
                &&& dispatch.q_batch_heads == shape.batch * shape.q_heads
            })
        }),
{
    match shape.validate() {
        Ok(()) => {},
        Err(e) => return Err(ExternalWgpuError::Core(e)),
    }
    match rotary.validate(shape.head_dim, shape.seq_len) {
        Ok(()) => {},
        Err(e) => return Err(ExternalWgpuError::Core(e)),
    }
    if shape.head_dim > max_head_dim {
        return Err(ExternalWgpuError::UnsupportedHeadDim { actual: shape.head_dim, maximum: max_head_dim });
    }
    let final_position = rotary.position_offset + (shape.seq_len - 1);
    if final_position > 0xffff_ffffusize {
        return Err(ExternalWgpuError::Core(FlatAttentionError::PositionOverflow));
    }
    let layout = external_projection_layout(shape)?;
    if layout.combined_elements > 0xffff_ffffusize || layout.kv_elements > 0xffff_ffffusize {
        let elements = if layout.combined_elements >= layout.kv_elements {
            layout.combined_elements
        } else {
            layout.kv_elements
        };
        return Err(ExternalWgpuError::IndexSpaceExceeded { elements });
    }
    proof {
        lemma_grid_words(shape, query_rows, layout.combined_elements as int);
    }
    let q_batch_heads = shape.batch * shape.q_heads;
    let whole_tiles = shape.seq_len / query_rows;
    proof {
        assert(whole_tiles <= shape.seq_len) by (nonlinear_arith)
            requires
                whole_tiles == shape.seq_len / query_rows,
                query_rows > 0,
        ;
        if shape.seq_len % query_rows != 0 {
            assert(query_rows >= 2);
            assert(whole_tiles * 2 <= shape.seq_len) by (nonlinear_arith)
                requires
                    whole_tiles == shape.seq_len / query_rows,
                    query_rows >= 2,
            {
                vstd::arithmetic::div_mod::lemma_fundamental_div_mod(
                    shape.seq_len as int,
                    query_rows as int,
                );
            }
        }
    }
    let query_workgroups = if shape.seq_len % query_rows != 0 {
        whole_tiles + 1
    } else {
        whole_tiles
    };
    proof {
        lemma_ceil_div(
            shape.seq_len as int,
            query_rows as int,
            whole_tiles as int,
            query_workgroups as int,
        );
    }
    let maximum = limits.max_compute_workgroups_per_dimension;
    if query_workgroups > maximum as usize {
        return Err(
            ExternalWgpuError::DispatchLimit {
                axis: "x/query_tiles",
                actual: query_workgroups,
                maximum,
            },
        );
    }
    if q_batch_heads > maximum as usize {
        return Err(
            ExternalWgpuError::DispatchLimit {
                axis: "y/batch_q_heads",
                actual: q_batch_heads,
                maximum,
            },
        );
    }
    check_buffer("Q", buffers.q_bytes, layout.q_bytes)?;
    check_buffer("K", buffers.k_bytes, layout.kv_bytes)?;
    check_buffer("V", buffers.v_bytes, layout.kv_bytes)?;
    check_buffer("O|LSE", buffers.out_and_lse_bytes, layout.combined_bytes)?;
    let scale = match scale_bits {
        Ok(bits) => bits,
        Err(e) => return Err(ExternalWgpuError::Core(e)),
    };
    let mut params: Vec<u32> = Vec::new();
    params.push(shape.seq_len as u32);
    params.push(shape.head_dim as u32);
    params.push(shape.q_heads as u32);
    params.push(shape.kv_heads as u32);
    params.push(shape.batch as u32);
    params.push(if causal { 1u32 } else { 0u32 });
    params.push(scale);
    params.push(rotary.theta_bits);
    params.push(rotary.position_offset as u32);
    params.push(0);
    params.push(0);
    params.push(0);
    proof {
        assert(params@ =~= projection_params(shape, rotary, causal, scale));
    }
    Ok(
        ExternalProjectionDispatch {
            layout,
            params,
            query_workgroups: query_workgroups as u32,
            q_batch_heads: q_batch_heads as u32,
        },
    )
}

} // verus!
