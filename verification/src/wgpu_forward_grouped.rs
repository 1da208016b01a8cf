//! Host-side geometry of the grouped forward kernel's resident buffers.
//!
//! The combined output buffer stores `[O | LSE]`.
use crate::attention_shape::{FlatAttentionError, GroupedAttentionShape};
use crate::wgpu_backward_grouped::lemma_lse_fits;
use crate::wgpu_external::{lemma_ceil_div, lemma_grid_words, query_tiles};
use vstd::prelude::*;

verus! {

#[derive(Debug, Clone, Copy, PartialEq, Eq)]
pub struct GroupedForwardLayout {
    pub q_elements: usize,
    pub kv_elements: usize,
    pub lse_elements: usize,
    pub output_elements: usize,
    pub q_bytes: u64,
    pub kv_bytes: u64,
    pub output_bytes: u64,
}

impl GroupedForwardLayout {
    pub fn output_offset(self) -> (r: usize)
        ensures
            r == 0,
    {
        0
    }

    pub fn lse_offset(self) -> (r: usize)
        ensures
            r == self.q_elements,
    {
        self.q_elements
    }
}

/// Concrete kernel selected for one prepared grouped-forward request.
#[derive(Debug, Clone, Copy, PartialEq, Eq)]
pub enum GroupedForwardKernelVariant {
    /// Portable native MHA/GQA/MQA grouped kernel.
    Q4PortableGrouped,
    /// vec4 kernel reused for MHA with D=64/128.
    Q4Vec4Mha,
}

#[derive(Debug, Clone, PartialEq, Eq)]
pub enum GroupedForwardError {
    Core(FlatAttentionError),
    UnsupportedHeadDim { actual: usize, maximum: usize },
    IndexSpaceExceeded { elements: usize },
    DispatchLimit { axis: &'static str, actual: usize, maximum: u32 },
    BufferTooSmall { tensor: &'static str, actual_bytes: u64, required_bytes: u64 },
    PipelineValidation(String),
}

/// The kernel chosen for a shape, given whether the vec4 pipeline was compiled.
pub open spec fn kernel_variant_rule(vectorization_enabled: bool, shape: GroupedAttentionShape) -> GroupedForwardKernelVariant {
    if vectorization_enabled && shape.q_heads == shape.kv_heads && (shape.head_dim == 64
        || shape.head_dim == 128) {
        GroupedForwardKernelVariant::Q4Vec4Mha
    } else {
        GroupedForwardKernelVariant::Q4PortableGrouped
    }
}

/// Select the vec4 kernel only for MHA with D=64/128 when it is available;
/// grouped heads are never expanded.
pub fn kernel_variant_for_shape(vectorization_enabled: bool, shape: GroupedAttentionShape) -> (r:
    GroupedForwardKernelVariant)
    ensures
        r == kernel_variant_rule(vectorization_enabled, shape),
{
    if vectorization_enabled && shape.q_heads == shape.kv_heads && (shape.head_dim == 64
        || shape.head_dim == 128) {
        GroupedForwardKernelVariant::Q4Vec4Mha
    } else {
        GroupedForwardKernelVariant::Q4PortableGrouped
    }
}

/// Exact forward layout for a shape under a kernel head-dimension limit, or the first failure.
pub open spec fn grouped_forward_layout_rule(shape: GroupedAttentionShape, max_head_dim: usize) -> Result<
    GroupedForwardLayout,
    GroupedForwardError,
> {
    let q = shape.batch * shape.q_heads * shape.seq_len * shape.head_dim;
    let kv = shape.batch * shape.kv_heads * shape.seq_len * shape.head_dim;
    let l = shape.batch * shape.q_heads * shape.seq_len;
    let output = q + l;
    if shape.batch == 0 || shape.q_heads == 0 || shape.kv_heads == 0 || shape.seq_len == 0
        || shape.head_dim == 0 {
        Err(GroupedForwardError::Core(FlatAttentionError::ZeroDimension))
    } else if shape.q_heads % shape.kv_heads != 0 {
        Err(
            GroupedForwardError::Core(
                FlatAttentionError::InvalidHeadGrouping {
                    q_heads: shape.q_heads,
                    kv_heads: shape.kv_heads,
                },
            ),
        )
    } else if !shape.valid() {
        Err(GroupedForwardError::Core(FlatAttentionError::ShapeOverflow))
    } else if shape.head_dim > max_head_dim {
        Err(GroupedForwardError::UnsupportedHeadDim { actual: shape.head_dim, maximum: max_head_dim })
    } else if output > usize::MAX {
        Err(GroupedForwardError::Core(FlatAttentionError::ShapeOverflow))
    } else if q > u32::MAX {
        Err(GroupedForwardError::IndexSpaceExceeded { elements: q as usize })
    } else if kv > u32::MAX {
        Err(GroupedForwardError::IndexSpaceExceeded { elements: kv as usize })
    } else if output > u32::MAX {
        Err(GroupedForwardError::IndexSpaceExceeded { elements: output as usize })
    } else if 4 * q > usize::MAX || 4 * kv > usize::MAX || 4 * output > usize::MAX {
        Err(GroupedForwardError::Core(FlatAttentionError::ShapeOverflow))
    } else {
        Ok(
            GroupedForwardLayout {
                q_elements: q as usize,
                kv_elements: kv as usize,
                lse_elements: l as usize,
                output_elements: output as usize,
                q_bytes: (4 * q) as u64,
                kv_bytes: (4 * kv) as u64,
                output_bytes: (4 * output) as u64,
            },
        )
    }
}

/// Validate a grouped forward geometry against the portable kernel's
/// `max_head_dim` and size its resident buffers.
pub fn grouped_forward_layout(shape: GroupedAttentionShape, max_head_dim: usize) -> (r: Result<
    GroupedForwardLayout,
    GroupedForwardError,
>)
    ensures
        r == grouped_forward_layout_rule(shape, max_head_dim),
{
    match shape.validate() {
        Ok(()) => {},
        Err(e) => return Err(GroupedForwardError::Core(e)),
    }
    if shape.head_dim > max_head_dim {
        return Err(
            GroupedForwardError::UnsupportedHeadDim { actual: shape.head_dim, maximum: max_head_dim },
        );
    }
    let q_elements = match shape.q_tensor_len() {
        Ok(v) => v,
        Err(e) => return Err(GroupedForwardError::Core(e)),
    };
    let kv_elements = match shape.kv_tensor_len() {
        Ok(v) => v,
        Err(e) => return Err(GroupedForwardError::Core(e)),
    };
    proof {
        lemma_lse_fits(shape.batch, shape.q_heads, shape.seq_len, shape.head_dim);
    }
    let lse_elements = match shape.lse_len() {
        Ok(v) => v,
        Err(e) => return Err(GroupedForwardError::Core(e)),
    };
    let output_elements = match q_elements.checked_add(lse_elements) {
        Some(v) => v,
        None => return Err(GroupedForwardError::Core(FlatAttentionError::ShapeOverflow)),
    };
    checked_u32(q_elements)?;
    checked_u32(kv_elements)?;
    checked_u32(output_elements)?;
    let q_bytes = bytes_for_f32(q_elements)?;
    let kv_bytes = bytes_for_f32(kv_elements)?;
    let output_bytes = bytes_for_f32(output_elements)?;
    Ok(
        GroupedForwardLayout {
            q_elements,
            kv_elements,
            lse_elements,
            output_elements,
            q_bytes,
            kv_bytes,
            output_bytes,
        },
    )
}

fn checked_u32(value: usize) -> (r: Result<u32, GroupedForwardError>)
    ensures
        r is Ok <==> (value <= u32::MAX),
        r matches Ok(v) ==> v == value,
        r matches Err(e) ==> (e == GroupedForwardError::IndexSpaceExceeded { elements: value }),
{
    if value > u32::MAX as usize {
        return Err(GroupedForwardError::IndexSpaceExceeded { elements: value });
    }
    Ok(value as u32)
}

fn bytes_for_f32(elements: usize) -> (r: Result<u64, GroupedForwardError>)
    ensures
        r == (if 4 * elements > usize::MAX {
            Err(GroupedForwardError::Core(FlatAttentionError::ShapeOverflow))
        } else {
            Ok::<u64, GroupedForwardError>((4 * elements) as u64)
        }),
{
    match elements.checked_mul(4) {
        Some(bytes) => Ok(bytes as u64),
        None => Err(GroupedForwardError::Core(FlatAttentionError::ShapeOverflow)),
    }
}


/// Sizes of the caller-owned resident buffers of one grouped forward.
#[derive(Debug, Clone, Copy, PartialEq, Eq, Structural)]
pub struct GroupedForwardBuffers {
    pub q_bytes: u64,
    pub k_bytes: u64,
    pub v_bytes: u64,
    pub output_bytes: u64,
}

/// Everything a prepared grouped forward binds: geometry, kernel, uniform
/// words and the workgroup grid `(query_workgroups, q_batch_heads)`.
#[derive(Debug, Clone, PartialEq, Eq)]
pub struct GroupedForwardDispatch {
    pub layout: GroupedForwardLayout,
    pub kernel_variant: GroupedForwardKernelVariant,
    pub params: Vec<u32>,
    pub query_workgroups: u32,
    pub q_batch_heads: u32,
}

pub open spec fn forward_buffer_rule(tensor: &'static str, actual: u64, required: u64) -> Result<
    (),
    GroupedForwardError,
> {
    if actual < required {
        Err(GroupedForwardError::BufferTooSmall { tensor, actual_bytes: actual, required_bytes: required })
    } else {
        Ok(())
    }
}

/// Every check of a grouped forward preparation, in the order the host makes
/// them. `query_rows` is the number of query rows one workgroup covers.
pub open spec fn grouped_forward_dispatch_rule(
    shape: GroupedAttentionShape,
    max_head_dim: usize,
    buffers: GroupedForwardBuffers,
    scale_bits: Result<u32, FlatAttentionError>,
    max_workgroups: u32,
    query_rows: usize,
) -> Result<(), GroupedForwardError> {
    let layout = grouped_forward_layout_rule(shape, max_head_dim);
    let tiles = query_tiles(shape.seq_len, query_rows);
    if layout is Err {
        Err(layout->Err_0)
    } else if forward_buffer_rule("Q", buffers.q_bytes, layout->Ok_0.q_bytes) is Err {
        forward_buffer_rule("Q", buffers.q_bytes, layout->Ok_0.q_bytes)
    } else if forward_buffer_rule("K", buffers.k_bytes, layout->Ok_0.kv_bytes) is Err {
        forward_buffer_rule("K", buffers.k_bytes, layout->Ok_0.kv_bytes)
    } else if forward_buffer_rule("V", buffers.v_bytes, layout->Ok_0.kv_bytes) is Err {
        forward_buffer_rule("V", buffers.v_bytes, layout->Ok_0.kv_bytes)
    } else if forward_buffer_rule("O|LSE", buffers.output_bytes, layout->Ok_0.output_bytes) is Err {
        forward_buffer_rule("O|LSE", buffers.output_bytes, layout->Ok_0.output_bytes)
    } else if tiles > max_workgroups {
        Err(GroupedForwardError::DispatchLimit { axis: "x/query_tiles", actual: tiles as usize, maximum: max_workgroups })
    } else if shape.batch * shape.q_heads > max_workgroups {
        Err(
            GroupedForwardError::DispatchLimit {
                axis: "y/batch_q_heads",
                actual: (shape.batch * shape.q_heads) as usize,
                maximum: max_workgroups,
            },
        )
    } else if scale_bits is Err {
        Err(GroupedForwardError::Core(scale_bits->Err_0))
    } else {
        Ok(())
    }
}

/// The eight uniform words of the selected kernel.
pub open spec fn grouped_forward_params(
    shape: GroupedAttentionShape,
    variant: GroupedForwardKernelVariant,
    causal: bool,
    scale: u32,
) -> Seq<u32> {
    let causal_word: u32 = if causal {
        1
    } else {
        0
    };
    match variant {
        GroupedForwardKernelVariant::Q4PortableGrouped => seq![
            shape.seq_len as u32,
            shape.head_dim as u32,
            shape.q_heads as u32,
            shape.kv_heads as u32,
            shape.batch as u32,
            causal_word,
            scale,
            0u32,
        ],
        GroupedForwardKernelVariant::Q4Vec4Mha => seq![
            shape.seq_len as u32,
            shape.head_dim as u32,
            (shape.batch * shape.q_heads) as u32,
            causal_word,
            scale,
            0u32,
            0u32,
            0u32,
        ],
    }
}

fn forward_buffer(tensor: &'static str, actual: u64, required: u64) -> (r: Result<(), GroupedForwardError>)
    ensures
        r == forward_buffer_rule(tensor, actual, required),
{
    if actual < required {
        Err(GroupedForwardError::BufferTooSmall { tensor, actual_bytes: actual, required_bytes: required })
    } else {
        Ok(())
    }
}

/// Prepares one grouped forward over resident buffers: validates geometry,
/// buffers and the dispatch grid, selects the kernel (vec4 only for MHA with
/// D = 64/128 when compiled) and packs its uniform words.
pub fn plan_grouped_forward(
    shape: GroupedAttentionShape,
    max_head_dim: usize,
    vectorization_enabled: bool,
    buffers: GroupedForwardBuffers,
    causal: bool,
    scale_bits: Result<u32, FlatAttentionError>,
    max_workgroups: u32,
    query_rows: usize,
) -> (r: Result<GroupedForwardDispatch, GroupedForwardError>)
    requires
        query_rows > 0,
    ensures
        ({
            let rule = grouped_forward_dispatch_rule(
                shape,
                max_head_dim,
                buffers,
                scale_bits,
                max_workgroups,
                query_rows,
            );
            &&& rule is Err ==> r == Err::<GroupedForwardDispatch, GroupedForwardError>(rule->Err_0)
            &&& rule is Ok ==> (r matches Ok(dispatch) && {
                &&& dispatch.layout == grouped_forward_layout_rule(shape, max_head_dim)->Ok_0
                &&& dispatch.kernel_variant == kernel_variant_rule(vectorization_enabled, shape)
                &&& dispatch.params@ == grouped_forward_params(
                    shape,
                    kernel_variant_rule(vectorization_enabled, shape),
                    causal,
                    scale_bits->Ok_0,
                )
                &&& dispatch.query_workgroups == query_tiles(shape.seq_len, query_rows)
                &&& dispatch.q_batch_heads == shape.batch * shape.q_heads
            })
        }),
{
    let layout = grouped_forward_layout(shape, max_head_dim)?;
    forward_buffer("Q", buffers.q_bytes, layout.q_bytes)?;
    forward_buffer("K", buffers.k_bytes, layout.kv_bytes)?;
    forward_buffer("V", buffers.v_bytes, layout.kv_bytes)?;
    forward_buffer("O|LSE", buffers.output_bytes, layout.output_bytes)?;
    proof {
        lemma_grid_words(shape, query_rows, layout.output_elements as int);
    }
    let whole_tiles = shape.seq_len / query_rows;
    proof {
        assert(whole_tiles <= shape.seq_len) by (nonlinear_arith)
            requires
                whole_tiles == shape.seq_len / query_rows,
                query_rows > 0,
        ;
    }
    proof {
        if shape.seq_len % query_rows != 0 {
            assert(whole_tiles < shape.seq_len) by (nonlinear_arith)
                requires
                    whole_tiles == shape.seq_len / query_rows,
                    query_rows > 1,
                    shape.seq_len >= 1,
            ;
        }
    }
    let query_workgroups = if shape.seq_len % query_rows != 0 {
        whole_tiles + 1
    } else {
        whole_tiles
    };
    proof {
        lemma_ceil_div(
            shape.seq_len as int,
            query_rows as int,
            whole_tiles as int,
            query_workgroups as int,
        );
    }
    let q_batch_heads = shape.batch * shape.q_heads;
    if query_workgroups > max_workgroups as usize {
        return Err(
            GroupedForwardError::DispatchLimit {
                axis: "x/query_tiles",
                actual: query_workgroups,
                maximum: max_workgroups,
            },
        );
    }
    if q_batch_heads > max_workgroups as usize {
        return Err(
            GroupedForwardError::DispatchLimit {
                axis: "y/batch_q_heads",
                actual: q_batch_heads,
                maximum: max_workgroups,
            },
        );
    }
    let scale = match scale_bits {
        Ok(bits) => bits,
        Err(e) => return Err(GroupedForwardError::Core(e)),
    };
    let kernel_variant = kernel_variant_for_shape(vectorization_enabled, shape);
    let causal_word: u32 = if causal {
        1
    } else {
        0
    };
    let params: Vec<u32> = match kernel_variant {
        GroupedForwardKernelVariant::Q4PortableGrouped => vec![
            shape.seq_len as u32,
            shape.head_dim as u32,
            shape.q_heads as u32,
            shape.kv_heads as u32,
            shape.batch as u32,
            causal_word,
            scale,
            0,
        ],
        GroupedForwardKernelVariant::Q4Vec4Mha => vec![
            shape.seq_len as u32,
            shape.head_dim as u32,
            q_batch_heads as u32,
            causal_word,
            scale,
            0,
            0,
            0,
        ],
    };
    proof {
        assert(params@ =~= grouped_forward_params(shape, kernel_variant, causal, scale));
    }
    Ok(
        GroupedForwardDispatch {
            layout,
            kernel_variant,
            params,
            query_workgroups: query_workgroups as u32,
            q_batch_heads: q_batch_heads as u32,
        },
    )
}

} // verus!
