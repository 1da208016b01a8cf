//! Host-side decisions of the portable fused forward kernels: the subgroup
//! policy, the kernel generation chosen per head dimension, and the typed
//! failure surface of the WGPU front end.
use crate::attention_shape::{AttentionShape, FlatAttentionError};
use crate::wgpu_external::{lemma_ceil_div, query_tiles};
use vstd::prelude::*;

verus! {

#[derive(Debug, Clone, Copy, PartialEq, Eq, Structural, Default)]
pub enum WgpuSubgroupPolicy {
    #[default]
    Auto,
    Disable,
    Require,
}

/// Concrete fused kernel generation selected for a dispatch.
#[derive(Debug, Clone, Copy, PartialEq, Eq, Structural)]
pub enum WgpuKernelVariant {
    Q4Portable,
    Q4Vec4Portable,
    /// Experimental D64/D128 ping/pong workgroup K/V staging.
    Q4Vec4DoubleBuffered,
    Q4Subgroup,
}

#[derive(Debug, Clone, PartialEq)]
#[non_exhaustive]
pub enum WgpuFlatAttentionError {
    Core(FlatAttentionError),
    Unavailable,
    RequiredSubgroupUnavailable,
    UnsupportedHeadDim { actual: usize, maximum: usize },
    DispatchLimit { axis: &'static str, actual: usize, maximum: u32 },
    IndexSpaceExceeded { elements: usize },
    DeviceBufferLimit { required_bytes: u64, maximum_bytes: u64 },
    ForeignBuffer,
    ResidentLength { tensor: &'static str, actual: usize, expected: usize },
    Execution(String),
}

/// The vectorized kernels exist for these head dimensions only.
pub open spec fn vec4_head_dim(head_dim: usize) -> bool {
    head_dim == 64 || head_dim == 128
}

pub open spec fn kernel_variant_rule(
    device_variant: WgpuKernelVariant,
    double_buffering_enabled: bool,
    vectorization_enabled: bool,
    head_dim: usize,
) -> WgpuKernelVariant {
    if device_variant == WgpuKernelVariant::Q4Subgroup {
        WgpuKernelVariant::Q4Subgroup
    } else if double_buffering_enabled && vectorization_enabled && vec4_head_dim(head_dim) {
        WgpuKernelVariant::Q4Vec4DoubleBuffered
    } else if vectorization_enabled && vec4_head_dim(head_dim) {
        WgpuKernelVariant::Q4Vec4Portable
    } else {
        WgpuKernelVariant::Q4Portable
    }
}

/// Kernel generation used for one head dimension on a device whose base
/// generation is `device_variant`: subgroup keeps priority, then double-buffered
/// and plain vec4 staging for D64/D128, else the scalar portable kernel.
pub fn kernel_variant_for_head_dim(
    device_variant: WgpuKernelVariant,
    double_buffering_enabled: bool,
    vectorization_enabled: bool,
    head_dim: usize,
) -> (variant: WgpuKernelVariant)
    ensures
        variant == kernel_variant_rule(
            device_variant,
            double_buffering_enabled,
            vectorization_enabled,
            head_dim,
        ),
{
    let vec4 = head_dim == 64 || head_dim == 128;
    match device_variant {
        WgpuKernelVariant::Q4Subgroup => WgpuKernelVariant::Q4Subgroup,
        _ => if double_buffering_enabled && vectorization_enabled && vec4 {
            WgpuKernelVariant::Q4Vec4DoubleBuffered
        } else if vectorization_enabled && vec4 {
            WgpuKernelVariant::Q4Vec4Portable
        } else {
            WgpuKernelVariant::Q4Portable
        },
    }
}


/// How the base pipeline of a context is chosen once the subgroup pipeline
/// was (or was not) requested and compiled.
#[derive(Debug, Clone, Copy, PartialEq, Eq, Structural)]
pub enum SubgroupPipelineChoice {
    /// The subgroup pipeline compiled and is used.
    Subgroup,
    /// The subgroup pipeline failed validation under `Auto`; the portable
    /// pipeline is used and the failure is reported as the fallback reason.
    PortableFallback,
    /// Subgroup operations were not requested; the portable pipeline is used.
    Portable,
    /// The subgroup pipeline failed validation under `Require`.
    RequiredSubgroupFailed,
}

/// Whether a context requests subgroup operations: never when disabled, and
/// `Require` on an adapter without subgroups is an error.
pub fn subgroup_request(policy: WgpuSubgroupPolicy, subgroup_supported: bool) -> (r: Result<bool, WgpuFlatAttentionError>)
    ensures
        policy == WgpuSubgroupPolicy::Require && !subgroup_supported ==> r == Err::<
            bool,
            WgpuFlatAttentionError,
        >(WgpuFlatAttentionError::RequiredSubgroupUnavailable),
        !(policy == WgpuSubgroupPolicy::Require && !subgroup_supported) ==> r == Ok::<
            bool,
            WgpuFlatAttentionError,
        >(subgroup_supported && policy != WgpuSubgroupPolicy::Disable),
{
    let require = match policy {
        WgpuSubgroupPolicy::Require => true,
        _ => false,
    };
    let disable = match policy {
        WgpuSubgroupPolicy::Disable => true,
        _ => false,
    };
    if require && !subgroup_supported {
        return Err(WgpuFlatAttentionError::RequiredSubgroupUnavailable);
    }
    Ok(subgroup_supported && !disable)
}

pub open spec fn pipeline_choice_rule(policy: WgpuSubgroupPolicy, requested: bool, subgroup_compiled: bool) -> SubgroupPipelineChoice {
    if !requested {
        SubgroupPipelineChoice::Portable
    } else if subgroup_compiled {
        SubgroupPipelineChoice::Subgroup
    } else if policy == WgpuSubgroupPolicy::Auto {
        SubgroupPipelineChoice::PortableFallback
    } else {
        SubgroupPipelineChoice::RequiredSubgroupFailed
    }
}

/// The base pipeline of a context from the subgroup request and whether the
/// subgroup pipeline passed validation.
pub fn pipeline_choice(policy: WgpuSubgroupPolicy, requested: bool, subgroup_compiled: bool) -> (choice: SubgroupPipelineChoice)
    ensures
        choice == pipeline_choice_rule(policy, requested, subgroup_compiled),
{
    if !requested {
        SubgroupPipelineChoice::Portable
    } else if subgroup_compiled {
        SubgroupPipelineChoice::Subgroup
    } else {
        match policy {
            WgpuSubgroupPolicy::Auto => SubgroupPipelineChoice::PortableFallback,
            _ => SubgroupPipelineChoice::RequiredSubgroupFailed,
        }
    }
}

/// What a dispatch needs to know of one resident operand: the context that
/// owns it and its length in scalars.
#[derive(Debug, Clone, Copy, PartialEq, Eq, Structural)]
pub struct ResidentOperand {
    pub owner: usize,
    pub len: usize,
}

/// Everything one resident forward dispatch encodes: element counts, the
/// output buffer size, the uniform words and the workgroup grid
/// `(query_workgroups, batch_heads)`.
#[derive(Debug, Clone, PartialEq, Eq)]
pub struct ResidentForwardDispatch {
    pub tensor_len: usize,
    pub lse_len: usize,
    pub combined_len: usize,
    pub output_bytes: u64,
    pub params: Vec<u32>,
    pub query_workgroups: u32,
    pub batch_heads: u32,
}

pub open spec fn resident_rule(tensor: &'static str, owner: usize, operand: ResidentOperand, expected: int) -> Result<
    (),
    WgpuFlatAttentionError,
> {
    if operand.owner != owner {
        Err(WgpuFlatAttentionError::ForeignBuffer)
    } else if operand.len != expected {
        Err(
            WgpuFlatAttentionError::ResidentLength {
                tensor,
                actual: operand.len,
                expected: expected as usize,
            },
        )
    } else {
        Ok(())
    }
}

/// Every check of one resident forward dispatch of the context `owner`, in
/// the order the host makes them.
pub open spec fn forward_dispatch_rule(
    shape: AttentionShape,
    max_head_dim: usize,
    query_rows: usize,
    max_workgroups: u32,
    max_binding_bytes: u64,
    owner: usize,
    q: ResidentOperand,
    k: ResidentOperand,
    v: ResidentOperand,
    scale_bits: Result<u32, FlatAttentionError>,
) -> Result<(), WgpuFlatAttentionError> {
    let tensor = shape.batch * shape.heads * shape.seq_len * shape.head_dim;
    let rows = shape.batch * shape.heads * shape.seq_len;
    let combined = tensor + rows;
    let tiles = query_tiles(shape.seq_len, query_rows);
    if shape.batch == 0 || shape.heads == 0 || shape.seq_len == 0 || shape.head_dim == 0 {
        Err(WgpuFlatAttentionError::Core(FlatAttentionError::ZeroDimension))
    } else if !shape.valid() {
        Err(WgpuFlatAttentionError::Core(FlatAttentionError::ShapeOverflow))
    } else if shape.head_dim > max_head_dim {
        Err(WgpuFlatAttentionError::UnsupportedHeadDim { actual: shape.head_dim, maximum: max_head_dim })
    } else if combined > usize::MAX {
        Err(WgpuFlatAttentionError::Core(FlatAttentionError::ShapeOverflow))
    } else if combined > u32::MAX {
        Err(WgpuFlatAttentionError::IndexSpaceExceeded { elements: combined as usize })
    } else if tiles > max_workgroups {
        Err(
            WgpuFlatAttentionError::DispatchLimit {
                axis: "x/query_tiles",
                actual: tiles as usize,
                maximum: max_workgroups,
            },
        )
    } else if shape.batch * shape.heads > max_workgroups {
        Err(
            WgpuFlatAttentionError::DispatchLimit {
                axis: "y/batch_heads",
                actual: (shape.batch * shape.heads) as usize,
                maximum: max_workgroups,
            },
        )
    } else if 4 * combined > usize::MAX {
        Err(WgpuFlatAttentionError::Core(FlatAttentionError::ShapeOverflow))
    } else if 4 * combined > max_binding_bytes {
        Err(
            WgpuFlatAttentionError::DeviceBufferLimit {
                required_bytes: (4 * combined) as u64,
                maximum_bytes: max_binding_bytes,
            },
        )
    } else if resident_rule("Q", owner, q, tensor) is Err {
        resident_rule("Q", owner, q, tensor)
    } else if resident_rule("K", owner, k, tensor) is Err {
        resident_rule("K", owner, k, tensor)
    } else if resident_rule("V", owner, v, tensor) is Err {
        resident_rule("V", owner, v, tensor)
    } else if scale_bits is Err {
        Err(WgpuFlatAttentionError::Core(scale_bits->Err_0))
    } else {
        Ok(())
    }
}

fn check_resident(tensor: &'static str, owner: usize, operand: ResidentOperand, expected: usize) -> (r:
    Result<(), WgpuFlatAttentionError>)
    ensures
        r == resident_rule(tensor, owner, operand, expected as int),
{
    if operand.owner != owner {
        return Err(WgpuFlatAttentionError::ForeignBuffer);
    }
    if operand.len != expected {
        return Err(WgpuFlatAttentionError::ResidentLength { tensor, actual: operand.len, expected });
    }
    Ok(())
}

/// Plans one resident forward dispatch of the context `owner` over equal-length
/// `[batch, heads, seq_len, head_dim]` operands: validates the shape, the
/// index space, the workgroup grid, the binding limit and the operands, and
/// packs the eight uniform words `[seq_len, head_dim, batch_heads, causal,
/// scale, 0, 0, 0]`. `query_rows` is the number of query rows one workgroup
/// covers.
pub fn plan_resident_forward(
    shape: AttentionShape,
    max_head_dim: usize,
    query_rows: usize,
    max_workgroups: u32,
    max_binding_bytes: u64,
    owner: usize,
    q: ResidentOperand,
    k: ResidentOperand,
    v: ResidentOperand,
    causal: bool,
    scale_bits: Result<u32, FlatAttentionError>,
) -> (r: Result<ResidentForwardDispatch, WgpuFlatAttentionError>)
    requires
        query_rows > 0,
    ensures
        ({
            let rule = forward_dispatch_rule(
                shape,
                max_head_dim,
                query_rows,
                max_workgroups,
                max_binding_bytes,
                owner,
                q,
                k,
                v,
                scale_bits,
            );
            let tensor = shape.batch * shape.heads * shape.seq_len * shape.head_dim;
            let rows = shape.batch * shape.heads * shape.seq_len;
            &&& rule is Err ==> r == Err::<ResidentForwardDispatch, WgpuFlatAttentionError>(rule->Err_0)
            &&& rule is Ok ==> (r matches Ok(dispatch) && {
                &&& dispatch.tensor_len == tensor
                &&& dispatch.lse_len == rows
                &&& dispatch.combined_len == tensor + rows
                &&& dispatch.output_bytes == 4 * (tensor + rows)
                &&& dispatch.params@ == seq![
                    shape.seq_len as u32,
                    shape.head_dim as u32,
                    (shape.batch * shape.heads) as u32,
                    if causal {
                        1u32
                    } else {
                        0u32
                    },
                    scale_bits->Ok_0,
                    0u32,
                    0u32,
                    0u32,
                ]
                &&& dispatch.query_workgroups == query_tiles(shape.seq_len, query_rows)
                &&& dispatch.batch_heads == shape.batch * shape.heads
            })
        }),
{
    match shape.validate() {
        Ok(()) => {},
        Err(e) => return Err(WgpuFlatAttentionError::Core(e)),
    }
    if shape.head_dim > max_head_dim {
        return Err(WgpuFlatAttentionError::UnsupportedHeadDim { actual: shape.head_dim, maximum: max_head_dim });
    }
    let tensor_len = match shape.tensor_len() {
        Ok(v) => v,
        Err(e) => return Err(WgpuFlatAttentionError::Core(e)),
    };
    let lse_len = match shape.lse_len() {
        Ok(v) => v,
        Err(e) => return Err(WgpuFlatAttentionError::Core(e)),
    };
    let combined_len = match tensor_len.checked_add(lse_len) {
        Some(v) => v,
        None => return Err(WgpuFlatAttentionError::Core(FlatAttentionError::ShapeOverflow)),
    };
    if combined_len > 0xffff_ffffusize {
        return Err(WgpuFlatAttentionError::IndexSpaceExceeded { elements: combined_len });
    }
    proof {
        let b = shape.batch as int;
        let h = shape.heads as int;
        let sl = shape.seq_len as int;
        let d = shape.head_dim as int;
        assert(b * h <= b * h * sl && sl <= b * h * sl && b * h * sl <= b * h * sl * d)
            by (nonlinear_arith)
            requires
                b >= 1,
                h >= 1,
                sl >= 1,
                d >= 1,
        ;
    }
    let batch_heads = shape.batch * shape.heads;
    let whole_tiles = shape.seq_len / query_rows;
    proof {
        assert(whole_tiles <= shape.seq_len) by (nonlinear_arith)
            requires
                whole_tiles == shape.seq_len / query_rows,
                query_rows > 0,
        ;
    }
    let query_workgroups = if shape.seq_len % query_rows != 0 {
        whole_tiles + 1
    } else {
        whole_tiles
    };
    proof {
        lemma_ceil_div(
            shape.seq_len as int,
            query_rows as int,
            whole_tiles as int,
            query_workgroups as int,
        );
    }
    if query_workgroups > max_workgroups as usize {
        return Err(
            WgpuFlatAttentionError::DispatchLimit {
                axis: "x/query_tiles",
                actual: query_workgroups,
                maximum: max_workgroups,
            },
        );
    }
    if batch_heads > max_workgroups as usize {
        return Err(
            WgpuFlatAttentionError::DispatchLimit {
                axis: "y/batch_heads",
                actual: batch_heads,
                maximum: max_workgroups,
            },
        );
    }
    let output_bytes = match combined_len.checked_mul(4) {
        Some(v) => v as u64,
        None => return Err(WgpuFlatAttentionError::Core(FlatAttentionError::ShapeOverflow)),
    };
    if output_bytes > max_binding_bytes {
        return Err(
            WgpuFlatAttentionError::DeviceBufferLimit {
                required_bytes: output_bytes,
                maximum_bytes: max_binding_bytes,
            },
        );
    }
    check_resident("Q", owner, q, tensor_len)?;
    check_resident("K", owner, k, tensor_len)?;
    check_resident("V", owner, v, tensor_len)?;
    let scale = match scale_bits {
        Ok(bits) => bits,
        Err(e) => return Err(WgpuFlatAttentionError::Core(e)),
    };
    let params: Vec<u32> = vec![
        shape.seq_len as u32,
        shape.head_dim as u32,
        batch_heads as u32,
        if causal { 1u32 } else { 0u32 },
        scale,
        0,
        0,
        0,
    ];
    Ok(
        ResidentForwardDispatch {
            tensor_len,
            lse_len,
            combined_len,
            output_bytes,
            params,
            query_workgroups: query_workgroups as u32,
            batch_heads: batch_heads as u32,
        },
    )
}

} // verus!
