//! Host-side decisions of the caller-owned rectangular projection pass:
//! kernel selection, the opt-in `q_len = 1` K/V tile-reuse decode candidate,
//! and the ALiBi slope contract of the uniform block.
use crate::attention_shape::{AsymmetricGroupedAttentionShape, FlatAttentionError};
use crate::wgpu_external::ExternalWgpuError;
use vstd::prelude::*;

verus! {

/// Maximum query-head count carried by the portable ALiBi uniform block.
pub const WGSL_ALIBI_MAX_HEADS: usize = 256;

/// Query heads of one GQA group that share a K/V tile in the reuse candidate.
pub const KV_REUSE_Q_HEADS_PER_WORKGROUP: usize = 4;

/// Kernel selected for one rectangular external projection pass.
#[derive(Debug, Clone, Copy, PartialEq, Eq, Structural)]
pub enum ExternalAsymmetricKernelVariant {
    /// Scalar-storage portable kernel.
    Portable,
    /// vec4 Q/K/V storage loads for head dimensions 64 and 128.
    Vec4,
}

/// The vec4 kernel serves head dimensions 64 and 128 when it was compiled;
/// every other pass uses the portable kernel.
pub open spec fn asymmetric_variant_rule(vectorization_enabled: bool, head_dim: usize) -> ExternalAsymmetricKernelVariant {
    if vectorization_enabled && (head_dim == 64 || head_dim == 128) {
        ExternalAsymmetricKernelVariant::Vec4
    } else {
        ExternalAsymmetricKernelVariant::Portable
    }
}

pub fn kernel_variant_for_shape(vectorization_enabled: bool, shape: AsymmetricGroupedAttentionShape) -> (variant: ExternalAsymmetricKernelVariant)
    ensures
        variant == asymmetric_variant_rule(vectorization_enabled, shape.head_dim),
{
    if vectorization_enabled && (shape.head_dim == 64 || shape.head_dim == 128) {
        ExternalAsymmetricKernelVariant::Vec4
    } else {
        ExternalAsymmetricKernelVariant::Portable
    }
}

/// When the K/V tile-reuse decode candidate may record a pass: it must have
/// been compiled, the pass must decode a single query row, and each GQA group
/// must hold at least two query heads.
pub open spec fn kv_reuse_candidate_rule(candidate_enabled: bool, shape: AsymmetricGroupedAttentionShape) -> Result<(), ExternalWgpuError> {
    if !candidate_enabled {
        Err(ExternalWgpuError::CandidateNotEnabled { candidate: "M48" })
    } else if shape.query_len != 1 {
        Err(
            ExternalWgpuError::UnsupportedCandidateShape {
                candidate: "M48",
                reason: "query_len must equal 1",
            },
        )
    } else if shape.q_heads / shape.kv_heads < 2 {
        Err(
            ExternalWgpuError::UnsupportedCandidateShape {
                candidate: "M48",
                reason: "GQA group size must be at least 2",
            },
        )
    } else {
        Ok(())
    }
}

/// Checks the candidate's own shape contract for a shape whose K/V head
/// count is nonzero.
pub fn validate_kv_reuse_candidate(candidate_enabled: bool, shape: AsymmetricGroupedAttentionShape) -> (r: Result<(), ExternalWgpuError>)
    requires
        shape.kv_heads > 0,
    ensures
        r == kv_reuse_candidate_rule(candidate_enabled, shape),
{
    if !candidate_enabled {
        return Err(ExternalWgpuError::CandidateNotEnabled { candidate: "M48" });
    }
    if shape.query_len != 1 {
        return Err(
            ExternalWgpuError::UnsupportedCandidateShape {
                candidate: "M48",
                reason: "query_len must equal 1",
            },
        );
    }
    if shape.q_heads / shape.kv_heads < 2 {
        return Err(
            ExternalWgpuError::UnsupportedCandidateShape {
                candidate: "M48",
                reason: "GQA group size must be at least 2",
            },
        );
    }
    Ok(())
}

/// The reuse candidate's checks in the order a recording applies them: the
/// candidate must be compiled, then the shape must pass its own validation
/// (whose outcome is `shape_validation`), then the candidate's shape contract.
pub open spec fn kv_reuse_pass_rule(
    candidate_enabled: bool,
    shape: AsymmetricGroupedAttentionShape,
    shape_validation: Result<(), FlatAttentionError>,
) -> Result<(), ExternalWgpuError> {
    if !candidate_enabled {
        Err(ExternalWgpuError::CandidateNotEnabled { candidate: "M48" })
    } else {
        match shape_validation {
            Err(e) => Err(ExternalWgpuError::Core(e)),
            Ok(()) => kv_reuse_candidate_rule(candidate_enabled, shape),
        }
    }
}

/// Decide whether the reuse candidate may record a pass for `shape`, given the
/// outcome of the shape's own validation. A shape that passed validation has
/// at least one K/V head.
pub fn validate_kv_reuse_pass(
    candidate_enabled: bool,
    shape: AsymmetricGroupedAttentionShape,
    shape_validation: Result<(), FlatAttentionError>,
) -> (r: Result<(), ExternalWgpuError>)
    requires
        shape_validation is Ok ==> shape.kv_heads > 0,
    ensures
        r == kv_reuse_pass_rule(candidate_enabled, shape, shape_validation),
{
    if !candidate_enabled {
        return Err(ExternalWgpuError::CandidateNotEnabled { candidate: "M48" });
    }
    match shape_validation {
        Err(e) => Err(ExternalWgpuError::Core(e)),
        Ok(()) => validate_kv_reuse_candidate(candidate_enabled, shape),
    }
}

/// Workgroups along y of the reuse candidate: one per batch, K/V head and
/// tile of up to four query heads of that head's group.
pub open spec fn kv_reuse_workgroups(shape: AsymmetricGroupedAttentionShape) -> int {
    let group = shape.q_heads / shape.kv_heads;
    let tiles = (group + KV_REUSE_Q_HEADS_PER_WORKGROUP - 1) / (KV_REUSE_Q_HEADS_PER_WORKGROUP as int);
    shape.batch * shape.kv_heads * tiles
}

/// The y extent of one reuse-candidate dispatch, checked against the device's
/// per-dimension workgroup limit.
pub fn kv_reuse_workgroups_y(shape: AsymmetricGroupedAttentionShape, max_workgroups: u32) -> (r: Result<u32, ExternalWgpuError>)
    requires
        shape.kv_heads > 0,
    ensures
        ({
            let workgroups = kv_reuse_workgroups(shape);
            if shape.batch * shape.kv_heads > usize::MAX || workgroups > usize::MAX {
                r == Err::<u32, ExternalWgpuError>(ExternalWgpuError::Core(FlatAttentionError::ShapeOverflow))
            } else if workgroups > max_workgroups {
                r == Err::<u32, ExternalWgpuError>(
                    ExternalWgpuError::DispatchLimit {
                        axis: "y/batch_kv_head_tiles",
                        actual: workgroups as usize,
                        maximum: max_workgroups,
                    },
                )
            } else {
                r == Ok::<u32, ExternalWgpuError>(workgroups as u32)
            }
        }),
{
    let group = shape.q_heads / shape.kv_heads;
    let tiles = group / KV_REUSE_Q_HEADS_PER_WORKGROUP + if group % KV_REUSE_Q_HEADS_PER_WORKGROUP != 0 {
        1usize
    } else {
        0usize
    };
    proof {
        assert(tiles == (group + KV_REUSE_Q_HEADS_PER_WORKGROUP - 1) / (KV_REUSE_Q_HEADS_PER_WORKGROUP as int));
    }
    let heads = match shape.batch.checked_mul(shape.kv_heads) {
        Some(heads) => heads,
        None => return Err(ExternalWgpuError::Core(FlatAttentionError::ShapeOverflow)),
    };
    let workgroups = match heads.checked_mul(tiles) {
        Some(workgroups) => workgroups,
        None => return Err(ExternalWgpuError::Core(FlatAttentionError::ShapeOverflow)),
    };
    if workgroups > max_workgroups as usize {
        return Err(
            ExternalWgpuError::DispatchLimit {
                axis: "y/batch_kv_head_tiles",
                actual: workgroups,
                maximum: max_workgroups,
            },
        );
    }
    Ok(workgroups as u32)
}

/// An IEEE-754 single is NaN or infinite exactly when its exponent bits are
/// all ones.
pub open spec fn non_finite_bits(bits: u32) -> bool {
    bits & 0x7f80_0000u32 == 0x7f80_0000u32
}

/// Index of the first non-finite slope at or after `i`, or the length when
/// there is none.
pub open spec fn first_non_finite_from(slopes: Seq<u32>, i: int) -> int
    decreases slopes.len() - i,
{
    if i < 0 || i >= slopes.len() {
        slopes.len() as int
    } else if non_finite_bits(slopes[i]) {
        i
    } else {
        first_non_finite_from(slopes, i + 1)
    }
}

/// Last position of `len` tokens starting at `offset` (the offset itself for
/// an empty extent).
pub open spec fn last_position(offset: usize, len: usize) -> int {
    if len == 0 {
        offset as int
    } else {
        offset + len - 1
    }
}

/// The ALiBi slope contract, first failure first: one finite slope per query
/// head, at most [`WGSL_ALIBI_MAX_HEADS`] heads, and bias positions whose last
/// query and key positions fit in `u32`. Slopes are given by their bits.
pub open spec fn alibi_rule(
    shape: AsymmetricGroupedAttentionShape,
    slopes: Seq<u32>,
    query_position_offset: usize,
    kv_position_offset: usize,
) -> Result<(), ExternalWgpuError> {
    let bad = first_non_finite_from(slopes, 0);
    if slopes.len() != shape.q_heads {
        Err(
            ExternalWgpuError::Core(
                FlatAttentionError::LengthMismatch {
                    tensor: "ALiBi slopes",
                    actual: slopes.len() as usize,
                    expected: shape.q_heads,
                },
            ),
        )
    } else if bad < slopes.len() {
        Err(
            ExternalWgpuError::Core(
                FlatAttentionError::NonFiniteInput { tensor: "ALiBi slopes", index: bad as usize },
            ),
        )
    } else if shape.q_heads > WGSL_ALIBI_MAX_HEADS {
        Err(ExternalWgpuError::IndexSpaceExceeded { elements: shape.q_heads })
    } else if last_position(query_position_offset, shape.query_len) > u32::MAX || last_position(
        kv_position_offset,
        shape.kv_len,
    ) > u32::MAX {
        Err(ExternalWgpuError::Core(FlatAttentionError::PositionOverflow))
    } else {
        Ok(())
    }
}

/// Validates the ALiBi slopes (by their bits) and bias position offsets of a
/// rectangular pass.
pub fn validate_alibi(
    shape: AsymmetricGroupedAttentionShape,
    slopes: &[u32],
    query_position_offset: usize,
    kv_position_offset: usize,
) -> (r: Result<(), ExternalWgpuError>)
    ensures
        r == alibi_rule(shape, slopes@, query_position_offset, kv_position_offset),
{
    if slopes.len() != shape.q_heads {
        return Err(
            ExternalWgpuError::Core(
                FlatAttentionError::LengthMismatch {
                    tensor: "ALiBi slopes",
                    actual: slopes.len(),
                    expected: shape.q_heads,
                },
            ),
        );
    }
    let mut i: usize = 0;
    while i < slopes.len()
        invariant
            i <= slopes@.len(),
            slopes@.len() == shape.q_heads,
            first_non_finite_from(slopes@, 0) == first_non_finite_from(slopes@, i as int),
        decreases slopes.len() - i,
    {
        if slopes[i] & 0x7f80_0000u32 == 0x7f80_0000u32 {
            return Err(
                ExternalWgpuError::Core(
                    FlatAttentionError::NonFiniteInput { tensor: "ALiBi slopes", index: i },
                ),
            );
        }
        i = i + 1;
    }
    if shape.q_heads > WGSL_ALIBI_MAX_HEADS {
        return Err(ExternalWgpuError::IndexSpaceExceeded { elements: shape.q_heads });
    }
    let q_final = match query_position_offset.checked_add(shape.query_len.saturating_sub(1)) {
        Some(v) => v,
        None => return Err(ExternalWgpuError::Core(FlatAttentionError::PositionOverflow)),
    };
    let kv_final = match kv_position_offset.checked_add(shape.kv_len.saturating_sub(1)) {
        Some(v) => v,
        None => return Err(ExternalWgpuError::Core(FlatAttentionError::PositionOverflow)),
    };
    if q_final > 0xffff_ffffusize || kv_final > 0xffff_ffffusize {
        return Err(ExternalWgpuError::Core(FlatAttentionError::PositionOverflow));
    }
    Ok(())
}

} // verus!
