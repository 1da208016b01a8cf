//! Geometry of the single-query decode over a resident cache whose K rows
//! were already rotated when they were appended.
use crate::attention_shape::FlatAttentionError;
use crate::rotary_grouped::RotaryEmbeddingConfig;
use crate::wgpu_external::{
    buffer_rule, bytes_for_f32_len, check_buffer, first_of, ExternalProjectionBuffers,
    ExternalProjectionLayout, ExternalWgpuError,
};
use vstd::prelude::*;

verus! {

/// Logical geometry for one single-query decode over a resident K/V cache.
#[derive(Debug, Clone, Copy, PartialEq, Eq)]
pub struct PreRotatedKDecodeShape {
    pub q_heads: usize,
    pub kv_heads: usize,
    pub kv_len: usize,
    pub head_dim: usize,
}

impl PreRotatedKDecodeShape {
    /// Element count of the single query row over all query heads.
    pub fn q_elements(self) -> (r: Result<usize, FlatAttentionError>)
        ensures
            r == (if self.q_heads * self.head_dim > usize::MAX {
                Err(FlatAttentionError::ShapeOverflow)
            } else {
                Ok::<usize, FlatAttentionError>((self.q_heads * self.head_dim) as usize)
            }),
    {
        match self.q_heads.checked_mul(self.head_dim) {
            Some(v) => Ok(v),
            None => Err(FlatAttentionError::ShapeOverflow),
        }
    }

    /// Element count of one `[kv_len, kv_heads, head_dim]` K or V cache.
    pub fn kv_elements(self) -> (r: Result<usize, FlatAttentionError>)
        ensures
            r == (if self.kv_len * self.kv_heads > usize::MAX || self.kv_len * self.kv_heads
                * self.head_dim > usize::MAX {
                Err(FlatAttentionError::ShapeOverflow)
            } else {
                Ok::<usize, FlatAttentionError>((self.kv_len * self.kv_heads * self.head_dim) as usize)
            }),
    {
        match self.kv_len.checked_mul(self.kv_heads) {
            Some(n) => match n.checked_mul(self.head_dim) {
                Some(v) => Ok(v),
                None => Err(FlatAttentionError::ShapeOverflow),
            },
            None => Err(FlatAttentionError::ShapeOverflow),
        }
    }

    /// One log-sum-exp statistic per query head.
    pub fn lse_elements(self) -> (r: usize)
        ensures
            r == self.q_heads,
    {
        self.q_heads
    }

    /// The first failure of the decode geometry, if any.
    pub open spec fn shape_rule(self) -> Result<(), FlatAttentionError> {
        if self.q_heads == 0 || self.kv_heads == 0 || self.kv_len == 0 || self.head_dim == 0 {
            Err(FlatAttentionError::ZeroDimension)
        } else if self.q_heads % self.kv_heads != 0 {
            Err(
                FlatAttentionError::InvalidHeadGrouping {
                    q_heads: self.q_heads,
                    kv_heads: self.kv_heads,
                },
            )
        } else if self.head_dim % 2 != 0 {
            Err(FlatAttentionError::InvalidRotaryHeadDim { head_dim: self.head_dim })
        } else if self.q_heads * self.head_dim > usize::MAX || self.kv_len * self.kv_heads
            > usize::MAX || self.kv_len * self.kv_heads * self.head_dim > usize::MAX {
            Err(FlatAttentionError::ShapeOverflow)
        } else {
            Ok(())
        }
    }

    fn validate(self) -> (r: Result<(), FlatAttentionError>)
        ensures
            r == self.shape_rule(),
    {
        if self.q_heads == 0 || self.kv_heads == 0 || self.kv_len == 0 || self.head_dim == 0 {
            return Err(FlatAttentionError::ZeroDimension);
        }
        if self.q_heads % self.kv_heads != 0 {
            return Err(
                FlatAttentionError::InvalidHeadGrouping {
                    q_heads: self.q_heads,
                    kv_heads: self.kv_heads,
                },
            );
        }
        if self.head_dim % 2 != 0 {
            return Err(FlatAttentionError::InvalidRotaryHeadDim { head_dim: self.head_dim });
        }
        self.q_elements()?;
        self.kv_elements()?;
        Ok(())
    }
}

/// Exact decode layout for a shape, or the first failure.
pub open spec fn prerotated_decode_layout_rule(shape: PreRotatedKDecodeShape) -> Result<
    ExternalProjectionLayout,
    ExternalWgpuError,
> {
    let q = shape.q_heads * shape.head_dim;
    let kv = shape.kv_len * shape.kv_heads * shape.head_dim;
    let combined = q + shape.q_heads;
    if shape.shape_rule() is Err {
        Err(ExternalWgpuError::Core(shape.shape_rule()->Err_0))
    } else if combined > usize::MAX || 4 * q > usize::MAX || 4 * kv > usize::MAX || 4 * combined
        > usize::MAX {
        Err(ExternalWgpuError::Core(FlatAttentionError::ShapeOverflow))
    } else {
        Ok(
            ExternalProjectionLayout {
                q_elements: q as usize,
                kv_elements: kv as usize,
                output_elements: q as usize,
                lse_elements: shape.q_heads,
                combined_elements: combined as usize,
                q_bytes: (4 * q) as u64,
                kv_bytes: (4 * kv) as u64,
                combined_bytes: (4 * combined) as u64,
            },
        )
    }
}

/// Validate a pre-rotated-K decode geometry and size its buffers.
pub fn prerotated_decode_layout(shape: PreRotatedKDecodeShape) -> (r: Result<
    ExternalProjectionLayout,
    ExternalWgpuError,
>)
    ensures
        r == prerotated_decode_layout_rule(shape),
{
    match shape.validate() {
        Ok(()) => {},
        Err(e) => return Err(ExternalWgpuError::Core(e)),
    }
    let q_elements = match shape.q_elements() {
        Ok(v) => v,
        Err(e) => return Err(ExternalWgpuError::Core(e)),
    };
    let kv_elements = match shape.kv_elements() {
        Ok(v) => v,
        Err(e) => return Err(ExternalWgpuError::Core(e)),
    };
    let lse_elements = shape.lse_elements();
    let combined_elements = match q_elements.checked_add(lse_elements) {
        Some(v) => v,
        None => return Err(ExternalWgpuError::Core(FlatAttentionError::ShapeOverflow)),
    };
    let q_bytes = bytes_for_f32_len(q_elements)?;
    let kv_bytes = bytes_for_f32_len(kv_elements)?;
    let combined_bytes = bytes_for_f32_len(combined_elements)?;
    Ok(
        ExternalProjectionLayout {
            q_elements,
            kv_elements,
            output_elements: q_elements,
            lse_elements,
            combined_elements,
            q_bytes,
            kv_bytes,
            combined_bytes,
        },
    )
}


/// Everything the host encodes for one pre-rotated-K decode: the geometry,
/// the sixteen uniform words and the workgroup count (one per query head).
#[derive(Debug, Clone, PartialEq, Eq)]
pub struct PreRotatedDecodeDispatch {
    pub layout: ExternalProjectionLayout,
    pub params: Vec<u32>,
    pub workgroups: u32,
}

/// Every check of one pre-rotated-K decode, in the order the host makes them.
pub open spec fn prerotated_dispatch_rule(
    shape: PreRotatedKDecodeShape,
    rotary: RotaryEmbeddingConfig,
    buffers: ExternalProjectionBuffers,
    scale_bits: Result<u32, FlatAttentionError>,
    max_workgroups: u32,
    max_head_dim: usize,
) -> Result<(), ExternalWgpuError> {
    let layout = prerotated_decode_layout_rule(shape);
    let l = layout->Ok_0;
    if shape.shape_rule() is Err {
        Err(ExternalWgpuError::Core(shape.shape_rule()->Err_0))
    } else if rotary.rotary_rule(shape.head_dim, 1) is Err {
        Err(ExternalWgpuError::Core(rotary.rotary_rule(shape.head_dim, 1)->Err_0))
    } else if shape.head_dim > max_head_dim {
        Err(ExternalWgpuError::UnsupportedHeadDim { actual: shape.head_dim, maximum: max_head_dim })
    } else if rotary.position_offset > u32::MAX {
        Err(ExternalWgpuError::Core(FlatAttentionError::PositionOverflow))
    } else if layout is Err {
        Err(layout->Err_0)
    } else if l.combined_elements > u32::MAX || l.kv_elements > u32::MAX {
        Err(
            ExternalWgpuError::IndexSpaceExceeded {
                elements: if l.combined_elements >= l.kv_elements {
                    l.combined_elements
                } else {
                    l.kv_elements
                },
            },
        )
    } else if shape.q_heads > max_workgroups {
        Err(ExternalWgpuError::DispatchLimit { axis: "x/q_heads", actual: shape.q_heads, maximum: max_workgroups })
    } else {
        first_of(
            buffer_rule("Q", buffers.q_bytes, l.q_bytes),
            first_of(
                buffer_rule("K", buffers.k_bytes, l.kv_bytes),
                first_of(
                    buffer_rule("V", buffers.v_bytes, l.kv_bytes),
                    first_of(
                        buffer_rule("O|LSE", buffers.out_and_lse_bytes, l.combined_bytes),
                        if scale_bits is Err {
                            Err(ExternalWgpuError::Core(scale_bits->Err_0))
                        } else {
                            Ok(())
                        },
                    ),
                ),
            ),
        )
    }
}

/// The sixteen uniform words of an accepted decode.
pub open spec fn prerotated_params(shape: PreRotatedKDecodeShape, rotary: RotaryEmbeddingConfig, scale: u32) -> Seq<u32> {
    seq![
        shape.kv_len as u32,
        shape.head_dim as u32,
        shape.q_heads as u32,
        shape.kv_heads as u32,
        scale,
        rotary.theta_bits,
        rotary.position_offset as u32,
    ] + Seq::new(9, |k: int| 0u32)
}

/// Plans one single-query decode over a resident cache whose K rows are
/// already rotated: only the query is rotated, at `rotary.position_offset`.
pub fn plan_prerotated_decode(
    shape: PreRotatedKDecodeShape,
    rotary: RotaryEmbeddingConfig,
    buffers: ExternalProjectionBuffers,
    scale_bits: Result<u32, FlatAttentionError>,
    max_workgroups: u32,
    max_head_dim: usize,
) -> (r: Result<PreRotatedDecodeDispatch, ExternalWgpuError>)
    ensures
        ({
            let rule = prerotated_dispatch_rule(shape, rotary, buffers, scale_bits, max_workgroups, max_head_dim);
            &&& rule is Err ==> r == Err::<PreRotatedDecodeDispatch, ExternalWgpuError>(rule->Err_0)
            &&& rule is Ok ==> (r matches Ok(dispatch) && {
                &&& dispatch.layout == prerotated_decode_layout_rule(shape)->Ok_0
                &&& dispatch.params@ == prerotated_params(shape, rotary, scale_bits->Ok_0)
                &&& dispatch.workgroups == shape.q_heads
            })
        }),
{
    match shape.validate() {
        Ok(()) => {},
        Err(e) => return Err(ExternalWgpuError::Core(e)),
    }
    match rotary.validate(shape.head_dim, 1) {
        Ok(()) => {},
        Err(e) => return Err(ExternalWgpuError::Core(e)),
    }
    if shape.head_dim > max_head_dim {
        return Err(ExternalWgpuError::UnsupportedHeadDim { actual: shape.head_dim, maximum: max_head_dim });
    }
    if rotary.position_offset > 0xffff_ffffusize {
        return Err(ExternalWgpuError::Core(FlatAttentionError::PositionOverflow));
    }
    let layout = prerotated_decode_layout(shape)?;
    if layout.combined_elements > 0xffff_ffffusize || layout.kv_elements > 0xffff_ffffusize {
        let elements = if layout.combined_elements >= layout.kv_elements {
            layout.combined_elements
        } else {
            layout.kv_elements
        };
        return Err(ExternalWgpuError::IndexSpaceExceeded { elements });
    }
    if shape.q_heads > max_workgroups as usize {
        return Err(
            ExternalWgpuError::DispatchLimit { axis: "x/q_heads", actual: shape.q_heads, maximum: max_workgroups },
        );
    }
    check_buffer("Q", buffers.q_bytes, layout.q_bytes)?;
    check_buffer("K", buffers.k_bytes, layout.kv_bytes)?;
    check_buffer("V", buffers.v_bytes, layout.kv_bytes)?;
    check_buffer("O|LSE", buffers.out_and_lse_bytes, layout.combined_bytes)?;
    let scale = match scale_bits {
        Ok(bits) => bits,
        Err(e) => return Err(ExternalWgpuError::Core(e)),
    };
    proof {
        let kv = shape.kv_len * shape.kv_heads * shape.head_dim;
        assert(shape.kv_len <= kv && shape.kv_heads <= kv && shape.head_dim <= kv) by (nonlinear_arith)
            requires
                kv == shape.kv_len * shape.kv_heads * shape.head_dim,
                shape.kv_len >= 1,
                shape.kv_heads >= 1,
                shape.head_dim >= 1,
        ;
    }
    let mut params: Vec<u32> = vec![
        shape.kv_len as u32,
        shape.head_dim as u32,
        shape.q_heads as u32,
        shape.kv_heads as u32,
        scale,
        rotary.theta_bits,
        rotary.position_offset as u32,
    ];
    while params.len() < 16
        invariant
            7 <= params@.len() <= 16,
            params@.subrange(0, 7) == seq![
                shape.kv_len as u32,
                shape.head_dim as u32,
                shape.q_heads as u32,
                shape.kv_heads as u32,
                scale,
                rotary.theta_bits,
                rotary.position_offset as u32,
            ],
            forall|j: int| 7 <= j < params@.len() ==> #[trigger] params@[j] == 0u32,
        decreases 16 - params.len(),
    {
        params.push(0);
    }
    proof {
        assert(params@ =~= prerotated_params(shape, rotary, scale));
    }
    Ok(PreRotatedDecodeDispatch { layout, params, workgroups: shape.q_heads as u32 })
}

} // verus!
