//! Host-side checks of the native grouped-query forward over resident
//! buffers.
//!
//! K/V keep their physical head count: they hold exactly
//! `batch * kv_heads * seq_len * head_dim` scalars and are never expanded to
//! the query head count before dispatch.
use crate::attention_shape::{FlatAttentionError, GroupedAttentionShape};
use crate::wgpu_backend::{resident_rule, ResidentOperand, WgpuFlatAttentionError};
use crate::wgpu_backward_grouped::lemma_lse_fits;
use crate::wgpu_external::{lemma_ceil_div, lemma_grid_words, query_tiles};
use vstd::prelude::*;

verus! {

/// Everything one grouped resident forward encodes: element counts, the
/// output buffer size, the uniform words and the workgroup grid
/// `(query_workgroups, q_batch_heads)`.
#[derive(Debug, Clone, PartialEq, Eq)]
pub struct GroupedResidentDispatch {
    pub q_tensor_len: usize,
    pub kv_tensor_len: usize,
    pub lse_len: usize,
    pub combined_len: usize,
    pub output_bytes: u64,
    pub params: Vec<u32>,
    pub query_workgroups: u32,
    pub q_batch_heads: u32,
}

/// Every check of one grouped resident forward of the context `owner`, in
/// the order the host makes them.
pub open spec fn grouped_resident_rule(
    shape: GroupedAttentionShape,
    max_head_dim: usize,
    query_rows: usize,
    max_workgroups: u32,
    owner: usize,
    q: ResidentOperand,
    k: ResidentOperand,
    v: ResidentOperand,
    scale_bits: Result<u32, FlatAttentionError>,
) -> Result<(), WgpuFlatAttentionError> {
    let q_len = shape.batch * shape.q_heads * shape.seq_len * shape.head_dim;
    let kv_len = shape.batch * shape.kv_heads * shape.seq_len * shape.head_dim;
    let rows = shape.batch * shape.q_heads * shape.seq_len;
    let combined = q_len + rows;
    let tiles = query_tiles(shape.seq_len, query_rows);
    if shape.batch == 0 || shape.q_heads == 0 || shape.kv_heads == 0 || shape.seq_len == 0
        || shape.head_dim == 0 {
        Err(WgpuFlatAttentionError::Core(FlatAttentionError::ZeroDimension))
    } else if shape.q_heads % shape.kv_heads != 0 {
        Err(
            WgpuFlatAttentionError::Core(
                FlatAttentionError::InvalidHeadGrouping { q_heads: shape.q_heads, kv_heads: shape.kv_heads },
            ),
        )
    } else if !shape.valid() {
        Err(WgpuFlatAttentionError::Core(FlatAttentionError::ShapeOverflow))
    } else if shape.head_dim > max_head_dim {
        Err(WgpuFlatAttentionError::UnsupportedHeadDim { actual: shape.head_dim, maximum: max_head_dim })
    } else if combined > usize::MAX {
        Err(WgpuFlatAttentionError::Core(FlatAttentionError::ShapeOverflow))
    } else if combined > u32::MAX || kv_len > u32::MAX {
        Err(
            WgpuFlatAttentionError::IndexSpaceExceeded {
                elements: if combined >= kv_len {
                    combined as usize
                } else {
                    kv_len as usize
                },
            },
        )
    } else if tiles > max_workgroups {
        Err(
            WgpuFlatAttentionError::DispatchLimit {
                axis: "x/query_tiles",
                actual: tiles as usize,
                maximum: max_workgroups,
            },
        )
    } else if shape.batch * shape.q_heads > max_workgroups {
        Err(
            WgpuFlatAttentionError::DispatchLimit {
                axis: "y/batch_q_heads",
                actual: (shape.batch * shape.q_heads) as usize,
                maximum: max_workgroups,
            },
        )
    } else if resident_rule("Q", owner, q, q_len) is Err {
        resident_rule("Q", owner, q, q_len)
    } else if resident_rule("K", owner, k, kv_len) is Err {
        resident_rule("K", owner, k, kv_len)
    } else if resident_rule("V", owner, v, kv_len) is Err {
        resident_rule("V", owner, v, kv_len)
    } else if scale_bits is Err {
        Err(WgpuFlatAttentionError::Core(scale_bits->Err_0))
    } else if 4 * combined > usize::MAX {
        Err(WgpuFlatAttentionError::Core(FlatAttentionError::ShapeOverflow))
    } else {
        Ok(())
    }
}

fn check_operand(tensor: &'static str, owner: usize, operand: ResidentOperand, expected: usize) -> (r:
    Result<(), WgpuFlatAttentionError>)
    ensures
        r == resident_rule(tensor, owner, operand, expected as int),
{
    if operand.owner != owner {
        return Err(WgpuFlatAttentionError::ForeignBuffer);
    }
    if operand.len != expected {
        return Err(WgpuFlatAttentionError::ResidentLength { tensor, actual: operand.len, expected });
    }
    Ok(())
}

/// Plans one grouped resident forward of the context `owner`: validates the
/// shape, the index space and the workgroup grid, checks that Q holds the
/// query tensor and K/V the unexpanded grouped tensors, and packs the eight
/// uniform words `[seq_len, head_dim, q_heads, kv_heads, batch, causal,
/// scale, 0]`. `query_rows` is the number of query rows one workgroup covers.
pub fn plan_grouped_resident_forward(
    shape: GroupedAttentionShape,
    max_head_dim: usize,
    query_rows: usize,
    max_workgroups: u32,
    owner: usize,
    q: ResidentOperand,
    k: ResidentOperand,
    v: ResidentOperand,
    causal: bool,
    scale_bits: Result<u32, FlatAttentionError>,
) -> (r: Result<GroupedResidentDispatch, WgpuFlatAttentionError>)
    requires
        query_rows > 0,
    ensures
        ({
            let rule = grouped_resident_rule(
                shape,
                max_head_dim,
                query_rows,
                max_workgroups,
                owner,
                q,
                k,
                v,
                scale_bits,
            );
            let q_len = shape.batch * shape.q_heads * shape.seq_len * shape.head_dim;
            let rows = shape.batch * shape.q_heads * shape.seq_len;
            &&& rule is Err ==> r == Err::<GroupedResidentDispatch, WgpuFlatAttentionError>(rule->Err_0)
            &&& rule is Ok ==> (r matches Ok(dispatch) && {
                &&& dispatch.q_tensor_len == q_len
                &&& dispatch.kv_tensor_len == shape.batch * shape.kv_heads * shape.seq_len
                    * shape.head_dim
                &&& dispatch.lse_len == rows
                &&& dispatch.combined_len == q_len + rows
                &&& dispatch.output_bytes == 4 * (q_len + rows)
                &&& dispatch.params@ == seq![
                    shape.seq_len as u32,
                    shape.head_dim as u32,
                    shape.q_heads as u32,
                    shape.kv_heads as u32,
                    shape.batch as u32,
                    if causal {
                        1u32
                    } else {
                        0u32
                    },
                    scale_bits->Ok_0,
                    0u32,
                ]
                &&& dispatch.query_workgroups == query_tiles(shape.seq_len, query_rows)
                &&& dispatch.q_batch_heads == shape.batch * shape.q_heads
            })
        }),
{
    match shape.validate() {
        Ok(()) => {},
        Err(e) => return Err(WgpuFlatAttentionError::Core(e)),
    }
    if shape.head_dim > max_head_dim {
        return Err(WgpuFlatAttentionError::UnsupportedHeadDim { actual: shape.head_dim, maximum: max_head_dim });
    }
    let q_tensor_len = match shape.q_tensor_len() {
        Ok(v) => v,
        Err(e) => return Err(WgpuFlatAttentionError::Core(e)),
    };
    let kv_tensor_len = match shape.kv_tensor_len() {
        Ok(v) => v,
        Err(e) => return Err(WgpuFlatAttentionError::Core(e)),
    };
    proof {
        lemma_lse_fits(shape.batch, shape.q_heads, shape.seq_len, shape.head_dim);
    }
    let lse_len = match shape.lse_len() {
        Ok(v) => v,
        Err(e) => return Err(WgpuFlatAttentionError::Core(e)),
    };
    let combined_len = match q_tensor_len.checked_add(lse_len) {
        Some(v) => v,
        None => return Err(WgpuFlatAttentionError::Core(FlatAttentionError::ShapeOverflow)),
    };
    if combined_len > 0xffff_ffffusize || kv_tensor_len > 0xffff_ffffusize {
        let elements = if combined_len >= kv_tensor_len {
            combined_len
        } else {
            kv_tensor_len
        };
        return Err(WgpuFlatAttentionError::IndexSpaceExceeded { elements });
    }
    proof {
        lemma_grid_words(shape, query_rows, combined_len as int);
    }
    let q_batch_heads = shape.batch * shape.q_heads;
    let whole_tiles = shape.seq_len / query_rows;
    proof {
        assert(whole_tiles <= shape.seq_len) by (nonlinear_arith)
            requires
                whole_tiles == shape.seq_len / query_rows,
                query_rows > 0,
        ;
        if shape.seq_len % query_rows != 0 {
            assert(whole_tiles < shape.seq_len) by (nonlinear_arith)
                requires
                    whole_tiles == shape.seq_len / query_rows,
                    query_rows > 1,
                    shape.seq_len >= 1,
            ;
        }
    }
    let query_workgroups = if shape.seq_len % query_rows != 0 {
        whole_tiles + 1
    } else {
        whole_tiles
    };
    proof {
        lemma_ceil_div(
            shape.seq_len as int,
            query_rows as int,
            whole_tiles as int,
            query_workgroups as int,
        );
    }
    if query_workgroups > max_workgroups as usize {
        return Err(
            WgpuFlatAttentionError::DispatchLimit {
                axis: "x/query_tiles",
                actual: query_workgroups,
                maximum: max_workgroups,
            },
        );
    }
    if q_batch_heads > max_workgroups as usize {
        return Err(
            WgpuFlatAttentionError::DispatchLimit {
                axis: "y/batch_q_heads",
                actual: q_batch_heads,
                maximum: max_workgroups,
            },
        );
    }
    check_operand("Q", owner, q, q_tensor_len)?;
    check_operand("K", owner, k, kv_tensor_len)?;
    check_operand("V", owner, v, kv_tensor_len)?;
    let scale = match scale_bits {
        Ok(bits) => bits,
        Err(e) => return Err(WgpuFlatAttentionError::Core(e)),
    };
    let output_bytes = match combined_len.checked_mul(4) {
        Some(v) => v as u64,
        None => return Err(WgpuFlatAttentionError::Core(FlatAttentionError::ShapeOverflow)),
    };
    let params: Vec<u32> = vec![
        shape.seq_len as u32,
        shape.head_dim as u32,
        shape.q_heads as u32,
        shape.kv_heads as u32,
        shape.batch as u32,
        if causal { 1u32 } else { 0u32 },
        scale,
        0,
    ];
    Ok(
        GroupedResidentDispatch {
            q_tensor_len,
            kv_tensor_len,
            lse_len,
            combined_len,
            output_bytes,
            params,
            query_workgroups: query_workgroups as u32,
            q_batch_heads: q_batch_heads as u32,
        },
    )
}

} // verus!
