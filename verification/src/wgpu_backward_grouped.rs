//! Host-side geometry of the grouped (GQA/MQA) backward-recomputation records.
//!
//! The forward record is `[Q | K | V | dO | O | LSE]` with Q-shaped `Q`, `dO`,
//! `O` and KV-shaped `K`, `V`; the gradient record is `[dQ | dK | dV]`.
use crate::attention_shape::{fits3, fits4, FlatAttentionError, GroupedAttentionShape};
use crate::wgpu_backward::{backward_workgroups, BACKWARD_WORKGROUP_SIZE};
use vstd::prelude::*;

verus! {

#[derive(Debug, Clone, Copy, PartialEq, Eq)]
pub struct GroupedBackwardRecomputeLayout {
    pub q_elements: usize,
    pub kv_elements: usize,
    pub lse_elements: usize,
    pub packed_forward_elements: usize,
    pub gradient_elements: usize,
    pub packed_forward_bytes: u64,
    pub gradient_bytes: u64,
}

impl GroupedBackwardRecomputeLayout {
    pub fn q_offset(self) -> (r: usize)
        ensures
            r == 0,
    {
        0
    }

    pub fn k_offset(self) -> (r: usize)
        ensures
            r == self.q_elements,
    {
        self.q_elements
    }

    pub fn v_offset(self) -> (r: usize)
        requires
            self.q_elements + self.kv_elements <= usize::MAX,
        ensures
            r == self.q_elements + self.kv_elements,
    {
        self.q_elements + self.kv_elements
    }

    pub fn d_out_offset(self) -> (r: usize)
        requires
            self.q_elements + 2 * self.kv_elements <= usize::MAX,
        ensures
            r == self.q_elements + 2 * self.kv_elements,
    {
        self.q_elements + 2 * self.kv_elements
    }

    pub fn output_offset(self) -> (r: usize)
        requires
            2 * self.q_elements + 2 * self.kv_elements <= usize::MAX,
        ensures
            r == 2 * self.q_elements + 2 * self.kv_elements,
    {
        2 * self.q_elements + 2 * self.kv_elements
    }

    pub fn lse_offset(self) -> (r: usize)
        requires
            3 * self.q_elements + 2 * self.kv_elements <= usize::MAX,
        ensures
            r == 3 * self.q_elements + 2 * self.kv_elements,
    {
        3 * self.q_elements + 2 * self.kv_elements
    }

    pub fn dq_offset(self) -> (r: usize)
        ensures
            r == 0,
    {
        0
    }

    pub fn dk_offset(self) -> (r: usize)
        ensures
            r == self.q_elements,
    {
        self.q_elements
    }

    pub fn dv_offset(self) -> (r: usize)
        requires
            self.q_elements + self.kv_elements <= usize::MAX,
        ensures
            r == self.q_elements + self.kv_elements,
    {
        self.q_elements + self.kv_elements
    }
}

#[derive(Debug, Clone, PartialEq, Eq)]
pub enum GroupedBackwardRecomputeError {
    Core(FlatAttentionError),
    IndexSpaceExceeded { elements: usize },
    DispatchLimit { actual: usize, maximum: u32 },
    BufferTooSmall { tensor: &'static str, actual_bytes: u64, required_bytes: u64 },
    PipelineValidation(String),
}

/// Exact grouped recomputation layout for a shape, or the first failure.
pub open spec fn grouped_backward_layout_rule(shape: GroupedAttentionShape) -> Result<
    GroupedBackwardRecomputeLayout,
    GroupedBackwardRecomputeError,
> {
    let q = shape.batch * shape.q_heads * shape.seq_len * shape.head_dim;
    let kv = shape.batch * shape.kv_heads * shape.seq_len * shape.head_dim;
    let l = shape.batch * shape.q_heads * shape.seq_len;
    let packed = 3 * q + 2 * kv + l;
    let gradient = q + 2 * kv;
    if shape.batch == 0 || shape.q_heads == 0 || shape.kv_heads == 0 || shape.seq_len == 0
        || shape.head_dim == 0 {
        Err(GroupedBackwardRecomputeError::Core(FlatAttentionError::ZeroDimension))
    } else if shape.q_heads % shape.kv_heads != 0 {
        Err(
            GroupedBackwardRecomputeError::Core(
                FlatAttentionError::InvalidHeadGrouping {
                    q_heads: shape.q_heads,
                    kv_heads: shape.kv_heads,
                },
            ),
        )
    } else if !shape.valid() || packed > usize::MAX || gradient > usize::MAX {
        Err(GroupedBackwardRecomputeError::Core(FlatAttentionError::ShapeOverflow))
    } else if packed > u32::MAX {
        Err(GroupedBackwardRecomputeError::IndexSpaceExceeded { elements: packed as usize })
    } else if gradient > u32::MAX {
        Err(GroupedBackwardRecomputeError::IndexSpaceExceeded { elements: gradient as usize })
    } else if 4 * packed > usize::MAX || 4 * gradient > usize::MAX {
        Err(GroupedBackwardRecomputeError::Core(FlatAttentionError::ShapeOverflow))
    } else {
        Ok(
            GroupedBackwardRecomputeLayout {
                q_elements: q as usize,
                kv_elements: kv as usize,
                lse_elements: l as usize,
                packed_forward_elements: packed as usize,
                gradient_elements: gradient as usize,
                packed_forward_bytes: (4 * packed) as u64,
                gradient_bytes: (4 * gradient) as u64,
            },
        )
    }
}

/// A partial product of a valid shape fits whenever the full product does.
pub proof fn lemma_lse_fits(a: usize, b: usize, c: usize, d: usize)
    requires
        d >= 1,
        fits4(a, b, c, d),
    ensures
        fits3(a, b, c),
        a * b * c <= a * b * c * d,
{
    assert(a * b * c <= a * b * c * d) by (nonlinear_arith)
        requires
            d >= 1,
            a * b * c >= 0,
    ;
}

/// Validate a grouped recomputation geometry and size its packed records.
pub fn grouped_backward_recompute_layout(shape: GroupedAttentionShape) -> (r: Result<
    GroupedBackwardRecomputeLayout,
    GroupedBackwardRecomputeError,
>)
    ensures
        r == grouped_backward_layout_rule(shape),
{
    match shape.validate() {
        Ok(()) => {},
        Err(e) => return Err(GroupedBackwardRecomputeError::Core(e)),
    }
    let q_elements = match shape.q_tensor_len() {
        Ok(v) => v,
        Err(e) => return Err(GroupedBackwardRecomputeError::Core(e)),
    };
    let kv_elements = match shape.kv_tensor_len() {
        Ok(v) => v,
        Err(e) => return Err(GroupedBackwardRecomputeError::Core(e)),
    };
    proof {
        lemma_lse_fits(shape.batch, shape.q_heads, shape.seq_len, shape.head_dim);
    }
    let lse_elements = match shape.lse_len() {
        Ok(v) => v,
        Err(e) => return Err(GroupedBackwardRecomputeError::Core(e)),
    };
    let overflow = GroupedBackwardRecomputeError::Core(FlatAttentionError::ShapeOverflow);
    let packed_forward_elements = match q_elements.checked_mul(3) {
        Some(q3) => match kv_elements.checked_mul(2) {
            Some(kv2) => match q3.checked_add(kv2) {
                Some(sum) => match sum.checked_add(lse_elements) {
                    Some(total) => total,
                    None => return Err(overflow),
                },
                None => return Err(overflow),
            },
            None => return Err(overflow),
        },
        None => return Err(overflow),
    };
    let gradient_elements = match kv_elements.checked_mul(2) {
        Some(kv2) => match q_elements.checked_add(kv2) {
            Some(total) => total,
            None => return Err(overflow),
        },
        None => return Err(overflow),
    };
    checked_u32(packed_forward_elements)?;
    checked_u32(gradient_elements)?;
    let packed_forward_bytes = bytes_for_f32(packed_forward_elements)?;
    let gradient_bytes = bytes_for_f32(gradient_elements)?;
    Ok(
        GroupedBackwardRecomputeLayout {
            q_elements,
            kv_elements,
            lse_elements,
            packed_forward_elements,
            gradient_elements,
            packed_forward_bytes,
            gradient_bytes,
        },
    )
}

fn checked_u32(value: usize) -> (r: Result<u32, GroupedBackwardRecomputeError>)
    ensures
        r is Ok <==> (value <= u32::MAX),
        r matches Ok(v) ==> v == value,
        r matches Err(e) ==> (e == GroupedBackwardRecomputeError::IndexSpaceExceeded {
            elements: value,
        }),
{
    if value > u32::MAX as usize {
        return Err(GroupedBackwardRecomputeError::IndexSpaceExceeded { elements: value });
    }
    Ok(value as u32)
}

fn bytes_for_f32(elements: usize) -> (r: Result<u64, GroupedBackwardRecomputeError>)
    ensures
        r == (if 4 * elements > usize::MAX {
            Err(GroupedBackwardRecomputeError::Core(FlatAttentionError::ShapeOverflow))
        } else {
            Ok::<u64, GroupedBackwardRecomputeError>((4 * elements) as u64)
        }),
{
    match elements.checked_mul(4) {
        Some(bytes) => Ok(bytes as u64),
        None => Err(GroupedBackwardRecomputeError::Core(FlatAttentionError::ShapeOverflow)),
    }
}

/// Checked launch of one grouped recomputation pass: the layout, workgroups
/// along x (one thread per gradient element) and the ten uniform words.
#[derive(Debug, Clone, Copy, PartialEq, Eq)]
pub struct GroupedBackwardRecomputeDispatch {
    pub layout: GroupedBackwardRecomputeLayout,
    pub workgroups: u32,
    pub params: [u32; 10],
}

/// A bound buffer of `actual` bytes must hold `required` bytes.
pub open spec fn grouped_backward_buffer_rule(tensor: &'static str, actual: u64, required: u64) -> Result<
    (),
    GroupedBackwardRecomputeError,
> {
    if actual < required {
        Err(
            GroupedBackwardRecomputeError::BufferTooSmall {
                tensor,
                actual_bytes: actual,
                required_bytes: required,
            },
        )
    } else {
        Ok(())
    }
}

/// One grouped recomputation over bound records of `forward_bytes` and
/// `gradient_bytes` bytes: the layout, both records, the resolved score scale
/// and the workgroup count must pass, in that order.
pub open spec fn grouped_backward_dispatch_rule(
    shape: GroupedAttentionShape,
    forward_bytes: u64,
    gradient_bytes: u64,
    scale_bits: Result<u32, FlatAttentionError>,
    max_workgroups: u32,
) -> Result<(), GroupedBackwardRecomputeError> {
    let layout = grouped_backward_layout_rule(shape);
    let l = layout->Ok_0;
    if layout is Err {
        Err(layout->Err_0)
    } else if grouped_backward_buffer_rule("Q|K|V|dO|O|LSE", forward_bytes, l.packed_forward_bytes) is Err {
        grouped_backward_buffer_rule("Q|K|V|dO|O|LSE", forward_bytes, l.packed_forward_bytes)
    } else if grouped_backward_buffer_rule("dQ|dK|dV", gradient_bytes, l.gradient_bytes) is Err {
        grouped_backward_buffer_rule("dQ|dK|dV", gradient_bytes, l.gradient_bytes)
    } else if scale_bits is Err {
        Err(GroupedBackwardRecomputeError::Core(scale_bits->Err_0))
    } else if backward_workgroups(l.gradient_elements as int) > max_workgroups {
        Err(
            GroupedBackwardRecomputeError::DispatchLimit {
                actual: backward_workgroups(l.gradient_elements as int) as usize,
                maximum: max_workgroups,
            },
        )
    } else {
        Ok(())
    }
}

/// Validate one grouped recomputation pass over bound records and give its
/// launch. `scale_bits` is the IEEE-754 bit pattern of the resolved score
/// scale, or why the configuration has none.
pub fn plan_grouped_backward_recompute(
    shape: GroupedAttentionShape,
    forward_bytes: u64,
    gradient_bytes: u64,
    causal: bool,
    scale_bits: Result<u32, FlatAttentionError>,
    max_workgroups: u32,
) -> (r: Result<GroupedBackwardRecomputeDispatch, GroupedBackwardRecomputeError>)
    ensures
        ({
            let rule = grouped_backward_dispatch_rule(
                shape,
                forward_bytes,
                gradient_bytes,
                scale_bits,
                max_workgroups,
            );
            let l = grouped_backward_layout_rule(shape)->Ok_0;
            &&& rule is Err ==> r == Err::<GroupedBackwardRecomputeDispatch, GroupedBackwardRecomputeError>(
                rule->Err_0,
            )
            &&& rule is Ok ==> (r matches Ok(d) && {
                &&& d.layout == l
                &&& shape.batch <= u32::MAX && shape.q_heads <= u32::MAX && shape.kv_heads
                    <= u32::MAX && shape.seq_len <= u32::MAX && shape.head_dim <= u32::MAX
                &&& l.q_elements <= u32::MAX && l.kv_elements <= u32::MAX && l.lse_elements
                    <= u32::MAX
                &&& d.workgroups == backward_workgroups(l.gradient_elements as int)
                &&& d.params@ == seq![
                    shape.batch as u32,
                    shape.q_heads as u32,
                    shape.kv_heads as u32,
                    shape.seq_len as u32,
                    shape.head_dim as u32,
                    if causal { 1u32 } else { 0u32 },
                    scale_bits->Ok_0,
                    l.q_elements as u32,
                    l.kv_elements as u32,
                    l.lse_elements as u32,
                ]
            })
        }),
{
    let layout = grouped_backward_recompute_layout(shape)?;
    if forward_bytes < layout.packed_forward_bytes {
        return Err(
            GroupedBackwardRecomputeError::BufferTooSmall {
                tensor: "Q|K|V|dO|O|LSE",
                actual_bytes: forward_bytes,
                required_bytes: layout.packed_forward_bytes,
            },
        );
    }
    if gradient_bytes < layout.gradient_bytes {
        return Err(
            GroupedBackwardRecomputeError::BufferTooSmall {
                tensor: "dQ|dK|dV",
                actual_bytes: gradient_bytes,
                required_bytes: layout.gradient_bytes,
            },
        );
    }
    let scale = match scale_bits {
        Ok(bits) => bits,
        Err(e) => return Err(GroupedBackwardRecomputeError::Core(e)),
    };
    let elements = layout.gradient_elements;
    let workgroups_wide = elements / BACKWARD_WORKGROUP_SIZE + if elements % BACKWARD_WORKGROUP_SIZE == 0 {
        0
    } else {
        1
    };
    assert(workgroups_wide == backward_workgroups(elements as int));
    if workgroups_wide > max_workgroups as usize {
        return Err(
            GroupedBackwardRecomputeError::DispatchLimit { actual: workgroups_wide, maximum: max_workgroups },
        );
    }
    proof {
        let b = shape.batch as int;
        let qh = shape.q_heads as int;
        let kh = shape.kv_heads as int;
        let n = shape.seq_len as int;
        let d = shape.head_dim as int;
        assert(b * qh * n * d >= b && b * qh * n * d >= qh && b * qh * n * d >= n && b * qh * n * d
            >= d && b * kh * n * d >= kh && b * qh * n * d >= b * qh * n) by (nonlinear_arith)
            requires
                b >= 1,
                qh >= 1,
                kh >= 1,
                n >= 1,
                d >= 1,
        ;
    }
    let params: [u32; 10] = [
        shape.batch as u32,
        shape.q_heads as u32,
        shape.kv_heads as u32,
        shape.seq_len as u32,
        shape.head_dim as u32,
        if causal {
            1
        } else {
            0
        },
        scale,
        layout.q_elements as u32,
        layout.kv_elements as u32,
        layout.lse_elements as u32,
    ];
    proof {
        assert(params@ =~= seq![
            shape.batch as u32,
            shape.q_heads as u32,
            shape.kv_heads as u32,
            shape.seq_len as u32,
            shape.head_dim as u32,
            if causal { 1u32 } else { 0u32 },
            scale,
            layout.q_elements as u32,
            layout.kv_elements as u32,
            layout.lse_elements as u32,
        ]);
    }
    Ok(GroupedBackwardRecomputeDispatch { layout, workgroups: workgroups_wide as u32, params })
}

} // verus!
