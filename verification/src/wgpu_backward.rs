//! Host-side geometry of the packed backward-recomputation records.
//!
//! The forward record is `[Q | K | V | O | LSE]` and the gradient record is
//! `[dQ | dK | dV]`, all `f32`, addressed through WGSL `u32` indices.
use crate::attention_shape::{AttentionShape, FlatAttentionError};
use vstd::prelude::*;

verus! {

/// Threads per workgroup of the recomputation kernel.
pub const BACKWARD_WORKGROUP_SIZE: usize = 64;

#[derive(Debug, Clone, Copy, PartialEq, Eq)]
pub struct BackwardRecomputeLayout {
    /// Element count of one forward tensor (Q or O).
    pub tensor_elements: usize,
    /// Element count of the LSE statistic vector.
    pub lse_elements: usize,
    /// Element count of the packed [Q|K|V|O|LSE] record.
    pub packed_forward_elements: usize,
    /// Element count of the packed [dQ|dK|dV] record.
    pub gradient_elements: usize,
    /// Byte size of the packed forward record.
    pub packed_forward_bytes: u64,
    /// Byte size of the packed gradient record.
    pub gradient_bytes: u64,
}

impl BackwardRecomputeLayout {
    pub fn q_offset(self) -> (r: usize)
        ensures
            r == 0,
    {
        0
    }

    pub fn k_offset(self) -> (r: usize)
        ensures
            r == self.tensor_elements,
    {
        self.tensor_elements
    }

    pub fn v_offset(self) -> (r: usize)
        requires
            2 * self.tensor_elements <= usize::MAX,
        ensures
            r == 2 * self.tensor_elements,
    {
        2 * self.tensor_elements
    }

    pub fn output_offset(self) -> (r: usize)
        requires
            3 * self.tensor_elements <= usize::MAX,
        ensures
            r == 3 * self.tensor_elements,
    {
        3 * self.tensor_elements
    }

    pub fn lse_offset(self) -> (r: usize)
        requires
            4 * self.tensor_elements <= usize::MAX,
        ensures
            r == 4 * self.tensor_elements,
    {
        4 * self.tensor_elements
    }

    pub fn dq_offset(self) -> (r: usize)
        ensures
            r == 0,
    {
        0
    }

    pub fn dk_offset(self) -> (r: usize)
        ensures
            r == self.tensor_elements,
    {
        self.tensor_elements
    }

    pub fn dv_offset(self) -> (r: usize)
        requires
            2 * self.tensor_elements <= usize::MAX,
        ensures
            r == 2 * self.tensor_elements,
    {
        2 * self.tensor_elements
    }
}

#[derive(Debug, Clone, PartialEq, Eq)]
#[non_exhaustive]
pub enum BackwardRecomputeError {
    Core(FlatAttentionError),
    IndexSpaceExceeded { elements: usize },
    DispatchLimit { actual: usize, maximum: u32 },
    BufferTooSmall { tensor: &'static str, actual_bytes: u64, required_bytes: u64 },
    PipelineValidation(String),
}

/// `elements` is addressable by a WGSL `u32` index.
pub open spec fn addressable(elements: int) -> bool {
    elements <= u32::MAX
}

/// Exact layout of one recomputation for a shape, or the first failure.
pub open spec fn backward_layout_rule(shape: AttentionShape) -> Result<
    BackwardRecomputeLayout,
    BackwardRecomputeError,
> {
    let t = shape.batch * shape.heads * shape.seq_len * shape.head_dim;
    let l = shape.batch * shape.heads * shape.seq_len;
    let packed = 4 * t + l;
    let gradient = 3 * t;
    if shape.batch == 0 || shape.heads == 0 || shape.seq_len == 0 || shape.head_dim == 0 {
        Err(BackwardRecomputeError::Core(FlatAttentionError::ZeroDimension))
    } else if !shape.valid() || packed > usize::MAX || gradient > usize::MAX {
        Err(BackwardRecomputeError::Core(FlatAttentionError::ShapeOverflow))
    } else if !addressable(packed) {
        Err(BackwardRecomputeError::IndexSpaceExceeded { elements: packed as usize })
    } else if !addressable(gradient) {
        Err(BackwardRecomputeError::IndexSpaceExceeded { elements: gradient as usize })
    } else if 4 * packed > usize::MAX || 4 * gradient > usize::MAX {
        Err(BackwardRecomputeError::Core(FlatAttentionError::ShapeOverflow))
    } else {
        Ok(
            BackwardRecomputeLayout {
                tensor_elements: t as usize,
                lse_elements: l as usize,
                packed_forward_elements: packed as usize,
                gradient_elements: gradient as usize,
                packed_forward_bytes: (4 * packed) as u64,
                gradient_bytes: (4 * gradient) as u64,
            },
        )
    }
}

/// Validate the geometry of one backward recomputation and size its records.
pub fn backward_recompute_layout(shape: AttentionShape) -> (r: Result<
    BackwardRecomputeLayout,
    BackwardRecomputeError,
>)
    ensures
        r == backward_layout_rule(shape),
{
    match shape.validate() {
        Ok(()) => {},
        Err(e) => return Err(BackwardRecomputeError::Core(e)),
    }
    let tensor_elements = match shape.tensor_len() {
        Ok(v) => v,
        Err(e) => return Err(BackwardRecomputeError::Core(e)),
    };
    let lse_elements = match shape.lse_len() {
        Ok(v) => v,
        Err(e) => return Err(BackwardRecomputeError::Core(e)),
    };
    assert(lse_elements <= tensor_elements) by (nonlinear_arith)
        requires
            lse_elements == shape.batch * shape.heads * shape.seq_len,
            tensor_elements == lse_elements * shape.head_dim,
            shape.head_dim >= 1,
    ;
    let packed_forward_elements = match tensor_elements.checked_mul(4) {
        Some(v) => match v.checked_add(lse_elements) {
            Some(w) => w,
            None => return Err(BackwardRecomputeError::Core(FlatAttentionError::ShapeOverflow)),
        },
        None => return Err(BackwardRecomputeError::Core(FlatAttentionError::ShapeOverflow)),
    };
    let gradient_elements = match tensor_elements.checked_mul(3) {
        Some(v) => v,
        None => return Err(BackwardRecomputeError::Core(FlatAttentionError::ShapeOverflow)),
    };
    checked_u32(packed_forward_elements)?;
    checked_u32(gradient_elements)?;
    let packed_forward_bytes = bytes_for_f32(packed_forward_elements)?;
    let gradient_bytes = bytes_for_f32(gradient_elements)?;
    Ok(
        BackwardRecomputeLayout {
            tensor_elements,
            lse_elements,
            packed_forward_elements,
            gradient_elements,
            packed_forward_bytes,
            gradient_bytes,
        },
    )
}

fn checked_u32(value: usize) -> (r: Result<u32, BackwardRecomputeError>)
    ensures
        r is Ok <==> (addressable(value as int)),
        r matches Ok(v) ==> v == value,
        r matches Err(e) ==> (e == BackwardRecomputeError::IndexSpaceExceeded { elements: value }),
{
    if value > u32::MAX as usize {
        return Err(BackwardRecomputeError::IndexSpaceExceeded { elements: value });
    }
    Ok(value as u32)
}

/// Byte size of `elements` `f32` values.
fn bytes_for_f32(elements: usize) -> (r: Result<u64, BackwardRecomputeError>)
    ensures
        r == (if 4 * elements > usize::MAX {
            Err(BackwardRecomputeError::Core(FlatAttentionError::ShapeOverflow))
        } else {
            Ok::<u64, BackwardRecomputeError>((4 * elements) as u64)
        }),
{
    match elements.checked_mul(4) {
        Some(bytes) => Ok(bytes as u64),
        None => Err(BackwardRecomputeError::Core(FlatAttentionError::ShapeOverflow)),
    }
}

/// Checked launch of one recomputation pass: the layout, workgroups along x
/// (one thread per gradient element) and the eight uniform words.
#[derive(Debug, Clone, Copy, PartialEq, Eq)]
pub struct BackwardRecomputeDispatch {
    pub layout: BackwardRecomputeLayout,
    pub workgroups: u32,
    pub params: [u32; 8],
}

/// A bound buffer of `actual` bytes must hold `required` bytes.
pub open spec fn backward_buffer_rule(tensor: &'static str, actual: u64, required: u64) -> Result<
    (),
    BackwardRecomputeError,
> {
    if actual < required {
        Err(BackwardRecomputeError::BufferTooSmall { tensor, actual_bytes: actual, required_bytes: required })
    } else {
        Ok(())
    }
}

/// Workgroups of `BACKWARD_WORKGROUP_SIZE` threads covering `elements`.
pub open spec fn backward_workgroups(elements: int) -> int {
    (elements + BACKWARD_WORKGROUP_SIZE - 1) / (BACKWARD_WORKGROUP_SIZE as int)
}

/// One recomputation over bound records of `forward_bytes` and
/// `gradient_bytes` bytes: the layout, both records, the resolved score scale
/// and the workgroup count must pass, in that order.
pub open spec fn backward_dispatch_rule(
    shape: AttentionShape,
    forward_bytes: u64,
    gradient_bytes: u64,
    scale_bits: Result<u32, FlatAttentionError>,
    max_workgroups: u32,
) -> Result<(), BackwardRecomputeError> {
    let layout = backward_layout_rule(shape);
    let l = layout->Ok_0;
    if layout is Err {
        Err(layout->Err_0)
    } else if backward_buffer_rule("Q|K|V|O|LSE", forward_bytes, l.packed_forward_bytes) is Err {
        backward_buffer_rule("Q|K|V|O|LSE", forward_bytes, l.packed_forward_bytes)
    } else if backward_buffer_rule("dQ|dK|dV", gradient_bytes, l.gradient_bytes) is Err {
        backward_buffer_rule("dQ|dK|dV", gradient_bytes, l.gradient_bytes)
    } else if scale_bits is Err {
        Err(BackwardRecomputeError::Core(scale_bits->Err_0))
    } else if backward_workgroups(l.gradient_elements as int) > max_workgroups {
        Err(
            BackwardRecomputeError::DispatchLimit {
                actual: backward_workgroups(l.gradient_elements as int) as usize,
                maximum: max_workgroups,
            },
        )
    } else {
        Ok(())
    }
}

/// Validate one recomputation pass over bound records and give its launch.
/// `scale_bits` is the IEEE-754 bit pattern of the resolved score scale, or
/// why the configuration has none; `max_workgroups` is the device's
/// per-dimension workgroup limit.
pub fn plan_backward_recompute(
    shape: AttentionShape,
    forward_bytes: u64,
    gradient_bytes: u64,
    causal: bool,
    scale_bits: Result<u32, FlatAttentionError>,
    max_workgroups: u32,
) -> (r: Result<BackwardRecomputeDispatch, BackwardRecomputeError>)
    ensures
        ({
            let rule = backward_dispatch_rule(shape, forward_bytes, gradient_bytes, scale_bits, max_workgroups);
            let l = backward_layout_rule(shape)->Ok_0;
            &&& rule is Err ==> r == Err::<BackwardRecomputeDispatch, BackwardRecomputeError>(rule->Err_0)
            &&& rule is Ok ==> (r matches Ok(d) && {
                &&& d.layout == l
                &&& shape.batch <= u32::MAX && shape.heads <= u32::MAX && shape.seq_len <= u32::MAX
                    && shape.head_dim <= u32::MAX
                &&& l.tensor_elements <= u32::MAX && l.lse_elements <= u32::MAX
                &&& d.workgroups == backward_workgroups(l.gradient_elements as int)
                &&& d.params@ == seq![
                    shape.batch as u32,
                    shape.heads as u32,
                    shape.seq_len as u32,
                    shape.head_dim as u32,
                    if causal { 1u32 } else { 0u32 },
                    scale_bits->Ok_0,
                    l.tensor_elements as u32,
                    l.lse_elements as u32,
                ]
            })
        }),
{
    let layout = backward_recompute_layout(shape)?;
    if forward_bytes < layout.packed_forward_bytes {
        return Err(
            BackwardRecomputeError::BufferTooSmall {
                tensor: "Q|K|V|O|LSE",
                actual_bytes: forward_bytes,
                required_bytes: layout.packed_forward_bytes,
            },
        );
    }
    if gradient_bytes < layout.gradient_bytes {
        return Err(
            BackwardRecomputeError::BufferTooSmall {
                tensor: "dQ|dK|dV",
                actual_bytes: gradient_bytes,
                required_bytes: layout.gradient_bytes,
            },
        );
    }
    let scale = match scale_bits {
        Ok(bits) => bits,
        Err(e) => return Err(BackwardRecomputeError::Core(e)),
    };
    let elements = layout.gradient_elements;
    let workgroups_wide = elements / BACKWARD_WORKGROUP_SIZE + if elements % BACKWARD_WORKGROUP_SIZE == 0 {
        0
    } else {
        1
    };
    assert(workgroups_wide == backward_workgroups(elements as int));
    if workgroups_wide > max_workgroups as usize {
        return Err(BackwardRecomputeError::DispatchLimit { actual: workgroups_wide, maximum: max_workgroups });
    }
    proof {
        let b = shape.batch as int;
        let h = shape.heads as int;
        let n = shape.seq_len as int;
        let d = shape.head_dim as int;
        assert(b * h * n * d >= b && b * h * n * d >= h && b * h * n * d >= n && b * h * n * d >= d
            && b * h * n * d >= b * h * n) by (nonlinear_arith)
            requires
                b >= 1,
                h >= 1,
                n >= 1,
                d >= 1,
        ;
    }
    let params: [u32; 8] = [
        shape.batch as u32,
        shape.heads as u32,
        shape.seq_len as u32,
        shape.head_dim as u32,
        if causal {
            1
        } else {
            0
        },
        scale,
        layout.tensor_elements as u32,
        layout.lse_elements as u32,
    ];
    proof {
        assert(params@ =~= seq![
            shape.batch as u32,
            shape.heads as u32,
            shape.seq_len as u32,
            shape.head_dim as u32,
            if causal { 1u32 } else { 0u32 },
            scale,
            layout.tensor_elements as u32,
            layout.lse_elements as u32,
        ]);
    }
    Ok(BackwardRecomputeDispatch { layout, workgroups: workgroups_wide as u32, params })
}

} // verus!
