//! Host-side geometry and dispatch checks of the structural sparse carrier.
//!
//! One device invocation computes one output coordinate over the canonical
//! candidate list of its query row. Everything the host decides before
//! encoding that dispatch is here: buffer sizes, binding and dispatch limits,
//! and the uniform parameter words.
use crate::attention_shape::{fits3, fits4, AttentionShape, FlatAttentionError};
use crate::research_structural_device::{StructuralDevicePlan, StructuralDevicePlanError};
use vstd::prelude::*;

verus! {

/// Invocations per workgroup of the structural sparse kernel.
pub const STRUCTURAL_SPARSE_WORKGROUP_SIZE: usize = 64;

/// Exact buffer geometry for one structural sparse dispatch.
#[derive(Debug, Clone, Copy, PartialEq, Eq, Structural)]
pub struct StructuralSparseWgpuLayout {
    pub tensor_elements: usize,
    pub query_rows: usize,
    pub tensor_bytes: u64,
    pub lse_bytes: u64,
    pub status_bytes: u64,
    pub offsets_bytes: u64,
    pub key_positions_bytes: u64,
}

#[derive(Debug, Clone, PartialEq)]
#[non_exhaustive]
pub enum StructuralSparseWgpuError {
    Core(FlatAttentionError),
    DevicePlan(StructuralDevicePlanError),
    EmptyCandidateSet,
    GeometryMismatch {
        shape_seq_len: usize,
        plan_seq_len: u32,
        shape_query_rows: usize,
        plan_query_rows: u32,
    },
    IndexSpaceExceeded { value: usize },
    BufferTooSmall { tensor: &'static str, actual_bytes: u64, required_bytes: u64 },
    StorageBindingTooLarge { tensor: &'static str, required_bytes: u64, maximum_bytes: u64 },
    UniformBindingTooLarge { required_bytes: u64, maximum_bytes: u64 },
    DispatchLimit { required: usize, maximum: u32 },
    PipelineValidation(String),
}

/// What a dispatch reads of the uploaded candidate buffers.
#[derive(Debug, Clone, Copy, PartialEq, Eq, Structural)]
pub struct StructuralSparseCandidateGeometry {
    pub seq_len: u32,
    pub query_rows: u32,
    pub key_count: u32,
    pub offsets_bytes: u64,
    pub key_positions_bytes: u64,
}

/// Sizes of the caller-owned buffers bound by one dispatch.
#[derive(Debug, Clone, Copy, PartialEq, Eq, Structural)]
pub struct StructuralSparseBufferSizes {
    pub q: u64,
    pub k: u64,
    pub v: u64,
    pub output: u64,
    pub lse: u64,
    pub row_status: u64,
}

/// The device limits a dispatch is checked against.
#[derive(Debug, Clone, Copy, PartialEq, Eq, Structural)]
pub struct DeviceDispatchLimits {
    pub max_compute_workgroups_per_dimension: u32,
    pub max_storage_buffer_binding_size: u64,
    pub max_uniform_buffer_binding_size: u64,
}

/// Everything the host encodes for one dispatch: the geometry, the uniform
/// parameter words and the workgroup count.
#[derive(Debug, Clone, PartialEq, Eq)]
pub struct StructuralSparseDispatch {
    pub layout: StructuralSparseWgpuLayout,
    pub params: Vec<u32>,
    pub workgroups: u32,
}

pub open spec fn failure(e: StructuralSparseWgpuError) -> Result<(), StructuralSparseWgpuError> {
    Err(e)
}

/// Shape and candidate geometry must agree, with at least one candidate.
pub open spec fn geometry_rule(
    shape: AttentionShape,
    seq_len: u32,
    query_rows: u32,
    key_count: int,
) -> Result<(), StructuralSparseWgpuError> {
    let rows = shape.batch * shape.heads * shape.seq_len;
    if !fits4(shape.batch, shape.heads, shape.seq_len, shape.head_dim) || !fits3(
        shape.batch,
        shape.heads,
        shape.seq_len,
    ) {
        failure(StructuralSparseWgpuError::Core(FlatAttentionError::ShapeOverflow))
    } else if shape.seq_len != seq_len || rows != query_rows {
        failure(
            StructuralSparseWgpuError::GeometryMismatch {
                shape_seq_len: shape.seq_len,
                plan_seq_len: seq_len,
                shape_query_rows: rows as usize,
                plan_query_rows: query_rows,
            },
        )
    } else if key_count == 0 {
        failure(StructuralSparseWgpuError::EmptyCandidateSet)
    } else {
        Ok(())
    }
}

/// Byte sizes of the dense tensors, the LSE rows and the row status words.
pub open spec fn sizes_rule(shape: AttentionShape) -> Result<(), StructuralSparseWgpuError> {
    let elements = shape.batch * shape.heads * shape.seq_len * shape.head_dim;
    let rows = shape.batch * shape.heads * shape.seq_len;
    if 4 * elements > usize::MAX {
        failure(StructuralSparseWgpuError::IndexSpaceExceeded { value: elements as usize })
    } else if 4 * rows > usize::MAX {
        failure(StructuralSparseWgpuError::IndexSpaceExceeded { value: rows as usize })
    } else {
        Ok(())
    }
}

/// The layout of a shape whose sizes are addressable.
pub open spec fn layout_of(
    shape: AttentionShape,
    offsets_bytes: u64,
    key_positions_bytes: u64,
) -> StructuralSparseWgpuLayout {
    let elements = shape.batch * shape.heads * shape.seq_len * shape.head_dim;
    let rows = shape.batch * shape.heads * shape.seq_len;
    StructuralSparseWgpuLayout {
        tensor_elements: elements as usize,
        query_rows: rows as usize,
        tensor_bytes: (4 * elements) as u64,
        lse_bytes: (4 * rows) as u64,
        status_bytes: (4 * rows) as u64,
        offsets_bytes,
        key_positions_bytes,
    }
}

fn bytes_for_words(elements: usize) -> (r: Result<u64, StructuralSparseWgpuError>)
    ensures
        4 * elements > usize::MAX ==> r == Err::<u64, StructuralSparseWgpuError>(
            StructuralSparseWgpuError::IndexSpaceExceeded { value: elements },
        ),
        4 * elements <= usize::MAX ==> r == Ok::<u64, StructuralSparseWgpuError>(
            (4 * elements) as u64,
        ),
{
    match elements.checked_mul(4) {
        Some(bytes) => Ok(bytes as u64),
        None => Err(StructuralSparseWgpuError::IndexSpaceExceeded { value: elements }),
    }
}

fn check_geometry(shape: AttentionShape, seq_len: u32, query_rows: u32, key_count: usize) -> (r:
    Result<(usize, usize), StructuralSparseWgpuError>)
    ensures
        geometry_rule(shape, seq_len, query_rows, key_count as int) is Err ==> r == Err::<
            (usize, usize),
            StructuralSparseWgpuError,
        >(geometry_rule(shape, seq_len, query_rows, key_count as int)->Err_0),
        geometry_rule(shape, seq_len, query_rows, key_count as int) is Ok ==> r == Ok::<
            (usize, usize),
            StructuralSparseWgpuError,
        >(
            (
                (shape.batch * shape.heads * shape.seq_len * shape.head_dim) as usize,
                (shape.batch * shape.heads * shape.seq_len) as usize,
            ),
        ),
{
    let elements = match shape.tensor_len() {
        Ok(elements) => elements,
        Err(error) => return Err(StructuralSparseWgpuError::Core(error)),
    };
    let rows = match shape.lse_len() {
        Ok(rows) => rows,
        Err(error) => return Err(StructuralSparseWgpuError::Core(error)),
    };
    if shape.seq_len != seq_len as usize || rows != query_rows as usize {
        return Err(
            StructuralSparseWgpuError::GeometryMismatch {
                shape_seq_len: shape.seq_len,
                plan_seq_len: seq_len,
                shape_query_rows: rows,
                plan_query_rows: query_rows,
            },
        );
    }
    if key_count == 0 {
        return Err(StructuralSparseWgpuError::EmptyCandidateSet);
    }
    Ok((elements, rows))
}

/// Buffer geometry of a structural sparse dispatch of `shape` over the
/// candidates of `plan`.
pub fn structural_sparse_layout(shape: AttentionShape, plan: &StructuralDevicePlan) -> (r: Result<
    StructuralSparseWgpuLayout,
    StructuralSparseWgpuError,
>)
    ensures
        ({
            let geometry = geometry_rule(
                shape,
                plan.spec_seq_len(),
                plan.spec_query_rows(),
                plan.spec_key_positions().len() as int,
            );
            if geometry is Err {
                r == Err::<StructuralSparseWgpuLayout, StructuralSparseWgpuError>(geometry->Err_0)
            } else if sizes_rule(shape) is Err {
                r == Err::<StructuralSparseWgpuLayout, StructuralSparseWgpuError>(
                    sizes_rule(shape)->Err_0,
                )
            } else {
                r == Ok::<StructuralSparseWgpuLayout, StructuralSparseWgpuError>(
                    layout_of(
                        shape,
                        (4 * plan.spec_offsets().len()) as u64,
                        (4 * plan.spec_key_positions().len()) as u64,
                    ),
                )
            }
        }),
{
    let (elements, rows) = check_geometry(
        shape,
        plan.seq_len(),
        plan.query_rows(),
        plan.admitted_count(),
    )?;
    let tensor_bytes = bytes_for_words(elements)?;
    let lse_bytes = bytes_for_words(rows)?;
    let status_bytes = bytes_for_words(rows)?;
    Ok(
        StructuralSparseWgpuLayout {
            tensor_elements: elements,
            query_rows: rows,
            tensor_bytes,
            lse_bytes,
            status_bytes,
            offsets_bytes: plan.offsets_bytes(),
            key_positions_bytes: plan.key_positions_bytes(),
        },
    )
}

pub open spec fn first_of(
    first: Result<(), StructuralSparseWgpuError>,
    second: Result<(), StructuralSparseWgpuError>,
) -> Result<(), StructuralSparseWgpuError> {
    if first is Err {
        first
    } else {
        second
    }
}

pub open spec fn buffer_rule(tensor: &'static str, actual: u64, required: u64) -> Result<
    (),
    StructuralSparseWgpuError,
> {
    if actual < required {
        failure(
            StructuralSparseWgpuError::BufferTooSmall {
                tensor,
                actual_bytes: actual,
                required_bytes: required,
            },
        )
    } else {
        Ok(())
    }
}

pub open spec fn binding_rule(tensor: &'static str, bytes: u64, maximum: u64) -> Result<
    (),
    StructuralSparseWgpuError,
> {
    if bytes > maximum {
        failure(
            StructuralSparseWgpuError::StorageBindingTooLarge {
                tensor,
                required_bytes: bytes,
                maximum_bytes: maximum,
            },
        )
    } else {
        Ok(())
    }
}

pub open spec fn word_rule(value: int) -> Result<(), StructuralSparseWgpuError> {
    if value > u32::MAX {
        failure(StructuralSparseWgpuError::IndexSpaceExceeded { value: value as usize })
    } else {
        Ok(())
    }
}

/// Workgroups covering `elements` invocations.
pub open spec fn workgroups_for(elements: int) -> int {
    (elements + STRUCTURAL_SPARSE_WORKGROUP_SIZE - 1) / (STRUCTURAL_SPARSE_WORKGROUP_SIZE as int)
}

/// Bytes of the eight uniform parameter words.
pub const STRUCTURAL_SPARSE_PARAMS_BYTES: u64 = 32;

/// Every check of one dispatch, in the order the host makes them.
pub open spec fn dispatch_rule(
    shape: AttentionShape,
    candidates: StructuralSparseCandidateGeometry,
    buffers: StructuralSparseBufferSizes,
    limits: DeviceDispatchLimits,
    scale_bits: Result<u32, FlatAttentionError>,
) -> Result<(), StructuralSparseWgpuError> {
    let layout = layout_of(shape, candidates.offsets_bytes, candidates.key_positions_bytes);
    let max_binding = limits.max_storage_buffer_binding_size;
    let workgroups = workgroups_for(layout.tensor_elements as int);
    first_of(
        geometry_rule(shape, candidates.seq_len, candidates.query_rows, candidates.key_count as int),
        first_of(
            sizes_rule(shape),
            first_of(
                first_of(
                    buffer_rule("Q", buffers.q, layout.tensor_bytes),
                    first_of(
                        buffer_rule("K", buffers.k, layout.tensor_bytes),
                        first_of(
                            buffer_rule("V", buffers.v, layout.tensor_bytes),
                            first_of(
                                buffer_rule("O", buffers.output, layout.tensor_bytes),
                                first_of(
                                    buffer_rule("LSE", buffers.lse, layout.lse_bytes),
                                    buffer_rule("row_status", buffers.row_status, layout.status_bytes),
                                ),
                            ),
                        ),
                    ),
                ),
                first_of(
                    first_of(
                        binding_rule("Q", layout.tensor_bytes, max_binding),
                        first_of(
                            binding_rule("K", layout.tensor_bytes, max_binding),
                            first_of(
                                binding_rule("V", layout.tensor_bytes, max_binding),
                                first_of(
                                    binding_rule("O", layout.tensor_bytes, max_binding),
                                    first_of(
                                        binding_rule("offsets", layout.offsets_bytes, max_binding),
                                        first_of(
                                            binding_rule(
                                                "key_positions",
                                                layout.key_positions_bytes,
                                                max_binding,
                                            ),
                                            first_of(
                                                binding_rule("LSE", layout.lse_bytes, max_binding),
                                                binding_rule(
                                                    "row_status",
                                                    layout.status_bytes,
                                                    max_binding,
                                                ),
                                            ),
                                        ),
                                    ),
                                ),
                            ),
                        ),
                    ),
                    if scale_bits is Err {
                        failure(StructuralSparseWgpuError::Core(scale_bits->Err_0))
                    } else {
                        first_of(
                            word_rule(shape.seq_len as int),
                            first_of(
                                word_rule(shape.head_dim as int),
                                first_of(
                                    word_rule(layout.query_rows as int),
                                    if STRUCTURAL_SPARSE_PARAMS_BYTES
                                        > limits.max_uniform_buffer_binding_size {
                                        failure(
                                            StructuralSparseWgpuError::UniformBindingTooLarge {
                                                required_bytes: STRUCTURAL_SPARSE_PARAMS_BYTES,
                                                maximum_bytes: limits.max_uniform_buffer_binding_size,
                                            },
                                        )
                                    } else if workgroups
                                        > limits.max_compute_workgroups_per_dimension {
                                        failure(
                                            StructuralSparseWgpuError::DispatchLimit {
                                                required: workgroups as usize,
                                                maximum: limits.max_compute_workgroups_per_dimension,
                                            },
                                        )
                                    } else {
                                        Ok(())
                                    },
                                ),
                            ),
                        )
                    },
                ),
            ),
        ),
    )
}

fn check_buffer(tensor: &'static str, actual: u64, required: u64) -> (r: Result<
    (),
    StructuralSparseWgpuError,
>)
    ensures
        r == buffer_rule(tensor, actual, required),
{
    if actual < required {
        return Err(
            StructuralSparseWgpuError::BufferTooSmall {
                tensor,
                actual_bytes: actual,
                required_bytes: required,
            },
        );
    }
    Ok(())
}

fn check_binding(tensor: &'static str, bytes: u64, maximum: u64) -> (r: Result<
    (),
    StructuralSparseWgpuError,
>)
    ensures
        r == binding_rule(tensor, bytes, maximum),
{
    if bytes > maximum {
        return Err(
            StructuralSparseWgpuError::StorageBindingTooLarge {
                tensor,
                required_bytes: bytes,
                maximum_bytes: maximum,
            },
        );
    }
    Ok(())
}

fn checked_word(value: usize) -> (r: Result<u32, StructuralSparseWgpuError>)
    ensures
        word_rule(value as int) is Err ==> r == Err::<u32, StructuralSparseWgpuError>(
            word_rule(value as int)->Err_0,
        ),
        word_rule(value as int) is Ok ==> r == Ok::<u32, StructuralSparseWgpuError>(value as u32),
{
    if value > 0xffff_ffff {
        return Err(StructuralSparseWgpuError::IndexSpaceExceeded { value });
    }
    Ok(value as u32)
}

/// Check one structural sparse dispatch of `shape` against the uploaded
/// candidates, the caller's buffers and the device limits, and produce its
/// uniform parameter words: `seq_len`, `head_dim`, query rows, the causal flag,
/// the softmax scale's bits, the candidate count and two zero words.
/// `scale_bits` is the outcome of resolving the softmax scale for `shape`.
pub fn plan_structural_sparse_dispatch(
    shape: AttentionShape,
    candidates: StructuralSparseCandidateGeometry,
    buffers: StructuralSparseBufferSizes,
    limits: DeviceDispatchLimits,
    causal: bool,
    scale_bits: Result<u32, FlatAttentionError>,
) -> (r: Result<StructuralSparseDispatch, StructuralSparseWgpuError>)
    ensures
        match dispatch_rule(shape, candidates, buffers, limits, scale_bits) {
            Err(e) => r == Err::<StructuralSparseDispatch, StructuralSparseWgpuError>(e),
            Ok(()) => r matches Ok(d) && {
                let layout = layout_of(
                    shape,
                    candidates.offsets_bytes,
                    candidates.key_positions_bytes,
                );
                &&& d.layout == layout
                &&& d.params@ == seq![
                    shape.seq_len as u32,
                    shape.head_dim as u32,
                    layout.query_rows as u32,
                    if causal {
                        1u32
                    } else {
                        0u32
                    },
                    scale_bits->Ok_0,
                    candidates.key_count,
                    0u32,
                    0u32,
                ]
                &&& d.workgroups == workgroups_for(layout.tensor_elements as int)
            },
        },
{
    let (elements, rows) = check_geometry(
        shape,
        candidates.seq_len,
        candidates.query_rows,
        candidates.key_count as usize,
    )?;
    let tensor_bytes = bytes_for_words(elements)?;
    let lse_bytes = bytes_for_words(rows)?;
    let status_bytes = bytes_for_words(rows)?;
    let layout = StructuralSparseWgpuLayout {
        tensor_elements: elements,
        query_rows: rows,
        tensor_bytes,
        lse_bytes,
        status_bytes,
        offsets_bytes: candidates.offsets_bytes,
        key_positions_bytes: candidates.key_positions_bytes,
    };
    check_buffer("Q", buffers.q, tensor_bytes)?;
    check_buffer("K", buffers.k, tensor_bytes)?;
    check_buffer("V", buffers.v, tensor_bytes)?;
    check_buffer("O", buffers.output, tensor_bytes)?;
    check_buffer("LSE", buffers.lse, lse_bytes)?;
    check_buffer("row_status", buffers.row_status, status_bytes)?;
    let max_binding = limits.max_storage_buffer_binding_size;
    check_binding("Q", tensor_bytes, max_binding)?;
    check_binding("K", tensor_bytes, max_binding)?;
    check_binding("V", tensor_bytes, max_binding)?;
    check_binding("O", tensor_bytes, max_binding)?;
    check_binding("offsets", candidates.offsets_bytes, max_binding)?;
    check_binding("key_positions", candidates.key_positions_bytes, max_binding)?;
    check_binding("LSE", lse_bytes, max_binding)?;
    check_binding("row_status", status_bytes, max_binding)?;
    let scale = match scale_bits {
        Ok(bits) => bits,
        Err(error) => return Err(StructuralSparseWgpuError::Core(error)),
    };
    let seq_len_word = checked_word(shape.seq_len)?;
    let head_dim_word = checked_word(shape.head_dim)?;
    let rows_word = checked_word(rows)?;
    if STRUCTURAL_SPARSE_PARAMS_BYTES > limits.max_uniform_buffer_binding_size {
        return Err(
            StructuralSparseWgpuError::UniformBindingTooLarge {
                required_bytes: STRUCTURAL_SPARSE_PARAMS_BYTES,
                maximum_bytes: limits.max_uniform_buffer_binding_size,
            },
        );
    }
    let workgroups = elements / STRUCTURAL_SPARSE_WORKGROUP_SIZE + if elements
        % STRUCTURAL_SPARSE_WORKGROUP_SIZE == 0 {
        0
    } else {
        1
    };
    if workgroups > limits.max_compute_workgroups_per_dimension as usize {
        return Err(
            StructuralSparseWgpuError::DispatchLimit {
                required: workgroups,
                maximum: limits.max_compute_workgroups_per_dimension,
            },
        );
    }
    let mut params: Vec<u32> = Vec::new();
    params.push(seq_len_word);
    params.push(head_dim_word);
    params.push(rows_word);
    params.push(if causal {
        1
    } else {
        0
    });
    params.push(scale);
    params.push(candidates.key_count);
    params.push(0);
    params.push(0);
    proof {
        assert(params@ =~= seq![
            shape.seq_len as u32,
            shape.head_dim as u32,
            layout.query_rows as u32,
            if causal {
                1u32
            } else {
                0u32
            },
            scale_bits->Ok_0,
            candidates.key_count,
            0u32,
            0u32,
        ]);
    }
    Ok(StructuralSparseDispatch { layout, params, workgroups: workgroups as u32 })
}

} // verus!
