use flat_attention::attention_shape::{AttentionShape, FlatAttentionError};
use flat_attention::research_structural_device::StructuralDevicePlan;
use flat_attention::research_structural_wgpu::{
    plan_structural_sparse_dispatch, structural_sparse_layout, DeviceDispatchLimits,
    StructuralSparseBufferSizes, StructuralSparseCandidateGeometry, StructuralSparseWgpuError,
    StructuralSparseWgpuLayout,
};

fn shape() -> AttentionShape {
    AttentionShape {
        batch: 1,
        heads: 2,
        seq_len: 4,
        head_dim: 40,
    }
}

/// Every query row of both heads admits its causal prefix.
fn plan() -> StructuralDevicePlan {
    let mut offsets = vec![0u32];
    let mut keys = Vec::new();
    for _head in 0..2 {
        for row in 0..4u32 {
            for key in 0..=row {
                keys.push(key);
            }
            offsets.push(keys.len() as u32);
        }
    }
    StructuralDevicePlan::from_u32_parts(4, 8, offsets, keys).unwrap()
}

fn candidates() -> StructuralSparseCandidateGeometry {
    StructuralSparseCandidateGeometry {
        seq_len: 4,
        query_rows: 8,
        key_count: 20,
        offsets_bytes: 36,
        key_positions_bytes: 80,
    }
}

fn buffers() -> StructuralSparseBufferSizes {
    StructuralSparseBufferSizes {
        q: 1280,
        k: 1280,
        v: 1280,
        output: 1280,
        lse: 32,
        row_status: 32,
    }
}

fn limits() -> DeviceDispatchLimits {
    DeviceDispatchLimits {
        max_compute_workgroups_per_dimension: 65535,
        max_storage_buffer_binding_size: 1 << 27,
        max_uniform_buffer_binding_size: 1 << 16,
    }
}

#[test]
fn layout_follows_shape_and_plan() {
    assert_eq!(
        structural_sparse_layout(shape(), &plan()),
        Ok(StructuralSparseWgpuLayout {
            tensor_elements: 320,
            query_rows: 8,
            tensor_bytes: 1280,
            lse_bytes: 32,
            status_bytes: 32,
            offsets_bytes: 36,
            key_positions_bytes: 80,
        })
    );
    let mut other = shape();
    other.seq_len = 8;
    assert_eq!(
        structural_sparse_layout(other, &plan()),
        Err(StructuralSparseWgpuError::GeometryMismatch {
            shape_seq_len: 8,
            plan_seq_len: 4,
            shape_query_rows: 16,
            plan_query_rows: 8,
        })
    );
}

#[test]
fn dispatch_plan_carries_exact_uniform_words() {
    let dispatch = plan_structural_sparse_dispatch(
        shape(),
        candidates(),
        buffers(),
        limits(),
        true,
        Ok(0.5f32.to_bits()),
    )
    .unwrap();
    assert_eq!(dispatch.layout.tensor_elements, 320);
    assert_eq!(
        dispatch.params,
        vec![4, 40, 8, 1, 0.5f32.to_bits(), 20, 0, 0]
    );
    assert_eq!(dispatch.workgroups, 5);
}

#[test]
fn dispatch_checks_fail_closed_in_order() {
    let mut small = buffers();
    small.lse = 31;
    assert_eq!(
        plan_structural_sparse_dispatch(shape(), candidates(), small, limits(), false, Ok(0)),
        Err(StructuralSparseWgpuError::BufferTooSmall {
            tensor: "LSE",
            actual_bytes: 31,
            required_bytes: 32,
        })
    );
    let mut tight = limits();
    tight.max_storage_buffer_binding_size = 64;
    assert_eq!(
        plan_structural_sparse_dispatch(shape(), candidates(), buffers(), tight, false, Ok(0)),
        Err(StructuralSparseWgpuError::StorageBindingTooLarge {
            tensor: "Q",
            required_bytes: 1280,
            maximum_bytes: 64,
        })
    );
    assert_eq!(
        plan_structural_sparse_dispatch(
            shape(),
            candidates(),
            buffers(),
            limits(),
            false,
            Err(FlatAttentionError::ZeroDimension)
        ),
        Err(StructuralSparseWgpuError::Core(FlatAttentionError::ZeroDimension))
    );
    let mut few = limits();
    few.max_compute_workgroups_per_dimension = 4;
    assert_eq!(
        plan_structural_sparse_dispatch(shape(), candidates(), buffers(), few, false, Ok(0)),
        Err(StructuralSparseWgpuError::DispatchLimit {
            required: 5,
            maximum: 4,
        })
    );
    let mut empty = candidates();
    empty.key_count = 0;
    assert_eq!(
        plan_structural_sparse_dispatch(shape(), empty, buffers(), limits(), false, Ok(0)),
        Err(StructuralSparseWgpuError::EmptyCandidateSet)
    );
    let mut no_uniform = limits();
    no_uniform.max_uniform_buffer_binding_size = 16;
    assert_eq!(
        plan_structural_sparse_dispatch(shape(), candidates(), buffers(), no_uniform, false, Ok(0)),
        Err(StructuralSparseWgpuError::UniformBindingTooLarge {
            required_bytes: 32,
            maximum_bytes: 16,
        })
    );
}
