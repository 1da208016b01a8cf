use flat_attention::attention_shape::{FlatAttentionError, GroupedAttentionShape};
use flat_attention::research_structural_wgpu::DeviceDispatchLimits;
use flat_attention::rotary_grouped::RotaryEmbeddingConfig;
use flat_attention::wgpu_external::{
    external_output_buffer_bytes, external_projection_layout, plan_external_projection,
    ExternalProjectionBuffers, ExternalProjectionLayout, ExternalWgpuError,
};

const MAX_HEAD_DIM: usize = 256;
const QUERY_ROWS: usize = 16;

fn shape() -> GroupedAttentionShape {
    GroupedAttentionShape {
        batch: 2,
        q_heads: 4,
        kv_heads: 2,
        seq_len: 20,
        head_dim: 8,
    }
}

fn rotary() -> RotaryEmbeddingConfig {
    RotaryEmbeddingConfig {
        theta_bits: 10_000.0f32.to_bits(),
        position_offset: 5,
    }
}

fn limits() -> DeviceDispatchLimits {
    DeviceDispatchLimits {
        max_compute_workgroups_per_dimension: 65535,
        max_storage_buffer_binding_size: 1 << 27,
        max_uniform_buffer_binding_size: 1 << 16,
    }
}

fn buffers() -> ExternalProjectionBuffers {
    ExternalProjectionBuffers {
        q_bytes: 5120,
        k_bytes: 2560,
        v_bytes: 2560,
        out_and_lse_bytes: 5760,
    }
}

#[test]
fn projection_layout_counts_every_tensor() {
    assert_eq!(
        external_projection_layout(shape()).unwrap(),
        ExternalProjectionLayout {
            q_elements: 1280,
            kv_elements: 640,
            output_elements: 1280,
            lse_elements: 160,
            combined_elements: 1440,
            q_bytes: 5120,
            kv_bytes: 2560,
            combined_bytes: 5760,
        }
    );
    let mut grouped = shape();
    grouped.kv_heads = 3;
    assert_eq!(
        external_projection_layout(grouped).unwrap_err(),
        ExternalWgpuError::Core(FlatAttentionError::InvalidHeadGrouping {
            q_heads: 4,
            kv_heads: 3
        })
    );
}

#[test]
fn output_buffer_must_fit_one_storage_binding() {
    assert_eq!(external_output_buffer_bytes(shape(), 5760), Ok(5760));
    assert_eq!(
        external_output_buffer_bytes(shape(), 5759),
        Err(ExternalWgpuError::DeviceBufferLimit {
            required_bytes: 5760,
            maximum_bytes: 5759
        })
    );
}

#[test]
fn accepted_pass_has_exact_params_and_grid() {
    let scale = 0.25f32.to_bits();
    let dispatch = plan_external_projection(
        shape(),
        rotary(),
        buffers(),
        true,
        Ok(scale),
        limits(),
        MAX_HEAD_DIM,
        QUERY_ROWS,
    )
    .unwrap();
    assert_eq!(dispatch.layout, external_projection_layout(shape()).unwrap());
    assert_eq!(
        dispatch.params,
        vec![20, 8, 4, 2, 2, 1, scale, 10_000.0f32.to_bits(), 5, 0, 0, 0]
    );
    assert_eq!(dispatch.query_workgroups, 2);
    assert_eq!(dispatch.q_batch_heads, 8);
}

#[test]
fn pass_rejections_follow_check_order() {
    let plan = |shape, rotary, buffers, limits, max_head_dim| {
        plan_external_projection(
            shape,
            rotary,
            buffers,
            false,
            Ok(1),
            limits,
            max_head_dim,
            QUERY_ROWS,
        )
    };
    let mut odd = shape();
    odd.head_dim = 7;
    assert_eq!(
        plan(odd, rotary(), buffers(), limits(), MAX_HEAD_DIM).unwrap_err(),
        ExternalWgpuError::Core(FlatAttentionError::InvalidRotaryHeadDim { head_dim: 7 })
    );
    assert_eq!(
        plan(shape(), rotary(), buffers(), limits(), 4).unwrap_err(),
        ExternalWgpuError::UnsupportedHeadDim {
            actual: 8,
            maximum: 4
        }
    );
    let late = RotaryEmbeddingConfig {
        theta_bits: rotary().theta_bits,
        position_offset: u32::MAX as usize - 18,
    };
    assert_eq!(
        plan(shape(), late, buffers(), limits(), MAX_HEAD_DIM).unwrap_err(),
        ExternalWgpuError::Core(FlatAttentionError::PositionOverflow)
    );
    let mut tight = limits();
    tight.max_compute_workgroups_per_dimension = 1;
    assert_eq!(
        plan(shape(), rotary(), buffers(), tight, MAX_HEAD_DIM).unwrap_err(),
        ExternalWgpuError::DispatchLimit {
            axis: "x/query_tiles",
            actual: 2,
            maximum: 1
        }
    );
    tight.max_compute_workgroups_per_dimension = 7;
    assert_eq!(
        plan(shape(), rotary(), buffers(), tight, MAX_HEAD_DIM).unwrap_err(),
        ExternalWgpuError::DispatchLimit {
            axis: "y/batch_q_heads",
            actual: 8,
            maximum: 7
        }
    );
    let mut short = buffers();
    short.v_bytes = 2559;
    assert_eq!(
        plan(shape(), rotary(), short, limits(), MAX_HEAD_DIM).unwrap_err(),
        ExternalWgpuError::BufferTooSmall {
            tensor: "V",
            actual_bytes: 2559,
            required_bytes: 2560
        }
    );
    let mut huge = shape();
    huge.seq_len = 1 << 26;
    assert_eq!(
        plan(huge, rotary(), buffers(), limits(), MAX_HEAD_DIM).unwrap_err(),
        ExternalWgpuError::IndexSpaceExceeded {
            elements: 9 * (1 << 29)
        }
    );
    assert_eq!(
        plan_external_projection(
            shape(),
            rotary(),
            buffers(),
            false,
            Err(FlatAttentionError::ShapeOverflow),
            limits(),
            MAX_HEAD_DIM,
            QUERY_ROWS
        )
        .unwrap_err(),
        ExternalWgpuError::Core(FlatAttentionError::ShapeOverflow)
    );
}
