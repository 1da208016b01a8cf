use flat_attention::attention_shape::{AsymmetricGroupedAttentionShape, FlatAttentionError};
use flat_attention::research_structural_wgpu::DeviceDispatchLimits;
use flat_attention::wgpu_decode::{
    plan_external_pre_rotated_decode, plan_resident_decode, resident_decode_layout,
    validate_external_decode_semantics, ResidentDecodeBuffers, ResidentDecodeError,
    ResidentDecodeLayout, ResidentKvGeometry,
};
use flat_attention::wgpu_kv_cache::{ResidentAppendSource, ResidentKvCacheState};

const MAX_HEAD_DIM: usize = 256;

fn limits() -> DeviceDispatchLimits {
    DeviceDispatchLimits {
        max_compute_workgroups_per_dimension: 65535,
        max_storage_buffer_binding_size: 1 << 27,
        max_uniform_buffer_binding_size: 1 << 16,
    }
}

fn kv() -> ResidentKvGeometry {
    ResidentKvGeometry {
        batch: 1,
        kv_heads: 2,
        capacity: 8,
        head_dim: 4,
        len: 3,
        k_bytes: 256,
        v_bytes: 256,
    }
}

fn buffers() -> ResidentDecodeBuffers {
    ResidentDecodeBuffers {
        q_bytes: 64,
        out_and_lse_bytes: 80,
    }
}

fn plan(
    kv: ResidentKvGeometry,
    theta: f32,
    causal: bool,
    q_causal_position: usize,
) -> Result<flat_attention::wgpu_decode::ResidentDecodeDispatch, ResidentDecodeError> {
    plan_resident_decode(
        kv,
        4,
        MAX_HEAD_DIM,
        buffers(),
        theta.to_bits(),
        causal,
        7,
        q_causal_position,
        Ok(0.5f32.to_bits()),
        limits(),
    )
}

#[test]
fn layout_counts_query_output_and_lse() {
    assert_eq!(
        resident_decode_layout(kv(), 4, MAX_HEAD_DIM).unwrap(),
        ResidentDecodeLayout {
            q_elements: 16,
            output_elements: 16,
            lse_elements: 4,
            combined_elements: 20,
            q_bytes: 64,
            combined_bytes: 80,
        }
    );
}

#[test]
fn layout_rejects_invalid_views_in_order() {
    let mut empty = kv();
    empty.len = 0;
    assert_eq!(
        resident_decode_layout(empty, 4, MAX_HEAD_DIM).unwrap_err(),
        ResidentDecodeError::EmptyCache
    );
    let mut long = kv();
    long.len = 9;
    assert_eq!(
        resident_decode_layout(long, 4, MAX_HEAD_DIM).unwrap_err(),
        ResidentDecodeError::InvalidCacheLength { len: 9, capacity: 8 }
    );
    let mut odd = kv();
    odd.head_dim = 3;
    assert_eq!(
        resident_decode_layout(odd, 4, MAX_HEAD_DIM).unwrap_err(),
        ResidentDecodeError::Core(FlatAttentionError::InvalidRotaryHeadDim { head_dim: 3 })
    );
    assert_eq!(
        resident_decode_layout(kv(), 4, 2).unwrap_err(),
        ResidentDecodeError::UnsupportedHeadDim {
            actual: 4,
            maximum: 2
        }
    );
    let mut small = kv();
    small.v_bytes = 255;
    assert_eq!(
        resident_decode_layout(small, 4, MAX_HEAD_DIM).unwrap_err(),
        ResidentDecodeError::BufferTooSmall {
            tensor: "V",
            actual_bytes: 255,
            required_bytes: 256
        }
    );
    assert_eq!(
        resident_decode_layout(kv(), 3, MAX_HEAD_DIM).unwrap_err(),
        ResidentDecodeError::Core(FlatAttentionError::InvalidHeadGrouping {
            q_heads: 3,
            kv_heads: 2
        })
    );
    let mut huge = kv();
    huge.capacity = 1 << 30;
    huge.len = 1;
    assert_eq!(
        resident_decode_layout(huge, 4, MAX_HEAD_DIM).unwrap_err(),
        ResidentDecodeError::IndexSpaceExceeded { elements: 1 << 33 }
    );
}

#[test]
fn accepted_dispatch_carries_exact_params() {
    let theta = 10000.0f32;
    let dispatch = plan(kv(), theta, true, 2).unwrap();
    assert_eq!(dispatch.kv_bytes, 256);
    assert_eq!(dispatch.workgroups, 4);
    assert_eq!(
        dispatch.params,
        vec![3, 8, 4, 4, 2, 1, 0.5f32.to_bits(), theta.to_bits(), 7, 0, 0, 0]
    );
}

#[test]
fn theta_must_be_finite_and_positive() {
    for theta in [0.0f32, -0.0, -1.0, f32::INFINITY, f32::NAN] {
        assert_eq!(
            plan(kv(), theta, false, 0).unwrap_err(),
            ResidentDecodeError::InvalidTheta(theta.to_bits())
        );
    }
    assert!(plan(kv(), f32::MIN_POSITIVE / 2.0, false, 0).is_ok());
    assert!(plan(kv(), f32::MAX, false, 0).is_ok());
}

#[test]
fn causal_query_must_see_every_live_row() {
    assert_eq!(
        plan(kv(), 1.0, true, 1).unwrap_err(),
        ResidentDecodeError::CausalVisibilityMismatch {
            query_position: 1,
            kv_len: 3
        }
    );
    assert_eq!(
        plan(kv(), 1.0, true, usize::MAX).unwrap_err(),
        ResidentDecodeError::Core(FlatAttentionError::PositionOverflow)
    );
    assert!(plan(kv(), 1.0, false, 0).is_ok());
}

#[test]
fn dispatch_rejects_buffers_scale_and_limits() {
    let short = ResidentDecodeBuffers {
        q_bytes: 63,
        out_and_lse_bytes: 80,
    };
    assert_eq!(
        plan_resident_decode(kv(), 4, MAX_HEAD_DIM, short, 1, false, 0, 0, Ok(1), limits())
            .unwrap_err(),
        ResidentDecodeError::BufferTooSmall {
            tensor: "Q",
            actual_bytes: 63,
            required_bytes: 64
        }
    );
    assert_eq!(
        plan_resident_decode(
            kv(),
            4,
            MAX_HEAD_DIM,
            buffers(),
            1,
            false,
            0,
            0,
            Err(FlatAttentionError::ZeroDimension),
            limits()
        )
        .unwrap_err(),
        ResidentDecodeError::Core(FlatAttentionError::ZeroDimension)
    );
    let mut tight = limits();
    tight.max_compute_workgroups_per_dimension = 3;
    assert_eq!(
        plan_resident_decode(kv(), 4, MAX_HEAD_DIM, buffers(), 1, false, 0, 0, Ok(1), tight)
            .unwrap_err(),
        ResidentDecodeError::DispatchLimit {
            actual: 4,
            maximum: 3
        }
    );
    let mut narrow = limits();
    narrow.max_storage_buffer_binding_size = 100;
    assert_eq!(
        plan_resident_decode(kv(), 4, MAX_HEAD_DIM, buffers(), 1, false, 0, 0, Ok(1), narrow)
            .unwrap_err(),
        ResidentDecodeError::StorageBindingTooLarge {
            tensor: "K",
            required_bytes: 256,
            maximum_bytes: 100
        }
    );
    assert_eq!(
        plan_resident_decode(
            kv(),
            4,
            MAX_HEAD_DIM,
            buffers(),
            1,
            false,
            1 << 40,
            0,
            Ok(1),
            limits()
        )
        .unwrap_err(),
        ResidentDecodeError::IndexSpaceExceeded { elements: 1 << 40 }
    );
}

#[test]
fn cache_view_is_accepted_by_decode() {
    let mut cache = ResidentKvCacheState::new(1, 2, 8, 4, 1 << 30).unwrap();
    let source = ResidentAppendSource {
        size_bytes: 96,
        copy_src: true,
    };
    cache.plan_append(3, source, source).unwrap();
    let view = ResidentKvGeometry::from_cache(&cache);
    assert_eq!(view, kv());
    assert!(plan(view, 1.0, true, 2).is_ok());
}

#[test]
fn external_decode_requires_single_visible_query_row() {
    let shape = AsymmetricGroupedAttentionShape {
        batch: 1,
        q_heads: 4,
        kv_heads: 2,
        query_len: 1,
        kv_len: 3,
        head_dim: 4,
        query_position_offset: 2,
    };
    assert_eq!(validate_external_decode_semantics(shape, true), Ok(()));
    let mut two_rows = shape;
    two_rows.query_len = 2;
    assert_eq!(
        validate_external_decode_semantics(two_rows, false).unwrap_err(),
        ResidentDecodeError::InvalidQueryLen { actual: 2 }
    );
    let mut early = shape;
    early.query_position_offset = 0;
    assert_eq!(
        validate_external_decode_semantics(early, true).unwrap_err(),
        ResidentDecodeError::CausalVisibilityMismatch {
            query_position: 0,
            kv_len: 3
        }
    );
    let dispatch = plan_external_pre_rotated_decode(
        shape,
        8,
        256,
        256,
        MAX_HEAD_DIM,
        buffers(),
        1.0f32.to_bits(),
        true,
        9,
        Ok(0.5f32.to_bits()),
        limits(),
    )
    .unwrap();
    assert_eq!(dispatch.params[0], 3);
    assert_eq!(dispatch.params[1], 8);
    assert_eq!(dispatch.params[8], 9);
}
