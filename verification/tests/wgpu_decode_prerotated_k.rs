use flat_attention::attention_shape::FlatAttentionError;
use flat_attention::rotary_grouped::RotaryEmbeddingConfig;
use flat_attention::wgpu_decode_prerotated_k::{
    plan_prerotated_decode, prerotated_decode_layout, PreRotatedKDecodeShape,
};
use flat_attention::wgpu_external::{ExternalProjectionBuffers, ExternalWgpuError};

fn shape() -> PreRotatedKDecodeShape {
    PreRotatedKDecodeShape {
        q_heads: 4,
        kv_heads: 2,
        kv_len: 10,
        head_dim: 8,
    }
}

fn rotary(position_offset: usize) -> RotaryEmbeddingConfig {
    RotaryEmbeddingConfig {
        theta_bits: 10_000.0f32.to_bits(),
        position_offset,
    }
}

fn buffers() -> ExternalProjectionBuffers {
    ExternalProjectionBuffers {
        q_bytes: 128,
        k_bytes: 640,
        v_bytes: 640,
        out_and_lse_bytes: 144,
    }
}

#[test]
fn prerotated_decode_words_and_workgroups() {
    let layout = prerotated_decode_layout(shape()).unwrap();
    assert_eq!(layout.kv_bytes, 640);
    assert_eq!(layout.combined_bytes, 144);
    let scale = 0.25f32.to_bits();
    let dispatch =
        plan_prerotated_decode(shape(), rotary(9), buffers(), Ok(scale), 65535, 256).unwrap();
    assert_eq!(dispatch.layout, layout);
    assert_eq!(dispatch.workgroups, 4);
    let mut expected = vec![10, 8, 4, 2, scale, 10_000.0f32.to_bits(), 9];
    expected.resize(16, 0);
    assert_eq!(dispatch.params, expected);
}

#[test]
fn prerotated_decode_rejections() {
    assert_eq!(
        plan_prerotated_decode(shape(), rotary(1 << 32), buffers(), Ok(1), 65535, 256)
            .unwrap_err(),
        ExternalWgpuError::Core(FlatAttentionError::PositionOverflow)
    );
    assert_eq!(
        plan_prerotated_decode(shape(), rotary(0), buffers(), Ok(1), 3, 256).unwrap_err(),
        ExternalWgpuError::DispatchLimit {
            axis: "x/q_heads",
            actual: 4,
            maximum: 3
        }
    );
    let bad_theta = RotaryEmbeddingConfig {
        theta_bits: f32::INFINITY.to_bits(),
        position_offset: 0,
    };
    assert_eq!(
        plan_prerotated_decode(shape(), bad_theta, buffers(), Ok(1), 65535, 256).unwrap_err(),
        ExternalWgpuError::Core(FlatAttentionError::InvalidRotaryTheta(
            f32::INFINITY.to_bits()
        ))
    );
    let mut short = buffers();
    short.k_bytes = 639;
    assert_eq!(
        plan_prerotated_decode(shape(), rotary(0), short, Ok(1), 65535, 256).unwrap_err(),
        ExternalWgpuError::BufferTooSmall {
            tensor: "K",
            actual_bytes: 639,
            required_bytes: 640
        }
    );
}
