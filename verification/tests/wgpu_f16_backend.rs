use flat_attention::attention_shape::{AttentionShape, FlatAttentionError};
use flat_attention::wgpu_backend::ResidentOperand;
use flat_attention::wgpu_f16_backend::{
    io_precision_for_head_dim, pack_f16_pairs, plan_packed_f16_forward, unpack_f16_pairs,
    WgpuF16AttentionError, WgpuIoPrecision,
};

fn shape(head_dim: usize) -> AttentionShape {
    AttentionShape {
        batch: 1,
        heads: 2,
        seq_len: 5,
        head_dim,
    }
}

fn operand(len: usize) -> ResidentOperand {
    ResidentOperand { owner: 1, len }
}

#[test]
fn packed_io_only_for_supported_head_dims() {
    assert_eq!(io_precision_for_head_dim(true, 64), WgpuIoPrecision::PackedF16);
    assert_eq!(io_precision_for_head_dim(true, 128), WgpuIoPrecision::PackedF16);
    assert_eq!(io_precision_for_head_dim(true, 96), WgpuIoPrecision::F32);
    assert_eq!(io_precision_for_head_dim(false, 64), WgpuIoPrecision::F32);
}

#[test]
fn pairs_pack_low_half_first_and_round_trip() {
    let bits = [0x3c00u16, 0xc000, 0x7bff, 0x0001];
    let words = pack_f16_pairs(&bits).unwrap();
    assert_eq!(words, vec![0xc000_3c00, 0x0001_7bff]);
    assert_eq!(unpack_f16_pairs(&words), bits.to_vec());
    assert_eq!(
        pack_f16_pairs(&bits[..3]),
        Err(WgpuF16AttentionError::OddPackedLength { actual: 3 })
    );
}

#[test]
fn packed_forward_plan_counts_packed_words() {
    let dispatch = plan_packed_f16_forward(
        shape(64),
        256,
        16,
        65535,
        1 << 27,
        1,
        operand(640),
        operand(640),
        operand(640),
        true,
        Ok(5),
    )
    .unwrap();
    assert_eq!(dispatch.tensor_len, 640);
    assert_eq!(dispatch.lse_len, 10);
    assert_eq!(dispatch.output_words, 330);
    assert_eq!(dispatch.output_bytes, 1320);
    assert_eq!(dispatch.params, vec![5, 64, 2, 1, 5, 0, 0, 0]);
    assert_eq!(dispatch.query_workgroups, 1);
    assert_eq!(dispatch.batch_heads, 2);
}

#[test]
fn packed_forward_plan_rejections() {
    assert_eq!(
        plan_packed_f16_forward(
            shape(32),
            256,
            16,
            65535,
            1 << 27,
            1,
            operand(320),
            operand(320),
            operand(320),
            true,
            Ok(5)
        )
        .unwrap_err(),
        WgpuF16AttentionError::UnsupportedHeadDim { actual: 32 }
    );
    // 4 buffers of 320 packed words each.
    assert_eq!(
        plan_packed_f16_forward(
            shape(64),
            256,
            16,
            65535,
            5119,
            1,
            operand(640),
            operand(640),
            operand(640),
            true,
            Ok(5)
        )
        .unwrap_err(),
        WgpuF16AttentionError::DeviceBufferLimit {
            required_bytes: 5120,
            maximum_bytes: 5119
        }
    );
    assert_eq!(
        plan_packed_f16_forward(
            shape(64),
            256,
            16,
            65535,
            1 << 27,
            1,
            operand(640),
            operand(640),
            operand(640),
            true,
            Err(FlatAttentionError::ZeroDimension)
        )
        .unwrap_err(),
        WgpuF16AttentionError::Core(FlatAttentionError::ZeroDimension)
    );
}
