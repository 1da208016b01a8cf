use flat_attention::attention_shape::{AttentionShape, FlatAttentionError, GroupedAttentionShape};
use flat_attention::wgpu_backward::{
    backward_recompute_layout, plan_backward_recompute, BackwardRecomputeError,
};
use flat_attention::wgpu_backward_grouped::{
    grouped_backward_recompute_layout, plan_grouped_backward_recompute,
    GroupedBackwardRecomputeError,
};

fn shape() -> AttentionShape {
    AttentionShape {
        batch: 1,
        heads: 2,
        seq_len: 4,
        head_dim: 8,
    }
}

fn grouped() -> GroupedAttentionShape {
    GroupedAttentionShape {
        batch: 1,
        q_heads: 4,
        kv_heads: 2,
        seq_len: 4,
        head_dim: 8,
    }
}

#[test]
fn backward_records_are_packed_back_to_back() {
    let layout = backward_recompute_layout(shape()).unwrap();
    assert_eq!(layout.tensor_elements, 64);
    assert_eq!(layout.lse_elements, 8);
    assert_eq!(layout.packed_forward_elements, 4 * 64 + 8);
    assert_eq!(layout.gradient_elements, 3 * 64);
    assert_eq!(layout.packed_forward_bytes, 4 * 264);
    assert_eq!(layout.output_offset(), 3 * 64);
    assert_eq!(layout.gradient_bytes, 4 * 192);
    assert_eq!(layout.lse_offset(), 4 * 64);
    assert_eq!(layout.dv_offset(), 2 * 64);
    let mut empty = shape();
    empty.seq_len = 0;
    assert_eq!(
        backward_recompute_layout(empty),
        Err(BackwardRecomputeError::Core(FlatAttentionError::ZeroDimension))
    );
}

#[test]
fn backward_dispatch_checks_records_scale_and_grid() {
    let bits = 0.125f32.to_bits();
    let dispatch = plan_backward_recompute(shape(), 1056, 768, true, Ok(bits), 3).unwrap();
    assert_eq!(dispatch.workgroups, 3);
    assert_eq!(dispatch.params, [1, 2, 4, 8, 1, bits, 64, 8]);
    assert_eq!(
        plan_backward_recompute(shape(), 1055, 768, true, Ok(bits), 3),
        Err(BackwardRecomputeError::BufferTooSmall {
            tensor: "Q|K|V|O|LSE",
            actual_bytes: 1055,
            required_bytes: 1056
        })
    );
    assert_eq!(
        plan_backward_recompute(shape(), 1056, 700, false, Ok(bits), 3),
        Err(BackwardRecomputeError::BufferTooSmall {
            tensor: "dQ|dK|dV",
            actual_bytes: 700,
            required_bytes: 768
        })
    );
    assert_eq!(
        plan_backward_recompute(shape(), 1056, 768, false, Err(FlatAttentionError::ShapeOverflow), 3),
        Err(BackwardRecomputeError::Core(FlatAttentionError::ShapeOverflow))
    );
    assert_eq!(
        plan_backward_recompute(shape(), 1056, 768, false, Ok(bits), 2),
        Err(BackwardRecomputeError::DispatchLimit {
            actual: 3,
            maximum: 2
        })
    );
}

#[test]
fn grouped_backward_dispatch_packs_ten_words() {
    let layout = grouped_backward_recompute_layout(grouped()).unwrap();
    assert_eq!(layout.q_elements, 128);
    assert_eq!(layout.kv_elements, 64);
    assert_eq!(layout.packed_forward_bytes, 4 * (3 * 128 + 2 * 64 + 16));
    assert_eq!(layout.gradient_bytes, 4 * 256);
    let bits = 0.25f32.to_bits();
    let dispatch =
        plan_grouped_backward_recompute(grouped(), 2112, 1024, false, Ok(bits), 4).unwrap();
    assert_eq!(dispatch.workgroups, 4);
    assert_eq!(dispatch.params, [1, 4, 2, 4, 8, 0, bits, 128, 64, 16]);
    assert_eq!(
        plan_grouped_backward_recompute(grouped(), 2112, 1024, false, Ok(bits), 3),
        Err(GroupedBackwardRecomputeError::DispatchLimit {
            actual: 4,
            maximum: 3
        })
    );
    let mut uneven = grouped();
    uneven.kv_heads = 3;
    assert_eq!(
        plan_grouped_backward_recompute(uneven, 2112, 1024, false, Ok(bits), 4),
        Err(GroupedBackwardRecomputeError::Core(
            FlatAttentionError::InvalidHeadGrouping {
                q_heads: 4,
                kv_heads: 3
            }
        ))
    );
}
