use flat_attention::attention_shape::{FlatAttentionError, GroupedAttentionShape};
use flat_attention::wgpu_forward_grouped::{
    grouped_forward_layout, kernel_variant_for_shape, plan_grouped_forward,
    GroupedForwardBuffers, GroupedForwardError, GroupedForwardKernelVariant,
};

fn shape(q_heads: usize, kv_heads: usize, head_dim: usize) -> GroupedAttentionShape {
    GroupedAttentionShape {
        batch: 2,
        q_heads,
        kv_heads,
        seq_len: 33,
        head_dim,
    }
}

fn buffers_for(shape: GroupedAttentionShape) -> GroupedForwardBuffers {
    let layout = grouped_forward_layout(shape, 256).unwrap();
    GroupedForwardBuffers {
        q_bytes: layout.q_bytes,
        k_bytes: layout.kv_bytes,
        v_bytes: layout.kv_bytes,
        output_bytes: layout.output_bytes,
    }
}

#[test]
fn portable_grouped_forward_words() {
    let s = shape(4, 2, 64);
    let scale = 0.125f32.to_bits();
    let dispatch =
        plan_grouped_forward(s, 256, true, buffers_for(s), true, Ok(scale), 65535, 16).unwrap();
    assert_eq!(
        dispatch.kernel_variant,
        GroupedForwardKernelVariant::Q4PortableGrouped
    );
    assert_eq!(dispatch.params, vec![33, 64, 4, 2, 2, 1, scale, 0]);
    assert_eq!(dispatch.query_workgroups, 3);
    assert_eq!(dispatch.q_batch_heads, 8);
    assert_eq!(dispatch.layout.lse_elements, 2 * 4 * 33);
}

#[test]
fn vec4_mha_forward_words() {
    let s = shape(4, 4, 128);
    assert_eq!(
        kernel_variant_for_shape(true, s),
        GroupedForwardKernelVariant::Q4Vec4Mha
    );
    let dispatch =
        plan_grouped_forward(s, 256, true, buffers_for(s), false, Ok(7), 65535, 16).unwrap();
    assert_eq!(dispatch.kernel_variant, GroupedForwardKernelVariant::Q4Vec4Mha);
    assert_eq!(dispatch.params, vec![33, 128, 8, 0, 7, 0, 0, 0]);
}

#[test]
fn grouped_forward_rejects_buffers_grid_and_scale() {
    let s = shape(4, 2, 64);
    let mut short = buffers_for(s);
    short.output_bytes -= 1;
    assert!(matches!(
        plan_grouped_forward(s, 256, false, short, false, Ok(1), 65535, 16),
        Err(GroupedForwardError::BufferTooSmall { tensor: "O|LSE", .. })
    ));
    assert_eq!(
        plan_grouped_forward(s, 256, false, buffers_for(s), false, Ok(1), 2, 16).unwrap_err(),
        GroupedForwardError::DispatchLimit {
            axis: "x/query_tiles",
            actual: 3,
            maximum: 2
        }
    );
    assert_eq!(
        plan_grouped_forward(s, 256, false, buffers_for(s), false, Ok(1), 7, 16).unwrap_err(),
        GroupedForwardError::DispatchLimit {
            axis: "y/batch_q_heads",
            actual: 8,
            maximum: 7
        }
    );
    assert_eq!(
        plan_grouped_forward(
            s,
            256,
            false,
            buffers_for(s),
            false,
            Err(FlatAttentionError::ZeroDimension),
            65535,
            16
        )
        .unwrap_err(),
        GroupedForwardError::Core(FlatAttentionError::ZeroDimension)
    );
}
