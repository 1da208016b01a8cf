use flat_attention::attention_shape::{FlatAttentionError, GroupedAttentionShape};
use flat_attention::wgpu_backend::{ResidentOperand, WgpuFlatAttentionError};
use flat_attention::wgpu_grouped_backend::plan_grouped_resident_forward;

const OWNER: usize = 3;

fn shape() -> GroupedAttentionShape {
    GroupedAttentionShape {
        batch: 1,
        q_heads: 4,
        kv_heads: 1,
        seq_len: 17,
        head_dim: 8,
    }
}

fn operand(len: usize) -> ResidentOperand {
    ResidentOperand { owner: OWNER, len }
}

#[test]
fn grouped_forward_keeps_physical_kv_heads() {
    let dispatch = plan_grouped_resident_forward(
        shape(),
        256,
        16,
        65535,
        OWNER,
        operand(544),
        operand(136),
        operand(136),
        false,
        Ok(9),
    )
    .unwrap();
    assert_eq!(dispatch.q_tensor_len, 544);
    assert_eq!(dispatch.kv_tensor_len, 136);
    assert_eq!(dispatch.lse_len, 68);
    assert_eq!(dispatch.combined_len, 612);
    assert_eq!(dispatch.output_bytes, 2448);
    assert_eq!(dispatch.params, vec![17, 8, 4, 1, 1, 0, 9, 0]);
    assert_eq!(dispatch.query_workgroups, 2);
    assert_eq!(dispatch.q_batch_heads, 4);
}

#[test]
fn grouped_forward_rejects_expanded_kv_and_bad_grouping() {
    assert_eq!(
        plan_grouped_resident_forward(
            shape(),
            256,
            16,
            65535,
            OWNER,
            operand(544),
            operand(544),
            operand(136),
            false,
            Ok(9)
        )
        .unwrap_err(),
        WgpuFlatAttentionError::ResidentLength {
            tensor: "K",
            actual: 544,
            expected: 136
        }
    );
    let mut grouping = shape();
    grouping.kv_heads = 3;
    assert_eq!(
        plan_grouped_resident_forward(
            grouping,
            256,
            16,
            65535,
            OWNER,
            operand(0),
            operand(0),
            operand(0),
            false,
            Ok(9)
        )
        .unwrap_err(),
        WgpuFlatAttentionError::Core(FlatAttentionError::InvalidHeadGrouping {
            q_heads: 4,
            kv_heads: 3
        })
    );
    assert_eq!(
        plan_grouped_resident_forward(
            shape(),
            256,
            16,
            65535,
            OWNER + 1,
            operand(544),
            operand(136),
            operand(136),
            false,
            Ok(9)
        )
        .unwrap_err(),
        WgpuFlatAttentionError::ForeignBuffer
    );
}
