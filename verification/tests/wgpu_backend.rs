use flat_attention::attention_shape::{AttentionShape, FlatAttentionError};
use flat_attention::wgpu_backend::{
    kernel_variant_for_head_dim, pipeline_choice, plan_resident_forward, subgroup_request,
    ResidentOperand, SubgroupPipelineChoice, WgpuFlatAttentionError, WgpuKernelVariant,
    WgpuSubgroupPolicy,
};

const OWNER: usize = 7;

fn shape() -> AttentionShape {
    AttentionShape {
        batch: 2,
        heads: 3,
        seq_len: 20,
        head_dim: 16,
    }
}

fn operand(len: usize) -> ResidentOperand {
    ResidentOperand { owner: OWNER, len }
}

fn plan(
    q: ResidentOperand,
    max_workgroups: u32,
    max_binding: u64,
) -> Result<flat_attention::wgpu_backend::ResidentForwardDispatch, WgpuFlatAttentionError> {
    plan_resident_forward(
        shape(),
        256,
        16,
        max_workgroups,
        max_binding,
        OWNER,
        q,
        operand(1920),
        operand(1920),
        true,
        Ok(0.25f32.to_bits()),
    )
}

#[test]
fn resident_forward_counts_words_and_grid() {
    let dispatch = plan(operand(1920), 65535, 1 << 27).unwrap();
    assert_eq!(dispatch.tensor_len, 1920);
    assert_eq!(dispatch.lse_len, 120);
    assert_eq!(dispatch.combined_len, 2040);
    assert_eq!(dispatch.output_bytes, 8160);
    assert_eq!(
        dispatch.params,
        vec![20, 16, 6, 1, 0.25f32.to_bits(), 0, 0, 0]
    );
    assert_eq!(dispatch.query_workgroups, 2);
    assert_eq!(dispatch.batch_heads, 6);
}

#[test]
fn resident_forward_rejects_foreign_and_mis_sized_operands() {
    assert_eq!(
        plan(ResidentOperand { owner: 8, len: 1920 }, 65535, 1 << 27).unwrap_err(),
        WgpuFlatAttentionError::ForeignBuffer
    );
    assert_eq!(
        plan(operand(1919), 65535, 1 << 27).unwrap_err(),
        WgpuFlatAttentionError::ResidentLength {
            tensor: "Q",
            actual: 1919,
            expected: 1920
        }
    );
    assert_eq!(
        plan(operand(1920), 5, 1 << 27).unwrap_err(),
        WgpuFlatAttentionError::DispatchLimit {
            axis: "y/batch_heads",
            actual: 6,
            maximum: 5
        }
    );
    assert_eq!(
        plan(operand(1920), 65535, 8159).unwrap_err(),
        WgpuFlatAttentionError::DeviceBufferLimit {
            required_bytes: 8160,
            maximum_bytes: 8159
        }
    );
    let mut zero = shape();
    zero.heads = 0;
    assert_eq!(
        plan_resident_forward(
            zero,
            256,
            16,
            65535,
            1 << 27,
            OWNER,
            operand(0),
            operand(0),
            operand(0),
            false,
            Ok(1)
        )
        .unwrap_err(),
        WgpuFlatAttentionError::Core(FlatAttentionError::ZeroDimension)
    );
}

#[test]
fn subgroup_policy_decisions() {
    assert_eq!(
        subgroup_request(WgpuSubgroupPolicy::Require, false),
        Err(WgpuFlatAttentionError::RequiredSubgroupUnavailable)
    );
    assert_eq!(subgroup_request(WgpuSubgroupPolicy::Require, true), Ok(true));
    assert_eq!(subgroup_request(WgpuSubgroupPolicy::Auto, true), Ok(true));
    assert_eq!(subgroup_request(WgpuSubgroupPolicy::Auto, false), Ok(false));
    assert_eq!(subgroup_request(WgpuSubgroupPolicy::Disable, true), Ok(false));
    assert_eq!(
        pipeline_choice(WgpuSubgroupPolicy::Auto, true, false),
        SubgroupPipelineChoice::PortableFallback
    );
    assert_eq!(
        pipeline_choice(WgpuSubgroupPolicy::Require, true, false),
        SubgroupPipelineChoice::RequiredSubgroupFailed
    );
    assert_eq!(
        pipeline_choice(WgpuSubgroupPolicy::Auto, true, true),
        SubgroupPipelineChoice::Subgroup
    );
    assert_eq!(
        pipeline_choice(WgpuSubgroupPolicy::Disable, false, false),
        SubgroupPipelineChoice::Portable
    );
}

#[test]
fn kernel_generation_per_head_dim() {
    assert_eq!(
        kernel_variant_for_head_dim(WgpuKernelVariant::Q4Subgroup, true, true, 64),
        WgpuKernelVariant::Q4Subgroup
    );
    assert_eq!(
        kernel_variant_for_head_dim(WgpuKernelVariant::Q4Portable, true, true, 128),
        WgpuKernelVariant::Q4Vec4DoubleBuffered
    );
    assert_eq!(
        kernel_variant_for_head_dim(WgpuKernelVariant::Q4Portable, false, true, 64),
        WgpuKernelVariant::Q4Vec4Portable
    );
    assert_eq!(
        kernel_variant_for_head_dim(WgpuKernelVariant::Q4Portable, true, false, 64),
        WgpuKernelVariant::Q4Portable
    );
    assert_eq!(
        kernel_variant_for_head_dim(WgpuKernelVariant::Q4Portable, true, true, 96),
        WgpuKernelVariant::Q4Portable
    );
}
