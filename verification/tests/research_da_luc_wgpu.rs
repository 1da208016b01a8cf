use flat_attention::attention_shape::FlatAttentionError;
use flat_attention::research_da_luc::{
    DalucBitOrder, DalucCodebookScope, DalucFloatDType, DalucKeyRepresentation,
    DalucKvViewContract, DalucKvViewError, DalucLogicalKvShape, DalucPaddingRule,
    DalucPhysicalLayout, DalucResidualSemantics, DalucRowOrder, DalucStorageTopology,
    DalucValueRepresentation, DalucZeroPointStorage, DA_LUC_KV_VIEW_SCHEMA_VERSION,
};
use flat_attention::research_da_luc_wgpu::{DalucWgpuCandidateError, DalucWgpuPlan};

fn contract() -> DalucKvViewContract {
    DalucKvViewContract {
        schema_version: DA_LUC_KV_VIEW_SCHEMA_VERSION,
        shape: DalucLogicalKvShape {
            batch: 2,
            q_heads: 8,
            kv_heads: 2,
            kv_len: 24,
            key_head_dim: 64,
            value_head_dim: 32,
        },
        keys: DalucKeyRepresentation {
            subspace_dim: 8,
            codebook_entries: 256,
            codebook_dtype: DalucFloatDType::F32,
            codebook_scope: DalucCodebookScope::SharedAcrossKvHeads,
            index_bits: 8,
            index_bit_order: DalucBitOrder::Lsb0,
            residual: DalucResidualSemantics::NoResidual,
        },
        values: DalucValueRepresentation::GroupwiseAffine {
            storage_bits: 8,
            group_size: 8,
            scale_dtype: DalucFloatDType::F32,
            zero_point: DalucZeroPointStorage::U8,
            bit_order: DalucBitOrder::Lsb0,
            residual: DalucResidualSemantics::NoResidual,
        },
        layout: DalucPhysicalLayout {
            row_order: DalucRowOrder::BatchHeadToken,
            topology: DalucStorageTopology::Contiguous {
                capacity_tokens: 32,
            },
            plane_alignment_bytes: 16,
            padding: DalucPaddingRule::ZeroFilledToAlignment,
        },
    }
}

#[test]
fn supported_contract_yields_exact_element_counts() {
    let plan = DalucWgpuPlan::new(contract(), 23, Ok(0.125f32.to_bits())).unwrap();
    assert_eq!(plan.query_elements(), 2 * 8 * 64);
    assert_eq!(plan.output_elements(), 2 * 8 * 32);
    assert_eq!(plan.lse_elements(), 16);
    assert_eq!(plan.query_position(), 23);
    assert_eq!(plan.contract(), contract());
    assert!(!plan.materializes_dense_kv());
}

#[test]
fn unsupported_encodings_are_rejected_before_dispatch() {
    let mut msb0 = contract();
    msb0.keys.index_bit_order = DalucBitOrder::Msb0;
    assert!(matches!(
        DalucWgpuPlan::new(msb0, 0, Ok(0)),
        Err(DalucWgpuCandidateError::Contract(
            DalucKvViewError::UnsupportedBackendCapability(_)
        ))
    ));
    let mut f16_codebook = contract();
    f16_codebook.keys.codebook_dtype = DalucFloatDType::F16;
    assert!(matches!(
        DalucWgpuPlan::new(f16_codebook, 0, Ok(0)),
        Err(DalucWgpuCandidateError::Contract(_))
    ));
    let mut narrow = contract();
    narrow.keys.index_bits = 7;
    narrow.keys.codebook_entries = 128;
    assert!(matches!(
        DalucWgpuPlan::new(narrow, 0, Ok(0)),
        Err(DalucWgpuCandidateError::UnsupportedCandidate(
            "8-bit LSB0 K indices required"
        ))
    ));
    let mut wide = contract();
    wide.shape.key_head_dim = 256;
    wide.shape.value_head_dim = 256;
    assert!(matches!(
        DalucWgpuPlan::new(wide, 0, Ok(0)),
        Err(DalucWgpuCandidateError::UnsupportedCandidate(
            "key/value head dimension exceeds FDAL3 v1 portable limit"
        ))
    ));
    let mut large_lut = contract();
    large_lut.keys.subspace_dim = 2;
    assert!(matches!(
        DalucWgpuPlan::new(large_lut, 0, Ok(0)),
        Err(DalucWgpuCandidateError::UnsupportedCandidate(
            "query-local codebook LUT exceeds FDAL3 v1 workgroup budget"
        ))
    ));
    let mut dense = contract();
    dense.values = DalucValueRepresentation::Dense {
        dtype: DalucFloatDType::F32,
    };
    assert!(matches!(
        DalucWgpuPlan::new(dense, 0, Ok(0)),
        Err(DalucWgpuCandidateError::UnsupportedCandidate(
            "dense V is not the direct-compressed FDAL3 v1 candidate"
        ))
    ));
    assert!(matches!(
        DalucWgpuPlan::new(contract(), 0, Err(FlatAttentionError::ZeroDimension)),
        Err(DalucWgpuCandidateError::Attention(FlatAttentionError::ZeroDimension))
    ));
    assert!(matches!(
        DalucWgpuPlan::new(contract(), usize::MAX, Ok(0)),
        Err(DalucWgpuCandidateError::IndexSpaceExceeded("query_position"))
    ));
}

#[test]
fn dispatch_words_follow_the_uniform_layout() {
    let scale = 0.125f32.to_bits();
    let plan = DalucWgpuPlan::new(contract(), 23, Ok(scale)).unwrap();
    assert_eq!(
        plan.dispatch_params(true).unwrap(),
        vec![24, 32, 64, 32, 8, 2, 2, 8, 256, 0, 8, scale, 1, 23, 0, 0]
    );
    let mut per_head = contract();
    per_head.keys.codebook_scope = DalucCodebookScope::PerKvHead;
    let plan = DalucWgpuPlan::new(per_head, 23, Ok(scale)).unwrap();
    assert_eq!(plan.dispatch_params(false).unwrap()[9], 1);
    assert_eq!(plan.dispatch_params(false).unwrap()[12], 0);
}

#[test]
fn dispatch_limits_and_output_bytes() {
    let plan = DalucWgpuPlan::new(contract(), 23, Ok(0)).unwrap();
    assert!(matches!(plan.workgroups(16), Ok(16)));
    assert!(matches!(
        plan.workgroups(15),
        Err(DalucWgpuCandidateError::DispatchLimit {
            actual: 16,
            maximum: 15
        })
    ));
    // 2 * 8 * 32 output scalars plus 16 LSE scalars.
    assert!(matches!(plan.output_bytes(1 << 20), Ok(2112)));
    assert!(matches!(
        plan.output_bytes(100),
        Err(DalucWgpuCandidateError::DeviceBufferLimit {
            label: "O|LSE",
            required_bytes: 2112,
            maximum_bytes: 100
        })
    ));
}
