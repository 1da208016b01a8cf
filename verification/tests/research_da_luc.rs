use flat_attention::research_da_luc_decode_oracle::{DalucDecodeOracleError, DalucQlen1DecodeConfig};
use flat_attention::research_da_luc_oracle::DalucOracleError;
use flat_attention::research_da_luc::{
    DalucBackendCapabilities, DalucBitOrder, DalucCodebookScope, DalucFloatDType,
    DalucKeyRepresentation, DalucKvViewContract, DalucKvViewError, DalucLogicalKvShape,
    DalucPaddingRule, DalucPhysicalLayout, DalucResidualIndexing, DalucResidualSemantics,
    DalucRowOrder, DalucSparseResidual, DalucStorageTopology, DalucValueRepresentation,
    DalucZeroPointStorage, DA_LUC_KV_VIEW_SCHEMA_VERSION,
};

fn view() -> DalucKvViewContract {
    DalucKvViewContract {
        schema_version: DA_LUC_KV_VIEW_SCHEMA_VERSION,
        shape: DalucLogicalKvShape {
            batch: 1,
            q_heads: 32,
            kv_heads: 8,
            kv_len: 128,
            key_head_dim: 64,
            value_head_dim: 64,
        },
        keys: DalucKeyRepresentation {
            subspace_dim: 8,
            codebook_entries: 256,
            codebook_dtype: DalucFloatDType::F16,
            codebook_scope: DalucCodebookScope::PerKvHead,
            index_bits: 8,
            index_bit_order: DalucBitOrder::Lsb0,
            residual: DalucResidualSemantics::Sparse(DalucSparseResidual {
                value_dtype: DalucFloatDType::F16,
                indexing: DalucResidualIndexing::Coordinates {
                    index_bits: 6,
                    bit_order: DalucBitOrder::Lsb0,
                },
                max_entries_per_vector: 4,
            }),
        },
        values: DalucValueRepresentation::GroupwiseAffine {
            storage_bits: 4,
            group_size: 16,
            scale_dtype: DalucFloatDType::F16,
            zero_point: DalucZeroPointStorage::U8,
            bit_order: DalucBitOrder::Lsb0,
            residual: DalucResidualSemantics::NoResidual,
        },
        layout: DalucPhysicalLayout {
            row_order: DalucRowOrder::BatchTokenHead,
            topology: DalucStorageTopology::Paged {
                page_size: 16,
                physical_pages_per_batch: 8,
            },
            plane_alignment_bytes: 16,
            padding: DalucPaddingRule::ZeroFilledToAlignment,
        },
    }
}

fn backend() -> DalucBackendCapabilities {
    DalucBackendCapabilities {
        supports_f16: true,
        supports_bf16: false,
        supports_f32: true,
        supports_lsb0: true,
        supports_msb0: false,
        supports_batch_token_head: true,
        supports_batch_head_token: false,
        supports_shared_codebook: false,
        supports_per_kv_head_codebook: true,
        supports_contiguous: true,
        supports_paged: true,
        supports_groupwise_affine_values: true,
        supports_signed_symmetric_values: true,
        supports_u8_zero_points: true,
        supports_u16_zero_points: false,
        supports_sparse_coordinates: true,
        supports_sparse_bitmap: false,
        supports_no_padding: true,
        supports_zero_filled_padding: true,
        minimum_plane_alignment_bytes: 16,
        max_packed_index_bits: 8,
        max_groupwise_value_bits: 4,
    }
}

#[test]
fn representative_asymmetric_view_validates() {
    let contract = view();
    contract.validate().unwrap();
    contract.validate_for_backend(backend()).unwrap();
    contract.validate_codebook_index(255).unwrap();
    contract.validate_key_residual_index(63).unwrap();
}

#[test]
fn versions_head_mapping_and_subspaces_fail_closed() {
    let mut invalid = view();
    invalid.schema_version += 1;
    assert!(matches!(
        invalid.validate(),
        Err(DalucKvViewError::UnsupportedSchemaVersion { .. })
    ));

    let mut invalid = view();
    invalid.shape.q_heads = 30;
    assert!(matches!(
        invalid.validate(),
        Err(DalucKvViewError::InvalidMetadata(_))
    ));

    let mut invalid = view();
    invalid.keys.subspace_dim = 7;
    assert!(matches!(
        invalid.validate(),
        Err(DalucKvViewError::InvalidMetadata(_))
    ));
}

#[test]
fn malformed_packed_and_residual_metadata_fail_closed() {
    let mut invalid = view();
    invalid.keys.index_bits = 7;
    assert!(matches!(
        invalid.validate(),
        Err(DalucKvViewError::InvalidMetadata(_))
    ));

    let mut invalid = view();
    invalid.keys.residual = DalucResidualSemantics::Sparse(DalucSparseResidual {
        value_dtype: DalucFloatDType::F16,
        indexing: DalucResidualIndexing::Coordinates {
            index_bits: 5,
            bit_order: DalucBitOrder::Lsb0,
        },
        max_entries_per_vector: 4,
    });
    assert!(matches!(
        invalid.validate(),
        Err(DalucKvViewError::InvalidMetadata(_))
    ));
}

#[test]
fn payload_indices_and_capacity_fail_closed() {
    let valid = view();
    assert!(matches!(
        valid.validate_codebook_index(256),
        Err(DalucKvViewError::CodebookIndexOutOfRange { .. })
    ));
    assert!(matches!(
        valid.validate_key_residual_index(64),
        Err(DalucKvViewError::ResidualIndexOutOfRange { .. })
    ));
    assert!(matches!(
        valid.validate_value_residual_index(0),
        Err(DalucKvViewError::ResidualIndexOutOfRange { .. })
    ));

    let mut invalid = view();
    invalid.layout.topology = DalucStorageTopology::Paged {
        page_size: 16,
        physical_pages_per_batch: 7,
    };
    assert!(matches!(
        invalid.validate(),
        Err(DalucKvViewError::InvalidMetadata(_))
    ));
}

#[test]
fn payload_validators_cannot_bypass_contract_validation() {
    let mut invalid = view();
    invalid.schema_version += 1;
    assert!(matches!(
        invalid.validate_key_residual_index(0),
        Err(DalucKvViewError::UnsupportedSchemaVersion { .. })
    ));

    let mut invalid = view();
    invalid.keys.residual = DalucResidualSemantics::Sparse(DalucSparseResidual {
        value_dtype: DalucFloatDType::F16,
        indexing: DalucResidualIndexing::Coordinates {
            index_bits: 6,
            bit_order: DalucBitOrder::Lsb0,
        },
        max_entries_per_vector: 0,
    });
    assert!(matches!(
        invalid.validate_key_residual_index(0),
        Err(DalucKvViewError::InvalidMetadata(_))
    ));
}

#[test]
fn unsupported_backend_capability_never_implies_fallback() {
    let mut caps = backend();
    caps.supports_paged = false;
    assert_eq!(
        view().validate_for_backend(caps),
        Err(DalucKvViewError::UnsupportedBackendCapability(
            "KV storage topology"
        ))
    );

    let mut caps = backend();
    caps.max_packed_index_bits = 6;
    assert_eq!(
        view().validate_for_backend(caps),
        Err(DalucKvViewError::UnsupportedBackendCapability(
            "K packed index width"
        ))
    );
}

#[test]
fn backend_encoding_and_layout_variants_fail_closed() {
    let mut caps = backend();
    caps.supports_batch_token_head = false;
    assert_eq!(
        view().validate_for_backend(caps),
        Err(DalucKvViewError::UnsupportedBackendCapability("row order"))
    );

    let mut caps = backend();
    caps.supports_per_kv_head_codebook = false;
    assert_eq!(
        view().validate_for_backend(caps),
        Err(DalucKvViewError::UnsupportedBackendCapability(
            "K codebook scope"
        ))
    );

    let mut caps = backend();
    caps.supports_lsb0 = false;
    assert_eq!(
        view().validate_for_backend(caps),
        Err(DalucKvViewError::UnsupportedBackendCapability(
            "K index bit order"
        ))
    );

    let mut caps = backend();
    caps.supports_u8_zero_points = false;
    assert_eq!(
        view().validate_for_backend(caps),
        Err(DalucKvViewError::UnsupportedBackendCapability(
            "u8 V zero points"
        ))
    );

    let mut caps = backend();
    caps.supports_zero_filled_padding = false;
    assert_eq!(
        view().validate_for_backend(caps),
        Err(DalucKvViewError::UnsupportedBackendCapability(
            "padding rule"
        ))
    );

    let mut caps = backend();
    caps.minimum_plane_alignment_bytes = 32;
    assert_eq!(
        view().validate_for_backend(caps),
        Err(DalucKvViewError::UnsupportedBackendCapability(
            "plane alignment"
        ))
    );
}

#[test]
fn last_token_decode_config_validates_the_contract_first() {
    let config = DalucQlen1DecodeConfig::for_last_token(view(), 7u8).unwrap();
    assert_eq!(config.query_position, 127);
    assert_eq!(config.attention, 7u8);

    let mut broken = view();
    broken.schema_version += 1;
    assert!(matches!(
        DalucQlen1DecodeConfig::for_last_token(broken, 7u8),
        Err(DalucDecodeOracleError::Oracle(DalucOracleError::Contract(
            DalucKvViewError::UnsupportedSchemaVersion { .. }
        )))
    ));
}
