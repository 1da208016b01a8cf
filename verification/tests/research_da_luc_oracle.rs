use flat_attention::research_da_luc::{
    DalucBitOrder, DalucCodebookScope, DalucFloatDType, DalucKeyRepresentation,
    DalucKvViewContract, DalucLogicalKvShape, DalucPaddingRule, DalucPhysicalLayout,
    DalucResidualIndexing, DalucResidualSemantics, DalucRowOrder, DalucSparseResidual,
    DalucStorageTopology, DalucValueRepresentation, DalucZeroPointStorage,
    DA_LUC_KV_VIEW_SCHEMA_VERSION,
};
use flat_attention::research_da_luc_payload::validate_live_key_indices;
use flat_attention::research_da_luc_oracle::{
    page_table_plane, pack_integer_plane, unpack_integer, validate_expected_plane_lengths,
    validate_page_table, validate_plane_padding, DalucOracleError, DalucOracleGeometry, DalucOraclePlane, DalucPlaneBits,
};

fn contract() -> DalucKvViewContract {
    DalucKvViewContract {
        schema_version: DA_LUC_KV_VIEW_SCHEMA_VERSION,
        shape: DalucLogicalKvShape {
            batch: 2,
            q_heads: 8,
            kv_heads: 2,
            kv_len: 24,
            key_head_dim: 64,
            value_head_dim: 32,
        },
        keys: DalucKeyRepresentation {
            subspace_dim: 8,
            codebook_entries: 256,
            codebook_dtype: DalucFloatDType::F32,
            codebook_scope: DalucCodebookScope::SharedAcrossKvHeads,
            index_bits: 8,
            index_bit_order: DalucBitOrder::Lsb0,
            residual: DalucResidualSemantics::NoResidual,
        },
        values: DalucValueRepresentation::GroupwiseAffine {
            storage_bits: 8,
            group_size: 8,
            scale_dtype: DalucFloatDType::F32,
            zero_point: DalucZeroPointStorage::U8,
            bit_order: DalucBitOrder::Lsb0,
            residual: DalucResidualSemantics::NoResidual,
        },
        layout: DalucPhysicalLayout {
            row_order: DalucRowOrder::BatchHeadToken,
            topology: DalucStorageTopology::Contiguous {
                capacity_tokens: 32,
            },
            plane_alignment_bytes: 16,
            padding: DalucPaddingRule::ZeroFilledToAlignment,
        },
    }
}

fn planes() -> DalucPlaneBits {
    DalucPlaneBits {
        key_codebook: 524_288,
        key_indices: 8192,
        key_residual_values: 0,
        key_residual_indexing: 0,
        values: 32_768,
        value_scales: 16_384,
        value_zero_points: 4096,
        value_residual_values: 0,
        value_residual_indexing: 0,
        page_table: 0,
    }
}

#[test]
fn packed_fields_read_back_exactly() {
    for order in [DalucBitOrder::Lsb0, DalucBitOrder::Msb0] {
        let values = [1u32, 2, 3, 15, 0, 9];
        let plane = pack_integer_plane(contract(), &values, 4, order).unwrap();
        assert_eq!(plane.logical_bits(), 24);
        assert_eq!(plane.total_bytes(), 16);
        for (index, value) in values.iter().enumerate() {
            assert_eq!(unpack_integer(&plane, index, 4, order), Ok(*value));
        }
        assert_eq!(
            unpack_integer(&plane, 6, 4, order),
            Err(DalucOracleError::MalformedPayload(
                "packed integer read out of range"
            ))
        );
    }
}

#[test]
fn page_table_serializes_little_endian_words() {
    let plane = page_table_plane(contract(), &[1, 0x0102_0304]).unwrap();
    assert_eq!(plane.logical_bits(), 64);
    assert_eq!(&plane.bytes()[..8], &[1, 0, 0, 0, 4, 3, 2, 1]);
    assert!(plane.bytes()[8..].iter().all(|byte| *byte == 0));
    assert_eq!(plane.total_bytes(), 16);
    let empty = page_table_plane(contract(), &[]).unwrap();
    assert_eq!(empty.total_bytes(), 0);
    assert_eq!(empty.logical_bits(), DalucOraclePlane::empty().logical_bits());
}

#[test]
fn plane_lengths_follow_the_contract() {
    assert_eq!(validate_expected_plane_lengths(contract(), 128, 0, planes()), Ok(()));
    let mut short = planes();
    short.value_scales = 16_352;
    assert_eq!(
        validate_expected_plane_lengths(contract(), 128, 0, short),
        Err(DalucOracleError::LengthMismatch {
            what: "V scale plane",
            expected: 16_384,
            actual: 16_352
        })
    );
    let mut stray = planes();
    stray.key_residual_values = 8;
    assert_eq!(
        validate_expected_plane_lengths(contract(), 128, 0, stray),
        Err(DalucOracleError::LengthMismatch {
            what: "residual values",
            expected: 0,
            actual: 8
        })
    );
    assert_eq!(
        validate_expected_plane_lengths(contract(), 128, 3, planes()),
        Err(DalucOracleError::LengthMismatch {
            what: "page table",
            expected: 96,
            actual: 0
        })
    );
    assert_eq!(
        validate_expected_plane_lengths(contract(), usize::MAX, 0, planes()),
        Err(DalucOracleError::ArithmeticOverflow("K index bits"))
    );
}

#[test]
fn sparse_residual_planes_are_sized_per_vector() {
    let mut sparse = contract();
    sparse.keys.residual = DalucResidualSemantics::Sparse(DalucSparseResidual {
        value_dtype: DalucFloatDType::F16,
        indexing: DalucResidualIndexing::Coordinates {
            index_bits: 6,
            bit_order: DalucBitOrder::Lsb0,
        },
        max_entries_per_vector: 2,
    });
    let mut bits = planes();
    bits.key_residual_values = 128 * 2 * 16;
    bits.key_residual_indexing = 128 * 2 * 6;
    assert_eq!(validate_expected_plane_lengths(sparse, 128, 0, bits), Ok(()));
    sparse.keys.residual = DalucResidualSemantics::Sparse(DalucSparseResidual {
        value_dtype: DalucFloatDType::F16,
        indexing: DalucResidualIndexing::Bitmap {
            bit_order: DalucBitOrder::Lsb0,
        },
        max_entries_per_vector: 2,
    });
    assert_eq!(
        validate_expected_plane_lengths(sparse, 128, 0, bits),
        Err(DalucOracleError::LengthMismatch {
            what: "residual indexing",
            expected: 128 * 64,
            actual: 128 * 2 * 6
        })
    );
}

fn paged(contract: DalucKvViewContract) -> DalucKvViewContract {
    let mut paged = contract;
    paged.layout.topology = DalucStorageTopology::Paged {
        page_size: 8,
        physical_pages_per_batch: 4,
    };
    paged
}

#[test]
fn contiguous_geometry_rows_follow_row_order() {
    let geometry = DalucOracleGeometry::new(contract(), None).unwrap();
    assert_eq!(geometry.capacity_tokens, 32);
    assert_eq!(geometry.physical_rows, 128);
    assert_eq!(geometry.logical_pages_per_batch, 0);
    assert!(geometry.page_table.is_empty());
    assert_eq!(geometry.physical_row(contract(), 1, 0, 5), Ok(69));
    let mut token_major = contract();
    token_major.layout.row_order = DalucRowOrder::BatchTokenHead;
    assert_eq!(geometry.physical_row(token_major, 1, 0, 5), Ok((32 + 5) * 2));
    assert_eq!(
        DalucOracleGeometry::new(contract(), Some(&[0])),
        Err(DalucOracleError::InvalidPageTable(
            "contiguous topology does not carry a page table"
        ))
    );
}

#[test]
fn paged_geometry_maps_tokens_through_the_table() {
    let identity = DalucOracleGeometry::new(paged(contract()), None).unwrap();
    assert_eq!(identity.page_table, vec![0, 1, 2, 0, 1, 2]);
    assert_eq!(identity.logical_pages_per_batch, 3);
    assert_eq!(identity.capacity_tokens, 32);
    let table = [2u32, 0, 3, 1, 3, 0];
    let geometry = DalucOracleGeometry::new(paged(contract()), Some(&table)).unwrap();
    assert_eq!(geometry.physical_row(paged(contract()), 1, 1, 9), Ok(121));
    assert_eq!(geometry.physical_row(paged(contract()), 0, 0, 0), Ok(16));
}

#[test]
fn page_tables_reject_aliases_and_out_of_range_pages() {
    assert_eq!(
        validate_page_table(&[2, 0, 2, 1, 3, 0], 2, 3, 4),
        Err(DalucOracleError::InvalidPageTable(
            "logical pages alias one physical page"
        ))
    );
    assert_eq!(
        validate_page_table(&[2, 0, 1, 1, 4, 0], 2, 3, 4),
        Err(DalucOracleError::InvalidPageTable("physical page out of range"))
    );
    assert_eq!(validate_page_table(&[2, 0, 1, 2, 0, 1], 2, 3, 4), Ok(()));
    assert_eq!(
        validate_page_table(&[0, 1], 2, 3, 4),
        Err(DalucOracleError::LengthMismatch {
            what: "page table",
            expected: 6,
            actual: 2
        })
    );
    let mut small = paged(contract());
    small.layout.topology = DalucStorageTopology::Paged {
        page_size: 8,
        physical_pages_per_batch: 2,
    };
    assert_eq!(
        DalucOracleGeometry::new(small, None),
        Err(DalucOracleError::InvalidPageTable(
            "identity map exceeds physical page capacity"
        ))
    );
}

#[test]
fn packed_planes_carry_the_contract_padding() {
    let plane = pack_integer_plane(contract(), &[1, 2, 3], 8, DalucBitOrder::Msb0).unwrap();
    assert_eq!(validate_plane_padding(contract(), &plane), Ok(()));
    let table = page_table_plane(contract(), &[7, 9]).unwrap();
    assert_eq!(validate_plane_padding(contract(), &table), Ok(()));
    let mut narrow = contract();
    narrow.layout.plane_alignment_bytes = 4;
    assert_eq!(
        validate_plane_padding(narrow, &plane),
        Err(DalucOracleError::MalformedPayload(
            "alignment padding length mismatch"
        ))
    );
    let mut unpadded = contract();
    unpadded.layout.padding = DalucPaddingRule::NoPadding;
    assert_eq!(
        validate_plane_padding(unpadded, &plane),
        Err(DalucOracleError::MalformedPayload(
            "alignment padding length mismatch"
        ))
    );
}

#[test]
fn live_key_indices_must_name_codebook_entries() {
    let geometry = DalucOracleGeometry::new(contract(), None).unwrap();
    let mut indices = vec![0u32; 128 * 8];
    let plane = pack_integer_plane(contract(), &indices, 8, DalucBitOrder::Lsb0).unwrap();
    assert_eq!(validate_live_key_indices(contract(), &geometry, &plane), Ok(()));
    let mut narrow = contract();
    narrow.keys.codebook_entries = 200;
    indices[69 * 8 + 3] = 250;
    let plane = pack_integer_plane(contract(), &indices, 8, DalucBitOrder::Lsb0).unwrap();
    assert_eq!(validate_live_key_indices(contract(), &geometry, &plane), Ok(()));
    assert_eq!(
        validate_live_key_indices(narrow, &geometry, &plane),
        Err(DalucOracleError::Contract(
            flat_attention::research_da_luc::DalucKvViewError::CodebookIndexOutOfRange {
                index: 250,
                codebook_entries: 200
            }
        ))
    );
    indices[69 * 8 + 3] = 0;
    indices[126 * 8] = 240;
    let plane = pack_integer_plane(contract(), &indices, 8, DalucBitOrder::Lsb0).unwrap();
    assert_eq!(validate_live_key_indices(narrow, &geometry, &plane), Ok(()));
    let short = pack_integer_plane(contract(), &indices[..64 * 8], 8, DalucBitOrder::Lsb0).unwrap();
    assert_eq!(
        validate_live_key_indices(contract(), &geometry, &short),
        Err(DalucOracleError::MalformedPayload("packed integer read out of range"))
    );
}
