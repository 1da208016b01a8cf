use flat_attention::research_da_luc_wgpu::{stage_forward, u8_plane_words, DalucWgpuCandidateError};
use flat_attention::research_da_luc::{
    DalucBitOrder, DalucCodebookScope, DalucFloatDType, DalucKeyRepresentation,
    DalucKvViewContract, DalucLogicalKvShape, DalucPaddingRule, DalucPhysicalLayout,
    DalucResidualIndexing, DalucResidualSemantics, DalucRowOrder, DalucSparseResidual,
    DalucStorageTopology, DalucValueRepresentation, DalucZeroPointStorage,
    DA_LUC_KV_VIEW_SCHEMA_VERSION,
};
use flat_attention::research_da_luc_oracle::{
    finalize_byte_plane, pack_integer_plane, page_table_plane, DalucOracleError,
    DalucOracleGeometry, DalucOraclePlane, DA_LUC_ORACLE_PAYLOAD_VERSION,
};
use flat_attention::research_da_luc_payload::{
    float_is_finite, float_is_positive, geometry_from_page_table_plane, read_float_bits,
    validate_live_residuals, validate_stored_codebook, validate_value_planes,
    DalucOraclePayload, DalucPayloadPlanes,
};

fn contract() -> DalucKvViewContract {
    DalucKvViewContract {
        schema_version: DA_LUC_KV_VIEW_SCHEMA_VERSION,
        shape: DalucLogicalKvShape {
            batch: 2,
            q_heads: 8,
            kv_heads: 2,
            kv_len: 24,
            key_head_dim: 64,
            value_head_dim: 32,
        },
        keys: DalucKeyRepresentation {
            subspace_dim: 8,
            codebook_entries: 256,
            codebook_dtype: DalucFloatDType::F32,
            codebook_scope: DalucCodebookScope::SharedAcrossKvHeads,
            index_bits: 8,
            index_bit_order: DalucBitOrder::Lsb0,
            residual: DalucResidualSemantics::NoResidual,
        },
        values: DalucValueRepresentation::GroupwiseAffine {
            storage_bits: 8,
            group_size: 8,
            scale_dtype: DalucFloatDType::F32,
            zero_point: DalucZeroPointStorage::U8,
            bit_order: DalucBitOrder::Lsb0,
            residual: DalucResidualSemantics::NoResidual,
        },
        layout: DalucPhysicalLayout {
            row_order: DalucRowOrder::BatchHeadToken,
            topology: DalucStorageTopology::Contiguous {
                capacity_tokens: 32,
            },
            plane_alignment_bytes: 16,
            padding: DalucPaddingRule::ZeroFilledToAlignment,
        },
    }
}

fn f32_plane(contract: DalucKvViewContract, values: &[f32]) -> DalucOraclePlane {
    let mut raw = Vec::new();
    for value in values {
        raw.extend_from_slice(&value.to_le_bytes());
    }
    finalize_byte_plane(contract, raw).unwrap()
}

struct Parts {
    codebook: Vec<f32>,
    indices: Vec<u32>,
    scales: Vec<f32>,
}

fn parts() -> Parts {
    Parts {
        codebook: vec![0.5; 8 * 256 * 8],
        indices: vec![3; 128 * 8],
        scales: vec![1.0; 128 * 4],
    }
}

fn planes(contract: DalucKvViewContract, parts: &Parts) -> DalucPayloadPlanes {
    DalucPayloadPlanes {
        key_codebook: f32_plane(contract, &parts.codebook),
        key_indices: pack_integer_plane(contract, &parts.indices, 8, DalucBitOrder::Lsb0).unwrap(),
        key_residual_values: DalucOraclePlane::empty(),
        key_residual_indexing: DalucOraclePlane::empty(),
        values: finalize_byte_plane(contract, vec![7u8; 128 * 32]).unwrap(),
        value_scales: f32_plane(contract, &parts.scales),
        value_zero_points: finalize_byte_plane(contract, vec![128u8; 128 * 4]).unwrap(),
        value_residual_values: DalucOraclePlane::empty(),
        value_residual_indexing: DalucOraclePlane::empty(),
        page_table: DalucOraclePlane::empty(),
    }
}

#[test]
fn stored_float_bits_are_read_little_endian() {
    let plane = f32_plane(contract(), &[1.5, -2.0]);
    assert_eq!(read_float_bits(&plane, 0, DalucFloatDType::F32), Ok(1.5f32.to_bits()));
    assert_eq!(read_float_bits(&plane, 1, DalucFloatDType::F32), Ok((-2.0f32).to_bits()));
    assert_eq!(read_float_bits(&plane, 1, DalucFloatDType::F16), Ok(0x3fc0));
    assert_eq!(
        read_float_bits(&plane, 2, DalucFloatDType::F32),
        Err(DalucOracleError::MalformedPayload("float read out of range"))
    );
}

#[test]
fn float_bits_are_judged_by_exponent_and_sign() {
    assert!(float_is_finite(DalucFloatDType::F32, 1.0f32.to_bits()));
    assert!(!float_is_finite(DalucFloatDType::F32, f32::INFINITY.to_bits()));
    assert!(!float_is_finite(DalucFloatDType::F32, f32::NAN.to_bits()));
    assert!(float_is_finite(DalucFloatDType::F32, f32::MAX.to_bits()));
    assert!(!float_is_finite(DalucFloatDType::F16, 0x7c00));
    assert!(float_is_finite(DalucFloatDType::F16, 0x7bff));
    assert!(!float_is_finite(DalucFloatDType::Bf16, 0x7f80));
    assert!(float_is_finite(DalucFloatDType::Bf16, 0x7f7f));
    assert!(float_is_positive(DalucFloatDType::F32, 1.0f32.to_bits()));
    assert!(float_is_positive(DalucFloatDType::F32, 1));
    assert!(!float_is_positive(DalucFloatDType::F32, 0.0f32.to_bits()));
    assert!(!float_is_positive(DalucFloatDType::F32, (-0.0f32).to_bits()));
    assert!(!float_is_positive(DalucFloatDType::F32, (-1.0f32).to_bits()));
    assert!(!float_is_positive(DalucFloatDType::F16, 0x8001));
    assert!(float_is_positive(DalucFloatDType::Bf16, 0x3f80));
}

#[test]
fn stored_codebook_must_be_complete_and_finite() {
    let mut codebook = vec![0.25f32; 8 * 256 * 8];
    assert_eq!(validate_stored_codebook(contract(), &f32_plane(contract(), &codebook)), Ok(()));
    codebook[77] = f32::NAN;
    assert_eq!(
        validate_stored_codebook(contract(), &f32_plane(contract(), &codebook)),
        Err(DalucOracleError::MalformedPayload("non-finite stored K codebook value"))
    );
    assert_eq!(
        validate_stored_codebook(contract(), &f32_plane(contract(), &codebook[..8])),
        Err(DalucOracleError::LengthMismatch {
            what: "K codebook",
            expected: 8 * 256 * 8 * 32,
            actual: 8 * 32
        })
    );
}

#[test]
fn live_value_groups_need_positive_finite_scales() {
    let geometry = DalucOracleGeometry::new(contract(), None).unwrap();
    let p = parts();
    let base = planes(contract(), &p);
    assert_eq!(
        validate_value_planes(contract(), &geometry, &base.values, &base.value_scales, &base.value_zero_points),
        Ok(())
    );
    let mut scales = p.scales.clone();
    scales[126 * 4] = 0.0;
    let dead_row = f32_plane(contract(), &scales);
    assert_eq!(
        validate_value_planes(contract(), &geometry, &base.values, &dead_row, &base.value_zero_points),
        Ok(())
    );
    scales[69 * 4 + 2] = -1.0;
    let live_row = f32_plane(contract(), &scales);
    assert_eq!(
        validate_value_planes(contract(), &geometry, &base.values, &live_row, &base.value_zero_points),
        Err(DalucOracleError::ScaleUnderflow { row: 69, group: 2 })
    );
    let mut dense = contract();
    dense.values = DalucValueRepresentation::Dense {
        dtype: DalucFloatDType::F32,
    };
    let mut values = vec![1.0f32; 128 * 32];
    values[5 * 32 + 31] = f32::INFINITY;
    let dense_plane = f32_plane(dense, &values);
    assert_eq!(
        validate_value_planes(dense, &geometry, &dense_plane, &DalucOraclePlane::empty(), &DalucOraclePlane::empty()),
        Err(DalucOracleError::MalformedPayload("non-finite dense V"))
    );
}

fn sparse_keys(indexing: DalucResidualIndexing) -> DalucKvViewContract {
    let mut sparse = contract();
    sparse.keys.residual = DalucResidualSemantics::Sparse(DalucSparseResidual {
        value_dtype: DalucFloatDType::F32,
        indexing,
        max_entries_per_vector: 2,
    });
    sparse
}

#[test]
fn residual_coordinates_must_be_unique_and_in_range() {
    let coordinates = DalucResidualIndexing::Coordinates {
        index_bits: 8,
        bit_order: DalucBitOrder::Msb0,
    };
    let sparse = sparse_keys(coordinates);
    let geometry = DalucOracleGeometry::new(sparse, None).unwrap();
    let values = f32_plane(sparse, &vec![0.125f32; 128 * 2]);
    let mut slots = Vec::new();
    for _ in 0..128 {
        slots.push(1u32);
        slots.push(9u32);
    }
    let indexing = pack_integer_plane(sparse, &slots, 8, DalucBitOrder::Msb0).unwrap();
    assert_eq!(validate_live_residuals(sparse, &geometry, &values, &indexing, true), Ok(()));
    assert_eq!(
        validate_live_residuals(sparse, &geometry, &values, &indexing, false),
        Ok(())
    );
    slots[2 * 40 + 1] = 1;
    let repeated = pack_integer_plane(sparse, &slots, 8, DalucBitOrder::Msb0).unwrap();
    assert_eq!(
        validate_live_residuals(sparse, &geometry, &values, &repeated, true),
        Err(DalucOracleError::MalformedPayload(
            "residual coordinates must be unique and in range"
        ))
    );
    slots[2 * 40 + 1] = 64;
    let outside = pack_integer_plane(sparse, &slots, 8, DalucBitOrder::Msb0).unwrap();
    assert_eq!(
        validate_live_residuals(sparse, &geometry, &values, &outside, true),
        Err(DalucOracleError::MalformedPayload(
            "residual coordinates must be unique and in range"
        ))
    );
    slots[2 * 40 + 1] = 9;
    let mut residuals = vec![0.125f32; 128 * 2];
    residuals[2 * 40] = f32::NAN;
    let bad_values = f32_plane(sparse, &residuals);
    assert_eq!(
        validate_live_residuals(sparse, &geometry, &bad_values, &indexing, true),
        Err(DalucOracleError::MalformedPayload("non-finite residual value"))
    );
}

#[test]
fn residual_bitmaps_carry_the_fixed_budget() {
    let bitmap = DalucResidualIndexing::Bitmap {
        bit_order: DalucBitOrder::Lsb0,
    };
    let sparse = sparse_keys(bitmap);
    let geometry = DalucOracleGeometry::new(sparse, None).unwrap();
    let values = f32_plane(sparse, &vec![0.5f32; 128 * 2]);
    let mut bits = vec![0u32; 128 * 64];
    for row in 0..128 {
        bits[row * 64 + 3] = 1;
        bits[row * 64 + 60] = 1;
    }
    let indexing = pack_integer_plane(sparse, &bits, 1, DalucBitOrder::Lsb0).unwrap();
    assert_eq!(validate_live_residuals(sparse, &geometry, &values, &indexing, true), Ok(()));
    bits[33 * 64 + 7] = 1;
    let crowded = pack_integer_plane(sparse, &bits, 1, DalucBitOrder::Lsb0).unwrap();
    assert_eq!(
        validate_live_residuals(sparse, &geometry, &values, &crowded, true),
        Err(DalucOracleError::MalformedPayload(
            "residual bitmap must contain the fixed oracle budget"
        ))
    );
}

#[test]
fn stored_page_tables_rebuild_the_geometry() {
    let mut paged = contract();
    paged.layout.topology = DalucStorageTopology::Paged {
        page_size: 8,
        physical_pages_per_batch: 4,
    };
    let table = page_table_plane(paged, &[2, 0, 3, 1, 3, 0]).unwrap();
    let geometry = geometry_from_page_table_plane(paged, &table).unwrap();
    assert_eq!(geometry.page_table, vec![2, 0, 3, 1, 3, 0]);
    assert_eq!(geometry.physical_rows, 128);
    let short = page_table_plane(paged, &[2, 0, 3]).unwrap();
    assert_eq!(
        geometry_from_page_table_plane(paged, &short),
        Err(DalucOracleError::LengthMismatch {
            what: "page table bytes",
            expected: 24,
            actual: 12
        })
    );
    assert_eq!(
        geometry_from_page_table_plane(contract(), &table),
        Err(DalucOracleError::InvalidPageTable(
            "contiguous payload contains page metadata"
        ))
    );
}

#[test]
fn encoded_planes_assemble_into_a_valid_payload() {
    let p = parts();
    let payload = DalucOraclePayload::from_encoded_planes(contract(), planes(contract(), &p)).unwrap();
    assert_eq!(payload.payload_version(), DA_LUC_ORACLE_PAYLOAD_VERSION);
    assert_eq!(payload.contract(), contract());
    assert_eq!(payload.validate(), Ok(()));
    assert_eq!(payload.key_index_plane().logical_bits(), 128 * 8 * 8);
    assert_eq!(payload.key_codebook_plane().logical_bits(), 8 * 256 * 8 * 32);
    assert_eq!(payload.page_table_plane().total_bytes(), 0);

    let mut narrow = contract();
    narrow.keys.codebook_entries = 2;
    narrow.keys.index_bits = 1;
    assert!(matches!(
        DalucOraclePayload::from_encoded_planes(narrow, planes(contract(), &p)),
        Err(DalucOracleError::LengthMismatch { what: "K index plane", .. })
    ));

    let mut bad = parts();
    bad.indices[69 * 8 + 4] = 250;
    let mut few = contract();
    few.keys.codebook_entries = 200;
    let mut few_planes = planes(contract(), &bad);
    few_planes.key_codebook = f32_plane(few, &vec![0.5; 8 * 200 * 8]);
    assert_eq!(
        DalucOraclePayload::from_encoded_planes(few, few_planes),
        Err(DalucOracleError::Contract(
            flat_attention::research_da_luc::DalucKvViewError::CodebookIndexOutOfRange {
                index: 250,
                codebook_entries: 200
            }
        ))
    );

    let mut scales = parts();
    scales.scales[70 * 4 + 1] = 0.0;
    assert_eq!(
        DalucOraclePayload::from_encoded_planes(contract(), planes(contract(), &scales)),
        Err(DalucOracleError::ScaleUnderflow { row: 70, group: 1 })
    );

    let mut stray = planes(contract(), &p);
    stray.page_table = page_table_plane(contract(), &[0]).unwrap();
    assert_eq!(
        DalucOraclePayload::from_encoded_planes(contract(), stray),
        Err(DalucOracleError::InvalidPageTable(
            "contiguous payload contains page metadata"
        ))
    );
}

#[test]
fn storage_report_counts_every_plane_byte() {
    let p = parts();
    let payload = DalucOraclePayload::from_encoded_planes(contract(), planes(contract(), &p)).unwrap();
    let report = payload.storage_report(DalucFloatDType::F32, 100).unwrap();
    assert_eq!(report.logical_kv_scalar_count, 2 * 2 * 24 * (64 + 32));
    assert_eq!(report.key_codebook_payload_bytes, 65_536);
    assert_eq!(report.key_index_payload_bytes, 1024);
    assert_eq!(report.key_residual_value_payload_bytes, 0);
    assert_eq!(report.value_payload_bytes, 4096);
    assert_eq!(report.value_scale_payload_bytes, 2048);
    assert_eq!(report.value_zero_point_payload_bytes, 512);
    assert_eq!(report.page_metadata_payload_bytes, 0);
    assert_eq!(report.packing_tail_padding_bits, 0);
    assert_eq!(report.alignment_padding_bytes, 0);
    assert_eq!(report.external_metadata_bytes, 100);
    assert_eq!(report.total_representation_bytes, 73_216 + 100);
    assert_eq!(report.dense_baseline_dtype, DalucFloatDType::F32);
    assert_eq!(report.dense_baseline_bytes, 128 * 64 * 4 + 128 * 32 * 4 + 100);

    let mut wide = contract();
    wide.layout.plane_alignment_bytes = 4096;
    let payload = DalucOraclePayload::from_encoded_planes(wide, planes(wide, &p)).unwrap();
    let report = payload.storage_report(DalucFloatDType::F16, 0).unwrap();
    assert_eq!(report.alignment_padding_bytes, 3072 + 2048 + 3584);
    assert_eq!(report.total_representation_bytes, 73_216 + 3072 + 2048 + 3584);
    assert_eq!(report.dense_baseline_bytes, 16_384 + 8192);
    assert_eq!(
        payload.storage_report(DalucFloatDType::F16, usize::MAX),
        Err(DalucOracleError::ArithmeticOverflow("representation bytes"))
    );
}

#[test]
fn byte_planes_stage_as_little_endian_words() {
    let plane = finalize_byte_plane(contract(), vec![1, 2, 3, 4, 5]).unwrap();
    assert_eq!(u8_plane_words(&plane), vec![0x0403_0201, 5]);
    assert_eq!(u8_plane_words(&DalucOraclePlane::empty()), vec![0]);
}

#[test]
fn forward_staging_checks_in_order_and_stages_every_plane() {
    let p = parts();
    let payload = DalucOraclePayload::from_encoded_planes(contract(), planes(contract(), &p)).unwrap();
    let scale = Ok(0.125f32.to_bits());
    let query = vec![0.5f32.to_bits(); 2 * 8 * 64];
    let staged = stage_forward(&payload, 23, scale, true, &query, 65_535, 1 << 27).unwrap();
    assert_eq!(staged.workgroups, 16);
    assert_eq!(staged.codebook_words, vec![0.5f32.to_bits(); 8 * 256 * 8]);
    assert_eq!(staged.scale_words, vec![1.0f32.to_bits(); 128 * 4]);
    assert_eq!(staged.key_index_words, vec![0x0303_0303; 128 * 8 / 4]);
    assert_eq!(staged.value_words, vec![0x0707_0707; 128 * 32 / 4]);
    assert_eq!(staged.zero_point_words, vec![0x8080_8080; 128 * 4 / 4]);
    assert_eq!(staged.output_bytes, 4 * (2 * 8 * 32 + 2 * 8));
    assert_eq!(staged.params.len(), 16);
    assert_eq!(staged.params[0], 24);
    assert_eq!(staged.params[1], 32);
    assert_eq!(staged.params[11], 0.125f32.to_bits());
    assert_eq!(staged.params[12], 1);
    assert_eq!(staged.params[13], 23);

    assert!(matches!(
        stage_forward(&payload, 23, scale, true, &query[1..], 65_535, 1 << 27),
        Err(DalucWgpuCandidateError::QueryLength { expected: 1024, actual: 1023 })
    ));
    let mut bad_query = query.clone();
    bad_query[5] = f32::NAN.to_bits();
    assert!(matches!(
        stage_forward(&payload, 23, scale, true, &bad_query, 15, 1 << 27),
        Err(DalucWgpuCandidateError::NonFiniteQuery { index: 5 })
    ));
    assert!(matches!(
        stage_forward(&payload, 23, scale, true, &query, 15, 1 << 27),
        Err(DalucWgpuCandidateError::DispatchLimit { actual: 16, maximum: 15 })
    ));
    assert!(matches!(
        stage_forward(&payload, 23, scale, true, &query, 65_535, 4095),
        Err(DalucWgpuCandidateError::DeviceBufferLimit {
            label: "Q",
            required_bytes: 4096,
            maximum_bytes: 4095
        })
    ));
    assert!(matches!(
        stage_forward(&payload, 23, scale, true, &query, 65_535, 8192),
        Err(DalucWgpuCandidateError::DeviceBufferLimit {
            label: "K codebook",
            required_bytes: 65_536,
            maximum_bytes: 8192
        })
    ));
}
