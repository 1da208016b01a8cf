use flat_attention::attention_shape::{AsymmetricGroupedAttentionShape, FlatAttentionError};
use flat_attention::wgpu_external::ExternalWgpuError;
use flat_attention::wgpu_external_variable::{
    validate_sequence_metadata, variable_params, VariableLengthSequenceMetadata,
    VARIABLE_PARAM_WORDS,
};

fn entry(q: usize, kv: usize, pos: usize, rope: usize) -> VariableLengthSequenceMetadata {
    VariableLengthSequenceMetadata {
        active_query_len: q,
        active_kv_len: kv,
        query_position_offset: pos,
        query_rope_position_offset: rope,
    }
}

fn shape() -> AsymmetricGroupedAttentionShape {
    AsymmetricGroupedAttentionShape {
        batch: 2,
        q_heads: 4,
        kv_heads: 2,
        query_len: 8,
        kv_len: 16,
        head_dim: 32,
        query_position_offset: 0,
    }
}

#[test]
fn metadata_accepts_active_prefixes_of_the_padded_extents() {
    let metadata = [entry(8, 16, 8, 8), entry(3, 5, 2, 100)];
    assert_eq!(validate_sequence_metadata(2, 8, 16, 0, &metadata), Ok(()));
}

#[test]
fn metadata_rejections_follow_entry_order() {
    assert_eq!(
        validate_sequence_metadata(257, 8, 16, 0, &[]),
        Err(ExternalWgpuError::DispatchLimit {
            axis: "batch_metadata",
            actual: 257,
            maximum: 256
        })
    );
    assert_eq!(
        validate_sequence_metadata(2, 8, 16, 0, &[entry(1, 1, 0, 0)]),
        Err(ExternalWgpuError::Core(FlatAttentionError::LengthMismatch {
            tensor: "active sequence metadata",
            actual: 1,
            expected: 2
        }))
    );
    assert_eq!(
        validate_sequence_metadata(2, 8, 16, 0, &[entry(1, 1, 0, 0), entry(0, 1, 0, 0)]),
        Err(ExternalWgpuError::Core(FlatAttentionError::ZeroDimension))
    );
    assert_eq!(
        validate_sequence_metadata(2, 8, 16, 0, &[entry(9, 1, 0, 0), entry(1, 17, 0, 0)]),
        Err(ExternalWgpuError::Core(FlatAttentionError::LengthMismatch {
            tensor: "active query length",
            actual: 9,
            expected: 8
        }))
    );
    assert_eq!(
        validate_sequence_metadata(1, 8, 16, 0, &[entry(1, 17, 0, 0)]),
        Err(ExternalWgpuError::Core(FlatAttentionError::LengthMismatch {
            tensor: "active KV length",
            actual: 17,
            expected: 16
        }))
    );
    assert_eq!(
        validate_sequence_metadata(1, 8, 16, 0, &[entry(2, 1, u32::MAX as usize - 1, 0)]),
        Err(ExternalWgpuError::Core(FlatAttentionError::PositionOverflow))
    );
    assert_eq!(
        validate_sequence_metadata(1, 8, 16, u32::MAX as usize, &[entry(1, 2, 0, 0)]),
        Err(ExternalWgpuError::Core(FlatAttentionError::PositionOverflow))
    );
}

#[test]
fn uniform_block_packs_header_entries_and_padding() {
    let metadata = [entry(8, 16, 8, 9), entry(3, 5, 2, 100)];
    let words = variable_params(shape(), true, 7, 11, 4, &metadata).unwrap();
    assert_eq!(words.len(), VARIABLE_PARAM_WORDS);
    assert_eq!(
        &words[..20],
        &[8, 16, 32, 4, 2, 2, 1, 7, 11, 4, 0, 0, 8, 16, 8, 9, 3, 5, 2, 100]
    );
    assert!(words[20..].iter().all(|word| *word == 0));
    assert_eq!(
        variable_params(shape(), false, 7, 11, 4, &[entry(1, 1, 1 << 33, 0)]),
        Err(ExternalWgpuError::IndexSpaceExceeded { elements: 1 << 33 })
    );
}
