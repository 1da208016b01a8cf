use flat_attention::attention_shape::{AsymmetricGroupedAttentionShape, FlatAttentionError};
use flat_attention::wgpu_external::ExternalWgpuError;
use flat_attention::wgpu_external_asymmetric::{
    kernel_variant_for_shape, kv_reuse_workgroups_y, validate_alibi, validate_kv_reuse_candidate,
    validate_kv_reuse_pass,
    ExternalAsymmetricKernelVariant,
};

fn shape(q_heads: usize, kv_heads: usize, query_len: usize, head_dim: usize) -> AsymmetricGroupedAttentionShape {
    AsymmetricGroupedAttentionShape {
        batch: 2,
        q_heads,
        kv_heads,
        query_len,
        kv_len: 33,
        head_dim,
        query_position_offset: 32,
    }
}

fn bits(values: &[f32]) -> Vec<u32> {
    values.iter().map(|value| value.to_bits()).collect()
}

#[test]
fn vec4_serves_only_supported_head_dims_when_compiled() {
    assert_eq!(
        kernel_variant_for_shape(true, shape(4, 2, 1, 64)),
        ExternalAsymmetricKernelVariant::Vec4
    );
    assert_eq!(
        kernel_variant_for_shape(true, shape(4, 2, 1, 128)),
        ExternalAsymmetricKernelVariant::Vec4
    );
    assert_eq!(
        kernel_variant_for_shape(true, shape(4, 2, 1, 96)),
        ExternalAsymmetricKernelVariant::Portable
    );
    assert_eq!(
        kernel_variant_for_shape(false, shape(4, 2, 1, 64)),
        ExternalAsymmetricKernelVariant::Portable
    );
}

#[test]
fn kv_reuse_candidate_requires_decode_and_real_groups() {
    assert_eq!(validate_kv_reuse_candidate(true, shape(8, 2, 1, 64)), Ok(()));
    assert_eq!(
        validate_kv_reuse_candidate(false, shape(8, 2, 1, 64)),
        Err(ExternalWgpuError::CandidateNotEnabled { candidate: "M48" })
    );
    assert_eq!(
        validate_kv_reuse_candidate(true, shape(8, 2, 2, 64)),
        Err(ExternalWgpuError::UnsupportedCandidateShape {
            candidate: "M48",
            reason: "query_len must equal 1"
        })
    );
    assert_eq!(
        validate_kv_reuse_candidate(true, shape(2, 2, 1, 64)),
        Err(ExternalWgpuError::UnsupportedCandidateShape {
            candidate: "M48",
            reason: "GQA group size must be at least 2"
        })
    );
}

#[test]
fn kv_reuse_tiles_groups_of_four_query_heads() {
    // group of 6 query heads -> 2 tiles; 2 batches * 2 KV heads * 2 tiles.
    assert_eq!(kv_reuse_workgroups_y(shape(12, 2, 1, 64), 65535), Ok(8));
    assert_eq!(kv_reuse_workgroups_y(shape(8, 2, 1, 64), 65535), Ok(4));
    assert_eq!(
        kv_reuse_workgroups_y(shape(12, 2, 1, 64), 7),
        Err(ExternalWgpuError::DispatchLimit {
            axis: "y/batch_kv_head_tiles",
            actual: 8,
            maximum: 7
        })
    );
    let mut wide = shape(4, 2, 1, 64);
    wide.batch = usize::MAX;
    assert_eq!(
        kv_reuse_workgroups_y(wide, 65535),
        Err(ExternalWgpuError::Core(FlatAttentionError::ShapeOverflow))
    );
}

#[test]
fn alibi_slopes_must_match_heads_and_be_finite() {
    let s = shape(2, 1, 4, 64);
    assert_eq!(validate_alibi(s, &bits(&[0.5, 0.25]), 0, 0), Ok(()));
    assert_eq!(
        validate_alibi(s, &bits(&[0.5]), 0, 0),
        Err(ExternalWgpuError::Core(FlatAttentionError::LengthMismatch {
            tensor: "ALiBi slopes",
            actual: 1,
            expected: 2
        }))
    );
    assert_eq!(
        validate_alibi(s, &bits(&[0.5, f32::NAN]), 0, 0),
        Err(ExternalWgpuError::Core(FlatAttentionError::NonFiniteInput {
            tensor: "ALiBi slopes",
            index: 1
        }))
    );
    assert_eq!(
        validate_alibi(s, &bits(&[f32::NEG_INFINITY, f32::NAN]), 0, 0),
        Err(ExternalWgpuError::Core(FlatAttentionError::NonFiniteInput {
            tensor: "ALiBi slopes",
            index: 0
        }))
    );
    assert_eq!(
        validate_alibi(s, &bits(&[0.5, 0.25]), u32::MAX as usize - 2, 0),
        Err(ExternalWgpuError::Core(FlatAttentionError::PositionOverflow))
    );
    assert_eq!(validate_alibi(s, &bits(&[0.5, 0.25]), u32::MAX as usize - 3, 0), Ok(()));
    let many = shape(257, 1, 4, 64);
    assert_eq!(
        validate_alibi(many, &vec![0u32; 257], 0, 0),
        Err(ExternalWgpuError::IndexSpaceExceeded { elements: 257 })
    );
}

#[test]
fn kv_reuse_pass_checks_run_in_recording_order() {
    assert_eq!(
        validate_kv_reuse_pass(false, shape(8, 0, 1, 64), Err(FlatAttentionError::ZeroDimension)),
        Err(ExternalWgpuError::CandidateNotEnabled { candidate: "M48" })
    );
    assert_eq!(
        validate_kv_reuse_pass(true, shape(8, 0, 1, 64), Err(FlatAttentionError::ZeroDimension)),
        Err(ExternalWgpuError::Core(FlatAttentionError::ZeroDimension))
    );
    assert_eq!(
        validate_kv_reuse_pass(true, shape(8, 2, 2, 64), Ok(())),
        Err(ExternalWgpuError::UnsupportedCandidateShape {
            candidate: "M48",
            reason: "query_len must equal 1",
        })
    );
    assert_eq!(validate_kv_reuse_pass(true, shape(8, 2, 1, 64), Ok(())), Ok(()));
}
