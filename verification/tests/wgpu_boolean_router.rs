use flat_attention::boolean_attention::{
    BooleanAttentionMaskError, BooleanAttentionSignature, BooleanAttentionSignatureError,
    HammingAdmissionRule, BooleanAttentionMask,
};
use flat_attention::fingerprint::fnv1a64;
use flat_attention::wgpu_boolean_router::{
    plan_router_dispatch, BooleanKvWgpuParityError, BooleanKvWgpuParityEvidence,
    BooleanWgpuRouterPlan, WgpuBooleanRouterError, BOOLEAN_KV_WGPU_PARITY_SCHEMA,
};

#[test]
fn plan_preserves_cpu_hamming_oracle_and_u64_bytes() {
    let query = BooleanAttentionSignature::new(65, vec![0b1011, 1]).unwrap();
    let keys = vec![
        BooleanAttentionSignature::new(65, vec![0b1011, 1]).unwrap(),
        BooleanAttentionSignature::new(65, vec![0b0011, 1]).unwrap(),
        BooleanAttentionSignature::new(65, vec![0, 0]).unwrap(),
    ];
    let plan =
        BooleanWgpuRouterPlan::new(&query, &keys, HammingAdmissionRule::new(1, 65).unwrap())
            .unwrap();

    assert_eq!(plan.key_count(), 3);
    assert_eq!(plan.words_per_signature(), 4);
    assert_eq!(plan.max_distance(), 1);
    assert_eq!(plan.query_words().len() * 4, query.words().len() * 8);
    assert_eq!(plan.oracle_mask().admitted_blocks(), vec![0, 1]);
    assert_eq!(plan.key_words().len(), 12);
}

#[test]
fn bkv7_parity_evidence_binds_exact_inputs_and_candidate_set() {
    let query = BooleanAttentionSignature::new(65, vec![0b1011, 1]).unwrap();
    let keys = vec![
        BooleanAttentionSignature::new(65, vec![0b1011, 1]).unwrap(),
        BooleanAttentionSignature::new(65, vec![0b0011, 1]).unwrap(),
        BooleanAttentionSignature::new(65, vec![0, 0]).unwrap(),
    ];
    let plan =
        BooleanWgpuRouterPlan::new(&query, &keys, HammingAdmissionRule::new(1, 65).unwrap())
            .unwrap();
    let evidence = BooleanKvWgpuParityEvidence::from_readback(&plan, &[1, 1, 0]).unwrap();
    assert_eq!(evidence.cpu_admitted_blocks(), &[0, 1]);
    assert_eq!(evidence.wgpu_admitted_blocks(), &[0, 1]);
    assert!(evidence.exact_candidate_set_match());
    evidence.require_exact_match().unwrap();
    let json = evidence.canonical_json();
    assert!(json.contains(BOOLEAN_KV_WGPU_PARITY_SCHEMA));
    assert!(json.contains("\"signature_bits\":65"));
    assert!(json.contains("\"key_count\":3"));
    assert!(json.contains("\"cpu_admitted_blocks\":[0,1]"));
    assert!(json.contains("\"wgpu_admitted_blocks\":[0,1]"));
    assert!(json.contains("\"exact_candidate_set_match\":true"));
    assert!(json.contains("\"parity_checksum\":{\"algorithm\":\"fnv1a64\""));
}

#[test]
fn bkv7_parity_rejects_nonbinary_length_and_candidate_drift() {
    let query = BooleanAttentionSignature::new(8, vec![0]).unwrap();
    let keys = vec![
        BooleanAttentionSignature::new(8, vec![0]).unwrap(),
        BooleanAttentionSignature::new(8, vec![1]).unwrap(),
    ];
    let plan =
        BooleanWgpuRouterPlan::new(&query, &keys, HammingAdmissionRule::new(0, 8).unwrap())
            .unwrap();
    assert!(matches!(
        BooleanKvWgpuParityEvidence::from_readback(&plan, &[1]),
        Err(BooleanKvWgpuParityError::AdmissionCountMismatch { .. })
    ));
    assert!(matches!(
        BooleanKvWgpuParityEvidence::from_readback(&plan, &[1, 2]),
        Err(BooleanKvWgpuParityError::NonBinaryAdmission { index: 1, value: 2 })
    ));
    let mismatch = BooleanKvWgpuParityEvidence::from_readback(&plan, &[0, 1]).unwrap();
    assert!(!mismatch.exact_candidate_set_match());
    assert!(matches!(
        mismatch.require_exact_match(),
        Err(BooleanKvWgpuParityError::CandidateSetMismatch { .. })
    ));
    assert!(mismatch
        .canonical_json()
        .contains("\"exact_candidate_set_match\":false"));
}

#[test]
fn empty_keys_and_width_mismatch_fail_closed() {
    let query = BooleanAttentionSignature::new(8, vec![0]).unwrap();
    let rule = HammingAdmissionRule::new(1, 8).unwrap();
    assert_eq!(
        BooleanWgpuRouterPlan::new(&query, &[], rule),
        Err(WgpuBooleanRouterError::ZeroKeys)
    );

    let key = BooleanAttentionSignature::new(7, vec![0]).unwrap();
    assert!(matches!(
        BooleanWgpuRouterPlan::new(&query, &[key], rule),
        Err(WgpuBooleanRouterError::Signature(
            BooleanAttentionSignatureError::WidthMismatch { .. }
        ))
    ));
}

#[test]
fn canonical_record_is_exact_and_checksummed() {
    let query = BooleanAttentionSignature::new(8, vec![0b101]).unwrap();
    let keys = vec![BooleanAttentionSignature::new(8, vec![0b100]).unwrap()];
    let plan =
        BooleanWgpuRouterPlan::new(&query, &keys, HammingAdmissionRule::new(1, 8).unwrap())
            .unwrap();
    assert_eq!(plan.query_words(), &[5, 0]);
    assert_eq!(plan.key_words(), &[4, 0]);
    let evidence = BooleanKvWgpuParityEvidence::from_readback(&plan, &[1]).unwrap();
    let body = "{\"schema\":\"flat.boolean-kv-wgpu-parity.v1\",\"signature_bits\":8,\"key_count\":1,\"words_per_signature\":2,\"max_distance\":1,\"query_words_u32\":[5,0],\"key_words_u32\":[4,0],\"cpu_admitted_blocks\":[0],\"wgpu_admitted_blocks\":[0],\"exact_candidate_set_match\":true";
    let expected = format!(
        "{body},\"parity_checksum\":{{\"algorithm\":\"fnv1a64\",\"value\":\"{:016x}\"}}}}",
        fnv1a64(body.as_bytes())
    );
    assert_eq!(evidence.canonical_json(), expected);
}

#[test]
fn u64_words_split_into_low_then_high_halves() {
    let query = BooleanAttentionSignature::new(64, vec![0x0123_4567_89ab_cdef]).unwrap();
    let keys = vec![BooleanAttentionSignature::new(64, vec![u64::MAX]).unwrap()];
    let plan =
        BooleanWgpuRouterPlan::new(&query, &keys, HammingAdmissionRule::new(64, 64).unwrap())
            .unwrap();
    assert_eq!(plan.query_words(), &[0x89ab_cdef, 0x0123_4567]);
    assert_eq!(plan.key_words(), &[u32::MAX, u32::MAX]);
    assert_eq!(plan.oracle_mask().admitted_blocks(), vec![0]);
    assert_eq!(plan.signature_bits(), 64);
}

#[test]
fn signatures_and_rules_are_canonical() {
    assert_eq!(
        BooleanAttentionSignature::new(0, vec![]),
        Err(BooleanAttentionSignatureError::ZeroWidth)
    );
    assert_eq!(
        BooleanAttentionSignature::new(65, vec![0]),
        Err(BooleanAttentionSignatureError::WordCountMismatch {
            expected: 2,
            actual: 1,
        })
    );
    assert_eq!(
        BooleanAttentionSignature::new(4, vec![0b1_0000]),
        Err(BooleanAttentionSignatureError::NonCanonicalTail)
    );
    assert_eq!(
        HammingAdmissionRule::new(9, 8),
        Err(BooleanAttentionSignatureError::DistanceAboveWidth {
            max_distance: 9,
            bits: 8,
        })
    );
    let rule = HammingAdmissionRule::new(2, 8).unwrap();
    let a = BooleanAttentionSignature::new(8, vec![0b1111_0000]).unwrap();
    let b = BooleanAttentionSignature::new(8, vec![0b1100_0000]).unwrap();
    let c = BooleanAttentionSignature::new(8, vec![0b0000_0000]).unwrap();
    assert_eq!(rule.admits(&a, &b), Ok(true));
    assert_eq!(rule.admits(&a, &c), Ok(false));
    assert_eq!(
        BooleanAttentionMask::from_admissions(&[]),
        Err(BooleanAttentionMaskError::NoBlocks)
    );
    assert_eq!(
        BooleanAttentionMask::from_admissions(&[false, true, true])
            .unwrap()
            .admitted_blocks(),
        vec![1, 2]
    );
}

#[test]
fn router_dispatch_checks_buffers_and_workgroups() {
    let query = BooleanAttentionSignature::new(65, vec![0b1011, 1]).unwrap();
    let keys: Vec<_> = (0..70)
        .map(|_| BooleanAttentionSignature::new(65, vec![0b0011, 1]).unwrap())
        .collect();
    let plan =
        BooleanWgpuRouterPlan::new(&query, &keys, HammingAdmissionRule::new(1, 65).unwrap())
            .unwrap();
    let dispatch = plan_router_dispatch(&plan, 16, 70 * 16, 70 * 4, 2).unwrap();
    assert_eq!(dispatch.workgroups, 2);
    assert_eq!(dispatch.params, [70, 4, 1, 0]);
    assert_eq!(
        plan_router_dispatch(&plan, 15, 70 * 16, 70 * 4, 2),
        Err(WgpuBooleanRouterError::BufferTooSmall {
            binding: "query",
            required_bytes: 16,
            actual_bytes: 15
        })
    );
    assert_eq!(
        plan_router_dispatch(&plan, 16, 70 * 16, 70 * 4 - 1, 2),
        Err(WgpuBooleanRouterError::BufferTooSmall {
            binding: "admissions",
            required_bytes: 280,
            actual_bytes: 279
        })
    );
    assert_eq!(
        plan_router_dispatch(&plan, 16, 70 * 16, 70 * 4, 1),
        Err(WgpuBooleanRouterError::DispatchLimit {
            required: 2,
            maximum: 1
        })
    );
}
