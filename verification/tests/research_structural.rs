use flat_attention::attention_shape::AttentionShape;
use flat_attention::research_structural_device::{StructuralDevicePlan, StructuralDevicePlanError};
use flat_attention::research_structural_routing::{
    StructuralCandidateSet, StructuralRoutingCounters, StructuralRoutingError,
};

fn shape() -> AttentionShape {
    AttentionShape {
        batch: 1,
        heads: 1,
        seq_len: 4,
        head_dim: 2,
    }
}

#[test]
fn canonicalizes_rows_and_rejects_duplicates() {
    let candidates = StructuralCandidateSet::from_rows(
        shape(),
        vec![vec![3, 1], vec![2], vec![3, 0, 2], vec![1, 0]],
    )
    .unwrap();
    assert_eq!(candidates.row(0).unwrap(), &[1, 3]);
    assert_eq!(candidates.row(2).unwrap(), &[0, 2, 3]);
    assert_eq!(candidates.admitted_count(), 8);

    assert!(matches!(
        StructuralCandidateSet::from_rows(shape(), vec![vec![1, 1], vec![0], vec![0], vec![0]],),
        Err(StructuralRoutingError::DuplicateKey {
            row: 0,
            key_position: 1,
        })
    ));
}

#[test]
fn causal_intersection_is_explicit_and_canonical() {
    let candidates = StructuralCandidateSet::all(shape()).unwrap();
    let causal = candidates.intersect_causal();
    assert_eq!(causal.row(0).unwrap(), &[0]);
    assert_eq!(causal.row(1).unwrap(), &[0, 1]);
    assert_eq!(causal.row(2).unwrap(), &[0, 1, 2]);
    assert_eq!(causal.row(3).unwrap(), &[0, 1, 2, 3]);
    assert_eq!(causal.admitted_count(), 10);
}

#[test]
fn malformed_geometry_and_keys_fail_closed() {
    assert!(matches!(
        StructuralCandidateSet::from_rows(shape(), vec![vec![0], vec![0], vec![0]],),
        Err(StructuralRoutingError::RowCountMismatch {
            actual: 3,
            expected: 4,
        })
    ));
    assert!(matches!(
        StructuralCandidateSet::from_rows(shape(), vec![vec![4], vec![0], vec![0], vec![0]],),
        Err(StructuralRoutingError::KeyOutOfRange {
            row: 0,
            key_position: 4,
            seq_len: 4,
        })
    ));
}

#[test]
fn host_device_round_trip_preserves_exact_candidate_identity() {
    let candidates = StructuralCandidateSet::from_rows(
        shape(),
        vec![vec![0, 2], vec![1, 3], vec![0, 1, 3], vec![2, 3]],
    )
    .unwrap();
    let plan = StructuralDevicePlan::from_candidates(&candidates).unwrap();

    assert_eq!(plan.offsets(), &[0, 2, 4, 7, 9]);
    assert_eq!(plan.key_positions(), &[0, 2, 1, 3, 0, 1, 3, 2, 3]);
    assert_eq!(plan.total_storage_bytes(), 56);
    assert_eq!(plan.to_candidates(shape()).unwrap(), candidates);
}

#[test]
fn all_accept_round_trip_preserves_every_key() {
    let candidates = StructuralCandidateSet::all(shape()).unwrap();
    let plan = StructuralDevicePlan::from_candidates(&candidates).unwrap();
    assert_eq!(plan.admitted_count(), 16);
    assert_eq!(plan.to_candidates(shape()).unwrap(), candidates);
}

#[test]
fn malformed_offsets_and_keys_fail_closed() {
    assert!(matches!(
        StructuralDevicePlan::from_u32_parts(4, 2, vec![0, 2], vec![0, 1]),
        Err(StructuralDevicePlanError::OffsetCountMismatch {
            actual: 2,
            expected: 3
        })
    ));
    assert!(matches!(
        StructuralDevicePlan::from_u32_parts(4, 1, vec![0, 2], vec![2, 2]),
        Err(StructuralDevicePlanError::NonIncreasingKey {
            row: 0,
            previous: 2,
            current: 2
        })
    ));
    assert!(matches!(
        StructuralDevicePlan::from_u32_parts(4, 1, vec![0, 1], vec![4]),
        Err(StructuralDevicePlanError::KeyOutOfRange {
            row: 0,
            key: 4,
            seq_len: 4
        })
    ));
}

#[test]
fn fingerprint_is_deterministic_and_identity_sensitive() {
    let a = StructuralCandidateSet::from_rows(shape(), vec![vec![0], vec![1], vec![2], vec![3]])
        .unwrap();
    let b =
        StructuralCandidateSet::from_rows(shape(), vec![vec![0], vec![1], vec![2], vec![2, 3]])
            .unwrap();
    let a1 = StructuralDevicePlan::from_candidates(&a).unwrap();
    let a2 = StructuralDevicePlan::from_candidates(&a).unwrap();
    let b = StructuralDevicePlan::from_candidates(&b).unwrap();

    assert_eq!(a1.fingerprint_fnv1a64(), a2.fingerprint_fnv1a64());
    assert_ne!(a1.fingerprint_fnv1a64(), b.fingerprint_fnv1a64());
}

#[test]
fn causal_intersection_round_trip_is_exact() {
    let original = StructuralCandidateSet::all(shape()).unwrap();
    let causal = original.intersect_causal();
    let plan = StructuralDevicePlan::from_candidates(&causal).unwrap();
    assert_eq!(plan.to_candidates(shape()).unwrap(), causal);
    assert_eq!(plan.key_positions(), &[0, 0, 1, 0, 1, 2, 0, 1, 2, 3]);
}

#[test]
fn routing_counters_count_admitted_and_executed_pairs() {
    let candidates = StructuralCandidateSet::from_rows(
        shape(),
        vec![vec![0, 3], vec![1, 2], vec![0, 2], vec![1, 3]],
    )
    .unwrap();
    assert_eq!(
        candidates.routing_counters(shape(), false),
        Ok(StructuralRoutingCounters {
            admitted_pairs: 8,
            executed_pairs: 8,
        })
    );
    assert_eq!(
        candidates.routing_counters(shape(), true),
        Ok(StructuralRoutingCounters {
            admitted_pairs: 8,
            executed_pairs: 6,
        })
    );
}

#[test]
fn routing_counters_fail_closed_on_empty_rows_and_geometry() {
    let candidates =
        StructuralCandidateSet::from_rows(shape(), vec![vec![0], vec![2], vec![], vec![3]])
            .unwrap();
    assert_eq!(
        candidates.routing_counters(shape(), false),
        Err(StructuralRoutingError::EmptyEffectiveCandidates { row: 2 })
    );
    assert_eq!(
        candidates.routing_counters(shape(), true),
        Err(StructuralRoutingError::EmptyEffectiveCandidates { row: 1 })
    );
    let other = AttentionShape {
        batch: 2,
        ..shape()
    };
    assert_eq!(
        candidates.routing_counters(other, false),
        Err(StructuralRoutingError::GeometryMismatch {
            set_seq_len: 4,
            shape_seq_len: 4,
            set_query_rows: 4,
            shape_query_rows: 8,
        })
    );
}

#[test]
fn causal_intersection_twice_equals_once() {
    let candidates = StructuralCandidateSet::from_rows(
        shape(),
        vec![vec![0, 3], vec![1, 2], vec![0, 2], vec![1, 3]],
    )
    .unwrap();
    let once = candidates.intersect_causal();
    let twice = once.intersect_causal();
    assert_eq!(once, twice);
    assert_eq!(once.key_positions(), &[0, 1, 0, 2, 1, 3]);
}

#[test]
fn canonical_bytes_have_header_and_four_bytes_per_entry() {
    let candidates = StructuralCandidateSet::all(shape()).unwrap();
    let plan = StructuralDevicePlan::from_candidates(&candidates).unwrap();
    let bytes = plan.canonical_bytes();
    assert_eq!(bytes.len(), 20 + 4 * (5 + 16));
    assert_eq!(&bytes[0..8], &[1, 0, 0, 0, 4, 0, 0, 0]);
}
