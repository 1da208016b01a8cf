use flat_attention::wgpu_kv_cache::{
    ResidentAppendSource, ResidentCopyRegion, ResidentKvCacheState, WgpuResidentKvCacheError,
};

const LIMIT: u64 = 1 << 30;

fn source(size_bytes: u64) -> ResidentAppendSource {
    ResidentAppendSource {
        size_bytes,
        copy_src: true,
    }
}

#[test]
fn new_cache_is_empty_with_exact_tensor_bytes() {
    let cache = ResidentKvCacheState::new(2, 3, 8, 4, LIMIT).unwrap();
    assert_eq!(cache.batch(), 2);
    assert_eq!(cache.kv_heads(), 3);
    assert_eq!(cache.capacity(), 8);
    assert_eq!(cache.head_dim(), 4);
    assert_eq!(cache.len(), 0);
    assert!(cache.is_empty());
    assert_eq!(cache.remaining_capacity(), 8);
    // 2 batches * 8 rows * 12 scalars * 4 bytes.
    assert_eq!(cache.tensor_bytes(), 768);
}

#[test]
fn new_rejects_zero_overflow_and_device_limit() {
    assert_eq!(
        ResidentKvCacheState::new(0, 1, 1, 1, LIMIT).unwrap_err(),
        WgpuResidentKvCacheError::ZeroDimension
    );
    assert_eq!(
        ResidentKvCacheState::new(1, usize::MAX, 1, 2, LIMIT).unwrap_err(),
        WgpuResidentKvCacheError::ShapeOverflow
    );
    assert_eq!(
        ResidentKvCacheState::new(2, 3, 8, 4, 767).unwrap_err(),
        WgpuResidentKvCacheError::DeviceBufferLimit {
            required_bytes: 768,
            maximum_bytes: 767,
        }
    );
}

#[test]
fn append_copies_only_new_rows_into_capacity_strided_slots() {
    let mut cache = ResidentKvCacheState::new(2, 1, 8, 4, LIMIT).unwrap();
    // row = 16 bytes; first append 3 rows per batch.
    let (len, regions) = cache.plan_append(3, source(96), source(96)).unwrap();
    assert_eq!(len, 3);
    assert_eq!(
        regions,
        vec![
            ResidentCopyRegion {
                source_offset: 0,
                destination_offset: 0,
                size_bytes: 48,
            },
            ResidentCopyRegion {
                source_offset: 48,
                destination_offset: 128,
                size_bytes: 48,
            },
        ]
    );
    let (len, regions) = cache.plan_append(2, source(64), source(64)).unwrap();
    assert_eq!(len, 5);
    assert_eq!(cache.len(), 5);
    assert_eq!(cache.remaining_capacity(), 3);
    assert_eq!(
        regions,
        vec![
            ResidentCopyRegion {
                source_offset: 0,
                destination_offset: 48,
                size_bytes: 32,
            },
            ResidentCopyRegion {
                source_offset: 32,
                destination_offset: 176,
                size_bytes: 32,
            },
        ]
    );
    // Live prefix of batch 1 is bytes [128, 176): the new rows start at its end.
    assert_eq!(regions[1].destination_offset, 128 + 3 * 16);
}

#[test]
fn append_failures_leave_length_unchanged() {
    let mut cache = ResidentKvCacheState::new(1, 1, 4, 4, LIMIT).unwrap();
    cache.plan_append(3, source(48), source(48)).unwrap();
    assert_eq!(
        cache.plan_append(0, source(0), source(0)).unwrap_err(),
        WgpuResidentKvCacheError::ZeroDimension
    );
    assert_eq!(
        cache.plan_append(2, source(32), source(32)).unwrap_err(),
        WgpuResidentKvCacheError::CapacityExceeded {
            current_len: 3,
            append_len: 2,
            capacity: 4,
        }
    );
    assert_eq!(
        cache.plan_append(usize::MAX, source(0), source(0)).unwrap_err(),
        WgpuResidentKvCacheError::ShapeOverflow
    );
    assert_eq!(
        cache.plan_append(1, source(15), source(16)).unwrap_err(),
        WgpuResidentKvCacheError::BufferTooSmall {
            tensor: "K",
            actual_bytes: 15,
            required_bytes: 16,
        }
    );
    assert_eq!(
        cache
            .plan_append(
                1,
                source(16),
                ResidentAppendSource {
                    size_bytes: 16,
                    copy_src: false,
                },
            )
            .unwrap_err(),
        WgpuResidentKvCacheError::MissingBufferUsage {
            tensor: "V",
            required: "COPY_SRC",
        }
    );
    assert_eq!(cache.len(), 3);
}

#[test]
fn reset_is_logical_and_allows_refill() {
    let mut cache = ResidentKvCacheState::new(1, 2, 4, 2, LIMIT).unwrap();
    cache.plan_append(4, source(64), source(64)).unwrap();
    assert_eq!(cache.remaining_capacity(), 0);
    cache.reset();
    assert!(cache.is_empty());
    assert_eq!(cache.tensor_bytes(), 64);
    let (len, regions) = cache.plan_append(1, source(16), source(16)).unwrap();
    assert_eq!(len, 1);
    assert_eq!(regions[0].destination_offset, 0);
}
