use flat_attention::attention_shape::FlatAttentionError;
use flat_attention::research_structural_wgpu::DeviceDispatchLimits;
use flat_attention::wgpu_boolean_selected_paged_decode::{
    plan_selected_decode, selected_decode_layout, SelectedDecodeBuffers,
    SELECTED_DECODE_PARAM_WORDS, BooleanIndexedKvSelection, BooleanSelectedDecodeLayout,
    BooleanSelectedKvPage, BooleanSelectedPagedDecodeError, BooleanSelectedPagedDescriptor,
    BooleanSelectedPagedKvTable, PagedKvTableSnapshot,
};

/// 40 live tokens in pages of 16: pages 0, 1 full and page 2 holding 8 tokens,
/// mapped to physical pages 5, 2 and 7.
fn table() -> PagedKvTableSnapshot {
    PagedKvTableSnapshot::new(9, 40, 3, 16, 8, vec![Some(5), Some(2), Some(7)]).unwrap()
}

fn page(logical_page: usize, physical_page: usize, live_tokens: usize) -> BooleanSelectedKvPage {
    BooleanSelectedKvPage {
        logical_page,
        physical_page,
        live_tokens,
    }
}

fn selection(pages: Vec<BooleanSelectedKvPage>) -> BooleanIndexedKvSelection {
    BooleanIndexedKvSelection {
        generation: 9,
        live_tokens: 40,
        mapped_pages: 3,
        selected_pages: pages,
    }
}

#[test]
fn selection_freezes_original_logical_pages() {
    let frozen = BooleanSelectedPagedKvTable::from_selection(
        &selection(vec![page(0, 5, 16), page(2, 7, 8)]),
        &table(),
    )
    .unwrap();
    assert_eq!(
        frozen.entries(),
        &[
            BooleanSelectedPagedDescriptor {
                physical_page: 5,
                logical_page: 0,
                live_tokens: 16,
            },
            BooleanSelectedPagedDescriptor {
                physical_page: 7,
                logical_page: 2,
                live_tokens: 8,
            },
        ]
    );
    assert_eq!(frozen.full_live_tokens(), 40);
    assert_eq!(frozen.selected_live_tokens(), 24);
    assert_eq!(frozen.page_size(), 16);
    assert_eq!(frozen.physical_pages(), 8);
    assert_eq!(frozen.generation(), 9);
    assert_eq!(frozen.validate_against(&table()), Ok(()));
}

#[test]
fn stale_or_forged_selections_fail_closed() {
    let mut stale = selection(vec![page(0, 5, 16)]);
    stale.generation = 8;
    assert_eq!(
        BooleanSelectedPagedKvTable::from_selection(&stale, &table()),
        Err(BooleanSelectedPagedDecodeError::GenerationMismatch {
            selection_generation: 8,
            table_generation: 9,
        })
    );
    let mut grown = selection(vec![page(0, 5, 16)]);
    grown.live_tokens = 41;
    assert!(matches!(
        BooleanSelectedPagedKvTable::from_selection(&grown, &table()),
        Err(BooleanSelectedPagedDecodeError::SnapshotMismatch { .. })
    ));
    assert_eq!(
        BooleanSelectedPagedKvTable::from_selection(&selection(vec![]), &table()),
        Err(BooleanSelectedPagedDecodeError::EmptySelection)
    );
    assert_eq!(
        BooleanSelectedPagedKvTable::from_selection(&selection(vec![page(3, 5, 16)]), &table()),
        Err(BooleanSelectedPagedDecodeError::LogicalPageOutOfRange {
            logical_page: 3,
            mapped_pages: 3,
        })
    );
    assert_eq!(
        BooleanSelectedPagedKvTable::from_selection(
            &selection(vec![page(1, 2, 16), page(1, 2, 16)]),
            &table()
        ),
        Err(BooleanSelectedPagedDecodeError::NonIncreasingLogicalPages {
            previous: 1,
            current: 1,
        })
    );
    assert_eq!(
        BooleanSelectedPagedKvTable::from_selection(&selection(vec![page(1, 3, 16)]), &table()),
        Err(BooleanSelectedPagedDecodeError::PhysicalPageMismatch {
            logical_page: 1,
            selected_physical_page: 3,
            authoritative_physical_page: 2,
        })
    );
    assert_eq!(
        BooleanSelectedPagedKvTable::from_selection(&selection(vec![page(2, 7, 16)]), &table()),
        Err(BooleanSelectedPagedDecodeError::LiveTokenMismatch {
            logical_page: 2,
            selected_live_tokens: 16,
            authoritative_live_tokens: 8,
        })
    );
    let unmapped = PagedKvTableSnapshot::new(9, 40, 3, 16, 8, vec![Some(5), None, Some(7)]).unwrap();
    assert_eq!(
        BooleanSelectedPagedKvTable::from_selection(&selection(vec![page(1, 2, 16)]), &unmapped),
        Err(BooleanSelectedPagedDecodeError::MissingAuthoritativePage { logical_page: 1 })
    );
    let small = PagedKvTableSnapshot::new(9, 40, 3, 16, 6, vec![Some(5), Some(2), Some(7)]).unwrap();
    assert_eq!(
        BooleanSelectedPagedKvTable::from_selection(&selection(vec![page(2, 7, 8)]), &small),
        Err(BooleanSelectedPagedDecodeError::PhysicalPageOutOfRange {
            physical_page: 7,
            physical_pages: 6,
        })
    );
    assert!(PagedKvTableSnapshot::new(9, 40, 3, 0, 8, vec![]).is_none());
    assert!(PagedKvTableSnapshot::new(9, 40, 4, 16, 8, vec![Some(5), Some(2), Some(7)]).is_none());
    assert!(PagedKvTableSnapshot::new(9, 48, 2, 16, 8, vec![Some(5), Some(2)]).is_none());
    assert!(PagedKvTableSnapshot::new(9, 0, 0, 16, 8, vec![]).is_some());
}

#[test]
fn frozen_tables_detect_later_table_changes() {
    let frozen =
        BooleanSelectedPagedKvTable::from_selection(&selection(vec![page(1, 2, 16)]), &table())
            .unwrap();
    let advanced =
        PagedKvTableSnapshot::new(10, 40, 3, 16, 8, vec![Some(5), Some(2), Some(7)]).unwrap();
    assert!(matches!(
        frozen.validate_against(&advanced),
        Err(BooleanSelectedPagedDecodeError::GenerationMismatch { .. })
    ));
    let remapped =
        PagedKvTableSnapshot::new(9, 40, 3, 16, 8, vec![Some(5), Some(4), Some(7)]).unwrap();
    assert_eq!(
        frozen.validate_against(&remapped),
        Err(BooleanSelectedPagedDecodeError::PhysicalPageMismatch {
            logical_page: 1,
            selected_physical_page: 2,
            authoritative_physical_page: 4,
        })
    );
    let grown = PagedKvTableSnapshot::new(9, 48, 3, 16, 8, vec![Some(5), Some(2), Some(7)]).unwrap();
    assert_eq!(
        frozen.validate_against(&grown),
        Err(BooleanSelectedPagedDecodeError::SnapshotMismatch {
            selection_live_tokens: 40,
            table_live_tokens: 48,
            selection_mapped_pages: 3,
            table_mapped_pages: 3,
        })
    );
}

#[test]
fn decode_layout_counts_q_and_output_with_lse() {
    assert_eq!(
        selected_decode_layout(8, 64, 128),
        Ok(BooleanSelectedDecodeLayout {
            q_elements: 512,
            output_elements: 512,
            lse_elements: 8,
            combined_elements: 520,
            q_bytes: 2048,
            combined_bytes: 2080,
        })
    );
    assert_eq!(
        selected_decode_layout(0, 64, 128),
        Err(BooleanSelectedPagedDecodeError::InvalidHeadGrouping {
            q_heads: 0,
            kv_heads: 1,
        })
    );
    assert_eq!(
        selected_decode_layout(8, 63, 128),
        Err(BooleanSelectedPagedDecodeError::Core(
            FlatAttentionError::InvalidRotaryHeadDim { head_dim: 63 }
        ))
    );
    assert_eq!(
        selected_decode_layout(8, 256, 128),
        Err(BooleanSelectedPagedDecodeError::UnsupportedHeadDim {
            actual: 256,
            maximum: 128,
        })
    );
    assert_eq!(
        selected_decode_layout(usize::MAX / 2, 2, usize::MAX),
        Err(BooleanSelectedPagedDecodeError::Core(
            FlatAttentionError::ShapeOverflow
        ))
    );
}

fn limits() -> DeviceDispatchLimits {
    DeviceDispatchLimits {
        max_compute_workgroups_per_dimension: 65535,
        max_storage_buffer_binding_size: 1 << 27,
        max_uniform_buffer_binding_size: 1 << 16,
    }
}

fn decode_buffers() -> SelectedDecodeBuffers {
    SelectedDecodeBuffers {
        q_bytes: 128,
        k_bytes: 8192,
        v_bytes: 8192,
        out_and_lse_bytes: 144,
    }
}

fn frozen() -> BooleanSelectedPagedKvTable {
    BooleanSelectedPagedKvTable::from_selection(
        &selection(vec![page(0, 5, 16), page(2, 7, 8)]),
        &table(),
    )
    .unwrap()
}

#[test]
fn selected_decode_packs_header_and_descriptors() {
    let theta = 10_000.0f32.to_bits();
    let scale = 0.5f32.to_bits();
    let dispatch = plan_selected_decode(
        &frozen(),
        &table(),
        4,
        2,
        8,
        256,
        theta,
        true,
        41,
        39,
        decode_buffers(),
        Ok(scale),
        limits(),
    )
    .unwrap();
    assert_eq!(dispatch.kv_bytes, 8192);
    assert_eq!(dispatch.workgroups, 4);
    assert_eq!(dispatch.layout.combined_bytes, 144);
    assert_eq!(dispatch.params.len(), SELECTED_DECODE_PARAM_WORDS);
    assert_eq!(
        &dispatch.params[..24],
        &[40, 16, 8, 2, 24, 8, 4, 2, scale, theta, 41, 39, 1, 0, 0, 0, 5, 0, 16, 0, 7, 2, 8, 0]
    );
    assert!(dispatch.params[24..].iter().all(|word| *word == 0));
}

#[test]
fn selected_decode_rejects_before_dispatch() {
    let plan = |theta_bits: u32, causal: bool, position: usize, buffers, limits| {
        plan_selected_decode(
            &frozen(),
            &table(),
            4,
            2,
            8,
            256,
            theta_bits,
            causal,
            0,
            position,
            buffers,
            Ok(1),
            limits,
        )
    };
    assert_eq!(
        plan(0, false, 0, decode_buffers(), limits()).unwrap_err(),
        BooleanSelectedPagedDecodeError::InvalidTheta(0)
    );
    assert_eq!(
        plan(1, true, 38, decode_buffers(), limits()).unwrap_err(),
        BooleanSelectedPagedDecodeError::CausalVisibilityMismatch {
            query_position: 38,
            full_kv_len: 40
        }
    );
    let mut short = decode_buffers();
    short.k_bytes = 8191;
    assert_eq!(
        plan(1, false, 0, short, limits()).unwrap_err(),
        BooleanSelectedPagedDecodeError::BufferTooSmall {
            tensor: "K",
            actual_bytes: 8191,
            required_bytes: 8192
        }
    );
    let mut small_uniform = limits();
    small_uniform.max_uniform_buffer_binding_size = 4159;
    assert_eq!(
        plan(1, false, 0, decode_buffers(), small_uniform).unwrap_err(),
        BooleanSelectedPagedDecodeError::UniformBindingTooLarge {
            required_bytes: 4160,
            maximum_bytes: 4159
        }
    );
    let moved = PagedKvTableSnapshot::new(10, 40, 3, 16, 8, vec![Some(5), Some(2), Some(7)]).unwrap();
    assert_eq!(
        plan_selected_decode(
            &frozen(),
            &moved,
            4,
            2,
            8,
            256,
            1,
            false,
            0,
            0,
            decode_buffers(),
            Ok(1),
            limits()
        )
        .unwrap_err(),
        BooleanSelectedPagedDecodeError::GenerationMismatch {
            selection_generation: 9,
            table_generation: 10
        }
    );
}
