use flat_attention::research_da_luc::{
    DalucBitOrder, DalucCodebookScope, DalucFloatDType, DalucKeyRepresentation,
    DalucKvViewContract, DalucKvViewError, DalucLogicalKvShape, DalucPaddingRule,
    DalucPhysicalLayout, DalucResidualIndexing, DalucResidualSemantics, DalucRowOrder,
    DalucSparseResidual, DalucStorageTopology, DalucValueRepresentation, DalucZeroPointStorage,
    DA_LUC_KV_VIEW_SCHEMA_VERSION,
};
use flat_attention::research_da_luc_paged_binding::{
    bind_paged_tier_plan, paged_tier_transitions, DalucPagedTierBindingError,
    DalucPagedTierTransition, DalucPagedTierTransitionError, ObservedKvPage, PagedKvObservation,
    DA_LUC_PAGED_TIER_BINDING_VERSION,
};
use flat_attention::research_da_luc_tiering::{
    route_by_ranking, route_by_recency, validate_routing_inputs, DalucPrecisionTier, DalucTierId,
    DalucTierQuota, DalucTierRoutingError, DalucTierRoutingPolicy, DA_LUC_TIER_ROUTING_VERSION,
};

fn view() -> DalucKvViewContract {
    DalucKvViewContract {
        schema_version: DA_LUC_KV_VIEW_SCHEMA_VERSION,
        shape: DalucLogicalKvShape {
            batch: 1,
            q_heads: 32,
            kv_heads: 8,
            kv_len: 120,
            key_head_dim: 64,
            value_head_dim: 64,
        },
        keys: DalucKeyRepresentation {
            subspace_dim: 8,
            codebook_entries: 256,
            codebook_dtype: DalucFloatDType::F16,
            codebook_scope: DalucCodebookScope::PerKvHead,
            index_bits: 8,
            index_bit_order: DalucBitOrder::Lsb0,
            residual: DalucResidualSemantics::Sparse(DalucSparseResidual {
                value_dtype: DalucFloatDType::F16,
                indexing: DalucResidualIndexing::Coordinates {
                    index_bits: 6,
                    bit_order: DalucBitOrder::Lsb0,
                },
                max_entries_per_vector: 4,
            }),
        },
        values: DalucValueRepresentation::GroupwiseAffine {
            storage_bits: 4,
            group_size: 16,
            scale_dtype: DalucFloatDType::F16,
            zero_point: DalucZeroPointStorage::U8,
            bit_order: DalucBitOrder::Lsb0,
            residual: DalucResidualSemantics::NoResidual,
        },
        layout: DalucPhysicalLayout {
            row_order: DalucRowOrder::BatchTokenHead,
            topology: DalucStorageTopology::Paged {
                page_size: 16,
                physical_pages_per_batch: 8,
            },
            plane_alignment_bytes: 16,
            padding: DalucPaddingRule::ZeroFilledToAlignment,
        },
    }
}

fn tiers() -> Vec<DalucPrecisionTier> {
    let base = view();
    vec![
        DalucPrecisionTier {
            id: DalucTierId(7),
            keys: base.keys,
            values: DalucValueRepresentation::Dense {
                dtype: DalucFloatDType::F16,
            },
        },
        DalucPrecisionTier {
            id: DalucTierId(3),
            keys: base.keys,
            values: base.values,
        },
    ]
}

fn quotas(first: usize, second: usize) -> Vec<DalucTierQuota> {
    vec![
        DalucTierQuota {
            tier_id: DalucTierId(3),
            segments: second,
        },
        DalucTierQuota {
            tier_id: DalucTierId(7),
            segments: first,
        },
    ]
}

#[test]
fn recency_gives_the_newest_segments_to_the_first_tier() {
    // 120 tokens in segments of 16: 8 segments, the last one 8 tokens long.
    let plan = route_by_recency(view(), 16, &tiers(), &quotas(3, 5)).unwrap();
    assert_eq!(plan.routing_version, DA_LUC_TIER_ROUTING_VERSION);
    assert_eq!(plan.policy, DalucTierRoutingPolicy::Recency);
    assert_eq!(plan.kv_len, 120);
    assert_eq!(plan.segment_size, 16);
    assert_eq!(plan.assignments.len(), 8);
    let ids: Vec<u16> = plan.assignments.iter().map(|a| a.tier_id.0).collect();
    assert_eq!(ids, vec![3, 3, 3, 3, 3, 7, 7, 7]);
    assert_eq!(plan.assignments[7].start_token, 112);
    assert_eq!(plan.assignments[7].end_token_exclusive, 120);
    assert_eq!(plan.assignments[2].segment_index, 2);
    assert_eq!(plan.assignments[2].start_token, 32);
    assert_eq!(plan.assignments[2].end_token_exclusive, 48);
    assert_eq!(plan.validate_against(view(), &tiers()), Ok(()));
}

#[test]
fn explicit_ranking_assigns_positions_in_catalog_order() {
    let ranking = [2usize, 0, 5, 7, 1, 3, 4, 6];
    let plan = route_by_ranking(
        view(),
        16,
        &tiers(),
        &quotas(2, 6),
        DalucTierRoutingPolicy::AttentionMass,
        &ranking,
    )
    .unwrap();
    let ids: Vec<u16> = plan.assignments.iter().map(|a| a.tier_id.0).collect();
    assert_eq!(ids, vec![7, 3, 7, 3, 3, 3, 3, 3]);
    assert_eq!(plan.policy, DalucTierRoutingPolicy::AttentionMass);
    assert_eq!(plan.validate_against(view(), &tiers()), Ok(()));
}

#[test]
fn defective_rankings_fail_closed() {
    let duplicate = [2usize, 2, 5, 7, 1, 3, 4, 6];
    assert_eq!(
        route_by_ranking(
            view(),
            16,
            &tiers(),
            &quotas(2, 6),
            DalucTierRoutingPolicy::AttentionMass,
            &duplicate
        ),
        Err(DalucTierRoutingError::MalformedPlan(
            "ranking contains invalid or duplicate segment"
        ))
    );
    let out_of_range = [0usize, 1, 2, 3, 4, 5, 6, 8];
    assert_eq!(
        route_by_ranking(
            view(),
            16,
            &tiers(),
            &quotas(2, 6),
            DalucTierRoutingPolicy::AttentionMass,
            &out_of_range
        ),
        Err(DalucTierRoutingError::MalformedPlan(
            "ranking contains invalid or duplicate segment"
        ))
    );
    let short = [0usize, 1, 2];
    assert_eq!(
        route_by_ranking(
            view(),
            16,
            &tiers(),
            &quotas(2, 6),
            DalucTierRoutingPolicy::AttentionMass,
            &short
        ),
        Err(DalucTierRoutingError::MalformedPlan(
            "ranking does not cover every segment"
        ))
    );
}

#[test]
fn invalid_catalogs_and_quotas_fail_closed() {
    assert_eq!(
        route_by_recency(view(), 0, &tiers(), &quotas(3, 5)),
        Err(DalucTierRoutingError::InvalidSegmentSize)
    );
    assert_eq!(
        route_by_recency(view(), 16, &[], &quotas(3, 5)),
        Err(DalucTierRoutingError::EmptyTierCatalog)
    );
    let mut duplicate = tiers();
    duplicate[1].id = DalucTierId(7);
    assert_eq!(
        route_by_recency(view(), 16, &duplicate, &quotas(3, 5)),
        Err(DalucTierRoutingError::DuplicateTierId(DalucTierId(7)))
    );
    let mut invalid_tier = tiers();
    invalid_tier[0].keys.index_bits = 7;
    assert!(matches!(
        route_by_recency(view(), 16, &invalid_tier, &quotas(3, 5)),
        Err(DalucTierRoutingError::Contract(DalucKvViewError::InvalidMetadata(_)))
    ));
    let mut twice = quotas(3, 5);
    twice[1].tier_id = DalucTierId(3);
    assert_eq!(
        route_by_recency(view(), 16, &tiers(), &twice),
        Err(DalucTierRoutingError::DuplicateQuotaTier(DalucTierId(3)))
    );
    let mut unknown = quotas(3, 5);
    unknown[0].tier_id = DalucTierId(9);
    assert_eq!(
        route_by_recency(view(), 16, &tiers(), &unknown),
        Err(DalucTierRoutingError::UnknownQuotaTier(DalucTierId(9)))
    );
    assert_eq!(
        route_by_recency(view(), 16, &tiers(), &quotas(3, 5)[..1]),
        Err(DalucTierRoutingError::MissingQuotaTier(DalucTierId(7)))
    );
    assert_eq!(
        route_by_recency(view(), 16, &tiers(), &quotas(3, 4)),
        Err(DalucTierRoutingError::QuotaSumMismatch {
            expected_segments: 8,
            actual_segments: 7,
        })
    );
    assert_eq!(
        route_by_recency(view(), 16, &tiers(), &quotas(usize::MAX, 5)),
        Err(DalucTierRoutingError::ArithmeticOverflow("tier quota sum"))
    );
    assert_eq!(
        route_by_recency(view(), usize::MAX, &tiers(), &quotas(0, 1)),
        Err(DalucTierRoutingError::ArithmeticOverflow("segment count"))
    );
    let mut bad_base = view();
    bad_base.schema_version = 9;
    assert!(matches!(
        route_by_recency(bad_base, 16, &tiers(), &quotas(3, 5)),
        Err(DalucTierRoutingError::Contract(
            DalucKvViewError::UnsupportedSchemaVersion { .. }
        ))
    ));
    assert_eq!(
        validate_routing_inputs(view(), 32, &tiers(), &quotas(1, 3)),
        Ok(4)
    );
}

#[test]
fn malformed_plans_fail_validation() {
    let plan = route_by_recency(view(), 16, &tiers(), &quotas(3, 5)).unwrap();
    let mut version = plan.clone();
    version.routing_version = 2;
    assert_eq!(
        version.validate_against(view(), &tiers()),
        Err(DalucTierRoutingError::UnsupportedRoutingVersion {
            actual: 2,
            supported: 1,
        })
    );
    let mut short = plan.clone();
    short.assignments.pop();
    assert_eq!(
        short.validate_against(view(), &tiers()),
        Err(DalucTierRoutingError::MalformedPlan(
            "assignment count does not cover every logical segment"
        ))
    );
    let mut reordered = plan.clone();
    reordered.assignments.swap(0, 1);
    assert_eq!(
        reordered.validate_against(view(), &tiers()),
        Err(DalucTierRoutingError::MalformedPlan(
            "assignments are not in canonical segment order"
        ))
    );
    let mut bounds = plan.clone();
    bounds.assignments[7].end_token_exclusive = 128;
    assert_eq!(
        bounds.validate_against(view(), &tiers()),
        Err(DalucTierRoutingError::MalformedPlan(
            "assignment token bounds are not canonical"
        ))
    );
    let mut stranger = plan.clone();
    stranger.assignments[4].tier_id = DalucTierId(99);
    assert_eq!(
        stranger.validate_against(view(), &tiers()),
        Err(DalucTierRoutingError::MalformedPlan(
            "assignment references unknown tier"
        ))
    );
    let mut length = plan.clone();
    length.kv_len = 64;
    assert_eq!(
        length.validate_against(view(), &tiers()),
        Err(DalucTierRoutingError::MalformedPlan(
            "KV length does not match base contract"
        ))
    );
}

#[test]
fn transitions_list_exactly_the_changed_segments() {
    let before = route_by_recency(view(), 16, &tiers(), &quotas(3, 5)).unwrap();
    let after = route_by_recency(view(), 16, &tiers(), &quotas(5, 3)).unwrap();
    let transitions = after.transitions_from(&before).unwrap();
    assert_eq!(transitions.len(), 2);
    assert_eq!(transitions[0].segment_index, 3);
    assert_eq!(transitions[0].from_tier, DalucTierId(3));
    assert_eq!(transitions[0].to_tier, DalucTierId(7));
    assert_eq!(transitions[1].segment_index, 4);
    assert_eq!(transitions[1].start_token, 64);
    assert_eq!(transitions[1].end_token_exclusive, 80);
    assert!(before.transitions_from(&before).unwrap().is_empty());

    let coarse = route_by_recency(view(), 32, &tiers(), &quotas(1, 3)).unwrap();
    assert_eq!(
        coarse.transitions_from(&before),
        Err(DalucTierRoutingError::IncompatiblePlans(
            "logical segmentation differs"
        ))
    );
    let mut shifted = before.clone();
    shifted.assignments[1].start_token = 17;
    assert_eq!(
        after.transitions_from(&shifted),
        Err(DalucTierRoutingError::IncompatiblePlans(
            "canonical segment bounds differ"
        ))
    );
}

fn observation() -> PagedKvObservation {
    let mut pages = Vec::new();
    for page in 0..8usize {
        pages.push(ObservedKvPage {
            logical_page: page,
            physical_page: 7 - page,
            logical_token_start: page * 16,
            logical_token_end: if page == 7 { 120 } else { page * 16 + 16 },
            generation: 40 + page as u64,
        });
    }
    PagedKvObservation {
        schema_version: 3,
        has_unsubmitted_recorded_writes: false,
        kv_heads: 8,
        head_dim: 64,
        live_tokens: 120,
        generation: 41,
        page_size: 16,
        physical_pages: 8,
        branch_epoch: 5,
        pages,
    }
}

#[test]
fn paged_binding_maps_each_segment_to_its_physical_page() {
    let plan = route_by_recency(view(), 16, &tiers(), &quotas(3, 5)).unwrap();
    let binding = bind_paged_tier_plan(&observation(), view(), &tiers(), &plan).unwrap();
    assert_eq!(binding.binding_version, DA_LUC_PAGED_TIER_BINDING_VERSION);
    assert_eq!(binding.observation_schema_version, 3);
    assert_eq!(binding.kv_len, 120);
    assert_eq!(binding.generation, 41);
    assert_eq!(binding.branch_epoch, 5);
    assert_eq!(binding.assignments.len(), 8);
    assert_eq!(binding.assignments[0].physical_page, 7);
    assert_eq!(binding.assignments[0].tier_id, DalucTierId(3));
    assert_eq!(binding.assignments[7].physical_page, 0);
    assert_eq!(binding.assignments[7].end_token_exclusive, 120);
    assert_eq!(binding.assignments[7].generation, 47);
    assert_eq!(binding.assignments[7].tier_id, DalucTierId(7));
}

#[test]
fn paged_binding_fails_closed_on_mismatched_observations() {
    let plan = route_by_recency(view(), 16, &tiers(), &quotas(3, 5)).unwrap();
    let mut pending = observation();
    pending.has_unsubmitted_recorded_writes = true;
    assert_eq!(
        bind_paged_tier_plan(&pending, view(), &tiers(), &plan),
        Err(DalucPagedTierBindingError::UnsubmittedRecordedWrites)
    );
    let mut heads = observation();
    heads.kv_heads = 4;
    assert_eq!(
        bind_paged_tier_plan(&heads, view(), &tiers(), &plan),
        Err(DalucPagedTierBindingError::KvHeadsMismatch {
            contract: 8,
            observation: 4,
        })
    );
    let mut live = observation();
    live.live_tokens = 119;
    assert_eq!(
        bind_paged_tier_plan(&live, view(), &tiers(), &plan),
        Err(DalucPagedTierBindingError::KvLenMismatch {
            contract: 120,
            observation: 119,
        })
    );
    let mut geometry = observation();
    geometry.physical_pages = 9;
    assert!(matches!(
        bind_paged_tier_plan(&geometry, view(), &tiers(), &plan),
        Err(DalucPagedTierBindingError::PageGeometryMismatch { .. })
    ));
    let coarse = route_by_recency(view(), 32, &tiers(), &quotas(1, 3)).unwrap();
    assert_eq!(
        bind_paged_tier_plan(&observation(), view(), &tiers(), &coarse),
        Err(DalucPagedTierBindingError::SegmentSizeMismatch {
            segment_size: 32,
            page_size: 16,
        })
    );
    let mut unmapped = observation();
    unmapped.pages.pop();
    assert_eq!(
        bind_paged_tier_plan(&unmapped, view(), &tiers(), &plan),
        Err(DalucPagedTierBindingError::AssignmentCountMismatch {
            plan: 8,
            observation: 7,
        })
    );
    let mut moved = observation();
    moved.pages[5].logical_token_start = 81;
    assert_eq!(
        bind_paged_tier_plan(&moved, view(), &tiers(), &plan),
        Err(DalucPagedTierBindingError::AssignmentPageMismatch { logical_page: 5 })
    );
    let mut contiguous = view();
    contiguous.layout.topology = DalucStorageTopology::Contiguous {
        capacity_tokens: 128,
    };
    assert_eq!(
        bind_paged_tier_plan(&observation(), contiguous, &tiers(), &plan),
        Err(DalucPagedTierBindingError::ExpectedPagedTopology)
    );
    let mut stale = plan.clone();
    stale.routing_version = 0;
    assert!(matches!(
        bind_paged_tier_plan(&observation(), view(), &tiers(), &stale),
        Err(DalucPagedTierBindingError::Routing(
            DalucTierRoutingError::UnsupportedRoutingVersion { .. }
        ))
    ));
}

#[test]
fn paged_transitions_list_each_changed_page_in_page_order() {
    let before = route_by_recency(view(), 16, &tiers(), &quotas(3, 5)).unwrap();
    let after = route_by_recency(view(), 16, &tiers(), &quotas(4, 4)).unwrap();
    let previous = bind_paged_tier_plan(&observation(), view(), &tiers(), &before).unwrap();
    let next = bind_paged_tier_plan(&observation(), view(), &tiers(), &after).unwrap();
    let mut reordered = tiers();
    reordered.reverse();
    assert_eq!(
        paged_tier_transitions(&previous, view(), &tiers(), &next, view(), &reordered),
        Ok(vec![DalucPagedTierTransition {
            logical_page: 4,
            physical_page: 3,
            start_token: 64,
            end_token_exclusive: 80,
            generation: 44,
            branch_epoch: 5,
            from_tier: DalucTierId(3),
            to_tier: DalucTierId(7),
        }])
    );
    assert_eq!(
        paged_tier_transitions(&next, view(), &tiers(), &next, view(), &tiers()),
        Ok(vec![])
    );
    let mut other = view();
    other.layout.plane_alignment_bytes = 64;
    assert_eq!(
        paged_tier_transitions(&previous, view(), &tiers(), &next, other, &tiers()),
        Err(DalucPagedTierTransitionError::IncompatibleViewContracts)
    );
    assert_eq!(
        paged_tier_transitions(&previous, view(), &tiers(), &next, view(), &tiers()[..1]),
        Err(DalucPagedTierTransitionError::IncompatibleTierCatalogs)
    );
}
