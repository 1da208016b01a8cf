use flat_attention::attention_shape::{
    AsymmetricGroupedAttentionShape, FlatAttentionError, GroupedAttentionShape,
};
use flat_attention::research_nonlocal::{
    retained_history, validate_history_request, HistoryBudgetPolicy, HistoryClassification, HistoryMode,
    NonlocalAttentionConfig, NonlocalAttentionError,
};
use flat_attention::research_nonlocal_wgpu::{NonlocalWgpuCandidateError, NonlocalWgpuReferencePlan};

fn shape() -> AsymmetricGroupedAttentionShape {
    AsymmetricGroupedAttentionShape {
        batch: 1,
        q_heads: 4,
        kv_heads: 2,
        query_len: 7,
        kv_len: 7,
        head_dim: 32,
        query_position_offset: 0,
    }
}

/// The causal flag of the attention configuration used by these requests.
fn attention() -> bool {
    true
}

#[test]
fn exact_reference_subset_maps_to_grouped_geometry() {
    let plan =
        NonlocalWgpuReferencePlan::new(shape(), attention(), NonlocalAttentionConfig::default())
            .unwrap();
    assert_eq!(
        plan.grouped_shape(),
        GroupedAttentionShape {
            batch: 1,
            q_heads: 4,
            kv_heads: 2,
            seq_len: 7,
            head_dim: 32,
        }
    );
}

#[test]
fn unsupported_reductions_and_geometry_fail_before_dispatch() {
    let window = NonlocalAttentionConfig {
        history_mode: HistoryMode::Window { max_tokens: 3 },
        ..NonlocalAttentionConfig::default()
    };
    assert!(matches!(
        NonlocalWgpuReferencePlan::new(shape(), attention(), window),
        Err(NonlocalWgpuCandidateError::HistoryModeUnsupported)
    ));

    let budget = NonlocalAttentionConfig {
        history_budget_policy: HistoryBudgetPolicy::RejectAbove {
            max_retained_tokens: 4,
        },
        ..NonlocalAttentionConfig::default()
    };
    assert!(matches!(
        NonlocalWgpuReferencePlan::new(shape(), attention(), budget),
        Err(NonlocalWgpuCandidateError::HistoryBudgetUnsupported)
    ));

    let mut asymmetric = shape();
    asymmetric.query_len = 1;
    assert!(matches!(
        NonlocalWgpuReferencePlan::new(asymmetric, attention(), NonlocalAttentionConfig::default()),
        Err(NonlocalWgpuCandidateError::AsymmetricLengthUnsupported { .. })
    ));

    let mut offset = shape();
    offset.query_position_offset = 1;
    assert!(matches!(
        NonlocalWgpuReferencePlan::new(offset, attention(), NonlocalAttentionConfig::default()),
        Err(NonlocalWgpuCandidateError::QueryPositionOffsetUnsupported { .. })
    ));

    assert!(matches!(
        NonlocalWgpuReferencePlan::new(shape(), false, NonlocalAttentionConfig::default()),
        Err(NonlocalWgpuCandidateError::NonCausalUnsupported)
    ));
}

#[test]
fn invalid_history_configuration_fails_closed() {
    assert_eq!(
        NonlocalAttentionConfig {
            history_mode: HistoryMode::Window { max_tokens: 0 },
            ..NonlocalAttentionConfig::default()
        }
        .validate()
        .unwrap_err(),
        NonlocalAttentionError::InvalidHistoryWindow
    );
    assert_eq!(
        NonlocalAttentionConfig {
            history_budget_policy: HistoryBudgetPolicy::RejectAbove {
                max_retained_tokens: 0,
            },
            ..NonlocalAttentionConfig::default()
        }
        .validate()
        .unwrap_err(),
        NonlocalAttentionError::InvalidHistoryBudget
    );
    assert_eq!(NonlocalAttentionConfig::default().validate(), Ok(()));
}

#[test]
fn classification_follows_history_mode() {
    assert_eq!(
        NonlocalAttentionConfig::default().classification(),
        HistoryClassification::Reference
    );
    let window = NonlocalAttentionConfig {
        history_mode: HistoryMode::Window { max_tokens: 64 },
        ..NonlocalAttentionConfig::default()
    };
    assert_eq!(window.classification(), HistoryClassification::Approximation);
}

fn single_query(offset: usize, kv_len: usize) -> AsymmetricGroupedAttentionShape {
    AsymmetricGroupedAttentionShape {
        batch: 1,
        q_heads: 1,
        kv_heads: 1,
        query_len: 1,
        kv_len,
        head_dim: 1,
        query_position_offset: offset,
    }
}

#[test]
fn bounded_history_retains_only_the_trailing_window() {
    let shape = single_query(3, 4);
    assert_eq!(
        retained_history(NonlocalAttentionConfig::default(), shape, 0),
        Ok((0, 4))
    );
    let window = NonlocalAttentionConfig {
        history_mode: HistoryMode::Window { max_tokens: 2 },
        ..NonlocalAttentionConfig::default()
    };
    assert_eq!(retained_history(window, shape, 0), Ok((2, 4)));
    // A window wider than the visible history keeps all of it.
    let wide = NonlocalAttentionConfig {
        history_mode: HistoryMode::Window { max_tokens: 4 },
        ..NonlocalAttentionConfig::default()
    };
    assert_eq!(
        retained_history(wide, shape, 0),
        retained_history(NonlocalAttentionConfig::default(), shape, 0)
    );
    // Causality: a query at position 1 sees keys 0 and 1 only.
    assert_eq!(
        retained_history(NonlocalAttentionConfig::default(), single_query(0, 4), 1),
        Ok((0, 2))
    );
}

#[test]
fn budget_exhaustion_rejects_instead_of_truncating() {
    let shape = single_query(3, 4);
    let budget = NonlocalAttentionConfig {
        history_budget_policy: HistoryBudgetPolicy::RejectAbove {
            max_retained_tokens: 3,
        },
        ..NonlocalAttentionConfig::default()
    };
    assert_eq!(
        retained_history(budget, shape, 0),
        Err(NonlocalAttentionError::HistoryBudgetExceeded {
            required: 4,
            limit: 3,
        })
    );
    let enough = NonlocalAttentionConfig {
        history_budget_policy: HistoryBudgetPolicy::RejectAbove {
            max_retained_tokens: 4,
        },
        ..NonlocalAttentionConfig::default()
    };
    assert_eq!(retained_history(enough, shape, 0), Ok((0, 4)));
}

#[test]
fn invalid_or_noncausal_configuration_fails_closed() {
    assert_eq!(
        NonlocalAttentionConfig {
            history_mode: HistoryMode::Window { max_tokens: 0 },
            ..NonlocalAttentionConfig::default()
        }
        .validate()
        .unwrap_err(),
        NonlocalAttentionError::InvalidHistoryWindow
    );
    assert_eq!(
        NonlocalAttentionConfig {
            history_budget_policy: HistoryBudgetPolicy::RejectAbove {
                max_retained_tokens: 0,
            },
            ..NonlocalAttentionConfig::default()
        }
        .validate()
        .unwrap_err(),
        NonlocalAttentionError::InvalidHistoryBudget
    );

    let error = validate_history_request(Ok(()), NonlocalAttentionConfig::default(), false)
        .unwrap_err();
    assert_eq!(error, NonlocalAttentionError::NonCausalUnsupported);
}

#[test]
fn history_requests_are_checked_shape_then_config_then_causality() {
    let window_zero = NonlocalAttentionConfig {
        history_mode: HistoryMode::Window { max_tokens: 0 },
        ..NonlocalAttentionConfig::default()
    };
    assert_eq!(
        validate_history_request(Err(FlatAttentionError::ZeroDimension), window_zero, false),
        Err(NonlocalAttentionError::Flat(FlatAttentionError::ZeroDimension))
    );
    assert_eq!(
        validate_history_request(Ok(()), window_zero, false),
        Err(NonlocalAttentionError::InvalidHistoryWindow)
    );
    assert_eq!(
        validate_history_request(Ok(()), NonlocalAttentionConfig::default(), true),
        Ok(())
    );
}
