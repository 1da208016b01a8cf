//! Research-only structured-history attention semantics.
//!
//! This module is deliberately backend-neutral. It fixes which causally visible
//! K/V history a query retains: identity weighting over every retained true K/V
//! position, with either complete history or an explicitly approximate
//! trailing window, and an optional budget that rejects instead of truncating.
use crate::attention_shape::{AsymmetricGroupedAttentionShape, FlatAttentionError};
use vstd::prelude::*;

verus! {

/// Stable semantic slug for the first structured-history research rule.
pub const NONLOCAL_ATTENTION_SEMANTIC_NAME: &'static str = "nonlocal-history-softmax";

/// Stable semantic revision for [`NONLOCAL_ATTENTION_SEMANTIC_NAME`].
pub const NONLOCAL_ATTENTION_SEMANTIC_REVISION: u32 = 1;

/// Which causally visible K/V history is retained by the research semantic.
#[derive(Debug, Clone, Copy, PartialEq, Eq, Structural, Hash)]
#[non_exhaustive]
pub enum HistoryMode {
    /// Retain every causally visible K/V position. This is the reference mode.
    Complete,
    /// Retain only the newest `max_tokens` causally visible positions.
    ///
    /// This is always classified as an approximation, even when a particular
    /// small input happens to fit entirely inside the window.
    Window { max_tokens: usize },
}

/// Which retained true logical positions participate in the first revision.
#[derive(Debug, Clone, Copy, PartialEq, Eq, Structural, Hash)]
#[non_exhaustive]
pub enum HistorySchedule {
    /// Visit every retained true logical position in ascending order.
    EveryToken,
}

/// Multiplicative history weighting used before softmax normalization.
#[derive(Debug, Clone, Copy, PartialEq, Eq, Structural, Hash)]
#[non_exhaustive]
pub enum HistoryWeighting {
    /// Exact multiplicative identity. No position-dependent reweighting occurs.
    Identity,
}

/// Resource budget policy for retained history.
#[derive(Debug, Clone, Copy, PartialEq, Eq, Structural, Hash)]
#[non_exhaustive]
pub enum HistoryBudgetPolicy {
    /// No semantic-side retained-token budget.
    Unlimited,
    /// Reject a query whose selected history would exceed the declared limit.
    ///
    /// The budget never truncates or changes the semantic rule implicitly.
    RejectAbove { max_retained_tokens: usize },
}

/// Typed research configuration kept outside the production attention config.
#[derive(Debug, Clone, Copy, PartialEq, Eq, Structural, Hash)]
pub struct NonlocalAttentionConfig {
    /// Reference or explicitly bounded history.
    pub history_mode: HistoryMode,
    /// Position-selection schedule over retained true logical positions.
    pub history_schedule: HistorySchedule,
    /// Multiplicative history weighting.
    pub history_weighting: HistoryWeighting,
    /// Explicit resource budget policy.
    pub history_budget_policy: HistoryBudgetPolicy,
}

/// Evidence classification for one configured history rule.
#[derive(Debug, Clone, Copy, PartialEq, Eq, Structural, Hash)]
pub enum HistoryClassification {
    /// Complete causally visible history with no semantic reduction.
    Reference,
    /// Explicit bounded-history approximation.
    Approximation,
}

/// Typed failures for the research-only structured-history semantic.
#[derive(Debug, Clone, PartialEq)]
#[non_exhaustive]
pub enum NonlocalAttentionError {
    /// Shape/input validation failed.
    Flat(FlatAttentionError),
    /// The first structured-history semantic is causal-only.
    NonCausalUnsupported,
    /// A bounded history window must retain at least one token.
    InvalidHistoryWindow,
    /// A rejecting history budget must allow at least one retained token.
    InvalidHistoryBudget,
    /// The declared budget cannot contain the selected history for a query.
    HistoryBudgetExceeded {
        /// Number of positions required by the semantic rule.
        required: usize,
        /// Caller-declared hard limit.
        limit: usize,
    },
}

/// The reference configuration: complete history, every token, identity
/// weighting, no budget.
pub open spec fn reference_config() -> NonlocalAttentionConfig {
    NonlocalAttentionConfig {
        history_mode: HistoryMode::Complete,
        history_schedule: HistorySchedule::EveryToken,
        history_weighting: HistoryWeighting::Identity,
        history_budget_policy: HistoryBudgetPolicy::Unlimited,
    }
}

impl Default for NonlocalAttentionConfig {
    fn default() -> (config: Self)
        ensures
            config == reference_config(),
    {
        Self {
            history_mode: HistoryMode::Complete,
            history_schedule: HistorySchedule::EveryToken,
            history_weighting: HistoryWeighting::Identity,
            history_budget_policy: HistoryBudgetPolicy::Unlimited,
        }
    }
}

/// Zero-sized windows and zero-sized rejection budgets are invalid, windows first.
pub open spec fn config_rule(config: NonlocalAttentionConfig) -> Result<(), NonlocalAttentionError> {
    if config.history_mode == (HistoryMode::Window { max_tokens: 0 }) {
        Err(NonlocalAttentionError::InvalidHistoryWindow)
    } else if config.history_budget_policy == (HistoryBudgetPolicy::RejectAbove {
        max_retained_tokens: 0,
    }) {
        Err(NonlocalAttentionError::InvalidHistoryBudget)
    } else {
        Ok(())
    }
}

pub open spec fn classification_of(mode: HistoryMode) -> HistoryClassification {
    match mode {
        HistoryMode::Complete => HistoryClassification::Reference,
        HistoryMode::Window { .. } => HistoryClassification::Approximation,
    }
}

/// One past the newest key visible to the query at absolute position
/// `absolute_query_pos`, capped at the cached length.
pub open spec fn visible_end(absolute_query_pos: int, kv_len: usize) -> int {
    if absolute_query_pos + 1 <= kv_len {
        absolute_query_pos + 1
    } else {
        kv_len as int
    }
}

/// First retained key position for a query whose visible keys end at `end`.
pub open spec fn history_start(mode: HistoryMode, end: int) -> int {
    match mode {
        HistoryMode::Complete => 0,
        HistoryMode::Window { max_tokens } => if end >= max_tokens {
            end - max_tokens
        } else {
            0
        },
    }
}

/// Retained key range `[start, end)` of query row `query_pos`, or the budget
/// rejection.
pub open spec fn retained_history_rule(
    config: NonlocalAttentionConfig,
    shape: AsymmetricGroupedAttentionShape,
    query_pos: usize,
) -> Result<(usize, usize), NonlocalAttentionError> {
    let end = visible_end(shape.query_position_offset + query_pos, shape.kv_len);
    let start = history_start(config.history_mode, end);
    match config.history_budget_policy {
        HistoryBudgetPolicy::RejectAbove { max_retained_tokens } if end - start
            > max_retained_tokens => Err(
            NonlocalAttentionError::HistoryBudgetExceeded {
                required: (end - start) as usize,
                limit: max_retained_tokens,
            },
        ),
        _ => Ok((start as usize, end as usize)),
    }
}

impl NonlocalAttentionConfig {
    /// Validate configuration values without touching Q/K/V data or a device.
    ///
    /// Zero-sized windows and zero-sized rejection budgets fail closed.
    pub fn validate(self) -> (r: Result<(), NonlocalAttentionError>)
        ensures
            r == config_rule(self),
    {
        if let HistoryMode::Window { max_tokens: 0 } = self.history_mode {
            return Err(NonlocalAttentionError::InvalidHistoryWindow);
        }
        if let HistoryBudgetPolicy::RejectAbove { max_retained_tokens: 0 } =
            self.history_budget_policy {
            return Err(NonlocalAttentionError::InvalidHistoryBudget);
        }
        Ok(())
    }

    /// Evidence classification implied by the configured semantic rule.
    pub fn classification(self) -> (c: HistoryClassification)
        ensures
            c == classification_of(self.history_mode),
    {
        match self.history_mode {
            HistoryMode::Complete => HistoryClassification::Reference,
            HistoryMode::Window { .. } => HistoryClassification::Approximation,
        }
    }
}

/// The causally visible key range `[start, end)` that query row `query_pos`
/// retains under `config`: every visible key for complete history, the newest
/// `max_tokens` visible keys for a window. A rejecting budget smaller than
/// the retained count fails instead of truncating.
pub fn retained_history(
    config: NonlocalAttentionConfig,
    shape: AsymmetricGroupedAttentionShape,
    query_pos: usize,
) -> (r: Result<(usize, usize), NonlocalAttentionError>)
    requires
        shape.query_position_offset + query_pos <= usize::MAX,
    ensures
        r == retained_history_rule(config, shape, query_pos),
{
    let absolute_query_pos = shape.query_position_offset + query_pos;
    let visible_end = if absolute_query_pos < shape.kv_len {
        absolute_query_pos + 1
    } else {
        shape.kv_len
    };
    let history_start = match config.history_mode {
        HistoryMode::Complete => 0,
        HistoryMode::Window { max_tokens } => visible_end.saturating_sub(max_tokens),
    };
    let retained = visible_end - history_start;
    if let HistoryBudgetPolicy::RejectAbove { max_retained_tokens } = config.history_budget_policy {
        if retained > max_retained_tokens {
            return Err(
                NonlocalAttentionError::HistoryBudgetExceeded {
                    required: retained,
                    limit: max_retained_tokens,
                },
            );
        }
    }
    Ok((history_start, visible_end))
}

/// The checks of a history request made before any tensor is read, in
/// order: the shape's own validation (whose outcome is `shape_validation`),
/// the history configuration, then causality: the semantic is causal-only.
pub open spec fn history_request_rule(
    shape_validation: Result<(), FlatAttentionError>,
    config: NonlocalAttentionConfig,
    causal: bool,
) -> Result<(), NonlocalAttentionError> {
    match shape_validation {
        Err(e) => Err(NonlocalAttentionError::Flat(e)),
        Ok(()) => if config_rule(config) is Err {
            config_rule(config)
        } else if !causal {
            Err(NonlocalAttentionError::NonCausalUnsupported)
        } else {
            Ok(())
        },
    }
}

/// Decide whether a history request may proceed to its tensors: a rejected
/// shape, an invalid history configuration or non-causal attention fails
/// closed, in that order.
pub fn validate_history_request(
    shape_validation: Result<(), FlatAttentionError>,
    config: NonlocalAttentionConfig,
    causal: bool,
) -> (r: Result<(), NonlocalAttentionError>)
    ensures
        r == history_request_rule(shape_validation, config, causal),
{
    match shape_validation {
        Err(e) => return Err(NonlocalAttentionError::Flat(e)),
        Ok(()) => {},
    }
    config.validate()?;
    if !causal {
        return Err(NonlocalAttentionError::NonCausalUnsupported);
    }
    Ok(())
}

/// A window at least as long as the visible history retains exactly what
/// complete history retains; only the classification differs.
pub proof fn lemma_wide_window_retains_complete_history(
    shape: AsymmetricGroupedAttentionShape,
    query_pos: usize,
    max_tokens: usize,
    budget: HistoryBudgetPolicy,
)
    requires
        max_tokens >= shape.kv_len,
    ensures
        ({
            let window = NonlocalAttentionConfig {
                history_mode: HistoryMode::Window { max_tokens },
                history_schedule: HistorySchedule::EveryToken,
                history_weighting: HistoryWeighting::Identity,
                history_budget_policy: budget,
            };
            let complete = NonlocalAttentionConfig {
                history_mode: HistoryMode::Complete,
                history_schedule: HistorySchedule::EveryToken,
                history_weighting: HistoryWeighting::Identity,
                history_budget_policy: budget,
            };
            &&& retained_history_rule(window, shape, query_pos) == retained_history_rule(
                complete,
                shape,
                query_pos,
            )
            &&& classification_of(window.history_mode) == HistoryClassification::Approximation
            &&& classification_of(complete.history_mode) == HistoryClassification::Reference
        }),
{
}

/// A window keeps the newest keys of the complete history: it ends where the
/// complete history ends and keeps no more than `max_tokens` of them.
pub proof fn lemma_window_is_trailing_subrange(
    shape: AsymmetricGroupedAttentionShape,
    query_pos: usize,
    max_tokens: usize,
)
    ensures
        ({
            let end = visible_end(shape.query_position_offset + query_pos, shape.kv_len);
            let start = history_start(HistoryMode::Window { max_tokens }, end);
            &&& history_start(HistoryMode::Complete, end) == 0
            &&& 0 <= start <= end
            &&& end - start == if end <= max_tokens {
                end
            } else {
                max_tokens as int
            }
        }),
{
}

/// What a query retains: the keys it can see end at `min(q + 1, kv_len)` for
/// its absolute position `q`; complete history keeps all of them and a window
/// of `m` keeps the last `min(end, m)`. A rejecting budget of `b` fails
/// exactly when that retained count exceeds `b`, and reports the retained
/// count (not the visible one); otherwise the retained range is returned.
pub proof fn lemma_retained_history_respects_window_and_budget(
    config: NonlocalAttentionConfig,
    shape: AsymmetricGroupedAttentionShape,
    query_pos: usize,
)
    requires
        shape.query_position_offset + query_pos <= usize::MAX,
    ensures
        ({
            let q = shape.query_position_offset + query_pos;
            let end: int = if q < shape.kv_len {
                q + 1
            } else {
                shape.kv_len as int
            };
            let kept: int = match config.history_mode {
                HistoryMode::Complete => end,
                HistoryMode::Window { max_tokens } => if end <= max_tokens {
                    end
                } else {
                    max_tokens as int
                },
            };
            let over_budget = match config.history_budget_policy {
                HistoryBudgetPolicy::RejectAbove { max_retained_tokens } => kept > max_retained_tokens,
                HistoryBudgetPolicy::Unlimited => false,
            };
            &&& over_budget <==> retained_history_rule(config, shape, query_pos) is Err
            &&& match retained_history_rule(config, shape, query_pos) {
                Ok((start, stop)) => stop == end && stop - start == kept && start <= stop,
                Err(e) => config.history_budget_policy matches HistoryBudgetPolicy::RejectAbove {
                    max_retained_tokens,
                } && e == NonlocalAttentionError::HistoryBudgetExceeded {
                    required: kept as usize,
                    limit: max_retained_tokens,
                },
            }
        }),
{
}

} // verus!
