//! Research-only WGPU geometry for the qualified nonlocal semantic.
//!
//! The existing portable grouped WGPU implementation is reused only for the
//! exact subset of `nonlocal-history-softmax@1` that is mathematically identical
//! to equal-length causal grouped softmax: complete history, every-token
//! scheduling, identity weighting, no semantic history budget, and zero
//! absolute query offset.
use crate::attention_shape::{AsymmetricGroupedAttentionShape, GroupedAttentionShape};
use crate::research_nonlocal::{
    HistoryBudgetPolicy, HistoryMode, HistorySchedule, HistoryWeighting, NonlocalAttentionConfig,
};
use crate::wgpu_backend::WgpuFlatAttentionError;
use vstd::prelude::*;

verus! {

/// Typed rejection or backend failure for the first nonlocal WGPU candidate.
#[derive(Debug)]
#[non_exhaustive]
pub enum NonlocalWgpuCandidateError {
    /// Revision 1 of the research semantic is causal-only.
    NonCausalUnsupported,
    /// The first WGPU candidate covers reference/complete history only.
    HistoryModeUnsupported,
    /// Semantic-side history budgets are not implemented by this candidate.
    HistoryBudgetUnsupported,
    /// The reused grouped kernel requires equal query and K/V lengths.
    AsymmetricLengthUnsupported { query_len: usize, kv_len: usize },
    /// The reused grouped kernel has no absolute-query-offset parameter.
    QueryPositionOffsetUnsupported { query_position_offset: usize },
    /// Existing grouped-WGPU validation or execution failed.
    Wgpu(WgpuFlatAttentionError),
}

/// Validated geometry for the first research WGPU candidate.
#[derive(Debug, Clone, Copy, PartialEq, Eq)]
pub struct NonlocalWgpuReferencePlan {
    grouped_shape: GroupedAttentionShape,
}

/// The equal-length grouped geometry of an asymmetric shape.
pub open spec fn grouped_geometry(shape: AsymmetricGroupedAttentionShape) -> GroupedAttentionShape {
    GroupedAttentionShape {
        batch: shape.batch,
        q_heads: shape.q_heads,
        kv_heads: shape.kv_heads,
        seq_len: shape.query_len,
        head_dim: shape.head_dim,
    }
}

/// Why a request is not exactly representable by the grouped kernel, first
/// failure first; `None` when it is.
pub open spec fn reference_plan_rejection(
    shape: AsymmetricGroupedAttentionShape,
    causal: bool,
    history: NonlocalAttentionConfig,
) -> Option<NonlocalWgpuCandidateError> {
    if !causal {
        Some(NonlocalWgpuCandidateError::NonCausalUnsupported)
    } else if history.history_mode != HistoryMode::Complete || history.history_schedule
        != HistorySchedule::EveryToken || history.history_weighting != HistoryWeighting::Identity {
        Some(NonlocalWgpuCandidateError::HistoryModeUnsupported)
    } else if history.history_budget_policy != HistoryBudgetPolicy::Unlimited {
        Some(NonlocalWgpuCandidateError::HistoryBudgetUnsupported)
    } else if shape.query_len != shape.kv_len {
        Some(
            NonlocalWgpuCandidateError::AsymmetricLengthUnsupported {
                query_len: shape.query_len,
                kv_len: shape.kv_len,
            },
        )
    } else if shape.query_position_offset != 0 {
        Some(
            NonlocalWgpuCandidateError::QueryPositionOffsetUnsupported {
                query_position_offset: shape.query_position_offset,
            },
        )
    } else {
        None
    }
}

impl NonlocalWgpuReferencePlan {
    pub closed spec fn spec_grouped_shape(self) -> GroupedAttentionShape {
        self.grouped_shape
    }

    /// Validate exact representability by the existing grouped WGPU kernel.
    /// `causal` is the attention configuration's causal flag.
    ///
    /// Returns a typed rejection for every unsupported semantic or geometry.
    pub fn new(
        shape: AsymmetricGroupedAttentionShape,
        causal: bool,
        history: NonlocalAttentionConfig,
    ) -> (r: Result<Self, NonlocalWgpuCandidateError>)
        ensures
            match reference_plan_rejection(shape, causal, history) {
                Some(e) => r == Err::<Self, NonlocalWgpuCandidateError>(e),
                None => r is Ok && r->Ok_0.spec_grouped_shape() == grouped_geometry(shape),
            },
    {
        if !causal {
            return Err(NonlocalWgpuCandidateError::NonCausalUnsupported);
        }
        let complete = match history.history_mode {
            HistoryMode::Complete => true,
            _ => false,
        };
        let every_token = match history.history_schedule {
            HistorySchedule::EveryToken => true,
        };
        let identity = match history.history_weighting {
            HistoryWeighting::Identity => true,
        };
        if !complete || !every_token || !identity {
            return Err(NonlocalWgpuCandidateError::HistoryModeUnsupported);
        }
        match history.history_budget_policy {
            HistoryBudgetPolicy::Unlimited => {},
            _ => return Err(NonlocalWgpuCandidateError::HistoryBudgetUnsupported),
        }
        if shape.query_len != shape.kv_len {
            return Err(
                NonlocalWgpuCandidateError::AsymmetricLengthUnsupported {
                    query_len: shape.query_len,
                    kv_len: shape.kv_len,
                },
            );
        }
        if shape.query_position_offset != 0 {
            return Err(
                NonlocalWgpuCandidateError::QueryPositionOffsetUnsupported {
                    query_position_offset: shape.query_position_offset,
                },
            );
        }
        Ok(
            Self {
                grouped_shape: GroupedAttentionShape {
                    batch: shape.batch,
                    q_heads: shape.q_heads,
                    kv_heads: shape.kv_heads,
                    seq_len: shape.query_len,
                    head_dim: shape.head_dim,
                },
            },
        )
    }

    /// Equal-length grouped geometry delegated to WGPU.
    pub fn grouped_shape(self) -> (shape: GroupedAttentionShape)
        ensures
            shape == self.spec_grouped_shape(),
    {
        self.grouped_shape
    }
}

} // verus!
