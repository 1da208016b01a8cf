//! Research-only binding between DA-LUC tier plans and observed paged KV topology.
//!
//! The binding turns a validated logical tier routing plan into explicit
//! logical-page/physical-page metadata for one observed paged-KV state. It does
//! not inspect, transcode, copy, move, evict, promote, or mutate K/V payload
//! bytes. The result is evidence and execution-planning metadata only; a backend
//! remains responsible for every physical representation or residency transition.
//!
//! The binding deliberately requires one DA-LUC segment per KV page. This keeps
//! each tier assignment aligned with the authoritative logical-to-physical page
//! mapping and avoids inventing sub-page movement semantics.
use crate::research_da_luc::{
    contract_rule, DalucKvViewContract, DalucKvViewError, DalucStorageTopology,
};
use crate::research_da_luc_tiering::{
    plan_rule, DalucPrecisionTier, DalucTierAssignment, DalucTierId, DalucTierRoutingError,
    DalucTierRoutingPlan,
};
use vstd::prelude::*;

verus! {

/// Version of the metadata-only paged tier binding semantics.
pub const DA_LUC_PAGED_TIER_BINDING_VERSION: u16 = 1;

/// One mapped page of an observed paged KV cache.
#[derive(Debug, Clone, Copy, PartialEq, Eq, Structural)]
pub struct ObservedKvPage {
    pub logical_page: usize,
    pub physical_page: usize,
    pub logical_token_start: usize,
    pub logical_token_end: usize,
    pub generation: u64,
}

/// What the binding reads of one observed paged-KV cache state: its schema,
/// submission state, head geometry, live length, page geometry, lineage and
/// the mapped pages in logical-page order.
#[derive(Debug, Clone, PartialEq, Eq)]
pub struct PagedKvObservation {
    pub schema_version: u32,
    pub has_unsubmitted_recorded_writes: bool,
    pub kv_heads: usize,
    pub head_dim: usize,
    pub live_tokens: usize,
    pub generation: u64,
    pub page_size: usize,
    pub physical_pages: usize,
    pub branch_epoch: u64,
    pub pages: Vec<ObservedKvPage>,
}

/// One DA-LUC tier assignment bound to the physical page observed in the cache.
#[derive(Debug, Clone, Copy, PartialEq, Eq, Structural)]
pub struct DalucPagedTierPageAssignment {
    pub logical_page: usize,
    pub physical_page: usize,
    pub start_token: usize,
    pub end_token_exclusive: usize,
    pub generation: u64,
    pub tier_id: DalucTierId,
}

/// Versioned metadata-only binding of a tier plan to one paged-cache observation.
///
/// Equality means only that the exposed metadata is equal. It does not establish
/// K/V content identity, prove that a declared compressed representation has
/// been materialized, or authorize a backend to move bytes.
#[derive(Debug, Clone, PartialEq, Eq)]
pub struct DalucPagedTierBinding {
    pub binding_version: u16,
    pub observation_schema_version: u32,
    pub kv_view_schema_version: u16,
    pub routing_version: u16,
    pub kv_len: usize,
    pub page_size: usize,
    pub physical_pages: usize,
    pub generation: u64,
    pub branch_epoch: u64,
    pub assignments: Vec<DalucPagedTierPageAssignment>,
}

#[derive(Debug, Clone, PartialEq, Eq)]
#[non_exhaustive]
pub enum DalucPagedTierBindingError {
    Contract(DalucKvViewError),
    Routing(DalucTierRoutingError),
    UnsubmittedRecordedWrites,
    UnsupportedBatch { actual: usize },
    KvHeadsMismatch { contract: usize, observation: usize },
    KeyHeadDimMismatch { contract: usize, observation: usize },
    ValueHeadDimMismatch { contract: usize, observation: usize },
    KvLenMismatch { contract: usize, observation: usize },
    ExpectedPagedTopology,
    PageGeometryMismatch {
        contract_page_size: usize,
        observation_page_size: usize,
        contract_physical_pages: usize,
        observation_physical_pages: usize,
    },
    SegmentSizeMismatch { segment_size: usize, page_size: usize },
    AssignmentCountMismatch { plan: usize, observation: usize },
    AssignmentPageMismatch { logical_page: usize },
    AllocationFailure,
}

/// The plan's segment covers exactly the observed page.
pub open spec fn covers_page(assignment: DalucTierAssignment, page: ObservedKvPage) -> bool {
    &&& assignment.segment_index == page.logical_page
    &&& assignment.start_token == page.logical_token_start
    &&& assignment.end_token_exclusive == page.logical_token_end
}

/// Index of the first of the first `n` pages that its plan segment does not cover.
pub open spec fn first_uncovered_page(
    assignments: Seq<DalucTierAssignment>,
    pages: Seq<ObservedKvPage>,
    n: int,
) -> Option<int>
    decreases n,
{
    if n <= 0 {
        None
    } else {
        match first_uncovered_page(assignments, pages, n - 1) {
            Some(i) => Some(i),
            None => if !covers_page(assignments[n - 1], pages[n - 1]) {
                Some(n - 1)
            } else {
                None
            },
        }
    }
}

/// The bound record of one observed page with the plan's tier for it.
pub open spec fn bound_page(page: ObservedKvPage, tier_id: DalucTierId) -> DalucPagedTierPageAssignment {
    DalucPagedTierPageAssignment {
        logical_page: page.logical_page,
        physical_page: page.physical_page,
        start_token: page.logical_token_start,
        end_token_exclusive: page.logical_token_end,
        generation: page.generation,
        tier_id,
    }
}

pub open spec fn binding_failure(e: DalucPagedTierBindingError) -> Result<
    (),
    DalucPagedTierBindingError,
> {
    Err(e)
}

/// Why `plan` cannot be bound to `observation`, first failure first.
pub open spec fn binding_rule(
    observation: PagedKvObservation,
    contract: DalucKvViewContract,
    tiers: Seq<DalucPrecisionTier>,
    plan: DalucTierRoutingPlan,
) -> Result<(), DalucPagedTierBindingError> {
    let shape = contract.shape;
    let pages = observation.pages@;
    if observation.has_unsubmitted_recorded_writes {
        binding_failure(DalucPagedTierBindingError::UnsubmittedRecordedWrites)
    } else if contract_rule(contract) is Err {
        binding_failure(DalucPagedTierBindingError::Contract(contract_rule(contract)->Err_0))
    } else if plan_rule(plan, contract, tiers) is Err {
        binding_failure(DalucPagedTierBindingError::Routing(plan_rule(plan, contract, tiers)->Err_0))
    } else if shape.batch != 1 {
        binding_failure(DalucPagedTierBindingError::UnsupportedBatch { actual: shape.batch })
    } else if shape.kv_heads != observation.kv_heads {
        binding_failure(
            DalucPagedTierBindingError::KvHeadsMismatch {
                contract: shape.kv_heads,
                observation: observation.kv_heads,
            },
        )
    } else if shape.key_head_dim != observation.head_dim {
        binding_failure(
            DalucPagedTierBindingError::KeyHeadDimMismatch {
                contract: shape.key_head_dim,
                observation: observation.head_dim,
            },
        )
    } else if shape.value_head_dim != observation.head_dim {
        binding_failure(
            DalucPagedTierBindingError::ValueHeadDimMismatch {
                contract: shape.value_head_dim,
                observation: observation.head_dim,
            },
        )
    } else if shape.kv_len != observation.live_tokens {
        binding_failure(
            DalucPagedTierBindingError::KvLenMismatch {
                contract: shape.kv_len,
                observation: observation.live_tokens,
            },
        )
    } else {
        match contract.layout.topology {
            DalucStorageTopology::Contiguous { .. } => binding_failure(
                DalucPagedTierBindingError::ExpectedPagedTopology,
            ),
            DalucStorageTopology::Paged { page_size, physical_pages_per_batch } => {
                if page_size != observation.page_size || physical_pages_per_batch
                    != observation.physical_pages {
                    binding_failure(
                        DalucPagedTierBindingError::PageGeometryMismatch {
                            contract_page_size: page_size,
                            observation_page_size: observation.page_size,
                            contract_physical_pages: physical_pages_per_batch,
                            observation_physical_pages: observation.physical_pages,
                        },
                    )
                } else if plan.segment_size != observation.page_size {
                    binding_failure(
                        DalucPagedTierBindingError::SegmentSizeMismatch {
                            segment_size: plan.segment_size,
                            page_size: observation.page_size,
                        },
                    )
                } else if plan.assignments@.len() != pages.len() {
                    binding_failure(
                        DalucPagedTierBindingError::AssignmentCountMismatch {
                            plan: plan.assignments@.len() as usize,
                            observation: pages.len() as usize,
                        },
                    )
                } else {
                    match first_uncovered_page(plan.assignments@, pages, pages.len() as int) {
                        Some(i) => binding_failure(
                            DalucPagedTierBindingError::AssignmentPageMismatch {
                                logical_page: pages[i].logical_page,
                            },
                        ),
                        None => Ok(()),
                    }
                }
            },
        }
    }
}

/// The binding of an accepted plan: observation lineage and geometry, and one
/// record per observed page carrying the plan's tier for that page.
pub open spec fn binding_of(
    observation: PagedKvObservation,
    contract: DalucKvViewContract,
    plan: DalucTierRoutingPlan,
    binding: DalucPagedTierBinding,
) -> bool {
    &&& binding.binding_version == DA_LUC_PAGED_TIER_BINDING_VERSION
    &&& binding.observation_schema_version == observation.schema_version
    &&& binding.kv_view_schema_version == contract.schema_version
    &&& binding.routing_version == plan.routing_version
    &&& binding.kv_len == observation.live_tokens
    &&& binding.page_size == observation.page_size
    &&& binding.physical_pages == observation.physical_pages
    &&& binding.generation == observation.generation
    &&& binding.branch_epoch == observation.branch_epoch
    &&& binding.assignments@.len() == observation.pages@.len()
    &&& forall|i: int|
        0 <= i < observation.pages@.len() ==> #[trigger] binding.assignments@[i] == bound_page(
            observation.pages@[i],
            plan.assignments@[i].tier_id,
        )
}

/// Bind a validated DA-LUC tier plan to one observed paged-KV topology.
///
/// The binding is fail-closed when externally recorded writes may still be
/// submit-able. It validates the DA-LUC contract and routing plan, then requires
/// the cache-facing dimensions, live length and paged geometry to match exactly.
/// One routing segment must equal one page so every logical tier assignment has
/// one unambiguous observed physical-page target.
///
/// This function does not validate that `contract.keys` or `contract.values`
/// describe bytes currently stored in the cache. Those fields define the
/// representation requested by the research plan; materialization and payload
/// identity require independent backend evidence.
pub fn bind_paged_tier_plan(
    observation: &PagedKvObservation,
    contract: DalucKvViewContract,
    tiers: &[DalucPrecisionTier],
    plan: &DalucTierRoutingPlan,
) -> (r: Result<DalucPagedTierBinding, DalucPagedTierBindingError>)
    ensures
        match binding_rule(*observation, contract, tiers@, *plan) {
            Err(e) => r == Err::<DalucPagedTierBinding, DalucPagedTierBindingError>(e),
            Ok(()) => r is Ok && binding_of(*observation, contract, *plan, r->Ok_0),
        },
{
    if observation.has_unsubmitted_recorded_writes {
        return Err(DalucPagedTierBindingError::UnsubmittedRecordedWrites);
    }
    match contract.validate() {
        Ok(()) => {},
        Err(error) => return Err(DalucPagedTierBindingError::Contract(error)),
    }
    match plan.validate_against(contract, tiers) {
        Ok(()) => {},
        Err(error) => return Err(DalucPagedTierBindingError::Routing(error)),
    }
    let shape = contract.shape;
    if shape.batch != 1 {
        return Err(DalucPagedTierBindingError::UnsupportedBatch { actual: shape.batch });
    }
    if shape.kv_heads != observation.kv_heads {
        return Err(
            DalucPagedTierBindingError::KvHeadsMismatch {
                contract: shape.kv_heads,
                observation: observation.kv_heads,
            },
        );
    }
    if shape.key_head_dim != observation.head_dim {
        return Err(
            DalucPagedTierBindingError::KeyHeadDimMismatch {
                contract: shape.key_head_dim,
                observation: observation.head_dim,
            },
        );
    }
    if shape.value_head_dim != observation.head_dim {
        return Err(
            DalucPagedTierBindingError::ValueHeadDimMismatch {
                contract: shape.value_head_dim,
                observation: observation.head_dim,
            },
        );
    }
    if shape.kv_len != observation.live_tokens {
        return Err(
            DalucPagedTierBindingError::KvLenMismatch {
                contract: shape.kv_len,
                observation: observation.live_tokens,
            },
        );
    }
    let (contract_page_size, contract_physical_pages) = match contract.layout.topology {
        DalucStorageTopology::Paged { page_size, physical_pages_per_batch } => (
            page_size,
            physical_pages_per_batch,
        ),
        DalucStorageTopology::Contiguous { .. } => {
            return Err(DalucPagedTierBindingError::ExpectedPagedTopology);
        },
    };
    if contract_page_size != observation.page_size || contract_physical_pages
        != observation.physical_pages {
        return Err(
            DalucPagedTierBindingError::PageGeometryMismatch {
                contract_page_size,
                observation_page_size: observation.page_size,
                contract_physical_pages,
                observation_physical_pages: observation.physical_pages,
            },
        );
    }
    if plan.segment_size != observation.page_size {
        return Err(
            DalucPagedTierBindingError::SegmentSizeMismatch {
                segment_size: plan.segment_size,
                page_size: observation.page_size,
            },
        );
    }
    let pages = &observation.pages;
    if plan.assignments.len() != pages.len() {
        return Err(
            DalucPagedTierBindingError::AssignmentCountMismatch {
                plan: plan.assignments.len(),
                observation: pages.len(),
            },
        );
    }
    let ghost pre = binding_rule(*observation, contract, tiers@, *plan);
    let mut assignments: Vec<DalucPagedTierPageAssignment> = Vec::new();
    let mut index: usize = 0;
    while index < pages.len()
        invariant
            index <= pages@.len(),
            pages@.len() == plan.assignments@.len(),
            pages@ == observation.pages@,
            first_uncovered_page(plan.assignments@, pages@, index as int) is None,
            pre == binding_rule(*observation, contract, tiers@, *plan),
            pre == match first_uncovered_page(plan.assignments@, pages@, pages@.len() as int) {
                Some(i) => binding_failure(
                    DalucPagedTierBindingError::AssignmentPageMismatch {
                        logical_page: pages@[i].logical_page,
                    },
                ),
                None => Ok(()),
            },
            assignments@.len() == index,
            forall|i: int|
                0 <= i < index ==> #[trigger] assignments@[i] == bound_page(
                    pages@[i],
                    plan.assignments@[i].tier_id,
                ),
        decreases pages@.len() - index,
    {
        let page = pages[index];
        let assignment = plan.assignments[index];
        if assignment.segment_index != page.logical_page || assignment.start_token
            != page.logical_token_start || assignment.end_token_exclusive != page.logical_token_end {
            proof {
                lemma_first_uncovered_stops(
                    plan.assignments@,
                    pages@,
                    index as int,
                    pages@.len() as int,
                );
            }
            return Err(
                DalucPagedTierBindingError::AssignmentPageMismatch { logical_page: page.logical_page },
            );
        }
        assignments.push(
            DalucPagedTierPageAssignment {
                logical_page: page.logical_page,
                physical_page: page.physical_page,
                start_token: page.logical_token_start,
                end_token_exclusive: page.logical_token_end,
                generation: page.generation,
                tier_id: assignment.tier_id,
            },
        );
        index += 1;
    }
    Ok(
        DalucPagedTierBinding {
            binding_version: DA_LUC_PAGED_TIER_BINDING_VERSION,
            observation_schema_version: observation.schema_version,
            kv_view_schema_version: contract.schema_version,
            routing_version: plan.routing_version,
            kv_len: observation.live_tokens,
            page_size: observation.page_size,
            physical_pages: observation.physical_pages,
            generation: observation.generation,
            branch_epoch: observation.branch_epoch,
            assignments,
        },
    )
}

/// After a covered prefix, an uncovered page `i` is the first uncovered page
/// of every longer prefix.
proof fn lemma_first_uncovered_stops(
    assignments: Seq<DalucTierAssignment>,
    pages: Seq<ObservedKvPage>,
    i: int,
    n: int,
)
    requires
        0 <= i < n,
        first_uncovered_page(assignments, pages, i) is None,
        !covers_page(assignments[i], pages[i]),
    ensures
        first_uncovered_page(assignments, pages, n) == Some(i),
    decreases n,
{
    if n > i + 1 {
        lemma_first_uncovered_stops(assignments, pages, i, n - 1);
    }
}

// ---------------------------------------------------------------------------
// Tier-assignment transitions between two bindings.
// ---------------------------------------------------------------------------

/// Version of the page-aware tier-assignment transition contract.
pub const DA_LUC_PAGED_TIER_TRANSITION_VERSION: u16 = 1;

/// One declared tier-ID change on a live physical page, not a residency event.
#[derive(Debug, Clone, Copy, PartialEq, Eq, Structural)]
pub struct DalucPagedTierTransition {
    pub logical_page: usize,
    pub physical_page: usize,
    pub start_token: usize,
    pub end_token_exclusive: usize,
    pub generation: u64,
    pub branch_epoch: u64,
    pub from_tier: DalucTierId,
    pub to_tier: DalucTierId,
}

/// Failure to compare two declared paged tier assignments.
#[derive(Debug, Clone, PartialEq, Eq)]
#[non_exhaustive]
pub enum DalucPagedTierTransitionError {
    /// The complete view contracts differ, including layout or base descriptors.
    IncompatibleViewContracts,
    /// Catalog ID sets or the K/V definitions attached to an ID differ.
    IncompatibleTierCatalogs,
}

/// The transition recorded when page `next` of the next binding changes the
/// tier of page `prior` of the previous one.
pub open spec fn page_transition(
    prior: DalucPagedTierPageAssignment,
    next: DalucPagedTierPageAssignment,
    branch_epoch: u64,
) -> DalucPagedTierTransition {
    DalucPagedTierTransition {
        logical_page: next.logical_page,
        physical_page: next.physical_page,
        start_token: next.start_token,
        end_token_exclusive: next.end_token_exclusive,
        generation: next.generation,
        branch_epoch,
        from_tier: prior.tier_id,
        to_tier: next.tier_id,
    }
}

/// Transitions of the first `n` paired pages, in page order: one for each
/// pair whose tier IDs differ.
pub open spec fn page_transitions_prefix(
    prior: Seq<DalucPagedTierPageAssignment>,
    next: Seq<DalucPagedTierPageAssignment>,
    branch_epoch: u64,
    n: int,
) -> Seq<DalucPagedTierTransition>
    decreases n,
{
    if n <= 0 {
        Seq::empty()
    } else {
        let earlier = page_transitions_prefix(prior, next, branch_epoch, n - 1);
        if prior[n - 1].tier_id != next[n - 1].tier_id {
            earlier.push(page_transition(prior[n - 1], next[n - 1], branch_epoch))
        } else {
            earlier
        }
    }
}

/// The catalogs define the same tiers: equal length and every tier of the
/// previous catalog also in the next one (priority order may differ).
pub open spec fn same_tier_catalog(previous: Seq<DalucPrecisionTier>, next: Seq<DalucPrecisionTier>) -> bool {
    previous.len() == next.len() && forall|i: int| 0 <= i < previous.len() ==> next.contains(
        #[trigger] previous[i],
    )
}

/// Tier transitions from the previous binding to the next one: the complete
/// contracts must be equal and the catalogs must define the same tiers; then
/// each paired page whose tier ID changed gives one transition, in page order,
/// stamped with the next binding's branch epoch.
pub open spec fn paged_transitions_rule(
    previous: DalucPagedTierBinding,
    previous_contract: DalucKvViewContract,
    previous_tiers: Seq<DalucPrecisionTier>,
    next: DalucPagedTierBinding,
    next_contract: DalucKvViewContract,
    next_tiers: Seq<DalucPrecisionTier>,
) -> Result<Seq<DalucPagedTierTransition>, DalucPagedTierTransitionError> {
    let pairs = if previous.assignments@.len() <= next.assignments@.len() {
        previous.assignments@.len()
    } else {
        next.assignments@.len()
    };
    if previous_contract != next_contract {
        Err(DalucPagedTierTransitionError::IncompatibleViewContracts)
    } else if !same_tier_catalog(previous_tiers, next_tiers) {
        Err(DalucPagedTierTransitionError::IncompatibleTierCatalogs)
    } else {
        Ok(
            page_transitions_prefix(
                previous.assignments@,
                next.assignments@,
                next.branch_epoch,
                pairs as int,
            ),
        )
    }
}

fn catalog_contains(tiers: &[DalucPrecisionTier], tier: DalucPrecisionTier) -> (found: bool)
    ensures
        found == tiers@.contains(tier),
{
    let mut k: usize = 0;
    while k < tiers.len()
        invariant
            k <= tiers.len(),
            forall|j: int| 0 <= j < k ==> tiers@[j] != tier,
        decreases tiers.len() - k,
    {
        if tiers[k] == tier {
            assert(tiers@[k as int] == tier);
            return true;
        }
        k += 1;
    }
    false
}

/// Plan tier-assignment changes from `previous` to `next`, two bindings of
/// the same paged cache with the contracts and tier catalogs they were bound
/// with. Pages are paired in order; every changed tier ID gives one record.
pub fn paged_tier_transitions(
    previous: &DalucPagedTierBinding,
    previous_contract: DalucKvViewContract,
    previous_tiers: &[DalucPrecisionTier],
    next: &DalucPagedTierBinding,
    next_contract: DalucKvViewContract,
    next_tiers: &[DalucPrecisionTier],
) -> (r: Result<Vec<DalucPagedTierTransition>, DalucPagedTierTransitionError>)
    ensures
        match paged_transitions_rule(
            *previous,
            previous_contract,
            previous_tiers@,
            *next,
            next_contract,
            next_tiers@,
        ) {
            Ok(expected) => r is Ok && r->Ok_0@ == expected,
            Err(e) => r == Err::<Vec<DalucPagedTierTransition>, DalucPagedTierTransitionError>(e),
        },
{
    if previous_contract != next_contract {
        return Err(DalucPagedTierTransitionError::IncompatibleViewContracts);
    }
    if previous_tiers.len() != next_tiers.len() {
        return Err(DalucPagedTierTransitionError::IncompatibleTierCatalogs);
    }
    let mut i: usize = 0;
    while i < previous_tiers.len()
        invariant
            i <= previous_tiers@.len(),
            previous_contract == next_contract,
            previous_tiers@.len() == next_tiers@.len(),
            forall|j: int| 0 <= j < i ==> next_tiers@.contains(#[trigger] previous_tiers@[j]),
        decreases previous_tiers.len() - i,
    {
        if !catalog_contains(next_tiers, previous_tiers[i]) {
            assert(!same_tier_catalog(previous_tiers@, next_tiers@)) by {
                assert(!next_tiers@.contains(previous_tiers@[i as int]));
            }
            return Err(DalucPagedTierTransitionError::IncompatibleTierCatalogs);
        }
        i += 1;
    }
    let pairs = if previous.assignments.len() <= next.assignments.len() {
        previous.assignments.len()
    } else {
        next.assignments.len()
    };
    let mut transitions: Vec<DalucPagedTierTransition> = Vec::new();
    let mut k: usize = 0;
    while k < pairs
        invariant
            k <= pairs,
            pairs <= previous.assignments@.len(),
            pairs <= next.assignments@.len(),
            transitions@ == page_transitions_prefix(
                previous.assignments@,
                next.assignments@,
                next.branch_epoch,
                k as int,
            ),
        decreases pairs - k,
    {
        let prior = previous.assignments[k];
        let page = next.assignments[k];
        if prior.tier_id != page.tier_id {
            transitions.push(
                DalucPagedTierTransition {
                    logical_page: page.logical_page,
                    physical_page: page.physical_page,
                    start_token: page.start_token,
                    end_token_exclusive: page.end_token_exclusive,
                    generation: page.generation,
                    branch_epoch: next.branch_epoch,
                    from_tier: prior.tier_id,
                    to_tier: page.tier_id,
                },
            );
        }
        k += 1;
    }
    Ok(transitions)
}

/// Comparing a binding with itself under the same contract and catalog
/// declares no transition.
pub proof fn lemma_paged_transitions_from_self_is_empty(
    binding: DalucPagedTierBinding,
    contract: DalucKvViewContract,
    tiers: Seq<DalucPrecisionTier>,
)
    ensures
        paged_transitions_rule(binding, contract, tiers, binding, contract, tiers) == Ok::<
            Seq<DalucPagedTierTransition>,
            DalucPagedTierTransitionError,
        >(Seq::empty()),
{
    assert forall|i: int| 0 <= i < tiers.len() implies tiers.contains(#[trigger] tiers[i]) by {}
    lemma_no_changes_no_transitions(
        binding.assignments@,
        binding.branch_epoch,
        binding.assignments@.len() as int,
    );
}

proof fn lemma_no_changes_no_transitions(pages: Seq<DalucPagedTierPageAssignment>, branch_epoch: u64, n: int)
    ensures
        page_transitions_prefix(pages, pages, branch_epoch, n) == Seq::<DalucPagedTierTransition>::empty(),
    decreases n,
{
    if n > 0 {
        lemma_no_changes_no_transitions(pages, branch_epoch, n - 1);
    }
}

/// Transitions report changes only and keep page order: each transition's
/// tiers differ; the list is empty exactly when every paired page keeps its
/// tier ID; each transition sits on a logical page of the next binding; and
/// when those logical pages ascend, so do the transitions'.
pub proof fn lemma_page_transitions_report_changes(
    prior: Seq<DalucPagedTierPageAssignment>,
    next: Seq<DalucPagedTierPageAssignment>,
    branch_epoch: u64,
    n: int,
)
    requires
        0 <= n <= prior.len(),
        n <= next.len(),
    ensures
        ({
            let t = page_transitions_prefix(prior, next, branch_epoch, n);
            &&& forall|i: int| 0 <= i < t.len() ==> #[trigger] t[i].from_tier != t[i].to_tier
            &&& t.len() == 0 <==> forall|j: int| 0 <= j < n ==> #[trigger] prior[j].tier_id
                == next[j].tier_id
            &&& forall|i: int|
                0 <= i < t.len() ==> exists|j: int| 0 <= j < n && #[trigger] t[i].logical_page
                    == next[j].logical_page
            &&& (forall|x: int, y: int|
                0 <= x < y < n ==> next[x].logical_page < next[y].logical_page) ==> forall|
                i: int,
                k: int,
            |
                0 <= i < k < t.len() ==> t[i].logical_page < t[k].logical_page
        }),
    decreases n,
{
    if n > 0 {
        lemma_page_transitions_report_changes(prior, next, branch_epoch, n - 1);
        let earlier = page_transitions_prefix(prior, next, branch_epoch, n - 1);
        let t = page_transitions_prefix(prior, next, branch_epoch, n);
        if prior[n - 1].tier_id != next[n - 1].tier_id {
            assert(t[earlier.len() as int].logical_page == next[n - 1].logical_page);
            assert forall|i: int| 0 <= i < t.len() implies exists|j: int|
                0 <= j < n && #[trigger] t[i].logical_page == next[j].logical_page by {
                if i < earlier.len() {
                    assert(t[i] == earlier[i]);
                    let j = choose|j: int| 0 <= j < n - 1 && earlier[i].logical_page == next[j].logical_page;
                    assert(t[i].logical_page == next[j].logical_page);
                } else {
                    assert(t[i].logical_page == next[n - 1].logical_page);
                }
            }
            if forall|x: int, y: int| 0 <= x < y < n ==> next[x].logical_page < next[y].logical_page {
                assert forall|i: int, k: int| 0 <= i < k < t.len() implies t[i].logical_page
                    < t[k].logical_page by {
                    if k == earlier.len() {
                        let j = choose|j: int| 0 <= j < n - 1 && earlier[i].logical_page == next[j].logical_page;
                        assert(t[i] == earlier[i]);
                    } else {
                        assert(t[i] == earlier[i] && t[k] == earlier[k]);
                    }
                }
            }
            assert(!(forall|j: int| 0 <= j < n ==> #[trigger] prior[j].tier_id == next[j].tier_id));
        } else {
            assert forall|i: int| 0 <= i < t.len() implies exists|j: int|
                0 <= j < n && #[trigger] t[i].logical_page == next[j].logical_page by {
                let j = choose|j: int| 0 <= j < n - 1 && earlier[i].logical_page == next[j].logical_page;
                assert(t[i].logical_page == next[j].logical_page);
            }
            if t.len() == 0 {
                assert forall|j: int| 0 <= j < n implies #[trigger] prior[j].tier_id == next[j].tier_id by {
                    if j < n - 1 {
                        assert(prior[j].tier_id == next[j].tier_id);
                    }
                }
            }
        }
    }
}

/// `tr` records the tier change of the paired pages `prior` and `next`: it
/// sits on the next binding's page (logical page, physical page, token span
/// and generation of `next`), carries `branch_epoch`, and moves from the
/// previous tier to the next one, which differ.
pub open spec fn transition_on(
    tr: DalucPagedTierTransition,
    prior: DalucPagedTierPageAssignment,
    next: DalucPagedTierPageAssignment,
    branch_epoch: u64,
) -> bool {
    &&& prior.tier_id != next.tier_id
    &&& tr.logical_page == next.logical_page
    &&& tr.physical_page == next.physical_page
    &&& tr.start_token == next.start_token
    &&& tr.end_token_exclusive == next.end_token_exclusive
    &&& tr.generation == next.generation
    &&& tr.branch_epoch == branch_epoch
    &&& tr.from_tier == prior.tier_id
    &&& tr.to_tier == next.tier_id
}

/// Transition `i` of `t` records the change of the pair `j < n` that has
/// exactly `i` changed pairs before it: the transitions follow the changed
/// pairs one for one, in order.
pub open spec fn transition_located(
    t: Seq<DalucPagedTierTransition>,
    prior: Seq<DalucPagedTierPageAssignment>,
    next: Seq<DalucPagedTierPageAssignment>,
    branch_epoch: u64,
    n: int,
    i: int,
) -> bool {
    exists|j: int|
        0 <= j < n && changed_pairs(prior, next, j) == i && #[trigger] transition_on(
            t[i],
            prior[j],
            next[j],
            branch_epoch,
        )
}

/// Number of the first `n` paired pages whose tier IDs differ.
pub open spec fn changed_pairs(
    prior: Seq<DalucPagedTierPageAssignment>,
    next: Seq<DalucPagedTierPageAssignment>,
    n: int,
) -> nat
    decreases n,
{
    if n <= 0 {
        0
    } else {
        changed_pairs(prior, next, n - 1) + if prior[n - 1].tier_id != next[n - 1].tier_id {
            1nat
        } else {
            0nat
        }
    }
}

/// Transitions sit on the pages they move to: there is one per changed pair,
/// in pair order, and the `i`-th transition records the change of the `i`-th
/// changed pair with the next binding's physical page, token span and
/// generation, whatever the previous binding recorded for that page.
pub proof fn lemma_transitions_sit_on_next_pages(
    prior: Seq<DalucPagedTierPageAssignment>,
    next: Seq<DalucPagedTierPageAssignment>,
    branch_epoch: u64,
    n: int,
)
    requires
        0 <= n <= prior.len(),
        n <= next.len(),
    ensures
        ({
            let t = page_transitions_prefix(prior, next, branch_epoch, n);
            &&& t.len() == changed_pairs(prior, next, n)
            &&& forall|i: int|
                0 <= i < t.len() ==> #[trigger] transition_located(t, prior, next, branch_epoch, n, i)
        }),
    decreases n,
{
    if n > 0 {
        lemma_transitions_sit_on_next_pages(prior, next, branch_epoch, n - 1);
        let earlier = page_transitions_prefix(prior, next, branch_epoch, n - 1);
        let t = page_transitions_prefix(prior, next, branch_epoch, n);
        let changed = prior[n - 1].tier_id != next[n - 1].tier_id;
        let last = page_transition(prior[n - 1], next[n - 1], branch_epoch);
        if changed {
            assert(t == earlier.push(last));
        } else {
            assert(t == earlier);
        }
        assert forall|i: int| 0 <= i < t.len() implies #[trigger] transition_located(
            t,
            prior,
            next,
            branch_epoch,
            n,
            i,
        ) by {
            if i < earlier.len() {
                assert(t[i] == earlier[i]);
                assert(transition_located(earlier, prior, next, branch_epoch, n - 1, i));
                let j = choose|j: int|
                    0 <= j < n - 1 && changed_pairs(prior, next, j) == i && #[trigger] transition_on(
                        earlier[i],
                        prior[j],
                        next[j],
                        branch_epoch,
                    );
                assert(transition_on(t[i], prior[j], next[j], branch_epoch));
            } else {
                assert(changed);
                assert(t[i] == last);
                assert(transition_on(t[i], prior[n - 1], next[n - 1], branch_epoch));
            }
        }
    }
}

/// The transitions between two bindings with equal contracts and the same
/// tier catalog: one per paired page whose tier changed, each on the next
/// binding's page record and carrying the next binding's branch epoch.
pub proof fn lemma_paged_transitions_sit_on_next_pages(
    previous: DalucPagedTierBinding,
    previous_contract: DalucKvViewContract,
    previous_tiers: Seq<DalucPrecisionTier>,
    next: DalucPagedTierBinding,
    next_contract: DalucKvViewContract,
    next_tiers: Seq<DalucPrecisionTier>,
)
    requires
        previous_contract == next_contract,
        same_tier_catalog(previous_tiers, next_tiers),
    ensures
        ({
            let pa = previous.assignments@;
            let na = next.assignments@;
            let n = if pa.len() <= na.len() {
                pa.len() as int
            } else {
                na.len() as int
            };
            paged_transitions_rule(
                previous,
                previous_contract,
                previous_tiers,
                next,
                next_contract,
                next_tiers,
            ) matches Ok(t) && t.len() == changed_pairs(pa, na, n) && forall|i: int|
                0 <= i < t.len() ==> #[trigger] transition_located(t, pa, na, next.branch_epoch, n, i)
        }),
{
    let pa = previous.assignments@;
    let na = next.assignments@;
    let n = if pa.len() <= na.len() {
        pa.len() as int
    } else {
        na.len() as int
    };
    lemma_transitions_sit_on_next_pages(pa, na, next.branch_epoch, n);
}

/// Transitions are planned only between compatible bindings: different view
/// contracts are refused first, then catalogs that differ in size or in which
/// tiers they define (their priority order may differ).
pub proof fn lemma_paged_transitions_refuse_incompatible(
    previous: DalucPagedTierBinding,
    previous_contract: DalucKvViewContract,
    previous_tiers: Seq<DalucPrecisionTier>,
    next: DalucPagedTierBinding,
    next_contract: DalucKvViewContract,
    next_tiers: Seq<DalucPrecisionTier>,
    missing: int,
)
    ensures
        ({
            let r = paged_transitions_rule(
                previous,
                previous_contract,
                previous_tiers,
                next,
                next_contract,
                next_tiers,
            );
            &&& previous_contract != next_contract ==> r == Err::<
                Seq<DalucPagedTierTransition>,
                DalucPagedTierTransitionError,
            >(DalucPagedTierTransitionError::IncompatibleViewContracts)
            &&& previous_contract == next_contract && (previous_tiers.len() != next_tiers.len() || (0
                <= missing < previous_tiers.len() && !next_tiers.contains(previous_tiers[missing])))
                ==> r == Err::<Seq<DalucPagedTierTransition>, DalucPagedTierTransitionError>(
                DalucPagedTierTransitionError::IncompatibleTierCatalogs,
            )
        }),
{
}

} // verus!
