//! Deterministic research-only DA-LUC precision-tier routing.
//!
//! This module decides only which explicitly declared representation tier is
//! assigned to each logical token segment. It does not transcode a payload,
//! mutate cache storage, move pages, or select a runtime backend. A consumer
//! must apply every representation transition explicitly.
use crate::research_da_luc::{
    contract_rule, first_failure, DalucKeyRepresentation, DalucKvViewContract, DalucKvViewError,
    DalucValueRepresentation,
};
use vstd::prelude::*;
use vstd::set_lib::{lemma_int_range, lemma_subset_equality, set_int_range};

verus! {

/// Version of the deterministic tier-routing semantics.
pub const DA_LUC_TIER_ROUTING_VERSION: u16 = 1;

/// Stable caller-defined tier identifier.
#[derive(Debug, Clone, Copy, PartialEq, Eq, Structural, PartialOrd, Ord, Hash)]
pub struct DalucTierId(pub u16);

/// One explicit K/V representation tier.
///
/// The order of the tier slice supplied to routing functions is the selection
/// priority. No name such as "hot", "cold", "high" or "low" is inferred from
/// bit width, dtype or this identifier.
#[derive(Debug, Clone, Copy, PartialEq, Eq, Structural)]
pub struct DalucPrecisionTier {
    pub id: DalucTierId,
    pub keys: DalucKeyRepresentation,
    pub values: DalucValueRepresentation,
}

/// Exact number of logical segments assigned to one tier.
#[derive(Debug, Clone, Copy, PartialEq, Eq, Structural)]
pub struct DalucTierQuota {
    pub tier_id: DalucTierId,
    pub segments: usize,
}

#[derive(Debug, Clone, Copy, PartialEq, Eq, Structural)]
pub enum DalucTierRoutingPolicy {
    /// Newest logical segment first, with higher segment index considered newer.
    Recency,
    /// Descending caller-supplied non-negative attention mass. Equal masses use
    /// lower segment index as the deterministic tie-break.
    AttentionMass,
}

/// Canonical assignment of one logical token segment to one declared tier.
#[derive(Debug, Clone, Copy, PartialEq, Eq, Structural)]
pub struct DalucTierAssignment {
    pub segment_index: usize,
    pub start_token: usize,
    pub end_token_exclusive: usize,
    pub tier_id: DalucTierId,
}

/// Versioned deterministic routing result.
#[derive(Debug, Clone, PartialEq, Eq)]
pub struct DalucTierRoutingPlan {
    pub routing_version: u16,
    pub kv_view_schema_version: u16,
    pub policy: DalucTierRoutingPolicy,
    pub kv_len: usize,
    pub segment_size: usize,
    pub assignments: Vec<DalucTierAssignment>,
}

/// Explicit representation transition between two already-materialized plans.
///
/// Returning this record does not perform the transition.
#[derive(Debug, Clone, Copy, PartialEq, Eq, Structural)]
pub struct DalucTierTransition {
    pub segment_index: usize,
    pub start_token: usize,
    pub end_token_exclusive: usize,
    pub from_tier: DalucTierId,
    pub to_tier: DalucTierId,
}

#[derive(Debug, Clone, PartialEq, Eq)]
#[non_exhaustive]
pub enum DalucTierRoutingError {
    Contract(DalucKvViewError),
    UnsupportedRoutingVersion { actual: u16, supported: u16 },
    InvalidSegmentSize,
    EmptyTierCatalog,
    DuplicateTierId(DalucTierId),
    DuplicateQuotaTier(DalucTierId),
    UnknownQuotaTier(DalucTierId),
    MissingQuotaTier(DalucTierId),
    QuotaSumMismatch { expected_segments: usize, actual_segments: usize },
    AttentionMassLength { expected: usize, actual: usize },
    InvalidAttentionMass { segment_index: usize },
    MalformedPlan(&'static str),
    IncompatiblePlans(&'static str),
    ArithmeticOverflow(&'static str),
}

// ---------------------------------------------------------------------------
// Specification.
// ---------------------------------------------------------------------------

/// Checks `check(0), .., check(n - 1)` in order and reports the first failure.
pub open spec fn scan(n: int, check: spec_fn(int) -> Result<(), DalucTierRoutingError>) -> Result<
    (),
    DalucTierRoutingError,
>
    decreases n,
{
    if n <= 0 {
        Ok(())
    } else {
        first_failure(scan(n - 1, check), check(n - 1))
    }
}

pub open spec fn malformed(reason: &'static str) -> Result<(), DalucTierRoutingError> {
    Err(DalucTierRoutingError::MalformedPlan(reason))
}

pub open spec fn lift_contract(r: Result<(), DalucKvViewError>) -> Result<(), DalucTierRoutingError> {
    match r {
        Ok(()) => Ok(()),
        Err(e) => Err(DalucTierRoutingError::Contract(e)),
    }
}

/// Number of segments of `segment_size` tokens that cover `kv_len` tokens.
pub open spec fn segment_count_rule(kv_len: usize, segment_size: usize) -> Result<
    usize,
    DalucTierRoutingError,
> {
    if segment_size == 0 {
        Err(DalucTierRoutingError::InvalidSegmentSize)
    } else if kv_len + (segment_size - 1) > usize::MAX {
        Err(DalucTierRoutingError::ArithmeticOverflow("segment count"))
    } else {
        Ok(((kv_len + (segment_size - 1)) / (segment_size as int)) as usize)
    }
}

pub open spec fn min_int(a: int, b: int) -> int {
    if a <= b {
        a
    } else {
        b
    }
}

/// Token range `[start, end)` of one segment; the last segment may be short.
pub open spec fn segment_bounds_rule(kv_len: usize, segment_size: usize, index: usize) -> Result<
    (usize, usize),
    DalucTierRoutingError,
> {
    if index * segment_size > usize::MAX {
        Err(DalucTierRoutingError::ArithmeticOverflow("segment start"))
    } else if index * segment_size >= kv_len {
        Err(DalucTierRoutingError::MalformedPlan("segment starts outside logical KV length"))
    } else if index * segment_size + segment_size > usize::MAX {
        Err(DalucTierRoutingError::ArithmeticOverflow("segment end"))
    } else {
        Ok(
            (
                (index * segment_size) as usize,
                min_int(index * segment_size + segment_size, kv_len as int) as usize,
            ),
        )
    }
}

/// The base contract with one tier's key and value representations.
pub open spec fn tier_contract(base: DalucKvViewContract, tier: DalucPrecisionTier) -> DalucKvViewContract {
    DalucKvViewContract {
        schema_version: base.schema_version,
        shape: base.shape,
        keys: tier.keys,
        values: tier.values,
        layout: base.layout,
    }
}

pub open spec fn tier_known(tiers: Seq<DalucPrecisionTier>, id: DalucTierId) -> bool {
    exists|k: int| 0 <= k < tiers.len() && #[trigger] tiers[k].id == id
}

pub open spec fn quota_known(quotas: Seq<DalucTierQuota>, id: DalucTierId) -> bool {
    exists|q: int| 0 <= q < quotas.len() && #[trigger] quotas[q].tier_id == id
}

pub open spec fn tier_check(base: DalucKvViewContract, tiers: Seq<DalucPrecisionTier>, i: int) -> Result<
    (),
    DalucTierRoutingError,
> {
    if exists|j: int| 0 <= j < i && #[trigger] tiers[j].id == tiers[i].id {
        Err(DalucTierRoutingError::DuplicateTierId(tiers[i].id))
    } else {
        lift_contract(contract_rule(tier_contract(base, tiers[i])))
    }
}

pub open spec fn tier_checks(base: DalucKvViewContract, tiers: Seq<DalucPrecisionTier>) -> spec_fn(
    int,
) -> Result<(), DalucTierRoutingError> {
    |i: int| tier_check(base, tiers, i)
}

/// The tier catalog is non-empty, has unique ids, and every tier's
/// representation forms a valid contract together with the base contract.
pub open spec fn tiers_rule(base: DalucKvViewContract, tiers: Seq<DalucPrecisionTier>) -> Result<
    (),
    DalucTierRoutingError,
> {
    if tiers.len() == 0 {
        Err(DalucTierRoutingError::EmptyTierCatalog)
    } else {
        scan(tiers.len() as int, tier_checks(base, tiers))
    }
}

pub open spec fn quota_check(
    tiers: Seq<DalucPrecisionTier>,
    quotas: Seq<DalucTierQuota>,
    i: int,
) -> Result<(), DalucTierRoutingError> {
    if exists|j: int| 0 <= j < i && #[trigger] quotas[j].tier_id == quotas[i].tier_id {
        Err(DalucTierRoutingError::DuplicateQuotaTier(quotas[i].tier_id))
    } else if !tier_known(tiers, quotas[i].tier_id) {
        Err(DalucTierRoutingError::UnknownQuotaTier(quotas[i].tier_id))
    } else {
        Ok(())
    }
}

pub open spec fn quota_checks(tiers: Seq<DalucPrecisionTier>, quotas: Seq<DalucTierQuota>) -> spec_fn(
    int,
) -> Result<(), DalucTierRoutingError> {
    |i: int| quota_check(tiers, quotas, i)
}

pub open spec fn missing_check(
    tiers: Seq<DalucPrecisionTier>,
    quotas: Seq<DalucTierQuota>,
    i: int,
) -> Result<(), DalucTierRoutingError> {
    if !quota_known(quotas, tiers[i].id) {
        Err(DalucTierRoutingError::MissingQuotaTier(tiers[i].id))
    } else {
        Ok(())
    }
}

pub open spec fn missing_checks(tiers: Seq<DalucPrecisionTier>, quotas: Seq<DalucTierQuota>) -> spec_fn(
    int,
) -> Result<(), DalucTierRoutingError> {
    |i: int| missing_check(tiers, quotas, i)
}

/// Sum of the first `n` quotas.
pub open spec fn quota_total(quotas: Seq<DalucTierQuota>, n: int) -> int
    decreases n,
{
    if n <= 0 {
        0
    } else {
        quota_total(quotas, n - 1) + quotas[n - 1].segments
    }
}

/// Quotas name every tier exactly once, name no other tier, and cover exactly
/// `segment_count` segments.
pub open spec fn quotas_rule(
    tiers: Seq<DalucPrecisionTier>,
    quotas: Seq<DalucTierQuota>,
    segment_count: usize,
) -> Result<(), DalucTierRoutingError> {
    let total = quota_total(quotas, quotas.len() as int);
    first_failure(
        scan(quotas.len() as int, quota_checks(tiers, quotas)),
        first_failure(
            scan(tiers.len() as int, missing_checks(tiers, quotas)),
            if total > usize::MAX {
                Err(DalucTierRoutingError::ArithmeticOverflow("tier quota sum"))
            } else if total != segment_count {
                Err(
                    DalucTierRoutingError::QuotaSumMismatch {
                        expected_segments: segment_count,
                        actual_segments: total as usize,
                    },
                )
            } else {
                Ok(())
            },
        ),
    )
}

/// Validation shared by every routing policy; on success, the segment count.
pub open spec fn inputs_rule(
    base: DalucKvViewContract,
    segment_size: usize,
    tiers: Seq<DalucPrecisionTier>,
    quotas: Seq<DalucTierQuota>,
) -> Result<usize, DalucTierRoutingError> {
    if contract_rule(base) is Err {
        Err(DalucTierRoutingError::Contract(contract_rule(base)->Err_0))
    } else if segment_size == 0 {
        Err(DalucTierRoutingError::InvalidSegmentSize)
    } else if tiers_rule(base, tiers) is Err {
        Err(tiers_rule(base, tiers)->Err_0)
    } else if segment_count_rule(base.shape.kv_len, segment_size) is Err {
        segment_count_rule(base.shape.kv_len, segment_size)
    } else {
        let count = segment_count_rule(base.shape.kv_len, segment_size)->Ok_0;
        if quotas_rule(tiers, quotas, count) is Err {
            Err(quotas_rule(tiers, quotas, count)->Err_0)
        } else {
            Ok(count)
        }
    }
}

/// Index of the quota that names `id` (unique once the quotas are validated).
pub open spec fn quota_index(quotas: Seq<DalucTierQuota>, id: DalucTierId) -> int {
    choose|q: int| 0 <= q < quotas.len() && #[trigger] quotas[q].tier_id == id
}

pub open spec fn quota_of(quotas: Seq<DalucTierQuota>, id: DalucTierId) -> int {
    quotas[quota_index(quotas, id)].segments as int
}

/// Number of ranking positions taken by the first `k` tiers.
pub open spec fn cumulative(tiers: Seq<DalucPrecisionTier>, quotas: Seq<DalucTierQuota>, k: int) -> int
    decreases k,
{
    if k <= 0 {
        0
    } else {
        cumulative(tiers, quotas, k - 1) + quota_of(quotas, tiers[k - 1].id)
    }
}

/// Ranking position `p` falls into the quota of tier `k`.
pub open spec fn position_in_tier(
    tiers: Seq<DalucPrecisionTier>,
    quotas: Seq<DalucTierQuota>,
    k: int,
    p: int,
) -> bool {
    &&& 0 <= k < tiers.len()
    &&& cumulative(tiers, quotas, k) <= p < cumulative(tiers, quotas, k + 1)
}

/// The canonical assignment record of segment `s` of a plan.
pub open spec fn canonical_assignment(
    kv_len: usize,
    segment_size: usize,
    s: int,
    tier_id: DalucTierId,
) -> DalucTierAssignment {
    DalucTierAssignment {
        segment_index: s as usize,
        start_token: (s * segment_size) as usize,
        end_token_exclusive: min_int(s * segment_size + segment_size, kv_len as int) as usize,
        tier_id,
    }
}

/// `plan` assigns segment `ranking[p]` the tier whose quota holds position `p`,
/// walking the tiers in catalog order.
pub open spec fn plan_follows_ranking(
    plan: DalucTierRoutingPlan,
    base: DalucKvViewContract,
    segment_size: usize,
    tiers: Seq<DalucPrecisionTier>,
    quotas: Seq<DalucTierQuota>,
    policy: DalucTierRoutingPolicy,
    count: usize,
    ranking: Seq<usize>,
) -> bool {
    &&& plan.routing_version == DA_LUC_TIER_ROUTING_VERSION
    &&& plan.kv_view_schema_version == base.schema_version
    &&& plan.policy == policy
    &&& plan.kv_len == base.shape.kv_len
    &&& plan.segment_size == segment_size
    &&& plan.assignments@.len() == count
    &&& forall|s: int|
        0 <= s < count ==> (#[trigger] plan.assignments@[s]) == canonical_assignment(
            base.shape.kv_len,
            segment_size,
            s,
            plan.assignments@[s].tier_id,
        )
    &&& forall|p: int, k: int|
        0 <= p < count && #[trigger] position_in_tier(tiers, quotas, k, p) ==> plan.assignments@[ranking[p] as int].tier_id
            == tiers[k].id
}

/// A ranking that names some segment twice or names a segment out of range.
pub open spec fn ranking_defective(ranking: Seq<usize>, count: usize) -> bool {
    exists|p: int|
        0 <= p < ranking.len() && (#[trigger] ranking[p] >= count || exists|q: int|
            0 <= q < p && #[trigger] ranking[q] == ranking[p])
}

/// Newest-first ranking: position `p` holds segment `count - 1 - p`.
pub open spec fn recency_ranking(count: usize) -> Seq<usize> {
    Seq::new(count as nat, |p: int| (count - 1 - p) as usize)
}


// ---------------------------------------------------------------------------
// Lemmas.
// ---------------------------------------------------------------------------

proof fn lemma_scan_ok(n: int, check: spec_fn(int) -> Result<(), DalucTierRoutingError>)
    ensures
        scan(n, check) is Ok <==> forall|i: int| 0 <= i < n ==> #[trigger] check(i) is Ok,
    decreases n,
{
    if n > 0 {
        lemma_scan_ok(n - 1, check);
    }
}

/// Once `check(i)` fails after an all-passing prefix, every longer scan reports it.
proof fn lemma_scan_stop(i: int, n: int, check: spec_fn(int) -> Result<(), DalucTierRoutingError>)
    requires
        0 <= i < n,
        scan(i, check) is Ok,
        check(i) is Err,
    ensures
        scan(n, check) == check(i),
    decreases n,
{
    if n > i + 1 {
        lemma_scan_stop(i, n - 1, check);
    }
}

proof fn lemma_quota_total_monotone(quotas: Seq<DalucTierQuota>, m: int, n: int)
    requires
        0 <= m <= n,
    ensures
        quota_total(quotas, m) <= quota_total(quotas, n),
    decreases n,
{
    if m < n {
        lemma_quota_total_monotone(quotas, m, n - 1);
    }
}

proof fn lemma_quota_total_prefix(a: Seq<DalucTierQuota>, b: Seq<DalucTierQuota>, m: int)
    requires
        forall|j: int| 0 <= j < m ==> a[j] == b[j],
    ensures
        quota_total(a, m) == quota_total(b, m),
    decreases m,
{
    if m > 0 {
        lemma_quota_total_prefix(a, b, m - 1);
    }
}

proof fn lemma_quota_total_remove(quotas: Seq<DalucTierQuota>, i: int)
    requires
        0 <= i < quotas.len(),
    ensures
        quota_total(quotas, quotas.len() as int) == quota_total(
            quotas.remove(i),
            quotas.len() - 1,
        ) + quotas[i].segments,
    decreases quotas.len(),
{
    let n = quotas.len() as int;
    if i == n - 1 {
        lemma_quota_total_prefix(quotas, quotas.remove(i), n - 1);
    } else {
        let shorter = quotas.drop_last();
        lemma_quota_total_remove(shorter, i);
        lemma_quota_total_prefix(quotas, shorter, n - 1);
        lemma_quota_total_prefix(quotas.remove(i), shorter.remove(i), n - 2);
    }
}

pub open spec fn tier_ids_unique(tiers: Seq<DalucPrecisionTier>) -> bool {
    forall|i: int, j: int| 0 <= j < i < tiers.len() ==> #[trigger] tiers[j].id != #[trigger] tiers[i].id
}

pub open spec fn quota_ids_unique(quotas: Seq<DalucTierQuota>) -> bool {
    forall|i: int, j: int|
        0 <= j < i < quotas.len() ==> #[trigger] quotas[j].tier_id != #[trigger] quotas[i].tier_id
}

/// Every quota names a tier and every tier has a quota, each exactly once.
pub open spec fn quotas_match_tiers(tiers: Seq<DalucPrecisionTier>, quotas: Seq<DalucTierQuota>) -> bool {
    &&& tier_ids_unique(tiers)
    &&& quota_ids_unique(quotas)
    &&& forall|q: int| 0 <= q < quotas.len() ==> tier_known(tiers, #[trigger] quotas[q].tier_id)
    &&& forall|t: int| 0 <= t < tiers.len() ==> quota_known(quotas, #[trigger] tiers[t].id)
}

proof fn lemma_quota_of_index(quotas: Seq<DalucTierQuota>, q: int)
    requires
        quota_ids_unique(quotas),
        0 <= q < quotas.len(),
    ensures
        quota_index(quotas, quotas[q].tier_id) == q,
        quota_of(quotas, quotas[q].tier_id) == quotas[q].segments,
{
    let id = quotas[q].tier_id;
    assert(quotas[q].tier_id == id);
    let c = quota_index(quotas, id);
    if c != q {
        if c < q {
            assert(quotas[c].tier_id != quotas[q].tier_id);
        } else {
            assert(quotas[q].tier_id != quotas[c].tier_id);
        }
    }
}

proof fn lemma_cumulative_congruent(
    tiers: Seq<DalucPrecisionTier>,
    a: Seq<DalucTierQuota>,
    b: Seq<DalucTierQuota>,
    k: int,
)
    requires
        forall|j: int| 0 <= j < k ==> quota_of(a, #[trigger] tiers[j].id) == quota_of(b, tiers[j].id),
    ensures
        cumulative(tiers, a, k) == cumulative(tiers, b, k),
    decreases k,
{
    if k > 0 {
        lemma_cumulative_congruent(tiers, a, b, k - 1);
    }
}

proof fn lemma_cumulative_prefix(
    a: Seq<DalucPrecisionTier>,
    b: Seq<DalucPrecisionTier>,
    quotas: Seq<DalucTierQuota>,
    k: int,
)
    requires
        forall|j: int| 0 <= j < k ==> a[j] == b[j],
    ensures
        cumulative(a, quotas, k) == cumulative(b, quotas, k),
    decreases k,
{
    if k > 0 {
        lemma_cumulative_prefix(a, b, quotas, k - 1);
    }
}

proof fn lemma_cumulative_monotone(
    tiers: Seq<DalucPrecisionTier>,
    quotas: Seq<DalucTierQuota>,
    m: int,
    n: int,
)
    requires
        0 <= m <= n,
    ensures
        cumulative(tiers, quotas, m) <= cumulative(tiers, quotas, n),
    decreases n,
{
    if m < n {
        lemma_cumulative_monotone(tiers, quotas, m, n - 1);
    }
}

/// Walking the tiers in catalog order spends exactly the quota total.
proof fn lemma_cumulative_total(tiers: Seq<DalucPrecisionTier>, quotas: Seq<DalucTierQuota>)
    requires
        quotas_match_tiers(tiers, quotas),
    ensures
        cumulative(tiers, quotas, tiers.len() as int) == quota_total(quotas, quotas.len() as int),
    decreases tiers.len(),
{
    let n = tiers.len() as int;
    if n == 0 {
        if quotas.len() > 0 {
            assert(tier_known(tiers, quotas[0].tier_id));
        }
    } else {
        let t = tiers[n - 1];
        assert(quota_known(quotas, tiers[n - 1].id));
        let i = quota_index(quotas, t.id);
        lemma_quota_of_index(quotas, i);
        let rest_q = quotas.remove(i);
        let rest_t = tiers.drop_last();
        assert forall|q: int| 0 <= q < rest_q.len() implies tier_known(
            rest_t,
            #[trigger] rest_q[q].tier_id,
        ) by {
            let orig = if q < i {
                q
            } else {
                q + 1
            };
            assert(rest_q[q] == quotas[orig]);
            assert(tier_known(tiers, quotas[orig].tier_id));
            let k = choose|k: int| 0 <= k < tiers.len() && #[trigger] tiers[k].id == quotas[orig].tier_id;
            if k == n - 1 {
                if orig < i {
                    assert(quotas[orig].tier_id != quotas[i].tier_id);
                } else {
                    assert(quotas[i].tier_id != quotas[orig].tier_id);
                }
            }
            assert(rest_t[k] == tiers[k]);
        }
        assert forall|j: int| 0 <= j < rest_t.len() implies quota_known(
            rest_q,
            #[trigger] rest_t[j].id,
        ) && quota_of(rest_q, rest_t[j].id) == quota_of(quotas, rest_t[j].id) by {
            assert(rest_t[j] == tiers[j]);
            assert(tiers[j].id != tiers[n - 1].id);
            assert(quota_known(quotas, tiers[j].id));
            let c = quota_index(quotas, tiers[j].id);
            lemma_quota_of_index(quotas, c);
            let c2 = if c < i {
                c
            } else {
                c - 1
            };
            assert(rest_q[c2] == quotas[c]);
            assert(quota_ids_unique(rest_q)) by {
                assert forall|x: int, y: int| 0 <= y < x < rest_q.len() implies #[trigger] rest_q[y].tier_id
                    != #[trigger] rest_q[x].tier_id by {
                    let ox = if x < i {
                        x
                    } else {
                        x + 1
                    };
                    let oy = if y < i {
                        y
                    } else {
                        y + 1
                    };
                    assert(rest_q[x] == quotas[ox]);
                    assert(rest_q[y] == quotas[oy]);
                }
            }
            lemma_quota_of_index(rest_q, c2);
        }
        assert(quota_ids_unique(rest_q)) by {
            assert forall|x: int, y: int| 0 <= y < x < rest_q.len() implies #[trigger] rest_q[y].tier_id
                != #[trigger] rest_q[x].tier_id by {
                let ox = if x < i {
                    x
                } else {
                    x + 1
                };
                let oy = if y < i {
                    y
                } else {
                    y + 1
                };
                assert(rest_q[x] == quotas[ox]);
                assert(rest_q[y] == quotas[oy]);
            }
        }
        assert(tier_ids_unique(rest_t)) by {
            assert forall|x: int, y: int| 0 <= y < x < rest_t.len() implies #[trigger] rest_t[y].id
                != #[trigger] rest_t[x].id by {
                assert(rest_t[x] == tiers[x]);
                assert(rest_t[y] == tiers[y]);
            }
        }
        lemma_cumulative_total(rest_t, rest_q);
        lemma_cumulative_congruent(rest_t, rest_q, quotas, n - 1);
        lemma_cumulative_prefix(tiers, rest_t, quotas, n - 1);
        lemma_quota_total_remove(quotas, i);
    }
}

/// Every position below the cumulative total lies in exactly one tier's quota.
proof fn lemma_position_has_tier(
    tiers: Seq<DalucPrecisionTier>,
    quotas: Seq<DalucTierQuota>,
    n: int,
    p: int,
) -> (k: int)
    requires
        0 <= n <= tiers.len(),
        0 <= p < cumulative(tiers, quotas, n),
    ensures
        position_in_tier(tiers, quotas, k, p),
        k < n,
    decreases n,
{
    if p >= cumulative(tiers, quotas, n - 1) {
        n - 1
    } else {
        lemma_position_has_tier(tiers, quotas, n - 1, p)
    }
}

proof fn lemma_position_tier_unique(
    tiers: Seq<DalucPrecisionTier>,
    quotas: Seq<DalucTierQuota>,
    k1: int,
    k2: int,
    p: int,
)
    requires
        position_in_tier(tiers, quotas, k1, p),
        position_in_tier(tiers, quotas, k2, p),
    ensures
        k1 == k2,
{
    if k1 < k2 {
        lemma_cumulative_monotone(tiers, quotas, k1 + 1, k2);
    } else if k2 < k1 {
        lemma_cumulative_monotone(tiers, quotas, k2 + 1, k1);
    }
}

/// `count` distinct segment indices below `count` name every segment.
proof fn lemma_ranking_covers(ranking: Seq<usize>, count: usize, s: int)
    requires
        ranking.len() == count,
        !ranking_defective(ranking, count),
        0 <= s < count,
    ensures
        exists|p: int| 0 <= p < count && ranking[p] == s,
{
    let as_int = ranking.map_values(|x: usize| x as int);
    assert forall|x: int, y: int| 0 <= x < as_int.len() && 0 <= y < as_int.len() && x != y implies as_int[x]
        != as_int[y] by {
        if y < x {
            assert(!(ranking[x] >= count || exists|q: int| 0 <= q < x && #[trigger] ranking[q] == ranking[x]));
        } else {
            assert(!(ranking[y] >= count || exists|q: int| 0 <= q < y && #[trigger] ranking[q] == ranking[y]));
        }
    }
    assert(as_int.no_duplicates());
    as_int.unique_seq_to_set();
    lemma_int_range(0, count as int);
    assert forall|v: int| as_int.to_set().contains(v) implies set_int_range(0, count as int).contains(v) by {
        let p = choose|p: int| 0 <= p < as_int.len() && as_int[p] == v;
        assert(!(ranking[p] >= count || exists|q: int| 0 <= q < p && #[trigger] ranking[q] == ranking[p]));
    }
    lemma_subset_equality(as_int.to_set(), set_int_range(0, count as int));
    assert(set_int_range(0, count as int).contains(s));
    assert(as_int.to_set().contains(s));
    let p = choose|p: int| 0 <= p < as_int.len() && as_int[p] == s;
    assert(ranking[p] == s);
}

// ---------------------------------------------------------------------------
// Validation.
// ---------------------------------------------------------------------------

fn segment_count(kv_len: usize, segment_size: usize) -> (r: Result<usize, DalucTierRoutingError>)
    ensures
        r == segment_count_rule(kv_len, segment_size),
{
    if segment_size == 0 {
        return Err(DalucTierRoutingError::InvalidSegmentSize);
    }
    match kv_len.checked_add(segment_size - 1) {
        Some(adjusted) => Ok(adjusted / segment_size),
        None => Err(DalucTierRoutingError::ArithmeticOverflow("segment count")),
    }
}

fn segment_bounds(kv_len: usize, segment_size: usize, segment_index: usize) -> (r: Result<
    (usize, usize),
    DalucTierRoutingError,
>)
    ensures
        r == segment_bounds_rule(kv_len, segment_size, segment_index),
{
    let start = match segment_index.checked_mul(segment_size) {
        Some(start) => start,
        None => return Err(DalucTierRoutingError::ArithmeticOverflow("segment start")),
    };
    if start >= kv_len {
        return Err(DalucTierRoutingError::MalformedPlan("segment starts outside logical KV length"));
    }
    let end = match start.checked_add(segment_size) {
        Some(end) => end,
        None => return Err(DalucTierRoutingError::ArithmeticOverflow("segment end")),
    };
    if end < kv_len {
        Ok((start, end))
    } else {
        Ok((start, kv_len))
    }
}

/// A segment below the segment count always has in-range bounds.
proof fn lemma_segment_bounds_ok(kv_len: usize, segment_size: usize, s: int)
    requires
        segment_count_rule(kv_len, segment_size) is Ok,
        0 <= s < segment_count_rule(kv_len, segment_size)->Ok_0,
    ensures
        segment_bounds_rule(kv_len, segment_size, s as usize) == Ok::<
            (usize, usize),
            DalucTierRoutingError,
        >(
            (
                (s * segment_size) as usize,
                min_int(s * segment_size + segment_size, kv_len as int) as usize,
            ),
        ),
{
    let size = segment_size as int;
    let count = (kv_len + (size - 1)) / size;
    assert(s * size <= kv_len - 1) by (nonlinear_arith)
        requires
            0 <= s < count,
            size > 0,
            count == (kv_len + (size - 1)) / size,
    {
        assert(count * size <= kv_len + (size - 1));
        assert(s * size <= (count - 1) * size);
    }
}

fn validate_tiers(base_contract: DalucKvViewContract, tiers: &[DalucPrecisionTier]) -> (r: Result<
    (),
    DalucTierRoutingError,
>)
    ensures
        r == tiers_rule(base_contract, tiers@),
{
    if tiers.len() == 0 {
        return Err(DalucTierRoutingError::EmptyTierCatalog);
    }
    let ghost check = tier_checks(base_contract, tiers@);
    let mut index: usize = 0;
    while index < tiers.len()
        invariant
            index <= tiers.len(),
            check == tier_checks(base_contract, tiers@),
            scan(index as int, check) is Ok,
        decreases tiers.len() - index,
    {
        let tier = tiers[index];
        let mut prior: usize = 0;
        while prior < index
            invariant
                prior <= index < tiers.len(),
                tier == tiers@[index as int],
                check == tier_checks(base_contract, tiers@),
                scan(index as int, check) is Ok,
                forall|j: int| 0 <= j < prior ==> tiers@[j].id != tier.id,
            decreases index - prior,
        {
            if tiers[prior].id.0 == tier.id.0 {
                proof {
                    assert(tiers@[prior as int].id == tiers@[index as int].id);
                    assert(check(index as int) is Err);
                    lemma_scan_stop(index as int, tiers.len() as int, check);
                }
                return Err(DalucTierRoutingError::DuplicateTierId(tier.id));
            }
            prior += 1;
        }
        let mut candidate = base_contract;
        candidate.keys = tier.keys;
        candidate.values = tier.values;
        match candidate.validate() {
            Ok(()) => {},
            Err(error) => {
                proof {
                    assert(candidate == tier_contract(base_contract, tiers@[index as int]));
                    lemma_scan_stop(index as int, tiers.len() as int, check);
                }
                return Err(DalucTierRoutingError::Contract(error));
            },
        }
        proof {
            assert(candidate == tier_contract(base_contract, tiers@[index as int]));
        }
        index += 1;
    }
    Ok(())
}

fn tier_is_known(tiers: &[DalucPrecisionTier], id: DalucTierId) -> (known: bool)
    ensures
        known == tier_known(tiers@, id),
{
    let mut k: usize = 0;
    while k < tiers.len()
        invariant
            k <= tiers.len(),
            forall|j: int| 0 <= j < k ==> tiers@[j].id != id,
        decreases tiers.len() - k,
    {
        if tiers[k].id.0 == id.0 {
            assert(tiers@[k as int].id == id);
            return true;
        }
        k += 1;
    }
    false
}

fn find_quota(quotas: &[DalucTierQuota], id: DalucTierId) -> (found: Option<usize>)
    ensures
        match found {
            Some(q) => q < quotas.len() && quotas@[q as int].tier_id == id,
            None => !quota_known(quotas@, id),
        },
{
    let mut q: usize = 0;
    while q < quotas.len()
        invariant
            q <= quotas.len(),
            forall|j: int| 0 <= j < q ==> quotas@[j].tier_id != id,
        decreases quotas.len() - q,
    {
        if quotas[q].tier_id.0 == id.0 {
            return Some(q);
        }
        q += 1;
    }
    None
}

fn validate_quotas(
    tiers: &[DalucPrecisionTier],
    quotas: &[DalucTierQuota],
    segment_count: usize,
) -> (r: Result<(), DalucTierRoutingError>)
    ensures
        r == quotas_rule(tiers@, quotas@, segment_count),
{
    let ghost by_quota = quota_checks(tiers@, quotas@);
    let ghost by_tier = missing_checks(tiers@, quotas@);
    let mut index: usize = 0;
    while index < quotas.len()
        invariant
            index <= quotas.len(),
            by_quota == quota_checks(tiers@, quotas@),
            scan(index as int, by_quota) is Ok,
        decreases quotas.len() - index,
    {
        let quota = quotas[index];
        let mut prior: usize = 0;
        while prior < index
            invariant
                prior <= index < quotas.len(),
                quota == quotas@[index as int],
                by_quota == quota_checks(tiers@, quotas@),
                scan(index as int, by_quota) is Ok,
                forall|j: int| 0 <= j < prior ==> quotas@[j].tier_id != quota.tier_id,
            decreases index - prior,
        {
            if quotas[prior].tier_id.0 == quota.tier_id.0 {
                proof {
                    assert(quotas@[prior as int].tier_id == quotas@[index as int].tier_id);
                    lemma_scan_stop(index as int, quotas.len() as int, by_quota);
                }
                return Err(DalucTierRoutingError::DuplicateQuotaTier(quota.tier_id));
            }
            prior += 1;
        }
        if !tier_is_known(tiers, quota.tier_id) {
            proof {
                lemma_scan_stop(index as int, quotas.len() as int, by_quota);
            }
            return Err(DalucTierRoutingError::UnknownQuotaTier(quota.tier_id));
        }
        index += 1;
    }
    let mut t: usize = 0;
    while t < tiers.len()
        invariant
            t <= tiers.len(),
            by_tier == missing_checks(tiers@, quotas@),
            by_quota == quota_checks(tiers@, quotas@),
            scan(t as int, by_tier) is Ok,
            scan(quotas.len() as int, by_quota) is Ok,
        decreases tiers.len() - t,
    {
        if find_quota(quotas, tiers[t].id).is_none() {
            proof {
                assert(by_tier(t as int) == Err::<(), DalucTierRoutingError>(
                    DalucTierRoutingError::MissingQuotaTier(tiers@[t as int].id),
                ));
                lemma_scan_stop(t as int, tiers.len() as int, by_tier);
            }
            return Err(DalucTierRoutingError::MissingQuotaTier(tiers[t].id));
        }
        t += 1;
    }
    let mut total: usize = 0;
    let mut q: usize = 0;
    while q < quotas.len()
        invariant
            q <= quotas.len(),
            total == quota_total(quotas@, q as int),
            scan(tiers.len() as int, by_tier) is Ok,
            scan(quotas.len() as int, by_quota) is Ok,
            by_tier == missing_checks(tiers@, quotas@),
            by_quota == quota_checks(tiers@, quotas@),
        decreases quotas.len() - q,
    {
        total = match total.checked_add(quotas[q].segments) {
            Some(sum) => sum,
            None => {
                proof {
                    lemma_quota_total_monotone(quotas@, q + 1, quotas.len() as int);
                }
                return Err(DalucTierRoutingError::ArithmeticOverflow("tier quota sum"));
            },
        };
        q += 1;
    }
    if total != segment_count {
        return Err(
            DalucTierRoutingError::QuotaSumMismatch {
                expected_segments: segment_count,
                actual_segments: total,
            },
        );
    }
    Ok(())
}

/// Validate the inputs shared by every routing policy and return the number of
/// logical segments.
pub fn validate_routing_inputs(
    base_contract: DalucKvViewContract,
    segment_size: usize,
    tiers: &[DalucPrecisionTier],
    quotas: &[DalucTierQuota],
) -> (r: Result<usize, DalucTierRoutingError>)
    ensures
        r == inputs_rule(base_contract, segment_size, tiers@, quotas@),
{
    match base_contract.validate() {
        Ok(()) => {},
        Err(error) => return Err(DalucTierRoutingError::Contract(error)),
    }
    if segment_size == 0 {
        return Err(DalucTierRoutingError::InvalidSegmentSize);
    }
    validate_tiers(base_contract, tiers)?;
    let count = segment_count(base_contract.shape.kv_len, segment_size)?;
    validate_quotas(tiers, quotas, count)?;
    Ok(count)
}

/// Consequences of successful input validation that the routing relies on.
proof fn lemma_inputs_facts(
    base: DalucKvViewContract,
    segment_size: usize,
    tiers: Seq<DalucPrecisionTier>,
    quotas: Seq<DalucTierQuota>,
)
    requires
        inputs_rule(base, segment_size, tiers, quotas) is Ok,
    ensures
        quotas_match_tiers(tiers, quotas),
        tiers.len() > 0,
        segment_count_rule(base.shape.kv_len, segment_size) == inputs_rule(
            base,
            segment_size,
            tiers,
            quotas,
        ),
        quota_total(quotas, quotas.len() as int) == inputs_rule(base, segment_size, tiers, quotas)->Ok_0,
        cumulative(tiers, quotas, tiers.len() as int) == inputs_rule(
            base,
            segment_size,
            tiers,
            quotas,
        )->Ok_0,
        forall|k: int| 0 <= k < tiers.len() ==> tier_check(base, tiers, k) is Ok,
{
    let count = inputs_rule(base, segment_size, tiers, quotas)->Ok_0;
    lemma_scan_ok(tiers.len() as int, tier_checks(base, tiers));
    lemma_scan_ok(quotas.len() as int, quota_checks(tiers, quotas));
    lemma_scan_ok(tiers.len() as int, missing_checks(tiers, quotas));
    assert forall|i: int, j: int| 0 <= j < i < tiers.len() implies #[trigger] tiers[j].id
        != #[trigger] tiers[i].id by {
        assert(tier_checks(base, tiers)(i) is Ok);
    }
    assert forall|i: int, j: int| 0 <= j < i < quotas.len() implies #[trigger] quotas[j].tier_id
        != #[trigger] quotas[i].tier_id by {
        assert(quota_checks(tiers, quotas)(i) is Ok);
    }
    assert forall|q: int| 0 <= q < quotas.len() implies tier_known(
        tiers,
        #[trigger] quotas[q].tier_id,
    ) by {
        assert(quota_checks(tiers, quotas)(q) is Ok);
    }
    assert forall|t: int| 0 <= t < tiers.len() implies quota_known(quotas, #[trigger] tiers[t].id) by {
        assert(missing_checks(tiers, quotas)(t) is Ok);
    }
    assert forall|k: int| 0 <= k < tiers.len() implies tier_check(base, tiers, k) is Ok by {
        assert(tier_checks(base, tiers)(k) is Ok);
    }
    lemma_cumulative_total(tiers, quotas);
}

// ---------------------------------------------------------------------------
// Routing.
// ---------------------------------------------------------------------------

/// Route segments along an explicit ranking: the first tier takes the segments
/// at the first `quota` ranking positions, the next tier the following ones,
/// and so on in catalog order. `ranking` must name every logical segment
/// exactly once. No representation is materialized or mutated.
pub fn route_by_ranking(
    base_contract: DalucKvViewContract,
    segment_size: usize,
    tiers: &[DalucPrecisionTier],
    quotas: &[DalucTierQuota],
    policy: DalucTierRoutingPolicy,
    ranking: &[usize],
) -> (r: Result<DalucTierRoutingPlan, DalucTierRoutingError>)
    ensures
        match inputs_rule(base_contract, segment_size, tiers@, quotas@) {
            Err(e) => r == Err::<DalucTierRoutingPlan, DalucTierRoutingError>(e),
            Ok(count) => if ranking@.len() != count {
                r == Err::<DalucTierRoutingPlan, DalucTierRoutingError>(
                    DalucTierRoutingError::MalformedPlan("ranking does not cover every segment"),
                )
            } else if ranking_defective(ranking@, count) {
                r == Err::<DalucTierRoutingPlan, DalucTierRoutingError>(
                    DalucTierRoutingError::MalformedPlan(
                        "ranking contains invalid or duplicate segment",
                    ),
                )
            } else {
                &&& r is Ok
                &&& plan_follows_ranking(
                    r->Ok_0,
                    base_contract,
                    segment_size,
                    tiers@,
                    quotas@,
                    policy,
                    count,
                    ranking@,
                )
            },
        },
{
    let count = validate_routing_inputs(base_contract, segment_size, tiers, quotas)?;
    proof {
        lemma_inputs_facts(base_contract, segment_size, tiers@, quotas@);
    }
    if ranking.len() != count {
        return Err(DalucTierRoutingError::MalformedPlan("ranking does not cover every segment"));
    }
    let assigned = match assign_along_ranking(tiers, quotas, ranking, count) {
        Some(assigned) => assigned,
        None => {
            return Err(
                DalucTierRoutingError::MalformedPlan("ranking contains invalid or duplicate segment"),
            )
        },
    };
    let kv_len = base_contract.shape.kv_len;
    let mut assignments: Vec<DalucTierAssignment> = Vec::new();
    let mut s: usize = 0;
    while s < count
        invariant
            s <= count,
            assigned@.len() == count,
            segment_count_rule(kv_len, segment_size) == Ok::<usize, DalucTierRoutingError>(count),
            forall|t: int| 0 <= t < count ==> (#[trigger] assigned@[t]) is Some,
            assignments@.len() == s,
            forall|t: int|
                0 <= t < s ==> #[trigger] assignments@[t] == canonical_assignment(
                    kv_len,
                    segment_size,
                    t,
                    assigned@[t]->Some_0,
                ),
        decreases count - s,
    {
        let tier_id = assigned[s].unwrap();
        proof {
            lemma_segment_bounds_ok(kv_len, segment_size, s as int);
        }
        let (start_token, end_token_exclusive) = segment_bounds(kv_len, segment_size, s).unwrap();
        assignments.push(
            DalucTierAssignment { segment_index: s, start_token, end_token_exclusive, tier_id },
        );
        s += 1;
    }
    let plan = DalucTierRoutingPlan {
        routing_version: DA_LUC_TIER_ROUTING_VERSION,
        kv_view_schema_version: base_contract.schema_version,
        policy,
        kv_len,
        segment_size,
        assignments,
    };
    proof {
        assert forall|p: int, k: int|
            0 <= p < count && #[trigger] position_in_tier(
                tiers@,
                quotas@,
                k,
                p,
            ) implies plan.assignments@[ranking@[p] as int].tier_id == tiers@[k].id by {
            assert(plan.assignments@[ranking@[p] as int] == canonical_assignment(
                kv_len,
                segment_size,
                ranking@[p] as int,
                assigned@[ranking@[p] as int]->Some_0,
            ));
        }
    }
    Ok(plan)
}

/// Walk the tiers in catalog order and give each the segments at its quota's
/// ranking positions. `None` when the ranking names a segment out of range or
/// twice.
fn assign_along_ranking(
    tiers: &[DalucPrecisionTier],
    quotas: &[DalucTierQuota],
    ranking: &[usize],
    count: usize,
) -> (r: Option<Vec<Option<DalucTierId>>>)
    requires
        quotas_match_tiers(tiers@, quotas@),
        cumulative(tiers@, quotas@, tiers@.len() as int) == count,
        ranking@.len() == count,
    ensures
        r is None <==> ranking_defective(ranking@, count),
        r matches Some(assigned) ==> {
            &&& assigned@.len() == count
            &&& forall|s: int| 0 <= s < count ==> (#[trigger] assigned@[s]) is Some
            &&& forall|p: int, k: int|
                0 <= p < count && #[trigger] position_in_tier(tiers@, quotas@, k, p)
                    ==> assigned@[ranking@[p] as int] == Some(tiers@[k].id)
        },
{
    let mut assigned: Vec<Option<DalucTierId>> = Vec::new();
    let mut s: usize = 0;
    while s < count
        invariant
            s <= count,
            assigned@.len() == s,
            forall|t: int| 0 <= t < s ==> (#[trigger] assigned@[t]) is None,
        decreases count - s,
    {
        assigned.push(None);
        s += 1;
    }
    let mut cursor: usize = 0;
    let mut k: usize = 0;
    while k < tiers.len()
        invariant
            k <= tiers.len(),
            ranking@.len() == count,
            assigned@.len() == count,
            quotas_match_tiers(tiers@, quotas@),
            cumulative(tiers@, quotas@, tiers@.len() as int) == count,
            cursor == cumulative(tiers@, quotas@, k as int),
            forall|p: int, j: int|
                0 <= p < cursor && #[trigger] position_in_tier(tiers@, quotas@, j, p)
                    ==> assigned@[ranking@[p] as int] == Some(tiers@[j].id),
            forall|t: int|
                0 <= t < count && (#[trigger] assigned@[t]) is Some ==> exists|p: int|
                    0 <= p < cursor && ranking@[p] == t,
            forall|p: int|
                0 <= p < cursor ==> #[trigger] ranking@[p] < count && assigned@[ranking@[p] as int] is Some
                    && forall|q: int| 0 <= q < p ==> #[trigger] ranking@[q] != ranking@[p],
        decreases tiers.len() - k,
    {
        let tier_id = tiers[k].id;
        proof {
            assert(quota_known(quotas@, tiers@[k as int].id));
        }
        let q = find_quota(quotas, tier_id).unwrap();
        proof {
            lemma_quota_of_index(quotas@, q as int);
            lemma_cumulative_monotone(tiers@, quotas@, k as int + 1, tiers@.len() as int);
        }
        let end = cursor + quotas[q].segments;
        let mut p: usize = cursor;
        while p < end
            invariant
                k < tiers.len(),
                tier_id == tiers@[k as int].id,
                ranking@.len() == count,
                assigned@.len() == count,
                cursor == cumulative(tiers@, quotas@, k as int),
                end == cumulative(tiers@, quotas@, k + 1),
                end <= count,
                cursor <= p <= end,
                forall|p2: int, j: int|
                    0 <= p2 < p && #[trigger] position_in_tier(tiers@, quotas@, j, p2)
                        ==> assigned@[ranking@[p2] as int] == Some(tiers@[j].id),
                forall|t: int|
                    0 <= t < count && (#[trigger] assigned@[t]) is Some ==> exists|p2: int|
                        0 <= p2 < p && ranking@[p2] == t,
                forall|p2: int|
                    0 <= p2 < p ==> #[trigger] ranking@[p2] < count && assigned@[ranking@[p2] as int] is Some
                        && forall|q2: int| 0 <= q2 < p2 ==> #[trigger] ranking@[q2] != ranking@[p2],
            decreases end - p,
        {
            let segment = ranking[p];
            if segment >= count || assigned[segment].is_some() {
                proof {
                    if segment < count {
                        let p2 = choose|p2: int| 0 <= p2 < p && ranking@[p2] == segment;
                        assert(ranking@[p2] == ranking@[p as int]);
                    }
                    assert(ranking@[p as int] >= count || exists|q2: int|
                        0 <= q2 < p && #[trigger] ranking@[q2] == ranking@[p as int]);
                }
                return None;
            }
            let ghost before = assigned@;
            assigned.set(segment, Some(tier_id));
            proof {
                assert(position_in_tier(tiers@, quotas@, k as int, p as int));
                assert forall|p2: int, j: int|
                    0 <= p2 < p + 1 && #[trigger] position_in_tier(
                        tiers@,
                        quotas@,
                        j,
                        p2,
                    ) implies assigned@[ranking@[p2] as int] == Some(tiers@[j].id) by {
                    if p2 == p {
                        lemma_position_tier_unique(tiers@, quotas@, j, k as int, p2);
                    } else {
                        assert(before[ranking@[p2] as int] is Some);
                    }
                }
                assert forall|t: int|
                    0 <= t < count && (#[trigger] assigned@[t]) is Some implies exists|p2: int|
                        0 <= p2 < p + 1 && ranking@[p2] == t by {
                    if t == segment {
                        assert(ranking@[p as int] == t);
                    } else {
                        assert(before[t] is Some);
                    }
                }
                assert forall|p2: int| 0 <= p2 < p + 1 implies #[trigger] ranking@[p2] < count
                    && assigned@[ranking@[p2] as int] is Some && forall|q2: int|
                    0 <= q2 < p2 ==> #[trigger] ranking@[q2] != ranking@[p2] by {
                    if p2 == p {
                        assert forall|q2: int| 0 <= q2 < p2 implies #[trigger] ranking@[q2]
                            != ranking@[p2] by {
                            assert(before[ranking@[q2] as int] is Some);
                        }
                    }
                }
            }
            p += 1;
        }
        cursor = end;
        k += 1;
    }
    proof {
        assert(!ranking_defective(ranking@, count)) by {
            if ranking_defective(ranking@, count) {
                let p = choose|p: int|
                    0 <= p < ranking@.len() && (#[trigger] ranking@[p] >= count || exists|q: int|
                        0 <= q < p && #[trigger] ranking@[q] == ranking@[p]);
                assert(ranking@[p] < count);
            }
        }
        assert forall|s: int| 0 <= s < count implies (#[trigger] assigned@[s]) is Some by {
            lemma_ranking_covers(ranking@, count, s);
            let p = choose|p: int| 0 <= p < count && ranking@[p] == s;
            assert(ranking@[p] < count);
        }
    }
    Some(assigned)
}

/// Route segments by deterministic recency.
///
/// `tiers` is ordered from first-selected to last-selected representation.
/// `quotas` must mention every tier exactly once and must cover every segment
/// exactly. Higher segment indices are newer. No representation is materialized
/// or mutated by this function.
pub fn route_by_recency(
    base_contract: DalucKvViewContract,
    segment_size: usize,
    tiers: &[DalucPrecisionTier],
    quotas: &[DalucTierQuota],
) -> (r: Result<DalucTierRoutingPlan, DalucTierRoutingError>)
    ensures
        match inputs_rule(base_contract, segment_size, tiers@, quotas@) {
            Err(e) => r == Err::<DalucTierRoutingPlan, DalucTierRoutingError>(e),
            Ok(count) => {
                &&& r is Ok
                &&& plan_follows_ranking(
                    r->Ok_0,
                    base_contract,
                    segment_size,
                    tiers@,
                    quotas@,
                    DalucTierRoutingPolicy::Recency,
                    count,
                    recency_ranking(count),
                )
            },
        },
{
    let count = validate_routing_inputs(base_contract, segment_size, tiers, quotas)?;
    let mut ranking: Vec<usize> = Vec::new();
    let mut p: usize = 0;
    while p < count
        invariant
            p <= count,
            ranking@.len() == p,
            forall|q: int| 0 <= q < p ==> #[trigger] ranking@[q] == count - 1 - q,
        decreases count - p,
    {
        ranking.push(count - 1 - p);
        p += 1;
    }
    proof {
        assert(ranking@ =~= recency_ranking(count));
        assert(!ranking_defective(ranking@, count)) by {
            if ranking_defective(ranking@, count) {
                let p = choose|p: int|
                    0 <= p < ranking@.len() && (#[trigger] ranking@[p] >= count || exists|q: int|
                        0 <= q < p && #[trigger] ranking@[q] == ranking@[p]);
                assert(ranking@[p] < count);
            }
        }
    }
    route_by_ranking(
        base_contract,
        segment_size,
        tiers,
        quotas,
        DalucTierRoutingPolicy::Recency,
        ranking.as_slice(),
    )
}

pub open spec fn assignment_check(
    plan: DalucTierRoutingPlan,
    tiers: Seq<DalucPrecisionTier>,
    i: int,
) -> Result<(), DalucTierRoutingError> {
    let a = plan.assignments@[i];
    if a.segment_index != i {
        malformed("assignments are not in canonical segment order")
    } else if a.start_token != i * plan.segment_size || a.end_token_exclusive != min_int(
        i * plan.segment_size + plan.segment_size,
        plan.kv_len as int,
    ) {
        malformed("assignment token bounds are not canonical")
    } else if !tier_known(tiers, a.tier_id) {
        malformed("assignment references unknown tier")
    } else {
        Ok(())
    }
}

pub open spec fn assignment_checks(plan: DalucTierRoutingPlan, tiers: Seq<DalucPrecisionTier>) -> spec_fn(
    int,
) -> Result<(), DalucTierRoutingError> {
    |i: int| assignment_check(plan, tiers, i)
}

/// Validation of a plan against a base contract and tier catalog, first
/// failure first.
pub open spec fn plan_rule(
    plan: DalucTierRoutingPlan,
    base: DalucKvViewContract,
    tiers: Seq<DalucPrecisionTier>,
) -> Result<(), DalucTierRoutingError> {
    if plan.routing_version != DA_LUC_TIER_ROUTING_VERSION {
        Err(
            DalucTierRoutingError::UnsupportedRoutingVersion {
                actual: plan.routing_version,
                supported: DA_LUC_TIER_ROUTING_VERSION,
            },
        )
    } else if contract_rule(base) is Err {
        lift_contract(contract_rule(base))
    } else if tiers_rule(base, tiers) is Err {
        tiers_rule(base, tiers)
    } else if plan.kv_view_schema_version != base.schema_version {
        malformed("KV view schema version does not match base contract")
    } else if plan.kv_len != base.shape.kv_len {
        malformed("KV length does not match base contract")
    } else if plan.segment_size == 0 {
        Err(DalucTierRoutingError::InvalidSegmentSize)
    } else if segment_count_rule(plan.kv_len, plan.segment_size) is Err {
        Err(segment_count_rule(plan.kv_len, plan.segment_size)->Err_0)
    } else if plan.assignments@.len() != segment_count_rule(plan.kv_len, plan.segment_size)->Ok_0 {
        malformed("assignment count does not cover every logical segment")
    } else {
        scan(plan.assignments@.len() as int, assignment_checks(plan, tiers))
    }
}

/// Tier changes from `prior` to `next` over their first `n` segments, in
/// segment order.
pub open spec fn transitions_prefix(
    next: Seq<DalucTierAssignment>,
    prior: Seq<DalucTierAssignment>,
    n: int,
) -> Seq<DalucTierTransition>
    decreases n,
{
    if n <= 0 {
        Seq::empty()
    } else {
        let rest = transitions_prefix(next, prior, n - 1);
        let a = next[n - 1];
        let b = prior[n - 1];
        if a.tier_id != b.tier_id {
            rest.push(
                DalucTierTransition {
                    segment_index: a.segment_index,
                    start_token: a.start_token,
                    end_token_exclusive: a.end_token_exclusive,
                    from_tier: b.tier_id,
                    to_tier: a.tier_id,
                },
            )
        } else {
            rest
        }
    }
}

pub open spec fn same_segment(a: DalucTierAssignment, b: DalucTierAssignment) -> bool {
    a.segment_index == b.segment_index && a.start_token == b.start_token && a.end_token_exclusive
        == b.end_token_exclusive
}

pub open spec fn incompatible(reason: &'static str) -> Result<
    Seq<DalucTierTransition>,
    DalucTierRoutingError,
> {
    Err(DalucTierRoutingError::IncompatiblePlans(reason))
}

/// Transitions from `previous` to `next`, or why the plans cannot be compared.
pub open spec fn transitions_rule(next: DalucTierRoutingPlan, previous: DalucTierRoutingPlan) -> Result<
    Seq<DalucTierTransition>,
    DalucTierRoutingError,
> {
    if next.routing_version != previous.routing_version {
        incompatible("routing versions differ")
    } else if next.kv_view_schema_version != previous.kv_view_schema_version {
        incompatible("KV view schema versions differ")
    } else if next.kv_len != previous.kv_len || next.segment_size != previous.segment_size {
        incompatible("logical segmentation differs")
    } else if next.assignments@.len() != previous.assignments@.len() {
        incompatible("assignment counts differ")
    } else if exists|i: int|
        0 <= i < next.assignments@.len() && !same_segment(
            #[trigger] next.assignments@[i],
            previous.assignments@[i],
        ) {
        incompatible("canonical segment bounds differ")
    } else {
        Ok(transitions_prefix(next.assignments@, previous.assignments@, next.assignments@.len() as int))
    }
}

impl DalucTierRoutingPlan {
    /// Validate this plan against the base logical KV contract and tier catalog.
    pub fn validate_against(
        &self,
        base_contract: DalucKvViewContract,
        tiers: &[DalucPrecisionTier],
    ) -> (r: Result<(), DalucTierRoutingError>)
        ensures
            r == plan_rule(*self, base_contract, tiers@),
    {
        if self.routing_version != DA_LUC_TIER_ROUTING_VERSION {
            return Err(
                DalucTierRoutingError::UnsupportedRoutingVersion {
                    actual: self.routing_version,
                    supported: DA_LUC_TIER_ROUTING_VERSION,
                },
            );
        }
        match base_contract.validate() {
            Ok(()) => {},
            Err(error) => return Err(DalucTierRoutingError::Contract(error)),
        }
        validate_tiers(base_contract, tiers)?;
        if self.kv_view_schema_version != base_contract.schema_version {
            return Err(
                DalucTierRoutingError::MalformedPlan(
                    "KV view schema version does not match base contract",
                ),
            );
        }
        if self.kv_len != base_contract.shape.kv_len {
            return Err(DalucTierRoutingError::MalformedPlan("KV length does not match base contract"));
        }
        if self.segment_size == 0 {
            return Err(DalucTierRoutingError::InvalidSegmentSize);
        }
        let expected_segments = segment_count(self.kv_len, self.segment_size)?;
        if self.assignments.len() != expected_segments {
            return Err(
                DalucTierRoutingError::MalformedPlan(
                    "assignment count does not cover every logical segment",
                ),
            );
        }
        let ghost check = assignment_checks(*self, tiers@);
        let mut index: usize = 0;
        while index < self.assignments.len()
            invariant
                index <= self.assignments@.len(),
                self.assignments@.len() == expected_segments,
                segment_count_rule(self.kv_len, self.segment_size) == Ok::<
                    usize,
                    DalucTierRoutingError,
                >(expected_segments),
                check == assignment_checks(*self, tiers@),
                scan(index as int, check) is Ok,
                self.routing_version == DA_LUC_TIER_ROUTING_VERSION,
                contract_rule(base_contract) is Ok,
                tiers_rule(base_contract, tiers@) is Ok,
                self.kv_view_schema_version == base_contract.schema_version,
                self.kv_len == base_contract.shape.kv_len,
                self.segment_size != 0,
            decreases self.assignments@.len() - index,
        {
            let assignment = self.assignments[index];
            if assignment.segment_index != index {
                proof {
                    lemma_scan_stop(index as int, self.assignments@.len() as int, check);
                }
                return Err(
                    DalucTierRoutingError::MalformedPlan(
                        "assignments are not in canonical segment order",
                    ),
                );
            }
            proof {
                lemma_segment_bounds_ok(self.kv_len, self.segment_size, index as int);
            }
            let (start, end) = segment_bounds(self.kv_len, self.segment_size, index).unwrap();
            if assignment.start_token != start || assignment.end_token_exclusive != end {
                proof {
                    lemma_scan_stop(index as int, self.assignments@.len() as int, check);
                }
                return Err(
                    DalucTierRoutingError::MalformedPlan("assignment token bounds are not canonical"),
                );
            }
            if !tier_is_known(tiers, assignment.tier_id) {
                proof {
                    lemma_scan_stop(index as int, self.assignments@.len() as int, check);
                }
                return Err(
                    DalucTierRoutingError::MalformedPlan("assignment references unknown tier"),
                );
            }
            index += 1;
        }
        Ok(())
    }

    /// Return every representation change required to move from `previous` to
    /// this plan. The caller must apply these transitions explicitly; this
    /// method never mutates payloads or cache state.
    pub fn transitions_from(&self, previous: &Self) -> (r: Result<
        Vec<DalucTierTransition>,
        DalucTierRoutingError,
    >)
        ensures
            match transitions_rule(*self, *previous) {
                Ok(expected) => r is Ok && r->Ok_0@ == expected,
                Err(e) => r == Err::<Vec<DalucTierTransition>, DalucTierRoutingError>(e),
            },
    {
        if self.routing_version != previous.routing_version {
            return Err(DalucTierRoutingError::IncompatiblePlans("routing versions differ"));
        }
        if self.kv_view_schema_version != previous.kv_view_schema_version {
            return Err(DalucTierRoutingError::IncompatiblePlans("KV view schema versions differ"));
        }
        if self.kv_len != previous.kv_len || self.segment_size != previous.segment_size {
            return Err(DalucTierRoutingError::IncompatiblePlans("logical segmentation differs"));
        }
        if self.assignments.len() != previous.assignments.len() {
            return Err(DalucTierRoutingError::IncompatiblePlans("assignment counts differ"));
        }
        let mut transitions: Vec<DalucTierTransition> = Vec::new();
        let mut index: usize = 0;
        while index < self.assignments.len()
            invariant
                index <= self.assignments@.len(),
                self.assignments@.len() == previous.assignments@.len(),
                self.routing_version == previous.routing_version,
                self.kv_view_schema_version == previous.kv_view_schema_version,
                self.kv_len == previous.kv_len,
                self.segment_size == previous.segment_size,
                forall|i: int|
                    0 <= i < index ==> same_segment(
                        #[trigger] self.assignments@[i],
                        previous.assignments@[i],
                    ),
                transitions@ == transitions_prefix(
                    self.assignments@,
                    previous.assignments@,
                    index as int,
                ),
            decreases self.assignments@.len() - index,
        {
            let next = self.assignments[index];
            let prior = previous.assignments[index];
            if next.segment_index != prior.segment_index || next.start_token != prior.start_token
                || next.end_token_exclusive != prior.end_token_exclusive {
                proof {
                    assert(!same_segment(self.assignments@[index as int], previous.assignments@[index as int]));
                }
                return Err(DalucTierRoutingError::IncompatiblePlans("canonical segment bounds differ"));
            }
            if next.tier_id.0 != prior.tier_id.0 {
                transitions.push(
                    DalucTierTransition {
                        segment_index: next.segment_index,
                        start_token: next.start_token,
                        end_token_exclusive: next.end_token_exclusive,
                        from_tier: prior.tier_id,
                        to_tier: next.tier_id,
                    },
                );
            }
            index += 1;
        }
        Ok(transitions)
    }
}

// ---------------------------------------------------------------------------
// Laws.
// ---------------------------------------------------------------------------

/// Every plan that routing produces from validated inputs and a ranking that
/// names each segment once passes `validate_against` for the same base
/// contract and tier catalog.
pub proof fn lemma_routed_plan_validates(
    plan: DalucTierRoutingPlan,
    base: DalucKvViewContract,
    segment_size: usize,
    tiers: Seq<DalucPrecisionTier>,
    quotas: Seq<DalucTierQuota>,
    policy: DalucTierRoutingPolicy,
    ranking: Seq<usize>,
)
    requires
        inputs_rule(base, segment_size, tiers, quotas) is Ok,
        ranking.len() == inputs_rule(base, segment_size, tiers, quotas)->Ok_0,
        !ranking_defective(ranking, inputs_rule(base, segment_size, tiers, quotas)->Ok_0),
        plan_follows_ranking(
            plan,
            base,
            segment_size,
            tiers,
            quotas,
            policy,
            inputs_rule(base, segment_size, tiers, quotas)->Ok_0,
            ranking,
        ),
    ensures
        plan_rule(plan, base, tiers) == Ok::<(), DalucTierRoutingError>(()),
{
    let count = inputs_rule(base, segment_size, tiers, quotas)->Ok_0;
    lemma_inputs_facts(base, segment_size, tiers, quotas);
    let check = assignment_checks(plan, tiers);
    assert forall|i: int| 0 <= i < plan.assignments@.len() implies #[trigger] check(i) is Ok by {
        lemma_ranking_covers(ranking, count, i);
        lemma_segment_bounds_ok(base.shape.kv_len, segment_size, i);
        let p = choose|p: int| 0 <= p < count && ranking[p] == i;
        let k = lemma_position_has_tier(tiers, quotas, tiers.len() as int, p);
        assert(plan.assignments@[ranking[p] as int].tier_id == tiers[k].id);
        assert(plan.assignments@[i] == canonical_assignment(
            base.shape.kv_len,
            segment_size,
            i,
            plan.assignments@[i].tier_id,
        ));
        assert(tier_known(tiers, plan.assignments@[i].tier_id));
    }
    lemma_scan_ok(plan.assignments@.len() as int, check);
}

/// Comparing a plan with itself yields no transition.
pub proof fn lemma_transitions_from_self_is_empty(plan: DalucTierRoutingPlan)
    ensures
        transitions_rule(plan, plan) == Ok::<Seq<DalucTierTransition>, DalucTierRoutingError>(
            Seq::empty(),
        ),
{
    lemma_transitions_prefix_same(plan.assignments@, plan.assignments@.len() as int);
}

proof fn lemma_transitions_prefix_same(a: Seq<DalucTierAssignment>, n: int)
    ensures
        transitions_prefix(a, a, n) == Seq::<DalucTierTransition>::empty(),
    decreases n,
{
    if n > 0 {
        lemma_transitions_prefix_same(a, n - 1);
    }
}

} // verus!
