//! Boolean front-end routing before numerical K/V staging.
//!
//! The router consumes only Boolean Q/K signatures and yields one admission
//! flag per candidate block. A plan carries the exact `u32` words a device
//! kernel reads together with the CPU Hamming oracle; parity evidence compares
//! a device readback with that oracle and retains both candidate sets.
use crate::boolean_attention::{
    admission_rule, admitted_indices, hamming, BooleanAttentionMask, BooleanAttentionMaskError,
    BooleanAttentionSignature, BooleanAttentionSignatureError, HammingAdmissionRule,
};
use crate::canonical_text::{
    bool_text, decimal, hex16, json_array, push_bool, push_decimal, push_hex16, push_text,
    push_u32_array, push_usize_array, u32s_as_nats, usizes_as_nats,
};
use crate::fingerprint::{fnv1a64, fnv1a64_spec};
use vstd::prelude::*;
use vstd::utf8::encode_utf8;

verus! {

/// Threads per router workgroup; each thread decides one candidate block.
pub const ROUTER_WORKGROUP_SIZE: u32 = 64;

/// Checked launch of one router pass: workgroups along x and the uniform
/// parameter words (key count, words per signature, maximum distance, zero).
#[derive(Debug, Clone, Copy, PartialEq, Eq)]
pub struct BooleanRouterDispatch {
    pub workgroups: u32,
    pub params: [u32; 4],
}

/// Canonical research-only parity record schema.
pub const BOOLEAN_KV_WGPU_PARITY_SCHEMA: &'static str = "flat.boolean-kv-wgpu-parity.v1";

/// Fail-closed validation or WGPU pipeline error for Boolean routing.
#[derive(Debug, Clone, PartialEq, Eq)]
#[non_exhaustive]
pub enum WgpuBooleanRouterError {
    ZeroKeys,
    Signature(BooleanAttentionSignatureError),
    Mask(BooleanAttentionMaskError),
    ArithmeticOverflow,
    IndexSpaceExceeded { value: usize },
    BufferTooSmall { binding: &'static str, required_bytes: u64, actual_bytes: u64 },
    DispatchLimit { required: u32, maximum: u32 },
    Pipeline(String),
}

/// The low and high `u32` halves of each word, low half first.
pub open spec fn split_words(words: Seq<u64>) -> Seq<u32> {
    Seq::new(
        2 * words.len(),
        |j: int|
            if j % 2 == 0 {
                (words[j / 2] % 0x1_0000_0000) as u32
            } else {
                (words[j / 2] / 0x1_0000_0000) as u32
            },
    )
}

/// The split words of the first `n` keys, one key after another.
pub open spec fn key_words_prefix(keys: Seq<BooleanAttentionSignature>, n: int) -> Seq<u32>
    decreases n,
{
    if n <= 0 {
        Seq::empty()
    } else {
        key_words_prefix(keys, n - 1) + split_words(keys[n - 1].spec_words())
    }
}

/// The first key among the first `n` that the rule cannot compare with the query.
pub open spec fn first_rejected_key(
    rule: HammingAdmissionRule,
    query: BooleanAttentionSignature,
    keys: Seq<BooleanAttentionSignature>,
    n: int,
) -> Option<BooleanAttentionSignatureError>
    decreases n,
{
    if n <= 0 {
        None
    } else {
        match first_rejected_key(rule, query, keys, n - 1) {
            Some(e) => Some(e),
            None => match admission_rule(rule, query, keys[n - 1]) {
                Err(e) => Some(e),
                Ok(_) => None,
            },
        }
    }
}

/// Why no plan exists for these inputs, first failure first.
pub open spec fn router_plan_rule(
    query: BooleanAttentionSignature,
    keys: Seq<BooleanAttentionSignature>,
    rule: HammingAdmissionRule,
) -> Result<(), WgpuBooleanRouterError> {
    let query_words = 2 * query.spec_words().len();
    if keys.len() == 0 {
        Err(WgpuBooleanRouterError::ZeroKeys)
    } else if query_words > u32::MAX {
        Err(WgpuBooleanRouterError::IndexSpaceExceeded { value: query_words as usize })
    } else if keys.len() > u32::MAX {
        Err(WgpuBooleanRouterError::IndexSpaceExceeded { value: keys.len() as usize })
    } else if rule.max_distance > u32::MAX {
        Err(WgpuBooleanRouterError::IndexSpaceExceeded { value: rule.max_distance })
    } else if query_words * keys.len() > usize::MAX {
        Err(WgpuBooleanRouterError::ArithmeticOverflow)
    } else {
        match first_rejected_key(rule, query, keys, keys.len() as int) {
            Some(e) => Err(WgpuBooleanRouterError::Signature(e)),
            None => Ok(()),
        }
    }
}

/// The oracle admission of every key: Hamming distance at most the threshold.
pub open spec fn oracle_admissions(
    query: BooleanAttentionSignature,
    keys: Seq<BooleanAttentionSignature>,
    rule: HammingAdmissionRule,
) -> Seq<bool> {
    Seq::new(
        keys.len(),
        |i: int| hamming(query.spec_words(), keys[i].spec_words()) <= rule.max_distance,
    )
}

/// Validated Boolean-only routing plan. No numerical K/V storage is referenced.
#[derive(Debug, Clone, PartialEq, Eq)]
pub struct BooleanWgpuRouterPlan {
    query_words: Vec<u32>,
    key_words: Vec<u32>,
    oracle_mask: BooleanAttentionMask,
    signature_bits: usize,
    key_count: u32,
    words_per_signature: u32,
    max_distance: u32,
}

/// Split each `u64` word into its low and high `u32` halves.
fn split_u64_words(words: &[u64]) -> (packed: Vec<u32>)
    ensures
        packed@ == split_words(words@),
{
    let mut packed: Vec<u32> = Vec::new();
    let mut i: usize = 0;
    while i < words.len()
        invariant
            i <= words@.len(),
            packed@ == split_words(words@.subrange(0, i as int)),
        decreases words@.len() - i,
    {
        let word = words[i];
        let low = (word & 0xffff_ffff) as u32;
        let high = (word >> 32u64) as u32;
        proof {
            assert(word & 0xffff_ffff == word % 0x1_0000_0000) by (bit_vector);
            assert(word >> 32u64 == word / 0x1_0000_0000) by (bit_vector);
        }
        let ghost before = packed@;
        packed.push(low);
        packed.push(high);
        proof {
            assert(packed@ =~= split_words(words@.subrange(0, i + 1)));
        }
        i += 1;
    }
    proof {
        assert(words@.subrange(0, words@.len() as int) =~= words@);
    }
    packed
}

impl BooleanWgpuRouterPlan {
    pub closed spec fn spec_query_words(self) -> Seq<u32> {
        self.query_words@
    }

    pub closed spec fn spec_key_words(self) -> Seq<u32> {
        self.key_words@
    }

    pub closed spec fn spec_oracle_mask(self) -> BooleanAttentionMask {
        self.oracle_mask
    }

    pub closed spec fn spec_signature_bits(self) -> usize {
        self.signature_bits
    }

    pub closed spec fn spec_key_count(self) -> u32 {
        self.key_count
    }

    pub closed spec fn spec_words_per_signature(self) -> u32 {
        self.words_per_signature
    }

    pub closed spec fn spec_max_distance(self) -> u32 {
        self.max_distance
    }

    /// Build the `u32` representation a device kernel reads and the exact CPU
    /// oracle.
    ///
    /// Portable WGSL storage integers are `u32`, so each canonical `u64` word
    /// is split into low/high `u32` halves without changing its byte count.
    /// Canonical zero tail bits guarantee that padding cannot affect the
    /// Hamming result.
    ///
    /// Rejects an empty key set, mismatched signature widths, address-space
    /// overflow, or a key the rule cannot compare with the query.
    pub fn new(
        query: &BooleanAttentionSignature,
        keys: &[BooleanAttentionSignature],
        rule: HammingAdmissionRule,
    ) -> (r: Result<Self, WgpuBooleanRouterError>)
        ensures
            match router_plan_rule(*query, keys@, rule) {
                Err(e) => r == Err::<Self, WgpuBooleanRouterError>(e),
                Ok(()) => r matches Ok(plan) && {
                    &&& plan.spec_query_words() == split_words(query.spec_words())
                    &&& plan.spec_key_words() == key_words_prefix(keys@, keys@.len() as int)
                    &&& plan.spec_oracle_mask().spec_admissions() == oracle_admissions(
                        *query,
                        keys@,
                        rule,
                    )
                    &&& plan.spec_signature_bits() == query.spec_bits()
                    &&& plan.spec_key_count() == keys@.len()
                    &&& plan.spec_words_per_signature() == 2 * query.spec_words().len()
                    &&& plan.spec_max_distance() == rule.max_distance
                },
            },
    {
        if keys.len() == 0 {
            return Err(WgpuBooleanRouterError::ZeroKeys);
        }
        let query_words = split_u64_words(query.words());
        if query_words.len() > 0xffff_ffff {
            return Err(WgpuBooleanRouterError::IndexSpaceExceeded { value: query_words.len() });
        }
        let words_per_signature = query_words.len() as u32;
        if keys.len() > 0xffff_ffff {
            return Err(WgpuBooleanRouterError::IndexSpaceExceeded { value: keys.len() });
        }
        let key_count = keys.len() as u32;
        if rule.max_distance > 0xffff_ffff {
            return Err(WgpuBooleanRouterError::IndexSpaceExceeded { value: rule.max_distance });
        }
        let max_distance = rule.max_distance as u32;
        if query_words.len().checked_mul(keys.len()).is_none() {
            return Err(WgpuBooleanRouterError::ArithmeticOverflow);
        }
        let mut key_words: Vec<u32> = Vec::new();
        let mut admissions: Vec<bool> = Vec::new();
        let mut i: usize = 0;
        while i < keys.len()
            invariant
                i <= keys@.len(),
                keys@.len() > 0,
                query_words@ == split_words(query.spec_words()),
                query_words@.len() <= u32::MAX,
                keys@.len() <= u32::MAX,
                rule.max_distance <= u32::MAX,
                query_words@.len() * keys@.len() <= usize::MAX,
                first_rejected_key(rule, *query, keys@, i as int) is None,
                key_words@ == key_words_prefix(keys@, i as int),
                admissions@ == oracle_admissions(*query, keys@, rule).subrange(0, i as int),
            decreases keys@.len() - i,
        {
            let admitted = match rule.admits(query, &keys[i]) {
                Ok(admitted) => admitted,
                Err(error) => {
                    proof {
                        lemma_first_rejected_stops(rule, *query, keys@, i as int, keys@.len() as int);
                    }
                    return Err(WgpuBooleanRouterError::Signature(error));
                },
            };
            admissions.push(admitted);
            let split = split_u64_words(keys[i].words());
            let mut j: usize = 0;
            let ghost start = key_words@;
            while j < split.len()
                invariant
                    j <= split@.len(),
                    key_words@ == start + split@.subrange(0, j as int),
                decreases split@.len() - j,
            {
                key_words.push(split[j]);
                j += 1;
                proof {
                    assert(key_words@ =~= start + split@.subrange(0, j as int));
                }
            }
            proof {
                assert(split@.subrange(0, split@.len() as int) =~= split@);
                assert(admissions@ =~= oracle_admissions(*query, keys@, rule).subrange(
                    0,
                    i + 1,
                ));
            }
            i += 1;
        }
        proof {
            assert(admissions@ =~= oracle_admissions(*query, keys@, rule));
        }
        let oracle_mask = match BooleanAttentionMask::from_admissions(admissions.as_slice()) {
            Ok(mask) => mask,
            Err(error) => return Err(WgpuBooleanRouterError::Mask(error)),
        };
        Ok(
            Self {
                query_words,
                key_words,
                oracle_mask,
                signature_bits: query.bits(),
                key_count,
                words_per_signature,
                max_distance,
            },
        )
    }

    pub fn query_words(&self) -> (words: &[u32])
        ensures
            words@ == self.spec_query_words(),
    {
        self.query_words.as_slice()
    }

    pub fn key_words(&self) -> (words: &[u32])
        ensures
            words@ == self.spec_key_words(),
    {
        self.key_words.as_slice()
    }

    pub fn signature_bits(&self) -> (bits: usize)
        ensures
            bits == self.spec_signature_bits(),
    {
        self.signature_bits
    }

    pub fn key_count(&self) -> (count: u32)
        ensures
            count == self.spec_key_count(),
    {
        self.key_count
    }

    pub fn words_per_signature(&self) -> (words: u32)
        ensures
            words == self.spec_words_per_signature(),
    {
        self.words_per_signature
    }

    pub fn max_distance(&self) -> (distance: u32)
        ensures
            distance == self.spec_max_distance(),
    {
        self.max_distance
    }

    pub fn oracle_mask(&self) -> (mask: &BooleanAttentionMask)
        ensures
            *mask == self.spec_oracle_mask(),
    {
        &self.oracle_mask
    }
}

/// Bytes of `elements` `u32` words, or the overflow of that size.
pub open spec fn word_bytes_rule(elements: int) -> Result<u64, WgpuBooleanRouterError> {
    if elements * 4 > usize::MAX {
        Err(WgpuBooleanRouterError::ArithmeticOverflow)
    } else {
        Ok((elements * 4) as u64)
    }
}

/// A bound buffer of `actual` bytes must hold the `required` bytes.
pub open spec fn router_buffer_rule(
    binding: &'static str,
    actual: u64,
    required: Result<u64, WgpuBooleanRouterError>,
) -> Result<(), WgpuBooleanRouterError> {
    match required {
        Err(e) => Err(e),
        Ok(bytes) => if actual < bytes {
            Err(
                WgpuBooleanRouterError::BufferTooSmall {
                    binding,
                    required_bytes: bytes,
                    actual_bytes: actual,
                },
            )
        } else {
            Ok(())
        },
    }
}

/// The router pass over `plan`: the query, key and admission buffers must
/// hold the plan's words and one flag per key, and one thread per key must
/// fit the device's workgroup limit.
pub open spec fn router_dispatch_rule(
    plan: BooleanWgpuRouterPlan,
    query_bytes: u64,
    key_bytes: u64,
    admission_bytes: u64,
    max_workgroups: u32,
) -> Result<u32, WgpuBooleanRouterError> {
    let query = router_buffer_rule("query", query_bytes, word_bytes_rule(plan.spec_query_words().len() as int));
    let keys = router_buffer_rule("keys", key_bytes, word_bytes_rule(plan.spec_key_words().len() as int));
    let admissions = router_buffer_rule(
        "admissions",
        admission_bytes,
        word_bytes_rule(plan.spec_key_count() as int),
    );
    let workgroups = (plan.spec_key_count() + ROUTER_WORKGROUP_SIZE - 1) / (ROUTER_WORKGROUP_SIZE as int);
    if query is Err {
        Err(query->Err_0)
    } else if keys is Err {
        Err(keys->Err_0)
    } else if admissions is Err {
        Err(admissions->Err_0)
    } else if workgroups > max_workgroups {
        Err(WgpuBooleanRouterError::DispatchLimit { required: workgroups as u32, maximum: max_workgroups })
    } else {
        Ok(workgroups as u32)
    }
}

fn word_bytes(elements: usize) -> (r: Result<u64, WgpuBooleanRouterError>)
    ensures
        r == word_bytes_rule(elements as int),
{
    match elements.checked_mul(4) {
        Some(bytes) => Ok(bytes as u64),
        None => Err(WgpuBooleanRouterError::ArithmeticOverflow),
    }
}

fn check_router_buffer(binding: &'static str, actual: u64, elements: usize) -> (r: Result<
    (),
    WgpuBooleanRouterError,
>)
    ensures
        r == router_buffer_rule(binding, actual, word_bytes_rule(elements as int)),
{
    let required = word_bytes(elements)?;
    if actual < required {
        return Err(
            WgpuBooleanRouterError::BufferTooSmall { binding, required_bytes: required, actual_bytes: actual },
        );
    }
    Ok(())
}

/// Check the buffers and workgroup count of one router pass over `plan` and
/// give its launch: the buffer sizes are those of the bound query, key and
/// admission buffers, and `max_workgroups` the device's per-dimension limit.
pub fn plan_router_dispatch(
    plan: &BooleanWgpuRouterPlan,
    query_bytes: u64,
    key_bytes: u64,
    admission_bytes: u64,
    max_workgroups: u32,
) -> (r: Result<BooleanRouterDispatch, WgpuBooleanRouterError>)
    ensures
        match router_dispatch_rule(*plan, query_bytes, key_bytes, admission_bytes, max_workgroups) {
            Err(e) => r == Err::<BooleanRouterDispatch, WgpuBooleanRouterError>(e),
            Ok(workgroups) => r matches Ok(d) && d.workgroups == workgroups && d.params@ == seq![
                plan.spec_key_count(),
                plan.spec_words_per_signature(),
                plan.spec_max_distance(),
                0u32,
            ],
        },
{
    check_router_buffer("query", query_bytes, plan.query_words.len())?;
    check_router_buffer("keys", key_bytes, plan.key_words.len())?;
    check_router_buffer("admissions", admission_bytes, plan.key_count as usize)?;
    let workgroups = plan.key_count / ROUTER_WORKGROUP_SIZE + if plan.key_count % ROUTER_WORKGROUP_SIZE
        == 0 {
        0
    } else {
        1
    };
    assert(workgroups == (plan.key_count + ROUTER_WORKGROUP_SIZE - 1) / (ROUTER_WORKGROUP_SIZE as int));
    if workgroups > max_workgroups {
        return Err(WgpuBooleanRouterError::DispatchLimit { required: workgroups, maximum: max_workgroups });
    }
    let params = [plan.key_count, plan.words_per_signature, plan.max_distance, 0];
    proof {
        assert(params@ =~= seq![plan.key_count, plan.words_per_signature, plan.max_distance, 0u32]);
    }
    Ok(BooleanRouterDispatch { workgroups, params })
}

proof fn lemma_first_rejected_stops(
    rule: HammingAdmissionRule,
    query: BooleanAttentionSignature,
    keys: Seq<BooleanAttentionSignature>,
    i: int,
    n: int,
)
    requires
        0 <= i < n,
        first_rejected_key(rule, query, keys, i) is None,
        admission_rule(rule, query, keys[i]) is Err,
    ensures
        first_rejected_key(rule, query, keys, n) == Some(admission_rule(rule, query, keys[i])->Err_0),
    decreases n,
{
    if n > i + 1 {
        lemma_first_rejected_stops(rule, query, keys, i, n - 1);
    }
}

/// Fail-closed errors for the Boolean-KV device-vs-CPU parity record.
#[derive(Debug, Clone, PartialEq, Eq)]
#[non_exhaustive]
pub enum BooleanKvWgpuParityError {
    AdmissionCountMismatch { expected: usize, actual: usize },
    NonBinaryAdmission { index: usize, value: u32 },
    CandidateSetMismatch { cpu_admitted_blocks: Vec<usize>, wgpu_admitted_blocks: Vec<usize> },
}

/// Exact candidate-set parity evidence for one already executed router plan.
///
/// Construction accepts the actual `u32` admission-buffer readback from the
/// same plan used to encode the device dispatch. It fails closed unless every
/// flag is binary. The complete device candidate set is retained alongside the
/// deterministic CPU Hamming oracle even when they differ, so a negative parity
/// result cannot disappear. `require_exact_match()` is the fail-closed gate
/// before any performance comparison. The record binds the signature geometry,
/// threshold and exact packed input words and contains no timing field.
#[derive(Debug, Clone, PartialEq, Eq)]
pub struct BooleanKvWgpuParityEvidence {
    signature_bits: usize,
    words_per_signature: u32,
    max_distance: u32,
    key_count: u32,
    query_words: Vec<u32>,
    key_words: Vec<u32>,
    cpu_admitted_blocks: Vec<usize>,
    wgpu_admitted_blocks: Vec<usize>,
    exact_candidate_set_match: bool,
}

/// Indices among the first `n` readback flags that equal one, in order.
pub open spec fn flagged_prefix(flags: Seq<u32>, n: int) -> Seq<usize>
    decreases n,
{
    if n <= 0 {
        Seq::empty()
    } else if flags[n - 1] == 1 {
        flagged_prefix(flags, n - 1).push((n - 1) as usize)
    } else {
        flagged_prefix(flags, n - 1)
    }
}

/// The first of the first `n` readback flags that is neither zero nor one.
pub open spec fn first_non_binary(flags: Seq<u32>, n: int) -> Option<int>
    decreases n,
{
    if n <= 0 {
        None
    } else {
        match first_non_binary(flags, n - 1) {
            Some(i) => Some(i),
            None => if flags[n - 1] > 1 {
                Some(n - 1)
            } else {
                None
            },
        }
    }
}

/// The record up to, not including, its closing brace and checksum.
pub open spec fn parity_record_body(e: BooleanKvWgpuParityEvidence) -> Seq<char> {
    "{\"schema\":\""@ + BOOLEAN_KV_WGPU_PARITY_SCHEMA@ + "\",\"signature_bits\":"@ + decimal(
        e.spec_signature_bits() as nat,
    ) + ",\"key_count\":"@ + decimal(e.spec_key_count() as nat) + ",\"words_per_signature\":"@
        + decimal(e.spec_words_per_signature() as nat) + ",\"max_distance\":"@ + decimal(
        e.spec_max_distance() as nat,
    ) + ",\"query_words_u32\":"@ + json_array(u32s_as_nats(e.spec_query_words()))
        + ",\"key_words_u32\":"@ + json_array(u32s_as_nats(e.spec_key_words()))
        + ",\"cpu_admitted_blocks\":"@ + json_array(usizes_as_nats(e.spec_cpu_admitted_blocks()))
        + ",\"wgpu_admitted_blocks\":"@ + json_array(
        usizes_as_nats(e.spec_wgpu_admitted_blocks()),
    ) + ",\"exact_candidate_set_match\":"@ + bool_text(e.spec_exact_candidate_set_match())
}

/// The canonical record: the body, then an FNV-1a-64 checksum of the body's
/// UTF-8 bytes in 16 lowercase hexadecimal digits.
pub open spec fn parity_record(e: BooleanKvWgpuParityEvidence) -> Seq<char> {
    parity_record_body(e) + ",\"parity_checksum\":{\"algorithm\":\"fnv1a64\",\"value\":\""@ + hex16(
        fnv1a64_spec(encode_utf8(parity_record_body(e))),
    ) + "\"}}"@
}

impl BooleanKvWgpuParityEvidence {
    pub closed spec fn spec_signature_bits(self) -> usize {
        self.signature_bits
    }

    pub closed spec fn spec_words_per_signature(self) -> u32 {
        self.words_per_signature
    }

    pub closed spec fn spec_max_distance(self) -> u32 {
        self.max_distance
    }

    pub closed spec fn spec_key_count(self) -> u32 {
        self.key_count
    }

    pub closed spec fn spec_query_words(self) -> Seq<u32> {
        self.query_words@
    }

    pub closed spec fn spec_key_words(self) -> Seq<u32> {
        self.key_words@
    }

    pub closed spec fn spec_cpu_admitted_blocks(self) -> Seq<usize> {
        self.cpu_admitted_blocks@
    }

    pub closed spec fn spec_wgpu_admitted_blocks(self) -> Seq<usize> {
        self.wgpu_admitted_blocks@
    }

    pub closed spec fn spec_exact_candidate_set_match(self) -> bool {
        self.exact_candidate_set_match
    }

    /// Validate a device readback against the exact CPU oracle carried by `plan`.
    pub fn from_readback(plan: &BooleanWgpuRouterPlan, observed_admissions: &[u32]) -> (r: Result<
        Self,
        BooleanKvWgpuParityError,
    >)
        ensures
            observed_admissions@.len() != plan.spec_key_count() ==> r == Err::<
                Self,
                BooleanKvWgpuParityError,
            >(
                BooleanKvWgpuParityError::AdmissionCountMismatch {
                    expected: plan.spec_key_count() as usize,
                    actual: observed_admissions@.len() as usize,
                },
            ),
            observed_admissions@.len() == plan.spec_key_count() ==> match first_non_binary(
                observed_admissions@,
                observed_admissions@.len() as int,
            ) {
                Some(i) => r == Err::<Self, BooleanKvWgpuParityError>(
                    BooleanKvWgpuParityError::NonBinaryAdmission {
                        index: i as usize,
                        value: observed_admissions@[i],
                    },
                ),
                None => r matches Ok(e) && {
                    let cpu = admitted_indices(plan.spec_oracle_mask().spec_admissions());
                    let device = flagged_prefix(
                        observed_admissions@,
                        observed_admissions@.len() as int,
                    );
                    &&& e.spec_signature_bits() == plan.spec_signature_bits()
                    &&& e.spec_words_per_signature() == plan.spec_words_per_signature()
                    &&& e.spec_max_distance() == plan.spec_max_distance()
                    &&& e.spec_key_count() == plan.spec_key_count()
                    &&& e.spec_query_words() == plan.spec_query_words()
                    &&& e.spec_key_words() == plan.spec_key_words()
                    &&& e.spec_cpu_admitted_blocks() == cpu
                    &&& e.spec_wgpu_admitted_blocks() == device
                    &&& e.spec_exact_candidate_set_match() == (device == cpu)
                },
            },
    {
        let expected = plan.key_count as usize;
        if observed_admissions.len() != expected {
            return Err(
                BooleanKvWgpuParityError::AdmissionCountMismatch {
                    expected,
                    actual: observed_admissions.len(),
                },
            );
        }
        let mut wgpu_admitted_blocks: Vec<usize> = Vec::new();
        let mut index: usize = 0;
        while index < observed_admissions.len()
            invariant
                index <= observed_admissions@.len(),
                observed_admissions@.len() == plan.spec_key_count(),
                first_non_binary(observed_admissions@, index as int) is None,
                wgpu_admitted_blocks@ == flagged_prefix(observed_admissions@, index as int),
            decreases observed_admissions@.len() - index,
        {
            let value = observed_admissions[index];
            if value > 1 {
                proof {
                    lemma_first_non_binary_stops(
                        observed_admissions@,
                        index as int,
                        observed_admissions@.len() as int,
                    );
                }
                return Err(BooleanKvWgpuParityError::NonBinaryAdmission { index, value });
            }
            if value == 1 {
                wgpu_admitted_blocks.push(index);
            }
            index += 1;
        }
        let cpu_admitted_blocks = plan.oracle_mask.admitted_blocks();
        let exact_candidate_set_match = same_blocks(&wgpu_admitted_blocks, &cpu_admitted_blocks);
        Ok(
            Self {
                signature_bits: plan.signature_bits,
                words_per_signature: plan.words_per_signature,
                max_distance: plan.max_distance,
                key_count: plan.key_count,
                query_words: copy_words(&plan.query_words),
                key_words: copy_words(&plan.key_words),
                cpu_admitted_blocks,
                wgpu_admitted_blocks,
                exact_candidate_set_match,
            },
        )
    }

    pub fn cpu_admitted_blocks(&self) -> (blocks: &[usize])
        ensures
            blocks@ == self.spec_cpu_admitted_blocks(),
    {
        self.cpu_admitted_blocks.as_slice()
    }

    pub fn wgpu_admitted_blocks(&self) -> (blocks: &[usize])
        ensures
            blocks@ == self.spec_wgpu_admitted_blocks(),
    {
        self.wgpu_admitted_blocks.as_slice()
    }

    pub fn exact_candidate_set_match(&self) -> (exact: bool)
        ensures
            exact == self.spec_exact_candidate_set_match(),
    {
        self.exact_candidate_set_match
    }

    /// Fail closed before any CPU-vs-device performance comparison.
    pub fn require_exact_match(&self) -> (r: Result<(), BooleanKvWgpuParityError>)
        ensures
            self.spec_exact_candidate_set_match() ==> r == Ok::<(), BooleanKvWgpuParityError>(()),
            !self.spec_exact_candidate_set_match() ==> (r matches Err(
                BooleanKvWgpuParityError::CandidateSetMismatch {
                    cpu_admitted_blocks,
                    wgpu_admitted_blocks,
                },
            ) && cpu_admitted_blocks@ == self.spec_cpu_admitted_blocks() && wgpu_admitted_blocks@
                == self.spec_wgpu_admitted_blocks()),
    {
        if self.exact_candidate_set_match {
            Ok(())
        } else {
            Err(
                BooleanKvWgpuParityError::CandidateSetMismatch {
                    cpu_admitted_blocks: copy_blocks(&self.cpu_admitted_blocks),
                    wgpu_admitted_blocks: copy_blocks(&self.wgpu_admitted_blocks),
                },
            )
        }
    }

    /// Canonical compact JSON for cross-project retention.
    ///
    /// The trailing FNV-1a checksum detects accidental corruption only. It is
    /// not cryptographic attestation and must not be used as proof of device
    /// identity or trustworthy execution.
    pub fn canonical_json(&self) -> (json: String)
        ensures
            json@ == parity_record(*self),
    {
        let mut payload = String::new();
        push_text(&mut payload, "{\"schema\":\"");
        push_text(&mut payload, BOOLEAN_KV_WGPU_PARITY_SCHEMA);
        push_text(&mut payload, "\",\"signature_bits\":");
        push_decimal(&mut payload, self.signature_bits as u64);
        push_text(&mut payload, ",\"key_count\":");
        push_decimal(&mut payload, self.key_count as u64);
        push_text(&mut payload, ",\"words_per_signature\":");
        push_decimal(&mut payload, self.words_per_signature as u64);
        push_text(&mut payload, ",\"max_distance\":");
        push_decimal(&mut payload, self.max_distance as u64);
        push_text(&mut payload, ",\"query_words_u32\":");
        push_u32_array(&mut payload, self.query_words.as_slice());
        push_text(&mut payload, ",\"key_words_u32\":");
        push_u32_array(&mut payload, self.key_words.as_slice());
        push_text(&mut payload, ",\"cpu_admitted_blocks\":");
        push_usize_array(&mut payload, self.cpu_admitted_blocks.as_slice());
        push_text(&mut payload, ",\"wgpu_admitted_blocks\":");
        push_usize_array(&mut payload, self.wgpu_admitted_blocks.as_slice());
        push_text(&mut payload, ",\"exact_candidate_set_match\":");
        push_bool(&mut payload, self.exact_candidate_set_match);
        proof {
            assert(payload@ =~= parity_record_body(*self));
        }
        let checksum = fnv1a64(payload.as_str().as_bytes());
        push_text(&mut payload, ",\"parity_checksum\":{\"algorithm\":\"fnv1a64\",\"value\":\"");
        push_hex16(&mut payload, checksum);
        push_text(&mut payload, "\"}}");
        proof {
            assert(payload@ =~= parity_record(*self));
        }
        payload
    }
}

proof fn lemma_first_non_binary_stops(flags: Seq<u32>, i: int, n: int)
    requires
        0 <= i < n,
        first_non_binary(flags, i) is None,
        flags[i] > 1,
    ensures
        first_non_binary(flags, n) == Some(i),
    decreases n,
{
    if n > i + 1 {
        lemma_first_non_binary_stops(flags, i, n - 1);
    }
}

fn same_blocks(a: &Vec<usize>, b: &Vec<usize>) -> (same: bool)
    ensures
        same == (a@ == b@),
{
    if a.len() != b.len() {
        return false;
    }
    let mut i: usize = 0;
    while i < a.len()
        invariant
            a@.len() == b@.len(),
            i <= a@.len(),
            forall|j: int| 0 <= j < i ==> a@[j] == b@[j],
        decreases a@.len() - i,
    {
        if a[i] != b[i] {
            return false;
        }
        i += 1;
    }
    proof {
        assert(a@ =~= b@);
    }
    true
}

fn copy_words(words: &Vec<u32>) -> (copy: Vec<u32>)
    ensures
        copy@ == words@,
{
    let copy = words.clone();
    proof {
        assert(copy@ =~= words@);
    }
    copy
}

fn copy_blocks(blocks: &Vec<usize>) -> (copy: Vec<usize>)
    ensures
        copy@ == blocks@,
{
    let copy = blocks.clone();
    proof {
        assert(copy@ =~= blocks@);
    }
    copy
}

} // verus!
