//! Host-validated geometry of the portable direct-compressed q_len=1 candidate.
//!
//! The candidate supports a narrow DA-LUC subset: F32 codebooks, 8-bit LSB0 K
//! indices, U8 groupwise-affine V with F32 scales and U8 zero points, no sparse
//! residuals, contiguous `BatchHeadToken` planes with zero-filled alignment.
//! Unsupported contracts are rejected before dispatch; a missing capability
//! never authorizes dense conversion or a hidden fallback.
use crate::attention_shape::FlatAttentionError;
use crate::research_da_luc::{
    backend_rule, contract_rule, first_failure, DalucBackendCapabilities, DalucBitOrder,
    DalucCodebookScope,
    DalucFloatDType, DalucKvViewContract, DalucKvViewError, DalucPaddingRule,
    DalucResidualSemantics, DalucRowOrder, DalucStorageTopology, DalucValueRepresentation,
    DalucZeroPointStorage,
};
use crate::research_da_luc_oracle::{
    bytes_for_bits_spec, codebook_elements_rule, DalucOracleError, DalucOraclePlane,
};
use crate::research_da_luc_payload::{
    codebook_elements, float_bits_finite, float_bits_rule, float_is_finite, lemma_valid_contract_facts,
    payload_validation,
    read_float_bits, DalucOraclePayload,
};
use vstd::prelude::*;

verus! {

/// Version of the first portable direct-compressed candidate.
pub const DA_LUC_WGPU_CANDIDATE_VERSION: u16 = 1;

/// Largest key or value head dimension of the portable kernel.
pub const DA_LUC_WGPU_MAX_HEAD_DIM: usize = 128;

/// Largest query-local codebook LUT of the portable kernel's workgroup.
pub const DA_LUC_WGPU_MAX_LUT_ENTRIES: usize = 2048;

/// Typed rejection or device failure of the direct-compressed candidate.
#[derive(Debug)]
#[non_exhaustive]
pub enum DalucWgpuCandidateError {
    Contract(DalucKvViewError),
    Oracle(DalucOracleError),
    Attention(FlatAttentionError),
    UnsupportedCandidate(&'static str),
    QueryLength { expected: usize, actual: usize },
    NonFiniteQuery { index: usize },
    IndexSpaceExceeded(&'static str),
    DispatchLimit { actual: usize, maximum: u32 },
    DeviceBufferLimit { label: &'static str, required_bytes: u64, maximum_bytes: u64 },
    Unavailable,
    Device(String),
    PipelineValidation(String),
    Readback(String),
}

/// Exact host-validated geometry accepted by the candidate.
#[derive(Debug, Clone, Copy, PartialEq)]
pub struct DalucWgpuPlan {
    contract: DalucKvViewContract,
    query_position: usize,
    kv_capacity: usize,
    subspaces: usize,
    groups: usize,
    query_elements: usize,
    output_elements: usize,
    lse_elements: usize,
    scale_bits: u32,
}

/// Capabilities declared by the candidate: deliberately narrower than the
/// contract schema.
pub open spec fn candidate_capabilities() -> DalucBackendCapabilities {
    DalucBackendCapabilities {
        supports_f16: false,
        supports_bf16: false,
        supports_f32: true,
        supports_lsb0: true,
        supports_msb0: false,
        supports_batch_token_head: false,
        supports_batch_head_token: true,
        supports_shared_codebook: true,
        supports_per_kv_head_codebook: true,
        supports_contiguous: true,
        supports_paged: false,
        supports_groupwise_affine_values: true,
        supports_signed_symmetric_values: false,
        supports_u8_zero_points: true,
        supports_u16_zero_points: false,
        supports_sparse_coordinates: false,
        supports_sparse_bitmap: false,
        supports_no_padding: false,
        supports_zero_filled_padding: true,
        minimum_plane_alignment_bytes: 4,
        max_packed_index_bits: 8,
        max_groupwise_value_bits: 8,
    }
}

pub open spec fn unsupported(reason: &'static str) -> Result<(), DalucWgpuCandidateError> {
    Err(DalucWgpuCandidateError::UnsupportedCandidate(reason))
}

/// The value representation the candidate consumes directly.
pub open spec fn direct_values(values: DalucValueRepresentation) -> bool {
    values matches DalucValueRepresentation::GroupwiseAffine {
        storage_bits,
        scale_dtype,
        zero_point,
        bit_order,
        residual,
        ..
    } && storage_bits == 8 && scale_dtype == DalucFloatDType::F32 && zero_point
        == DalucZeroPointStorage::U8 && bit_order == DalucBitOrder::Lsb0 && residual
        == DalucResidualSemantics::NoResidual
}

/// Representation requirements of the candidate, first failure first.
pub open spec fn candidate_encoding_rule(c: DalucKvViewContract) -> Result<
    (),
    DalucWgpuCandidateError,
> {
    if c.keys.codebook_dtype != DalucFloatDType::F32 {
        unsupported("F32 K codebook required")
    } else if c.keys.index_bits != 8 || c.keys.index_bit_order != DalucBitOrder::Lsb0 {
        unsupported("8-bit LSB0 K indices required")
    } else if c.keys.residual != DalucResidualSemantics::NoResidual {
        unsupported("K residuals are not implemented by FDAL3 v1")
    } else if c.layout.row_order != DalucRowOrder::BatchHeadToken {
        unsupported("BatchHeadToken row order required")
    } else if c.layout.padding != DalucPaddingRule::ZeroFilledToAlignment {
        unsupported("zero-filled aligned planes required")
    } else if c.layout.topology is Paged {
        unsupported("paged topology is not implemented by FDAL3 v1")
    } else if c.values is Dense {
        unsupported("dense V is not the direct-compressed FDAL3 v1 candidate")
    } else if !direct_values(c.values) {
        unsupported(
            "FDAL3 v1 V requires U8 LSB0 groupwise affine, F32 scales, U8 zero points, no residual",
        )
    } else if c.shape.key_head_dim > DA_LUC_WGPU_MAX_HEAD_DIM || c.shape.value_head_dim
        > DA_LUC_WGPU_MAX_HEAD_DIM {
        unsupported("key/value head dimension exceeds FDAL3 v1 portable limit")
    } else {
        Ok(())
    }
}

pub open spec fn capacity_of(c: DalucKvViewContract) -> int {
    c.layout.topology->Contiguous_capacity_tokens as int
}

pub open spec fn groups_of(c: DalucKvViewContract) -> int {
    (c.shape.value_head_dim / c.values->GroupwiseAffine_group_size) as int
}

pub open spec fn subspaces_of(c: DalucKvViewContract) -> int {
    (c.shape.key_head_dim / c.keys.subspace_dim) as int
}

pub open spec fn overflow(label: &'static str) -> Result<(), DalucWgpuCandidateError> {
    Err(DalucWgpuCandidateError::Oracle(DalucOracleError::ArithmeticOverflow(label)))
}

pub open spec fn word_rule(label: &'static str, value: int) -> Result<(), DalucWgpuCandidateError> {
    if value > u32::MAX {
        Err(DalucWgpuCandidateError::IndexSpaceExceeded(label))
    } else {
        Ok(())
    }
}

pub open spec fn then(
    first: Result<(), DalucWgpuCandidateError>,
    second: Result<(), DalucWgpuCandidateError>,
) -> Result<(), DalucWgpuCandidateError> {
    if first is Err {
        first
    } else {
        second
    }
}

/// Every check of the candidate plan, in the order the host makes them.
pub open spec fn wgpu_plan_rule(
    c: DalucKvViewContract,
    query_position: usize,
    scale_bits: Result<u32, FlatAttentionError>,
) -> Result<(), DalucWgpuCandidateError> {
    let s = c.shape;
    let backend = first_failure(contract_rule(c), backend_rule(c, candidate_capabilities()));
    if backend is Err {
        Err(DalucWgpuCandidateError::Contract(backend->Err_0))
    } else if candidate_encoding_rule(c) is Err {
        candidate_encoding_rule(c)
    } else if subspaces_of(c) * c.keys.codebook_entries > usize::MAX {
        overflow("FDAL3 LUT entries")
    } else if subspaces_of(c) * c.keys.codebook_entries > DA_LUC_WGPU_MAX_LUT_ENTRIES {
        unsupported("query-local codebook LUT exceeds FDAL3 v1 workgroup budget")
    } else if s.batch * s.q_heads > usize::MAX || s.batch * s.q_heads * s.key_head_dim
        > usize::MAX {
        overflow("FDAL3 query elements")
    } else if s.batch * s.q_heads * s.value_head_dim > usize::MAX {
        overflow("FDAL3 output elements")
    } else if scale_bits is Err {
        Err(DalucWgpuCandidateError::Attention(scale_bits->Err_0))
    } else {
        then(
            word_rule("kv_len", s.kv_len as int),
            then(
                word_rule("kv_capacity", capacity_of(c)),
                then(
                    word_rule("key_head_dim", s.key_head_dim as int),
                    then(
                        word_rule("value_head_dim", s.value_head_dim as int),
                        then(
                            word_rule("q_heads", s.q_heads as int),
                            then(
                                word_rule("kv_heads", s.kv_heads as int),
                                then(
                                    word_rule("batch", s.batch as int),
                                    then(
                                        word_rule("subspace_dim", c.keys.subspace_dim as int),
                                        then(
                                            word_rule(
                                                "codebook_entries",
                                                c.keys.codebook_entries as int,
                                            ),
                                            then(
                                                word_rule("value groups", groups_of(c)),
                                                word_rule("query_position", query_position as int),
                                            ),
                                        ),
                                    ),
                                ),
                            ),
                        ),
                    ),
                ),
            ),
        )
    }
}

/// The value group size of a groupwise V representation.
pub open spec fn group_size_of(c: DalucKvViewContract) -> int {
    match c.values {
        DalucValueRepresentation::GroupwiseAffine { group_size, .. } => group_size as int,
        DalucValueRepresentation::Dense { .. } => 0,
    }
}

/// The sixteen uniform words of one candidate dispatch, as integers; the
/// host narrows each to `u32` in this order.
pub open spec fn dispatch_values(
    c: DalucKvViewContract,
    kv_capacity: usize,
    scale_bits: u32,
    causal: bool,
    query_position: usize,
) -> Seq<int> {
    seq![
        c.shape.kv_len as int,
        kv_capacity as int,
        c.shape.key_head_dim as int,
        c.shape.value_head_dim as int,
        c.shape.q_heads as int,
        c.shape.kv_heads as int,
        c.shape.batch as int,
        c.keys.subspace_dim as int,
        c.keys.codebook_entries as int,
        if c.keys.codebook_scope == DalucCodebookScope::PerKvHead {
            1int
        } else {
            0int
        },
        group_size_of(c),
        scale_bits as int,
        if causal {
            1int
        } else {
            0int
        },
        query_position as int,
        0int,
        0int,
    ]
}

/// Labels under which an oversized uniform value is reported.
pub open spec fn dispatch_labels() -> Seq<&'static str> {
    seq![
        "kv_len",
        "kv_capacity",
        "key_head_dim",
        "value_head_dim",
        "q_heads",
        "kv_heads",
        "batch",
        "subspace_dim",
        "codebook_entries",
        "codebook_scope",
        "value_group_size",
        "scale",
        "causal",
        "query_position",
        "reserved",
        "reserved",
    ]
}

/// Index of the first uniform value at or after `i` that exceeds `u32`.
pub open spec fn first_wide_value(values: Seq<int>, i: int) -> int
    decreases values.len() - i,
{
    if i < 0 || i >= values.len() {
        values.len() as int
    } else if values[i] > u32::MAX {
        i
    } else {
        first_wide_value(values, i + 1)
    }
}

impl DalucWgpuPlan {
    pub closed spec fn spec_contract(self) -> DalucKvViewContract {
        self.contract
    }

    pub closed spec fn spec_query_position(self) -> usize {
        self.query_position
    }

    pub closed spec fn spec_kv_capacity(self) -> usize {
        self.kv_capacity
    }

    pub closed spec fn spec_subspaces(self) -> usize {
        self.subspaces
    }

    pub closed spec fn spec_groups(self) -> usize {
        self.groups
    }

    pub closed spec fn spec_query_elements(self) -> usize {
        self.query_elements
    }

    pub closed spec fn spec_output_elements(self) -> usize {
        self.output_elements
    }

    pub closed spec fn spec_lse_elements(self) -> usize {
        self.lse_elements
    }

    pub closed spec fn spec_scale_bits(self) -> u32 {
        self.scale_bits
    }

    /// Capabilities declared by this exact candidate revision.
    ///
    /// Missing capability means rejection and never authorizes dense
    /// conversion or a hidden fallback.
    pub fn backend_capabilities() -> (caps: DalucBackendCapabilities)
        ensures
            caps == candidate_capabilities(),
    {
        DalucBackendCapabilities {
            supports_f16: false,
            supports_bf16: false,
            supports_f32: true,
            supports_lsb0: true,
            supports_msb0: false,
            supports_batch_token_head: false,
            supports_batch_head_token: true,
            supports_shared_codebook: true,
            supports_per_kv_head_codebook: true,
            supports_contiguous: true,
            supports_paged: false,
            supports_groupwise_affine_values: true,
            supports_signed_symmetric_values: false,
            supports_u8_zero_points: true,
            supports_u16_zero_points: false,
            supports_sparse_coordinates: false,
            supports_sparse_bitmap: false,
            supports_no_padding: false,
            supports_zero_filled_padding: true,
            minimum_plane_alignment_bytes: 4,
            max_packed_index_bits: 8,
            max_groupwise_value_bits: 8,
        }
    }

    /// Validate that a DA-LUC contract is exactly representable by the
    /// candidate for a query at `query_position`. `scale_bits` is the outcome
    /// of resolving the softmax scale for the key head dimension, as `f32` bits.
    pub fn new(
        contract: DalucKvViewContract,
        query_position: usize,
        scale_bits: Result<u32, FlatAttentionError>,
    ) -> (r: Result<Self, DalucWgpuCandidateError>)
        ensures
            match wgpu_plan_rule(contract, query_position, scale_bits) {
                Err(e) => r == Err::<Self, DalucWgpuCandidateError>(e),
                Ok(()) => r matches Ok(plan) && {
                    let s = contract.shape;
                    &&& plan.spec_contract() == contract
                    &&& plan.spec_query_position() == query_position
                    &&& plan.spec_kv_capacity() == capacity_of(contract)
                    &&& plan.spec_subspaces() == subspaces_of(contract)
                    &&& plan.spec_groups() == groups_of(contract)
                    &&& plan.spec_query_elements() == s.batch * s.q_heads * s.key_head_dim
                    &&& plan.spec_output_elements() == s.batch * s.q_heads * s.value_head_dim
                    &&& plan.spec_lse_elements() == s.batch * s.q_heads
                    &&& plan.spec_scale_bits() == scale_bits->Ok_0
                },
            },
    {
        match contract.validate_for_backend(Self::backend_capabilities()) {
            Ok(()) => {},
            Err(error) => return Err(DalucWgpuCandidateError::Contract(error)),
        }
        let unsupported = |reason: &'static str| -> (e: DalucWgpuCandidateError)
            ensures
                e == DalucWgpuCandidateError::UnsupportedCandidate(reason),
            { DalucWgpuCandidateError::UnsupportedCandidate(reason) };
        match contract.keys.codebook_dtype {
            DalucFloatDType::F32 => {},
            _ => return Err(unsupported("F32 K codebook required")),
        }
        let lsb0_indices = match contract.keys.index_bit_order {
            DalucBitOrder::Lsb0 => true,
            DalucBitOrder::Msb0 => false,
        };
        if contract.keys.index_bits != 8 || !lsb0_indices {
            return Err(unsupported("8-bit LSB0 K indices required"));
        }
        match contract.keys.residual {
            DalucResidualSemantics::NoResidual => {},
            _ => return Err(unsupported("K residuals are not implemented by FDAL3 v1")),
        }
        match contract.layout.row_order {
            DalucRowOrder::BatchHeadToken => {},
            _ => return Err(unsupported("BatchHeadToken row order required")),
        }
        match contract.layout.padding {
            DalucPaddingRule::ZeroFilledToAlignment => {},
            _ => return Err(unsupported("zero-filled aligned planes required")),
        }
        let kv_capacity = match contract.layout.topology {
            DalucStorageTopology::Contiguous { capacity_tokens } => capacity_tokens,
            DalucStorageTopology::Paged { .. } => {
                return Err(unsupported("paged topology is not implemented by FDAL3 v1"));
            },
        };
        let group_size = match contract.values {
            DalucValueRepresentation::GroupwiseAffine {
                storage_bits,
                group_size,
                scale_dtype,
                zero_point,
                bit_order,
                residual,
            } => {
                let direct = storage_bits == 8 && (match scale_dtype {
                    DalucFloatDType::F32 => true,
                    _ => false,
                }) && (match zero_point {
                    DalucZeroPointStorage::U8 => true,
                    _ => false,
                }) && (match bit_order {
                    DalucBitOrder::Lsb0 => true,
                    DalucBitOrder::Msb0 => false,
                }) && (match residual {
                    DalucResidualSemantics::NoResidual => true,
                    _ => false,
                });
                if !direct {
                    return Err(
                        unsupported(
                            "FDAL3 v1 V requires U8 LSB0 groupwise affine, F32 scales, U8 zero points, no residual",
                        ),
                    );
                }
                group_size
            },
            DalucValueRepresentation::Dense { .. } => {
                return Err(unsupported("dense V is not the direct-compressed FDAL3 v1 candidate"));
            },
        };
        let shape = contract.shape;
        if shape.key_head_dim > DA_LUC_WGPU_MAX_HEAD_DIM || shape.value_head_dim
            > DA_LUC_WGPU_MAX_HEAD_DIM {
            return Err(unsupported("key/value head dimension exceeds FDAL3 v1 portable limit"));
        }
        let groups = shape.value_head_dim / group_size;
        let subspaces = shape.key_head_dim / contract.keys.subspace_dim;
        let lut_entries = match subspaces.checked_mul(contract.keys.codebook_entries) {
            Some(entries) => entries,
            None => {
                return Err(
                    DalucWgpuCandidateError::Oracle(
                        DalucOracleError::ArithmeticOverflow("FDAL3 LUT entries"),
                    ),
                )
            },
        };
        if lut_entries > DA_LUC_WGPU_MAX_LUT_ENTRIES {
            return Err(unsupported("query-local codebook LUT exceeds FDAL3 v1 workgroup budget"));
        }
        let heads = match shape.batch.checked_mul(shape.q_heads) {
            Some(heads) => heads,
            None => {
                return Err(
                    DalucWgpuCandidateError::Oracle(
                        DalucOracleError::ArithmeticOverflow("FDAL3 query elements"),
                    ),
                )
            },
        };
        let query_elements = match heads.checked_mul(shape.key_head_dim) {
            Some(elements) => elements,
            None => {
                return Err(
                    DalucWgpuCandidateError::Oracle(
                        DalucOracleError::ArithmeticOverflow("FDAL3 query elements"),
                    ),
                )
            },
        };
        let output_elements = match heads.checked_mul(shape.value_head_dim) {
            Some(elements) => elements,
            None => {
                return Err(
                    DalucWgpuCandidateError::Oracle(
                        DalucOracleError::ArithmeticOverflow("FDAL3 output elements"),
                    ),
                )
            },
        };
        let scale = match scale_bits {
            Ok(bits) => bits,
            Err(error) => return Err(DalucWgpuCandidateError::Attention(error)),
        };
        require_word("kv_len", shape.kv_len)?;
        require_word("kv_capacity", kv_capacity)?;
        require_word("key_head_dim", shape.key_head_dim)?;
        require_word("value_head_dim", shape.value_head_dim)?;
        require_word("q_heads", shape.q_heads)?;
        require_word("kv_heads", shape.kv_heads)?;
        require_word("batch", shape.batch)?;
        require_word("subspace_dim", contract.keys.subspace_dim)?;
        require_word("codebook_entries", contract.keys.codebook_entries)?;
        require_word("value groups", groups)?;
        require_word("query_position", query_position)?;
        Ok(
            Self {
                contract,
                query_position,
                kv_capacity,
                subspaces,
                groups,
                query_elements,
                output_elements,
                lse_elements: heads,
                scale_bits: scale,
            },
        )
    }

    pub fn contract(self) -> (contract: DalucKvViewContract)
        ensures
            contract == self.spec_contract(),
    {
        self.contract
    }

    pub fn query_position(self) -> (position: usize)
        ensures
            position == self.spec_query_position(),
    {
        self.query_position
    }

    pub fn query_elements(self) -> (elements: usize)
        ensures
            elements == self.spec_query_elements(),
    {
        self.query_elements
    }

    pub fn output_elements(self) -> (elements: usize)
        ensures
            elements == self.spec_output_elements(),
    {
        self.output_elements
    }

    pub fn lse_elements(self) -> (elements: usize)
        ensures
            elements == self.spec_lse_elements(),
    {
        self.lse_elements
    }

    /// Workgroups of one dispatch (one per batch and query head), checked
    /// against the device's per-dimension limit.
    pub fn workgroups(self, max_workgroups: u32) -> (r: Result<usize, DalucWgpuCandidateError>)
        ensures
            self.spec_lse_elements() > max_workgroups ==> r == Err::<usize, DalucWgpuCandidateError>(
                DalucWgpuCandidateError::DispatchLimit {
                    actual: self.spec_lse_elements(),
                    maximum: max_workgroups,
                },
            ),
            self.spec_lse_elements() <= max_workgroups ==> r == Ok::<usize, DalucWgpuCandidateError>(
                self.spec_lse_elements(),
            ),
    {
        if self.lse_elements > max_workgroups as usize {
            return Err(
                DalucWgpuCandidateError::DispatchLimit {
                    actual: self.lse_elements,
                    maximum: max_workgroups,
                },
            );
        }
        Ok(self.lse_elements)
    }

    /// Bytes of the combined `O|LSE` buffer, which must fit one storage
    /// binding of at most `max_storage_bytes`.
    pub fn output_bytes(self, max_storage_bytes: u64) -> (r: Result<u64, DalucWgpuCandidateError>)
        ensures
            ({
                let combined = self.spec_output_elements() + self.spec_lse_elements();
                if combined > usize::MAX {
                    r == Err::<u64, DalucWgpuCandidateError>(
                        DalucWgpuCandidateError::IndexSpaceExceeded("output elements"),
                    )
                } else if 4 * combined > usize::MAX {
                    r == Err::<u64, DalucWgpuCandidateError>(
                        DalucWgpuCandidateError::IndexSpaceExceeded("output bytes"),
                    )
                } else if 4 * combined > max_storage_bytes {
                    r == Err::<u64, DalucWgpuCandidateError>(
                        DalucWgpuCandidateError::DeviceBufferLimit {
                            label: "O|LSE",
                            required_bytes: (4 * combined) as u64,
                            maximum_bytes: max_storage_bytes,
                        },
                    )
                } else {
                    r == Ok::<u64, DalucWgpuCandidateError>((4 * combined) as u64)
                }
            }),
    {
        let combined = match self.output_elements.checked_add(self.lse_elements) {
            Some(total) => total,
            None => return Err(DalucWgpuCandidateError::IndexSpaceExceeded("output elements")),
        };
        let bytes = match combined.checked_mul(4) {
            Some(bytes) => bytes as u64,
            None => return Err(DalucWgpuCandidateError::IndexSpaceExceeded("output bytes")),
        };
        if bytes > max_storage_bytes {
            return Err(
                DalucWgpuCandidateError::DeviceBufferLimit {
                    label: "O|LSE",
                    required_bytes: bytes,
                    maximum_bytes: max_storage_bytes,
                },
            );
        }
        Ok(bytes)
    }

    /// The sixteen uniform words of one dispatch; the first value that does
    /// not fit in `u32` is reported under its label.
    pub fn dispatch_params(self, causal: bool) -> (r: Result<Vec<u32>, DalucWgpuCandidateError>)
        ensures
            ({
                let values = dispatch_values(
                    self.spec_contract(),
                    self.spec_kv_capacity(),
                    self.spec_scale_bits(),
                    causal,
                    self.spec_query_position(),
                );
                let wide = first_wide_value(values, 0);
                if wide < values.len() {
                    r == Err::<Vec<u32>, DalucWgpuCandidateError>(
                        DalucWgpuCandidateError::IndexSpaceExceeded(dispatch_labels()[wide]),
                    )
                } else {
                    r matches Ok(words) && words@.len() == values.len() && forall|k: int|
                        0 <= k < values.len() ==> #[trigger] words@[k] == values[k]
                }
            }),
    {
        let c = self.contract;
        let group_size: usize = match c.values {
            DalucValueRepresentation::GroupwiseAffine { group_size, .. } => group_size,
            DalucValueRepresentation::Dense { .. } => 0,
        };
        let per_head: usize = match c.keys.codebook_scope {
            DalucCodebookScope::PerKvHead => 1,
            DalucCodebookScope::SharedAcrossKvHeads => 0,
        };
        let mut staged: Vec<usize> = Vec::new();
        staged.push(c.shape.kv_len);
        staged.push(self.kv_capacity);
        staged.push(c.shape.key_head_dim);
        staged.push(c.shape.value_head_dim);
        staged.push(c.shape.q_heads);
        staged.push(c.shape.kv_heads);
        staged.push(c.shape.batch);
        staged.push(c.keys.subspace_dim);
        staged.push(c.keys.codebook_entries);
        staged.push(per_head);
        staged.push(group_size);
        staged.push(self.scale_bits as usize);
        staged.push(if causal { 1usize } else { 0usize });
        staged.push(self.query_position);
        staged.push(0);
        staged.push(0);
        let labels: [&'static str; 16] = [
            "kv_len",
            "kv_capacity",
            "key_head_dim",
            "value_head_dim",
            "q_heads",
            "kv_heads",
            "batch",
            "subspace_dim",
            "codebook_entries",
            "codebook_scope",
            "value_group_size",
            "scale",
            "causal",
            "query_position",
            "reserved",
            "reserved",
        ];
        let ghost values = dispatch_values(
            c,
            self.kv_capacity,
            self.scale_bits,
            causal,
            self.query_position,
        );
        proof {
            assert(staged@.map_values(|v: usize| v as int) =~= values);
            assert(labels@ =~= dispatch_labels());
        }
        let mut words: Vec<u32> = Vec::new();
        let mut k: usize = 0;
        while k < 16
            invariant
                k <= 16,
                values == dispatch_values(
                    self.spec_contract(),
                    self.spec_kv_capacity(),
                    self.spec_scale_bits(),
                    causal,
                    self.spec_query_position(),
                ),
                staged@.len() == 16,
                values.len() == 16,
                labels@ == dispatch_labels(),
                forall|j: int| 0 <= j < 16 ==> #[trigger] values[j] == staged@[j] as int,
                words@.len() == k,
                first_wide_value(values, 0) == first_wide_value(values, k as int),
                forall|j: int| 0 <= j < k ==> #[trigger] words@[j] == values[j],
            decreases 16 - k,
        {
            let value = staged[k];
            if value > 0xffff_ffffusize {
                return Err(DalucWgpuCandidateError::IndexSpaceExceeded(labels[k]));
            }
            words.push(value as u32);
            k = k + 1;
        }
        Ok(words)
    }

    /// The defining property of the candidate: it never asks for a dense K/V
    /// reconstruction before dispatch.
    pub fn materializes_dense_kv(self) -> (dense: bool)
        ensures
            !dense,
    {
        false
    }
}

fn require_word(label: &'static str, value: usize) -> (r: Result<(), DalucWgpuCandidateError>)
    ensures
        r == word_rule(label, value as int),
{
    if value > 0xffff_ffff {
        return Err(DalucWgpuCandidateError::IndexSpaceExceeded(label));
    }
    Ok(())
}

/// Byte `j` of a plane's logical bytes, zero past their end.
pub open spec fn padded_plane_byte(bytes: Seq<u8>, logical: int, j: int) -> int {
    if j < logical {
        bytes[j] as int
    } else {
        0
    }
}

/// Little-endian `u32` word `i` of a plane's logical bytes, zero-padded.
pub open spec fn plane_word(bytes: Seq<u8>, logical: int, i: int) -> int {
    padded_plane_byte(bytes, logical, 4 * i) + 256 * padded_plane_byte(bytes, logical, 4 * i + 1)
        + 65536 * padded_plane_byte(bytes, logical, 4 * i + 2) + 16777216 * padded_plane_byte(
        bytes,
        logical,
        4 * i + 3,
    )
}

/// Number of staged words of `logical` bytes: whole words, at least one.
pub open spec fn plane_word_count(logical: int) -> int {
    if logical == 0 {
        1
    } else {
        (logical + 3) / 4
    }
}

/// Stage a compressed byte plane as `u32` words for a storage buffer: each
/// word holds four consecutive logical bytes, least significant first, the
/// last one zero-padded, and an empty plane still gets one word. Every payload
/// byte is kept exactly; this is word-alignment staging, not dense K/V decode.
pub fn u8_plane_words(plane: &DalucOraclePlane) -> (words: Vec<u32>)
    ensures
        words@.len() == plane_word_count(bytes_for_bits_spec(plane.spec_logical_bits() as int)),
        forall|i: int|
            0 <= i < words@.len() ==> #[trigger] words@[i] as int == plane_word(
                plane.spec_bytes(),
                bytes_for_bits_spec(plane.spec_logical_bits() as int),
                i,
            ),
{
    let logical = plane.logical_bytes();
    let source = plane.bytes();
    let word_count = if logical == 0 {
        1
    } else {
        logical / 4 + if logical % 4 != 0 {
            1usize
        } else {
            0usize
        }
    };
    assert(word_count == plane_word_count(logical as int));
    let mut words: Vec<u32> = Vec::new();
    let mut w: usize = 0;
    while w < word_count
        invariant
            logical == bytes_for_bits_spec(plane.spec_logical_bits() as int),
            source@ == plane.spec_bytes(),
            logical <= source@.len(),
            word_count == plane_word_count(logical as int),
            word_count * 4 <= logical + 4,
            0 <= w <= word_count,
            words@.len() == w,
            forall|i: int|
                0 <= i < w ==> #[trigger] words@[i] as int == plane_word(
                    source@,
                    logical as int,
                    i,
                ),
        decreases word_count - w,
    {
        let start = w * 4;
        let b0: u32 = if start < logical {
            source[start] as u32
        } else {
            0
        };
        let b1: u32 = if start + 1 < logical {
            source[start + 1] as u32
        } else {
            0
        };
        let b2: u32 = if start + 2 < logical {
            source[start + 2] as u32
        } else {
            0
        };
        let b3: u32 = if start + 3 < logical {
            source[start + 3] as u32
        } else {
            0
        };
        let word = b0 + 256 * b1 + 65536 * b2 + 16777216 * b3;
        words.push(word);
        w = w + 1;
    }
    words
}

/// Index of the first non-finite `f32` (by its bits) at or after `i`.
pub open spec fn first_non_finite_word(query: Seq<u32>, i: int) -> Option<int>
    decreases query.len() - i,
{
    if i < 0 || i >= query.len() {
        None
    } else if !float_bits_finite(DalucFloatDType::F32, query[i]) {
        Some(i)
    } else {
        first_non_finite_word(query, i + 1)
    }
}

/// The query, as `f32` bits, must have `expected` elements, all finite.
pub open spec fn query_rule(query: Seq<u32>, expected: int) -> Result<(), DalucWgpuCandidateError> {
    if query.len() != expected {
        Err(
            DalucWgpuCandidateError::QueryLength {
                expected: expected as usize,
                actual: query.len() as usize,
            },
        )
    } else {
        match first_non_finite_word(query, 0) {
            Some(i) => Err(DalucWgpuCandidateError::NonFiniteQuery { index: i as usize }),
            None => Ok(()),
        }
    }
}

/// The bits of the first `n` `f32` floats of a plane, or the first read
/// failure.
pub open spec fn float_words(plane: DalucOraclePlane, n: int) -> Result<Seq<u32>, DalucOracleError>
    decreases n,
{
    if n <= 0 {
        Ok(Seq::empty())
    } else {
        match float_words(plane, n - 1) {
            Err(e) => Err(e),
            Ok(words) => match float_bits_rule(plane, (n - 1) as usize, DalucFloatDType::F32) {
                Err(e) => Err(e),
                Ok(bits) => Ok(words.push(bits)),
            },
        }
    }
}

/// The `n` `f32` words of a plane staged for a storage buffer, or why not.
pub open spec fn staged_f32_rule(plane: DalucOraclePlane, n: int) -> Result<
    Seq<u32>,
    DalucWgpuCandidateError,
> {
    match float_words(plane, n) {
        Err(e) => Err(DalucWgpuCandidateError::Oracle(e)),
        Ok(words) => if 4 * n > usize::MAX {
            Err(DalucWgpuCandidateError::IndexSpaceExceeded("F32 plane bytes"))
        } else {
            Ok(words)
        },
    }
}

/// A storage buffer of `bytes` bytes (at least four) must fit one binding.
pub open spec fn upload_rule(label: &'static str, bytes: int, max_storage_bytes: u64) -> Result<
    (),
    DalucWgpuCandidateError,
> {
    let size = if bytes < 4 {
        4
    } else {
        bytes
    };
    if size > max_storage_bytes {
        Err(
            DalucWgpuCandidateError::DeviceBufferLimit {
                label,
                required_bytes: size as u64,
                maximum_bytes: max_storage_bytes,
            },
        )
    } else {
        Ok(())
    }
}

/// V scales of the candidate: one per batch, K/V head, token slot and group.
pub open spec fn scale_count_rule(c: DalucKvViewContract) -> Result<int, DalucWgpuCandidateError> {
    let s = c.shape;
    let bh = s.batch * s.kv_heads;
    if bh > usize::MAX || bh * capacity_of(c) > usize::MAX || bh * capacity_of(c) * groups_of(c)
        > usize::MAX {
        Err(DalucWgpuCandidateError::Oracle(DalucOracleError::ArithmeticOverflow("FDAL3 V scale count")))
    } else {
        Ok(bh * capacity_of(c) * groups_of(c))
    }
}

proof fn lemma_float_words_stay_failed(plane: DalucOraclePlane, k: int, m: int)
    requires
        0 <= k <= m,
        float_words(plane, k) is Err,
    ensures
        float_words(plane, m) == float_words(plane, k),
    decreases m - k,
{
    if k < m {
        lemma_float_words_stay_failed(plane, k, m - 1);
    }
}

fn staged_f32_words(plane: &DalucOraclePlane, n: usize) -> (r: Result<Vec<u32>, DalucWgpuCandidateError>)
    ensures
        match staged_f32_rule(*plane, n as int) {
            Ok(words) => r is Ok && r->Ok_0@ == words,
            Err(e) => r == Err::<Vec<u32>, DalucWgpuCandidateError>(e),
        },
{
    let mut words: Vec<u32> = Vec::new();
    let mut i: usize = 0;
    while i < n
        invariant
            i <= n,
            float_words(*plane, i as int) == Ok::<Seq<u32>, DalucOracleError>(words@),
        decreases n - i,
    {
        match read_float_bits(plane, i, DalucFloatDType::F32) {
            Ok(bits) => {
                words.push(bits);
            },
            Err(e) => {
                proof {
                    lemma_float_words_stay_failed(*plane, i + 1, n as int);
                }
                return Err(DalucWgpuCandidateError::Oracle(e));
            },
        }
        i = i + 1;
    }
    if n > usize::MAX / 4 {
        return Err(DalucWgpuCandidateError::IndexSpaceExceeded("F32 plane bytes"));
    }
    Ok(words)
}

fn check_query(query: &[u32], expected: usize) -> (r: Result<(), DalucWgpuCandidateError>)
    ensures
        r == query_rule(query@, expected as int),
{
    if query.len() != expected {
        return Err(DalucWgpuCandidateError::QueryLength { expected, actual: query.len() });
    }
    let mut i: usize = 0;
    while i < query.len()
        invariant
            i <= query@.len(),
            query@.len() == expected,
            first_non_finite_word(query@, 0) == first_non_finite_word(query@, i as int),
        decreases query@.len() - i,
    {
        if !float_is_finite(DalucFloatDType::F32, query[i]) {
            return Err(DalucWgpuCandidateError::NonFiniteQuery { index: i });
        }
        i = i + 1;
    }
    Ok(())
}

fn check_upload(label: &'static str, bytes: usize, max_storage_bytes: u64) -> (r: Result<
    (),
    DalucWgpuCandidateError,
>)
    ensures
        r == upload_rule(label, bytes as int, max_storage_bytes),
{
    let size: u64 = if bytes < 4 {
        4
    } else {
        bytes as u64
    };
    if size > max_storage_bytes {
        return Err(
            DalucWgpuCandidateError::DeviceBufferLimit {
                label,
                required_bytes: size,
                maximum_bytes: max_storage_bytes,
            },
        );
    }
    Ok(())
}

/// `n` staged words of four bytes must be sizable and fit one storage binding.
pub open spec fn upload_words_rule(label: &'static str, n: int, max_storage_bytes: u64) -> Result<
    (),
    DalucWgpuCandidateError,
> {
    if 4 * n > usize::MAX {
        Err(DalucWgpuCandidateError::IndexSpaceExceeded(label))
    } else {
        upload_rule(label, 4 * n, max_storage_bytes)
    }
}

/// The combined `O|LSE` buffer must be sizable and fit one storage binding.
pub open spec fn output_bytes_rule(output: int, lse: int, max_storage_bytes: u64) -> Result<
    (),
    DalucWgpuCandidateError,
> {
    let combined = output + lse;
    if combined > usize::MAX {
        Err(DalucWgpuCandidateError::IndexSpaceExceeded("output elements"))
    } else if 4 * combined > usize::MAX {
        Err(DalucWgpuCandidateError::IndexSpaceExceeded("output bytes"))
    } else if 4 * combined > max_storage_bytes {
        Err(
            DalucWgpuCandidateError::DeviceBufferLimit {
                label: "O|LSE",
                required_bytes: (4 * combined) as u64,
                maximum_bytes: max_storage_bytes,
            },
        )
    } else {
        Ok(())
    }
}

/// Every uniform value of the dispatch must fit in `u32`.
pub open spec fn params_rule(c: DalucKvViewContract, query_position: usize, scale_bits: u32, causal: bool) -> Result<
    (),
    DalucWgpuCandidateError,
> {
    let values = dispatch_values(c, capacity_of(c) as usize, scale_bits, causal, query_position);
    let wide = first_wide_value(values, 0);
    if wide < values.len() {
        Err(DalucWgpuCandidateError::IndexSpaceExceeded(dispatch_labels()[wide]))
    } else {
        Ok(())
    }
}

/// Words staged from a byte plane: the little-endian, zero-padded words of
/// its logical bytes.
pub open spec fn staged_plane_words(words: Seq<u32>, plane: DalucOraclePlane) -> bool {
    let logical = bytes_for_bits_spec(plane.spec_logical_bits() as int);
    &&& words.len() == plane_word_count(logical)
    &&& forall|i: int| 0 <= i < words.len() ==> #[trigger] words[i] as int == plane_word(
        plane.spec_bytes(),
        logical,
        i,
    )
}

/// Words of the staged byte plane `plane`.
pub open spec fn staged_word_count(plane: DalucOraclePlane) -> int {
    plane_word_count(bytes_for_bits_spec(plane.spec_logical_bits() as int))
}

/// The host checks of one candidate forward pass before any upload, first
/// failure first: payload validation, the plan, the query, the dispatch
/// width, then the staged query, codebook and scale planes.
pub open spec fn staging_checks_rule(
    p: DalucOraclePayload,
    query_position: usize,
    scale_bits: Result<u32, FlatAttentionError>,
    query: Seq<u32>,
    max_workgroups: u32,
) -> Result<(), DalucWgpuCandidateError> {
    let c = p.spec_contract();
    let planes = p.spec_planes();
    let s = c.shape;
    let validation = payload_validation(p.spec_payload_version(), c, planes);
    let lse = s.batch * s.q_heads;
    let codebook = codebook_elements_rule(c);
    let scales = scale_count_rule(c);
    if validation is Err {
        Err(DalucWgpuCandidateError::Oracle(validation->Err_0))
    } else if wgpu_plan_rule(c, query_position, scale_bits) is Err {
        wgpu_plan_rule(c, query_position, scale_bits)
    } else if query_rule(query, s.batch * s.q_heads * s.key_head_dim) is Err {
        query_rule(query, s.batch * s.q_heads * s.key_head_dim)
    } else if lse > max_workgroups {
        Err(DalucWgpuCandidateError::DispatchLimit { actual: lse as usize, maximum: max_workgroups })
    } else if 4 * query.len() > usize::MAX {
        Err(DalucWgpuCandidateError::IndexSpaceExceeded("query bytes"))
    } else if codebook is Err {
        Err(DalucWgpuCandidateError::Oracle(codebook->Err_0))
    } else if staged_f32_rule(planes.key_codebook, codebook->Ok_0) is Err {
        Err(staged_f32_rule(planes.key_codebook, codebook->Ok_0)->Err_0)
    } else if scales is Err {
        Err(scales->Err_0)
    } else if staged_f32_rule(planes.value_scales, scales->Ok_0) is Err {
        Err(staged_f32_rule(planes.value_scales, scales->Ok_0)->Err_0)
    } else {
        Ok(())
    }
}

/// The six storage uploads of a pass, in binding order, each sized in words.
pub open spec fn uploads_rule(
    query: int,
    codebook: int,
    key_words: int,
    value_words: int,
    scales: int,
    zero_words: int,
    max_storage_bytes: u64,
) -> Result<(), DalucWgpuCandidateError> {
    then(
        upload_words_rule("Q", query, max_storage_bytes),
        then(
            upload_words_rule("K codebook", codebook, max_storage_bytes),
            then(
                upload_words_rule("K indices", key_words, max_storage_bytes),
                then(
                    upload_words_rule("V packed", value_words, max_storage_bytes),
                    then(
                        upload_words_rule("V scales", scales, max_storage_bytes),
                        upload_words_rule("V zero points", zero_words, max_storage_bytes),
                    ),
                ),
            ),
        ),
    )
}

/// Every host check of one candidate forward pass, first failure first: the
/// staging checks, each storage upload in binding order, the `O|LSE` buffer
/// and the uniform words.
pub open spec fn forward_rule(
    p: DalucOraclePayload,
    query_position: usize,
    scale_bits: Result<u32, FlatAttentionError>,
    causal: bool,
    query: Seq<u32>,
    max_workgroups: u32,
    max_storage_bytes: u64,
) -> Result<(), DalucWgpuCandidateError> {
    let c = p.spec_contract();
    let planes = p.spec_planes();
    let s = c.shape;
    let checks = staging_checks_rule(p, query_position, scale_bits, query, max_workgroups);
    let uploads = uploads_rule(
        query.len() as int,
        codebook_elements_rule(c)->Ok_0,
        staged_word_count(planes.key_indices),
        staged_word_count(planes.values),
        scale_count_rule(c)->Ok_0,
        staged_word_count(planes.value_zero_points),
        max_storage_bytes,
    );
    if checks is Err {
        checks
    } else if uploads is Err {
        uploads
    } else {
        then(
            output_bytes_rule(
                (s.batch * s.q_heads * s.value_head_dim) as int,
                (s.batch * s.q_heads) as int,
                max_storage_bytes,
            ),
            params_rule(c, query_position, scale_bits->Ok_0, causal),
        )
    }
}

proof fn lemma_float_words_len(plane: DalucOraclePlane, n: int)
    requires
        n >= 0,
        float_words(plane, n) is Ok,
    ensures
        float_words(plane, n)->Ok_0.len() == n,
    decreases n,
{
    if n > 0 {
        lemma_float_words_len(plane, n - 1);
    }
}

fn check_uploads(
    query: usize,
    codebook: usize,
    key_words: usize,
    value_words: usize,
    scales: usize,
    zero_words: usize,
    max_storage_bytes: u64,
) -> (r: Result<(), DalucWgpuCandidateError>)
    ensures
        r == uploads_rule(
            query as int,
            codebook as int,
            key_words as int,
            value_words as int,
            scales as int,
            zero_words as int,
            max_storage_bytes,
        ),
{
    check_upload_words("Q", query, max_storage_bytes)?;
    check_upload_words("K codebook", codebook, max_storage_bytes)?;
    check_upload_words("K indices", key_words, max_storage_bytes)?;
    check_upload_words("V packed", value_words, max_storage_bytes)?;
    check_upload_words("V scales", scales, max_storage_bytes)?;
    check_upload_words("V zero points", zero_words, max_storage_bytes)
}

/// What one candidate forward pass hands the device, staged on the host:
/// the plan, the dispatch width, every storage plane as `u32` words, the
/// `O|LSE` buffer size and the uniform words. The query is uploaded as given.
pub struct DalucWgpuForwardStaging {
    pub plan: DalucWgpuPlan,
    pub workgroups: u32,
    pub codebook_words: Vec<u32>,
    pub key_index_words: Vec<u32>,
    pub value_words: Vec<u32>,
    pub scale_words: Vec<u32>,
    pub zero_point_words: Vec<u32>,
    pub output_bytes: u64,
    pub params: Vec<u32>,
}

/// The staged pass of a forward that passes every check.
pub open spec fn forward_staging_is(
    st: DalucWgpuForwardStaging,
    p: DalucOraclePayload,
    query_position: usize,
    scale_bits: u32,
    causal: bool,
) -> bool {
    let c = p.spec_contract();
    let planes = p.spec_planes();
    let s = c.shape;
    let values = dispatch_values(c, capacity_of(c) as usize, scale_bits, causal, query_position);
    &&& st.plan.spec_contract() == c
    &&& st.plan.spec_query_position() == query_position
    &&& st.plan.spec_kv_capacity() == capacity_of(c)
    &&& st.plan.spec_subspaces() == subspaces_of(c)
    &&& st.plan.spec_groups() == groups_of(c)
    &&& st.plan.spec_query_elements() == s.batch * s.q_heads * s.key_head_dim
    &&& st.plan.spec_output_elements() == s.batch * s.q_heads * s.value_head_dim
    &&& st.plan.spec_lse_elements() == s.batch * s.q_heads
    &&& st.plan.spec_scale_bits() == scale_bits
    &&& st.workgroups == s.batch * s.q_heads
    &&& st.codebook_words@ == float_words(planes.key_codebook, codebook_elements_rule(c)->Ok_0)->Ok_0
    &&& st.scale_words@ == float_words(planes.value_scales, scale_count_rule(c)->Ok_0)->Ok_0
    &&& staged_plane_words(st.key_index_words@, planes.key_indices)
    &&& staged_plane_words(st.value_words@, planes.values)
    &&& staged_plane_words(st.zero_point_words@, planes.value_zero_points)
    &&& st.output_bytes == 4 * (s.batch * s.q_heads * s.value_head_dim + s.batch * s.q_heads)
    &&& st.params@.len() == values.len()
    &&& forall|k: int| 0 <= k < values.len() ==> #[trigger] st.params@[k] == values[k]
}

fn check_upload_words(label: &'static str, n: usize, max_storage_bytes: u64) -> (r: Result<
    (),
    DalucWgpuCandidateError,
>)
    ensures
        r == upload_words_rule(label, n as int, max_storage_bytes),
{
    if n > usize::MAX / 4 {
        return Err(DalucWgpuCandidateError::IndexSpaceExceeded(label));
    }
    check_upload(label, 4 * n, max_storage_bytes)
}

fn scale_count(plan: DalucWgpuPlan) -> (r: Result<usize, DalucWgpuCandidateError>)
    requires
        plan.spec_kv_capacity() == capacity_of(plan.spec_contract()),
        plan.spec_groups() == groups_of(plan.spec_contract()),
    ensures
        match scale_count_rule(plan.spec_contract()) {
            Ok(n) => r == Ok::<usize, DalucWgpuCandidateError>(n as usize),
            Err(e) => r == Err::<usize, DalucWgpuCandidateError>(e),
        },
{
    let s = plan.contract.shape;
    let overflow = DalucWgpuCandidateError::Oracle(
        DalucOracleError::ArithmeticOverflow("FDAL3 V scale count"),
    );
    let bh = match s.batch.checked_mul(s.kv_heads) {
        Some(v) => v,
        None => return Err(overflow),
    };
    let slots = match bh.checked_mul(plan.kv_capacity) {
        Some(v) => v,
        None => return Err(overflow),
    };
    match slots.checked_mul(plan.groups) {
        Some(v) => Ok(v),
        None => Err(overflow),
    }
}

/// Stage one candidate forward pass for `payload` and a query given as `f32`
/// bits, making every host check the pass makes before it records anything,
/// in the same order. `scale_bits` is the outcome of resolving the softmax
/// scale; the limits are the device's.
pub fn stage_forward(
    payload: &DalucOraclePayload,
    query_position: usize,
    scale_bits: Result<u32, FlatAttentionError>,
    causal: bool,
    query: &[u32],
    max_workgroups: u32,
    max_storage_bytes: u64,
) -> (r: Result<DalucWgpuForwardStaging, DalucWgpuCandidateError>)
    ensures
        match forward_rule(
            *payload,
            query_position,
            scale_bits,
            causal,
            query@,
            max_workgroups,
            max_storage_bytes,
        ) {
            Err(e) => r == Err::<DalucWgpuForwardStaging, DalucWgpuCandidateError>(e),
            Ok(()) => r matches Ok(st) && forward_staging_is(
                st,
                *payload,
                query_position,
                scale_bits->Ok_0,
                causal,
            ),
        },
{
    match payload.validate() {
        Ok(()) => {},
        Err(e) => return Err(DalucWgpuCandidateError::Oracle(e)),
    }
    let contract = payload.contract();
    let plan = DalucWgpuPlan::new(contract, query_position, scale_bits)?;
    proof {
        lemma_valid_contract_facts(contract);
    }
    check_query(query, plan.query_elements)?;
    let workgroups = plan.workgroups(max_workgroups)?;
    if query.len() > usize::MAX / 4 {
        return Err(DalucWgpuCandidateError::IndexSpaceExceeded("query bytes"));
    }
    let codebook = match codebook_elements(contract) {
        Ok(n) => n,
        Err(e) => return Err(DalucWgpuCandidateError::Oracle(e)),
    };
    let codebook_words = staged_f32_words(payload.key_codebook_plane(), codebook)?;
    let key_index_words = u8_plane_words(payload.key_index_plane());
    let value_words = u8_plane_words(payload.value_plane());
    let scales = scale_count(plan)?;
    let scale_words = staged_f32_words(payload.value_scale_plane(), scales)?;
    let zero_point_words = u8_plane_words(payload.value_zero_point_plane());
    proof {
        lemma_float_words_len(payload.spec_planes().key_codebook, codebook as int);
        lemma_float_words_len(payload.spec_planes().value_scales, scales as int);
        assert(staging_checks_rule(*payload, query_position, scale_bits, query@, max_workgroups) is Ok);
    }
    check_uploads(
        query.len(),
        codebook_words.len(),
        key_index_words.len(),
        value_words.len(),
        scale_words.len(),
        zero_point_words.len(),
        max_storage_bytes,
    )?;
    let output_bytes = plan.output_bytes(max_storage_bytes)?;
    let params = plan.dispatch_params(causal)?;
    Ok(
        DalucWgpuForwardStaging {
            plan,
            workgroups: workgroups as u32,
            codebook_words,
            key_index_words,
            value_words,
            scale_words,
            zero_point_words,
            output_bytes,
            params,
        },
    )
}

} // verus!
