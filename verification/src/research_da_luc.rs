//! Research-only DA-LUC attention-facing KV view contract.
//!
//! The descriptor fixes metadata and fail-closed validation only. It does not
//! encode, decode, score, allocate, route, or change dense resident/paged paths.
use crate::arith::{is_power_of_two, usize_is_power_of_two};
use vstd::arithmetic::power2::pow2;
use vstd::bits::{lemma_u64_pow2_no_overflow, lemma_u64_shl_is_mul};
use vstd::prelude::*;

verus! {

/// Current schema version of the research-only DA-LUC KV view contract.
pub const DA_LUC_KV_VIEW_SCHEMA_VERSION: u16 = 1;

#[derive(Debug, Clone, Copy, PartialEq, Eq, Structural)]
pub enum DalucFloatDType {
    F16,
    Bf16,
    F32,
}

/// Logical row order for packed K indices and V values.
#[derive(Debug, Clone, Copy, PartialEq, Eq, Structural)]
pub enum DalucRowOrder {
    BatchTokenHead,
    BatchHeadToken,
}

#[derive(Debug, Clone, Copy, PartialEq, Eq, Structural)]
pub enum DalucBitOrder {
    Lsb0,
    Msb0,
}

/// Codebook shape is either `[subspaces, entries, subspace_dim]` or
/// `[kv_heads, subspaces, entries, subspace_dim]`.
#[derive(Debug, Clone, Copy, PartialEq, Eq, Structural)]
pub enum DalucCodebookScope {
    SharedAcrossKvHeads,
    PerKvHead,
}

#[derive(Debug, Clone, Copy, PartialEq, Eq, Structural)]
pub enum DalucResidualIndexing {
    /// Residual values pair one-for-one with unique coordinates in stored order.
    Coordinates { index_bits: u8, bit_order: DalucBitOrder },
    /// One bitmap bit per logical scalar. Residual values correspond to set
    /// bits in increasing logical-coordinate order.
    Bitmap { bit_order: DalucBitOrder },
}

/// Additive sparse correction applied after the primary K/V reconstruction.
#[derive(Debug, Clone, Copy, PartialEq, Eq, Structural)]
pub struct DalucSparseResidual {
    pub value_dtype: DalucFloatDType,
    pub indexing: DalucResidualIndexing,
    pub max_entries_per_vector: usize,
}

#[derive(Debug, Clone, Copy, PartialEq, Eq, Structural)]
pub enum DalucResidualSemantics {
    NoResidual,
    Sparse(DalucSparseResidual),
}

/// Uniform-subspace codebook representation for K.
#[derive(Debug, Clone, Copy, PartialEq, Eq, Structural)]
pub struct DalucKeyRepresentation {
    pub subspace_dim: usize,
    pub codebook_entries: usize,
    pub codebook_dtype: DalucFloatDType,
    pub codebook_scope: DalucCodebookScope,
    pub index_bits: u8,
    pub index_bit_order: DalucBitOrder,
    pub residual: DalucResidualSemantics,
}

/// V low-bit zero-point semantics.
///
/// `NoZeroPoint` means the packed field is a signed two's-complement integer and the
/// primary reconstruction is `scale * q`. `U8`/`U16` mean the packed field is
/// unsigned and one zero point is stored per group in that container.
#[derive(Debug, Clone, Copy, PartialEq, Eq, Structural)]
pub enum DalucZeroPointStorage {
    NoZeroPoint,
    U8,
    U16,
}

/// V is deliberately independent from the K representation.
#[derive(Debug, Clone, Copy, PartialEq, Eq, Structural)]
pub enum DalucValueRepresentation {
    Dense { dtype: DalucFloatDType },
    /// Contiguous feature groups, each with one scale and (when affine) one zero point.
    GroupwiseAffine {
        storage_bits: u8,
        group_size: usize,
        scale_dtype: DalucFloatDType,
        zero_point: DalucZeroPointStorage,
        bit_order: DalucBitOrder,
        residual: DalucResidualSemantics,
    },
}

/// Logical geometry for one per-layer attention-facing KV view.
#[derive(Debug, Clone, Copy, PartialEq, Eq, Structural)]
pub struct DalucLogicalKvShape {
    pub batch: usize,
    pub q_heads: usize,
    pub kv_heads: usize,
    pub kv_len: usize,
    pub key_head_dim: usize,
    pub value_head_dim: usize,
}

#[derive(Debug, Clone, Copy, PartialEq, Eq, Structural)]
pub enum DalucStorageTopology {
    Contiguous { capacity_tokens: usize },
    /// Page-table entries are adapter-owned; only page geometry is fixed here.
    Paged { page_size: usize, physical_pages_per_batch: usize },
}

#[derive(Debug, Clone, Copy, PartialEq, Eq, Structural)]
pub enum DalucPaddingRule {
    NoPadding,
    ZeroFilledToAlignment,
}

#[derive(Debug, Clone, Copy, PartialEq, Eq, Structural)]
pub struct DalucPhysicalLayout {
    pub row_order: DalucRowOrder,
    pub topology: DalucStorageTopology,
    pub plane_alignment_bytes: usize,
    pub padding: DalucPaddingRule,
}

/// Versioned descriptor. No field implies runtime promotion or fallback.
#[derive(Debug, Clone, Copy, PartialEq, Eq, Structural)]
pub struct DalucKvViewContract {
    pub schema_version: u16,
    pub shape: DalucLogicalKvShape,
    pub keys: DalucKeyRepresentation,
    pub values: DalucValueRepresentation,
    pub layout: DalucPhysicalLayout,
}

/// Backend ability to consume a validated view directly.
///
/// A missing capability always means rejection; it never authorizes an
/// implicit dense conversion or layout rewrite.
#[derive(Debug, Clone, Copy, PartialEq, Eq, Structural)]
pub struct DalucBackendCapabilities {
    pub supports_f16: bool,
    pub supports_bf16: bool,
    pub supports_f32: bool,
    pub supports_lsb0: bool,
    pub supports_msb0: bool,
    pub supports_batch_token_head: bool,
    pub supports_batch_head_token: bool,
    pub supports_shared_codebook: bool,
    pub supports_per_kv_head_codebook: bool,
    pub supports_contiguous: bool,
    pub supports_paged: bool,
    pub supports_groupwise_affine_values: bool,
    pub supports_signed_symmetric_values: bool,
    pub supports_u8_zero_points: bool,
    pub supports_u16_zero_points: bool,
    pub supports_sparse_coordinates: bool,
    pub supports_sparse_bitmap: bool,
    pub supports_no_padding: bool,
    pub supports_zero_filled_padding: bool,
    /// Minimum physical plane alignment accepted for direct consumption.
    /// Must itself be a non-zero power of two.
    pub minimum_plane_alignment_bytes: usize,
    pub max_packed_index_bits: u8,
    pub max_groupwise_value_bits: u8,
}

#[derive(Debug, Clone, Copy, PartialEq, Eq, Structural)]
pub enum DalucKvSide {
    Key,
    Value,
}

#[derive(Debug, Clone, Copy, PartialEq, Eq)]
#[non_exhaustive]
pub enum DalucKvViewError {
    UnsupportedSchemaVersion { actual: u16, supported: u16 },
    InvalidMetadata(&'static str),
    CodebookIndexOutOfRange { index: u32, codebook_entries: usize },
    ResidualIndexOutOfRange { side: DalucKvSide, index: usize, dimension: usize },
    UnsupportedBackendCapability(&'static str),
}

// ---------------------------------------------------------------------------
// Specification of the backend-independent invariants.
// ---------------------------------------------------------------------------

/// The first failure of two checks run in order.
pub open spec fn first_failure<E>(first: Result<(), E>, second: Result<(), E>) -> Result<(), E> {
    if first is Err {
        first
    } else {
        second
    }
}

pub open spec fn invalid(reason: &'static str) -> Result<(), DalucKvViewError> {
    Err(DalucKvViewError::InvalidMetadata(reason))
}

pub open spec fn unsupported(capability: &'static str) -> Result<(), DalucKvViewError> {
    Err(DalucKvViewError::UnsupportedBackendCapability(capability))
}

/// `value_dim % divisor == 0` with Rust's `is_multiple_of` convention for zero.
pub open spec fn divides(divisor: usize, value: usize) -> bool {
    if divisor == 0 {
        value == 0
    } else {
        value % divisor == 0
    }
}

pub open spec fn shape_rule(shape: DalucLogicalKvShape) -> Result<(), DalucKvViewError> {
    if shape.batch == 0 || shape.q_heads == 0 || shape.kv_heads == 0 || shape.kv_len == 0
        || shape.key_head_dim == 0 || shape.value_head_dim == 0 {
        invalid("logical dimensions must be non-zero")
    } else if !divides(shape.kv_heads, shape.q_heads) {
        invalid("q_heads must be exactly divisible by kv_heads")
    } else if shape.batch * shape.kv_heads * shape.kv_len * shape.key_head_dim > usize::MAX
        || shape.batch * shape.kv_heads * shape.kv_len * shape.value_head_dim > usize::MAX {
        invalid("logical shape arithmetic overflow")
    } else {
        Ok(())
    }
}

/// A packed field of `bits` bits must be 1..=32 wide and address `required` values.
pub open spec fn address_width_rule(bits: u8, required: usize, capacity_error: &'static str) -> Result<
    (),
    DalucKvViewError,
> {
    if bits == 0 || bits > 32 {
        invalid("packed address width must be in 1..=32")
    } else if pow2(bits as nat) < required {
        invalid(capacity_error)
    } else {
        Ok(())
    }
}

pub open spec fn residual_rule(residual: DalucResidualSemantics, dimension: usize) -> Result<
    (),
    DalucKvViewError,
> {
    match residual {
        DalucResidualSemantics::NoResidual => Ok(()),
        DalucResidualSemantics::Sparse(sparse) => {
            if sparse.max_entries_per_vector == 0 || sparse.max_entries_per_vector > dimension {
                invalid("sparse residual budget must be in 1..=vector dimension")
            } else {
                match sparse.indexing {
                    DalucResidualIndexing::Coordinates { index_bits, .. } => address_width_rule(
                        index_bits,
                        dimension,
                        "residual coordinate width cannot address the vector",
                    ),
                    DalucResidualIndexing::Bitmap { .. } => Ok(()),
                }
            }
        },
    }
}

pub open spec fn keys_rule(shape: DalucLogicalKvShape, keys: DalucKeyRepresentation) -> Result<
    (),
    DalucKvViewError,
> {
    if keys.subspace_dim == 0 || !divides(keys.subspace_dim, shape.key_head_dim) {
        invalid("K subspace_dim must exactly partition key_head_dim")
    } else if keys.codebook_entries < 2 {
        invalid("K codebook must contain at least two entries")
    } else {
        first_failure(
            address_width_rule(
                keys.index_bits,
                keys.codebook_entries,
                "K index width cannot address the codebook",
            ),
            residual_rule(keys.residual, shape.key_head_dim),
        )
    }
}

pub open spec fn values_rule(shape: DalucLogicalKvShape, values: DalucValueRepresentation) -> Result<
    (),
    DalucKvViewError,
> {
    match values {
        DalucValueRepresentation::Dense { .. } => Ok(()),
        DalucValueRepresentation::GroupwiseAffine {
            storage_bits,
            group_size,
            zero_point,
            residual,
            ..
        } => {
            if storage_bits == 0 || storage_bits > 16 {
                invalid("V storage_bits must be in 1..=16")
            } else if group_size == 0 || !divides(group_size, shape.value_head_dim) {
                invalid("V group_size must exactly partition value_head_dim")
            } else if zero_point == DalucZeroPointStorage::U8 && storage_bits > 8 {
                invalid("V zero-point container is too small for storage_bits")
            } else {
                residual_rule(residual, shape.value_head_dim)
            }
        },
    }
}

pub open spec fn layout_rule(shape: DalucLogicalKvShape, layout: DalucPhysicalLayout) -> Result<
    (),
    DalucKvViewError,
> {
    if layout.plane_alignment_bytes == 0 || !is_power_of_two(layout.plane_alignment_bytes as int) {
        invalid("plane alignment must be a non-zero power of two")
    } else {
        match layout.topology {
            DalucStorageTopology::Contiguous { capacity_tokens } => {
                if capacity_tokens == 0 || capacity_tokens < shape.kv_len {
                    invalid("physical token capacity must cover live kv_len")
                } else {
                    Ok(())
                }
            },
            DalucStorageTopology::Paged { page_size, physical_pages_per_batch } => {
                if page_size * physical_pages_per_batch > usize::MAX {
                    invalid("paged capacity arithmetic overflow")
                } else if page_size * physical_pages_per_batch == 0 || page_size
                    * physical_pages_per_batch < shape.kv_len {
                    invalid("physical token capacity must cover live kv_len")
                } else {
                    Ok(())
                }
            },
        }
    }
}

/// The complete backend-independent rule of a view contract, first failure first.
pub open spec fn contract_rule(c: DalucKvViewContract) -> Result<(), DalucKvViewError> {
    if c.schema_version != DA_LUC_KV_VIEW_SCHEMA_VERSION {
        Err(
            DalucKvViewError::UnsupportedSchemaVersion {
                actual: c.schema_version,
                supported: DA_LUC_KV_VIEW_SCHEMA_VERSION,
            },
        )
    } else {
        first_failure(
            shape_rule(c.shape),
            first_failure(
                keys_rule(c.shape, c.keys),
                first_failure(values_rule(c.shape, c.values), layout_rule(c.shape, c.layout)),
            ),
        )
    }
}

// ---------------------------------------------------------------------------
// Specification of the backend capability rules.
// ---------------------------------------------------------------------------

pub open spec fn supported_or(supported: bool, label: &'static str) -> Result<(), DalucKvViewError> {
    if supported {
        Ok(())
    } else {
        unsupported(label)
    }
}

pub open spec fn dtype_supported(b: DalucBackendCapabilities, dtype: DalucFloatDType) -> bool {
    match dtype {
        DalucFloatDType::F16 => b.supports_f16,
        DalucFloatDType::Bf16 => b.supports_bf16,
        DalucFloatDType::F32 => b.supports_f32,
    }
}

pub open spec fn bit_order_supported(b: DalucBackendCapabilities, order: DalucBitOrder) -> bool {
    match order {
        DalucBitOrder::Lsb0 => b.supports_lsb0,
        DalucBitOrder::Msb0 => b.supports_msb0,
    }
}

pub open spec fn row_order_supported(b: DalucBackendCapabilities, order: DalucRowOrder) -> bool {
    match order {
        DalucRowOrder::BatchTokenHead => b.supports_batch_token_head,
        DalucRowOrder::BatchHeadToken => b.supports_batch_head_token,
    }
}

pub open spec fn scope_supported(b: DalucBackendCapabilities, scope: DalucCodebookScope) -> bool {
    match scope {
        DalucCodebookScope::SharedAcrossKvHeads => b.supports_shared_codebook,
        DalucCodebookScope::PerKvHead => b.supports_per_kv_head_codebook,
    }
}

pub open spec fn topology_supported(b: DalucBackendCapabilities, t: DalucStorageTopology) -> bool {
    match t {
        DalucStorageTopology::Contiguous { .. } => b.supports_contiguous,
        DalucStorageTopology::Paged { .. } => b.supports_paged,
    }
}

pub open spec fn padding_supported(b: DalucBackendCapabilities, p: DalucPaddingRule) -> bool {
    match p {
        DalucPaddingRule::NoPadding => b.supports_no_padding,
        DalucPaddingRule::ZeroFilledToAlignment => b.supports_zero_filled_padding,
    }
}

pub open spec fn residual_capability_rule(
    b: DalucBackendCapabilities,
    residual: DalucResidualSemantics,
    label: &'static str,
) -> Result<(), DalucKvViewError> {
    match residual {
        DalucResidualSemantics::NoResidual => Ok(()),
        DalucResidualSemantics::Sparse(sparse) => {
            if !dtype_supported(b, sparse.value_dtype) {
                unsupported(label)
            } else {
                match sparse.indexing {
                    DalucResidualIndexing::Coordinates { index_bits, bit_order } => {
                        if !b.supports_sparse_coordinates || index_bits > b.max_packed_index_bits {
                            unsupported(label)
                        } else {
                            supported_or(bit_order_supported(b, bit_order), label)
                        }
                    },
                    DalucResidualIndexing::Bitmap { bit_order } => {
                        if !b.supports_sparse_bitmap {
                            unsupported(label)
                        } else {
                            supported_or(bit_order_supported(b, bit_order), label)
                        }
                    },
                }
            }
        },
    }
}

pub open spec fn zero_point_capability_rule(
    b: DalucBackendCapabilities,
    zero_point: DalucZeroPointStorage,
) -> Result<(), DalucKvViewError> {
    match zero_point {
        DalucZeroPointStorage::NoZeroPoint => supported_or(
            b.supports_signed_symmetric_values,
            "signed symmetric V values",
        ),
        DalucZeroPointStorage::U8 => supported_or(b.supports_u8_zero_points, "u8 V zero points"),
        DalucZeroPointStorage::U16 => supported_or(b.supports_u16_zero_points, "u16 V zero points"),
    }
}

pub open spec fn values_capability_rule(
    b: DalucBackendCapabilities,
    values: DalucValueRepresentation,
) -> Result<(), DalucKvViewError> {
    match values {
        DalucValueRepresentation::Dense { dtype } => supported_or(
            dtype_supported(b, dtype),
            "dense V dtype",
        ),
        DalucValueRepresentation::GroupwiseAffine {
            storage_bits,
            scale_dtype,
            zero_point,
            bit_order,
            residual,
            ..
        } => {
            if !b.supports_groupwise_affine_values {
                unsupported("groupwise affine V")
            } else if storage_bits > b.max_groupwise_value_bits {
                unsupported("V packed value width")
            } else {
                first_failure(
                    zero_point_capability_rule(b, zero_point),
                    first_failure(
                        supported_or(bit_order_supported(b, bit_order), "V packed value bit order"),
                        first_failure(
                            supported_or(dtype_supported(b, scale_dtype), "V scale dtype"),
                            residual_capability_rule(b, residual, "V residual"),
                        ),
                    ),
                )
            }
        },
    }
}

/// Capability rule for a view that already satisfies [`contract_rule`].
pub open spec fn backend_rule(c: DalucKvViewContract, b: DalucBackendCapabilities) -> Result<
    (),
    DalucKvViewError,
> {
    if b.minimum_plane_alignment_bytes == 0 || !is_power_of_two(
        b.minimum_plane_alignment_bytes as int,
    ) {
        unsupported("valid plane alignment requirement")
    } else if !row_order_supported(b, c.layout.row_order) {
        unsupported("row order")
    } else if !topology_supported(b, c.layout.topology) {
        unsupported("KV storage topology")
    } else if !padding_supported(b, c.layout.padding) {
        unsupported("padding rule")
    } else if c.layout.plane_alignment_bytes < b.minimum_plane_alignment_bytes || !divides(
        b.minimum_plane_alignment_bytes,
        c.layout.plane_alignment_bytes,
    ) {
        unsupported("plane alignment")
    } else if !dtype_supported(b, c.keys.codebook_dtype) {
        unsupported("K codebook dtype")
    } else if !scope_supported(b, c.keys.codebook_scope) {
        unsupported("K codebook scope")
    } else if !bit_order_supported(b, c.keys.index_bit_order) {
        unsupported("K index bit order")
    } else if c.keys.index_bits > b.max_packed_index_bits {
        unsupported("K packed index width")
    } else {
        first_failure(
            residual_capability_rule(b, c.keys.residual, "K residual"),
            values_capability_rule(b, c.values),
        )
    }
}

/// Residual semantics declared for the value side.
pub open spec fn value_residual(values: DalucValueRepresentation) -> DalucResidualSemantics {
    match values {
        DalucValueRepresentation::Dense { .. } => DalucResidualSemantics::NoResidual,
        DalucValueRepresentation::GroupwiseAffine { residual, .. } => residual,
    }
}

pub open spec fn payload_residual_rule(
    residual: DalucResidualSemantics,
    side: DalucKvSide,
    dimension: usize,
    index: usize,
) -> Result<(), DalucKvViewError> {
    if residual is NoResidual || index >= dimension {
        Err(DalucKvViewError::ResidualIndexOutOfRange { side, index, dimension })
    } else {
        Ok(())
    }
}

impl DalucKvViewContract {
    /// Validate all backend-independent v1 invariants.
    pub fn validate(self) -> (r: Result<(), DalucKvViewError>)
        ensures
            r == contract_rule(self),
    {
        if self.schema_version != DA_LUC_KV_VIEW_SCHEMA_VERSION {
            return Err(
                DalucKvViewError::UnsupportedSchemaVersion {
                    actual: self.schema_version,
                    supported: DA_LUC_KV_VIEW_SCHEMA_VERSION,
                },
            );
        }
        validate_shape(self.shape)?;
        validate_keys(self.shape, self.keys)?;
        validate_values(self.shape, self.values)?;
        validate_layout(self.shape, self.layout)
    }

    /// Validate the descriptor against one backend's direct-consume capabilities.
    /// No fallback, repacking or materialization is implied on failure.
    pub fn validate_for_backend(self, backend: DalucBackendCapabilities) -> (r: Result<
        (),
        DalucKvViewError,
    >)
        ensures
            r == first_failure(contract_rule(self), backend_rule(self, backend)),
    {
        self.validate()?;
        validate_backend_capabilities(backend)?;
        require_row_order(backend, self.layout.row_order)?;
        require_topology(backend, self.layout.topology)?;
        require_padding(backend, self.layout.padding)?;
        if self.layout.plane_alignment_bytes < backend.minimum_plane_alignment_bytes
            || !self.layout.plane_alignment_bytes.is_multiple_of(
            backend.minimum_plane_alignment_bytes,
        ) {
            return Err(DalucKvViewError::UnsupportedBackendCapability("plane alignment"));
        }
        require_dtype(backend, self.keys.codebook_dtype, "K codebook dtype")?;
        require_codebook_scope(backend, self.keys.codebook_scope)?;
        require_bit_order(backend, self.keys.index_bit_order, "K index bit order")?;
        if self.keys.index_bits > backend.max_packed_index_bits {
            return Err(DalucKvViewError::UnsupportedBackendCapability("K packed index width"));
        }
        require_residual(backend, self.keys.residual, "K residual")?;
        match self.values {
            DalucValueRepresentation::Dense { dtype } => {
                require_dtype(backend, dtype, "dense V dtype")?;
            },
            DalucValueRepresentation::GroupwiseAffine {
                storage_bits,
                scale_dtype,
                zero_point,
                bit_order,
                residual,
                ..
            } => {
                if !backend.supports_groupwise_affine_values {
                    return Err(
                        DalucKvViewError::UnsupportedBackendCapability("groupwise affine V"),
                    );
                }
                if storage_bits > backend.max_groupwise_value_bits {
                    return Err(
                        DalucKvViewError::UnsupportedBackendCapability("V packed value width"),
                    );
                }
                require_v_zero_point(backend, zero_point)?;
                require_bit_order(backend, bit_order, "V packed value bit order")?;
                require_dtype(backend, scale_dtype, "V scale dtype")?;
                require_residual(backend, residual, "V residual")?;
            },
        }
        Ok(())
    }

    /// Reject a decoded K codebook index outside the declared codebook.
    pub fn validate_codebook_index(self, index: u32) -> (r: Result<(), DalucKvViewError>)
        ensures
            r == first_failure(
                contract_rule(self),
                if index as int >= self.keys.codebook_entries as int {
                    Err(
                        DalucKvViewError::CodebookIndexOutOfRange {
                            index,
                            codebook_entries: self.keys.codebook_entries,
                        },
                    )
                } else {
                    Ok(())
                },
            ),
    {
        self.validate()?;
        if (index as u64) >= (self.keys.codebook_entries as u64) {
            return Err(
                DalucKvViewError::CodebookIndexOutOfRange {
                    index,
                    codebook_entries: self.keys.codebook_entries,
                },
            );
        }
        Ok(())
    }

    /// Reject a K residual coordinate the view cannot carry.
    pub fn validate_key_residual_index(self, index: usize) -> (r: Result<(), DalucKvViewError>)
        ensures
            r == first_failure(
                contract_rule(self),
                payload_residual_rule(
                    self.keys.residual,
                    DalucKvSide::Key,
                    self.shape.key_head_dim,
                    index,
                ),
            ),
    {
        self.validate()?;
        validate_payload_residual(
            self.keys.residual,
            DalucKvSide::Key,
            self.shape.key_head_dim,
            index,
        )
    }

    /// Reject a V residual coordinate the view cannot carry.
    pub fn validate_value_residual_index(self, index: usize) -> (r: Result<(), DalucKvViewError>)
        ensures
            r == first_failure(
                contract_rule(self),
                payload_residual_rule(
                    value_residual(self.values),
                    DalucKvSide::Value,
                    self.shape.value_head_dim,
                    index,
                ),
            ),
    {
        self.validate()?;
        let residual = match self.values {
            DalucValueRepresentation::Dense { .. } => DalucResidualSemantics::NoResidual,
            DalucValueRepresentation::GroupwiseAffine { residual, .. } => residual,
        };
        validate_payload_residual(residual, DalucKvSide::Value, self.shape.value_head_dim, index)
    }
}

/// Multiply four positive factors, reporting overflow of the full product.
fn checked_product4(a: usize, b: usize, c: usize, d: usize) -> (r: Option<usize>)
    requires
        a >= 1,
        b >= 1,
        c >= 1,
        d >= 1,
    ensures
        r is Some <==> a * b * c * d <= usize::MAX,
        r matches Some(v) ==> v == a * b * c * d,
{
    let ab = match a.checked_mul(b) {
        Some(v) => v,
        None => {
            assert(a * b * c * d >= a * b) by (nonlinear_arith)
                requires
                    a >= 1,
                    b >= 1,
                    c >= 1,
                    d >= 1,
            ;
            return None;
        },
    };
    let abc = match ab.checked_mul(c) {
        Some(v) => v,
        None => {
            assert(a * b * c * d >= ab * c) by (nonlinear_arith)
                requires
                    ab == a * b,
                    a >= 1,
                    b >= 1,
                    c >= 1,
                    d >= 1,
            ;
            return None;
        },
    };
    proof {
        assert(abc * d == a * b * c * d) by (nonlinear_arith)
            requires
                ab == a * b,
                abc == ab * c,
        ;
    }
    abc.checked_mul(d)
}

fn validate_shape(shape: DalucLogicalKvShape) -> (r: Result<(), DalucKvViewError>)
    ensures
        r == shape_rule(shape),
{
    if shape.batch == 0 || shape.q_heads == 0 || shape.kv_heads == 0 || shape.kv_len == 0
        || shape.key_head_dim == 0 || shape.value_head_dim == 0 {
        return Err(DalucKvViewError::InvalidMetadata("logical dimensions must be non-zero"));
    }
    if !shape.q_heads.is_multiple_of(shape.kv_heads) {
        return Err(
            DalucKvViewError::InvalidMetadata("q_heads must be exactly divisible by kv_heads"),
        );
    }
    if checked_product4(shape.batch, shape.kv_heads, shape.kv_len, shape.key_head_dim).is_none() {
        return Err(DalucKvViewError::InvalidMetadata("logical shape arithmetic overflow"));
    }
    if checked_product4(shape.batch, shape.kv_heads, shape.kv_len, shape.value_head_dim).is_none() {
        return Err(DalucKvViewError::InvalidMetadata("logical shape arithmetic overflow"));
    }
    Ok(())
}

fn validate_keys(shape: DalucLogicalKvShape, keys: DalucKeyRepresentation) -> (r: Result<
    (),
    DalucKvViewError,
>)
    ensures
        r == keys_rule(shape, keys),
{
    if keys.subspace_dim == 0 || !shape.key_head_dim.is_multiple_of(keys.subspace_dim) {
        return Err(
            DalucKvViewError::InvalidMetadata("K subspace_dim must exactly partition key_head_dim"),
        );
    }
    if keys.codebook_entries < 2 {
        return Err(
            DalucKvViewError::InvalidMetadata("K codebook must contain at least two entries"),
        );
    }
    validate_address_width(
        keys.index_bits,
        keys.codebook_entries,
        "K index width cannot address the codebook",
    )?;
    validate_residual(keys.residual, shape.key_head_dim)
}

fn validate_values(shape: DalucLogicalKvShape, values: DalucValueRepresentation) -> (r: Result<
    (),
    DalucKvViewError,
>)
    ensures
        r == values_rule(shape, values),
{
    match values {
        DalucValueRepresentation::Dense { .. } => Ok(()),
        DalucValueRepresentation::GroupwiseAffine {
            storage_bits,
            group_size,
            zero_point,
            residual,
            ..
        } => {
            if storage_bits == 0 || storage_bits > 16 {
                return Err(DalucKvViewError::InvalidMetadata("V storage_bits must be in 1..=16"));
            }
            if group_size == 0 || !shape.value_head_dim.is_multiple_of(group_size) {
                return Err(
                    DalucKvViewError::InvalidMetadata(
                        "V group_size must exactly partition value_head_dim",
                    ),
                );
            }
            let is_u8 = match zero_point {
                DalucZeroPointStorage::U8 => true,
                _ => false,
            };
            if is_u8 && storage_bits > 8 {
                return Err(
                    DalucKvViewError::InvalidMetadata(
                        "V zero-point container is too small for storage_bits",
                    ),
                );
            }
            validate_residual(residual, shape.value_head_dim)
        },
    }
}

fn validate_residual(residual: DalucResidualSemantics, dimension: usize) -> (r: Result<
    (),
    DalucKvViewError,
>)
    ensures
        r == residual_rule(residual, dimension),
{
    match residual {
        DalucResidualSemantics::NoResidual => Ok(()),
        DalucResidualSemantics::Sparse(sparse) => {
            if sparse.max_entries_per_vector == 0 || sparse.max_entries_per_vector > dimension {
                return Err(
                    DalucKvViewError::InvalidMetadata(
                        "sparse residual budget must be in 1..=vector dimension",
                    ),
                );
            }
            match sparse.indexing {
                DalucResidualIndexing::Coordinates { index_bits, .. } => validate_address_width(
                    index_bits,
                    dimension,
                    "residual coordinate width cannot address the vector",
                ),
                DalucResidualIndexing::Bitmap { .. } => Ok(()),
            }
        },
    }
}

fn validate_layout(shape: DalucLogicalKvShape, layout: DalucPhysicalLayout) -> (r: Result<
    (),
    DalucKvViewError,
>)
    ensures
        r == layout_rule(shape, layout),
{
    if layout.plane_alignment_bytes == 0 || !usize_is_power_of_two(layout.plane_alignment_bytes) {
        return Err(
            DalucKvViewError::InvalidMetadata("plane alignment must be a non-zero power of two"),
        );
    }
    let capacity = match layout.topology {
        DalucStorageTopology::Contiguous { capacity_tokens } => capacity_tokens,
        DalucStorageTopology::Paged { page_size, physical_pages_per_batch } => {
            match page_size.checked_mul(physical_pages_per_batch) {
                Some(capacity) => capacity,
                None => {
                    return Err(
                        DalucKvViewError::InvalidMetadata("paged capacity arithmetic overflow"),
                    );
                },
            }
        },
    };
    if capacity == 0 || capacity < shape.kv_len {
        return Err(
            DalucKvViewError::InvalidMetadata("physical token capacity must cover live kv_len"),
        );
    }
    Ok(())
}

fn validate_address_width(bits: u8, required: usize, capacity_error: &'static str) -> (r: Result<
    (),
    DalucKvViewError,
>)
    ensures
        r == address_width_rule(bits, required, capacity_error),
{
    if bits == 0 || bits > 32 {
        return Err(DalucKvViewError::InvalidMetadata("packed address width must be in 1..=32"));
    }
    let shift = bits as u64;
    proof {
        lemma_u64_pow2_no_overflow(shift as nat);
        lemma_u64_shl_is_mul(1, shift);
    }
    let capacity = 1u64 << shift;
    if capacity < (required as u64) {
        return Err(DalucKvViewError::InvalidMetadata(capacity_error));
    }
    Ok(())
}

fn validate_payload_residual(
    residual: DalucResidualSemantics,
    side: DalucKvSide,
    dimension: usize,
    index: usize,
) -> (r: Result<(), DalucKvViewError>)
    ensures
        r == payload_residual_rule(residual, side, dimension, index),
{
    let absent = match residual {
        DalucResidualSemantics::NoResidual => true,
        DalucResidualSemantics::Sparse(_) => false,
    };
    if absent || index >= dimension {
        return Err(DalucKvViewError::ResidualIndexOutOfRange { side, index, dimension });
    }
    Ok(())
}

fn validate_backend_capabilities(backend: DalucBackendCapabilities) -> (r: Result<
    (),
    DalucKvViewError,
>)
    ensures
        r == (if backend.minimum_plane_alignment_bytes == 0 || !is_power_of_two(
            backend.minimum_plane_alignment_bytes as int,
        ) {
            unsupported("valid plane alignment requirement")
        } else {
            Ok(())
        }),
{
    if backend.minimum_plane_alignment_bytes == 0 || !usize_is_power_of_two(
        backend.minimum_plane_alignment_bytes,
    ) {
        return Err(
            DalucKvViewError::UnsupportedBackendCapability("valid plane alignment requirement"),
        );
    }
    Ok(())
}

fn require_dtype(backend: DalucBackendCapabilities, dtype: DalucFloatDType, label: &'static str) -> (r:
    Result<(), DalucKvViewError>)
    ensures
        r == supported_or(dtype_supported(backend, dtype), label),
{
    let supported = match dtype {
        DalucFloatDType::F16 => backend.supports_f16,
        DalucFloatDType::Bf16 => backend.supports_bf16,
        DalucFloatDType::F32 => backend.supports_f32,
    };
    require_supported(supported, label)
}

fn require_bit_order(
    backend: DalucBackendCapabilities,
    bit_order: DalucBitOrder,
    label: &'static str,
) -> (r: Result<(), DalucKvViewError>)
    ensures
        r == supported_or(bit_order_supported(backend, bit_order), label),
{
    let supported = match bit_order {
        DalucBitOrder::Lsb0 => backend.supports_lsb0,
        DalucBitOrder::Msb0 => backend.supports_msb0,
    };
    require_supported(supported, label)
}

fn require_row_order(backend: DalucBackendCapabilities, row_order: DalucRowOrder) -> (r: Result<
    (),
    DalucKvViewError,
>)
    ensures
        r == supported_or(row_order_supported(backend, row_order), "row order"),
{
    let supported = match row_order {
        DalucRowOrder::BatchTokenHead => backend.supports_batch_token_head,
        DalucRowOrder::BatchHeadToken => backend.supports_batch_head_token,
    };
    require_supported(supported, "row order")
}

fn require_codebook_scope(backend: DalucBackendCapabilities, scope: DalucCodebookScope) -> (r:
    Result<(), DalucKvViewError>)
    ensures
        r == supported_or(scope_supported(backend, scope), "K codebook scope"),
{
    let supported = match scope {
        DalucCodebookScope::SharedAcrossKvHeads => backend.supports_shared_codebook,
        DalucCodebookScope::PerKvHead => backend.supports_per_kv_head_codebook,
    };
    require_supported(supported, "K codebook scope")
}

fn require_topology(backend: DalucBackendCapabilities, topology: DalucStorageTopology) -> (r:
    Result<(), DalucKvViewError>)
    ensures
        r == supported_or(topology_supported(backend, topology), "KV storage topology"),
{
    let supported = match topology {
        DalucStorageTopology::Contiguous { .. } => backend.supports_contiguous,
        DalucStorageTopology::Paged { .. } => backend.supports_paged,
    };
    require_supported(supported, "KV storage topology")
}

fn require_padding(backend: DalucBackendCapabilities, padding: DalucPaddingRule) -> (r: Result<
    (),
    DalucKvViewError,
>)
    ensures
        r == supported_or(padding_supported(backend, padding), "padding rule"),
{
    let supported = match padding {
        DalucPaddingRule::NoPadding => backend.supports_no_padding,
        DalucPaddingRule::ZeroFilledToAlignment => backend.supports_zero_filled_padding,
    };
    require_supported(supported, "padding rule")
}

fn require_v_zero_point(backend: DalucBackendCapabilities, zero_point: DalucZeroPointStorage) -> (r:
    Result<(), DalucKvViewError>)
    ensures
        r == zero_point_capability_rule(backend, zero_point),
{
    match zero_point {
        DalucZeroPointStorage::NoZeroPoint => require_supported(
            backend.supports_signed_symmetric_values,
            "signed symmetric V values",
        ),
        DalucZeroPointStorage::U8 => require_supported(
            backend.supports_u8_zero_points,
            "u8 V zero points",
        ),
        DalucZeroPointStorage::U16 => require_supported(
            backend.supports_u16_zero_points,
            "u16 V zero points",
        ),
    }
}

fn require_residual(
    backend: DalucBackendCapabilities,
    residual: DalucResidualSemantics,
    label: &'static str,
) -> (r: Result<(), DalucKvViewError>)
    ensures
        r == residual_capability_rule(backend, residual, label),
{
    match residual {
        DalucResidualSemantics::NoResidual => Ok(()),
        DalucResidualSemantics::Sparse(sparse) => {
            require_dtype(backend, sparse.value_dtype, label)?;
            match sparse.indexing {
                DalucResidualIndexing::Coordinates { index_bits, bit_order } => {
                    if !backend.supports_sparse_coordinates || index_bits
                        > backend.max_packed_index_bits {
                        return Err(DalucKvViewError::UnsupportedBackendCapability(label));
                    }
                    require_bit_order(backend, bit_order, label)
                },
                DalucResidualIndexing::Bitmap { bit_order } => {
                    if !backend.supports_sparse_bitmap {
                        return Err(DalucKvViewError::UnsupportedBackendCapability(label));
                    }
                    require_bit_order(backend, bit_order, label)
                },
            }
        },
    }
}

fn require_supported(supported: bool, label: &'static str) -> (r: Result<(), DalucKvViewError>)
    ensures
        r == supported_or(supported, label),
{
    if !supported {
        return Err(DalucKvViewError::UnsupportedBackendCapability(label));
    }
    Ok(())
}

} // verus!
