//! Content checks of the DA-LUC host reference payload: stored floats are
//! read as little-endian IEEE bit patterns and judged by their bits, packed
//! index fields are decoded and range-checked, and every check walks the live
//! vectors of the contract in (batch, head, token) order, reporting the first
//! failure.
use crate::research_da_luc::{
    contract_rule, DalucPaddingRule, first_failure, DalucBitOrder, DalucKvViewError, DalucCodebookScope, DalucFloatDType, DalucKvViewContract,
    DalucResidualIndexing, DalucResidualSemantics, DalucSparseResidual, DalucStorageTopology,
    DalucValueRepresentation,
    DalucZeroPointStorage,
};
use crate::research_da_luc_oracle::{
    padding_bytes, padding_rule, round_up, alignment_is_power_of_two, lemma_accepted_geometry_covers_live, plane_lengths_rule,
    plane_padding_rule, validate_expected_plane_lengths, validate_plane_padding, DalucPlaneBits,
    DA_LUC_ORACLE_PAYLOAD_VERSION, bytes_for_bits_spec, le_byte, ceil_div_rule, codebook_elements_rule, geometry_rule, dtype_bits, geometry_covers_live, get_stream_bit,
    lemma_page_entry_exists, length_rule, physical_row_rule, side_residual, stream_bit,
    unpack_integer, unpack_rule, DalucOracleError, DalucOracleGeometry, DalucOraclePlane,
};
use vstd::arithmetic::div_mod::lemma_fundamental_div_mod_converse;
use vstd::prelude::*;

verus! {

/// Reports `check(i), check(i + 1), .., check(n - 1)` in order, stopping at
/// the first failure.
pub open spec fn scan_from(i: int, n: int, check: spec_fn(int) -> Result<(), DalucOracleError>) -> Result<
    (),
    DalucOracleError,
>
    decreases n - i,
{
    if i >= n {
        Ok(())
    } else if check(i) is Err {
        check(i)
    } else {
        scan_from(i + 1, n, check)
    }
}

/// Bytes of one stored float of `dtype`.
pub open spec fn dtype_bytes(dtype: DalucFloatDType) -> int {
    dtype_bits(dtype) / 8
}

/// The little-endian 16-bit word at byte `at`.
pub open spec fn le_u16(bytes: Seq<u8>, at: int) -> int {
    bytes[at] + 256 * bytes[at + 1]
}

/// The little-endian 32-bit word at byte `at`.
pub open spec fn le_u32(bytes: Seq<u8>, at: int) -> int {
    le_u16(bytes, at) + 65536 * le_u16(bytes, at + 2)
}

/// The stored bits of float `index` of a plane of `dtype` floats, or why
/// they cannot be read. Only logical bytes are readable.
pub open spec fn float_bits_rule(plane: DalucOraclePlane, index: usize, dtype: DalucFloatDType) -> Result<
    u32,
    DalucOracleError,
> {
    let size = dtype_bytes(dtype);
    let offset = index * size;
    if offset > usize::MAX {
        Err(DalucOracleError::ArithmeticOverflow("float read offset"))
    } else if offset + size > usize::MAX {
        Err(DalucOracleError::ArithmeticOverflow("float read end"))
    } else if offset + size > bytes_for_bits_spec(plane.spec_logical_bits() as int) {
        Err(DalucOracleError::MalformedPayload("float read out of range"))
    } else if size == 2 {
        Ok(le_u16(plane.spec_bytes(), offset) as u32)
    } else {
        Ok(le_u32(plane.spec_bytes(), offset) as u32)
    }
}

/// The float stored as `bits` is finite: its exponent field (8 bits for F32
/// and BF16, 5 bits for F16) is not all ones.
pub open spec fn float_bits_finite(dtype: DalucFloatDType, bits: u32) -> bool {
    match dtype {
        DalucFloatDType::F32 => (bits / 0x80_0000) % 0x100 != 0xff,
        DalucFloatDType::F16 => (bits / 0x400) % 0x20 != 0x1f,
        DalucFloatDType::Bf16 => (bits / 0x80) % 0x100 != 0xff,
    }
}

/// The float stored as `bits` is greater than zero: sign bit clear and not
/// a zero.
pub open spec fn float_bits_positive(dtype: DalucFloatDType, bits: u32) -> bool {
    bits != 0 && match dtype {
        DalucFloatDType::F32 => bits < 0x8000_0000u32,
        _ => bits < 0x8000u32,
    }
}

/// Read the stored bits of float `index` of `plane`.
pub fn read_float_bits(plane: &DalucOraclePlane, index: usize, dtype: DalucFloatDType) -> (r: Result<
    u32,
    DalucOracleError,
>)
    ensures
        r == float_bits_rule(*plane, index, dtype),
{
    let size: usize = match dtype {
        DalucFloatDType::F32 => 4,
        _ => 2,
    };
    let offset = match index.checked_mul(size) {
        Some(v) => v,
        None => return Err(DalucOracleError::ArithmeticOverflow("float read offset")),
    };
    let end = match offset.checked_add(size) {
        Some(v) => v,
        None => return Err(DalucOracleError::ArithmeticOverflow("float read end")),
    };
    if end > plane.logical_bytes() {
        return Err(DalucOracleError::MalformedPayload("float read out of range"));
    }
    let bytes = plane.bytes();
    let low: u32 = bytes[offset] as u32 + 256 * (bytes[offset + 1] as u32);
    if size == 2 {
        Ok(low)
    } else {
        let high: u32 = bytes[offset + 2] as u32 + 256 * (bytes[offset + 3] as u32);
        Ok(low + 65536 * high)
    }
}

/// Whether the float stored as `bits` is finite.
pub fn float_is_finite(dtype: DalucFloatDType, bits: u32) -> (finite: bool)
    ensures
        finite == float_bits_finite(dtype, bits),
{
    match dtype {
        DalucFloatDType::F32 => (bits / 0x80_0000) % 0x100 != 0xff,
        DalucFloatDType::F16 => (bits / 0x400) % 0x20 != 0x1f,
        DalucFloatDType::Bf16 => (bits / 0x80) % 0x100 != 0xff,
    }
}

/// Whether the float stored as `bits` is greater than zero.
pub fn float_is_positive(dtype: DalucFloatDType, bits: u32) -> (positive: bool)
    ensures
        positive == float_bits_positive(dtype, bits),
{
    bits != 0 && match dtype {
        DalucFloatDType::F32 => bits < 0x8000_0000u32,
        _ => bits < 0x8000u32,
    }
}

// ---------------------------------------------------------------------------
// Stored K codebook.
// ---------------------------------------------------------------------------

/// Float `i` of the stored codebook must be readable and finite.
pub open spec fn codebook_value_check(plane: DalucOraclePlane, dtype: DalucFloatDType, i: int) -> Result<
    (),
    DalucOracleError,
> {
    let bits = float_bits_rule(plane, i as usize, dtype);
    if bits is Err {
        Err(bits->Err_0)
    } else if !float_bits_finite(dtype, bits->Ok_0) {
        Err(DalucOracleError::MalformedPayload("non-finite stored K codebook value"))
    } else {
        Ok(())
    }
}

pub open spec fn codebook_value_checks(plane: DalucOraclePlane, dtype: DalucFloatDType) -> spec_fn(
    int,
) -> Result<(), DalucOracleError> {
    |i: int| codebook_value_check(plane, dtype, i)
}

/// The stored codebook plane holds exactly the contract's codebook scalars,
/// each finite.
pub open spec fn stored_codebook_rule(contract: DalucKvViewContract, plane: DalucOraclePlane) -> Result<
    (),
    DalucOracleError,
> {
    let elements = codebook_elements_rule(contract);
    let n = elements->Ok_0;
    let bits = n * dtype_bits(contract.keys.codebook_dtype);
    if elements is Err {
        Err(elements->Err_0)
    } else if bits > usize::MAX {
        Err(DalucOracleError::ArithmeticOverflow("codebook validation bits"))
    } else if length_rule("K codebook", plane.spec_logical_bits(), bits as usize) is Err {
        length_rule("K codebook", plane.spec_logical_bits(), bits as usize)
    } else {
        scan_from(0, n, codebook_value_checks(plane, contract.keys.codebook_dtype))
    }
}

/// Scalars of the contract's K codebooks.
pub fn codebook_elements(contract: DalucKvViewContract) -> (r: Result<usize, DalucOracleError>)
    requires
        contract.keys.subspace_dim > 0,
    ensures
        match codebook_elements_rule(contract) {
            Ok(n) => r == Ok::<usize, DalucOracleError>(n as usize),
            Err(e) => r == Err::<usize, DalucOracleError>(e),
        },
{
    let scopes: usize = match contract.keys.codebook_scope {
        DalucCodebookScope::SharedAcrossKvHeads => 1,
        DalucCodebookScope::PerKvHead => contract.shape.kv_heads,
    };
    let subspaces = contract.shape.key_head_dim / contract.keys.subspace_dim;
    let tables = match scopes.checked_mul(subspaces) {
        Some(v) => v,
        None => return Err(DalucOracleError::ArithmeticOverflow("codebook elements")),
    };
    let entries = match tables.checked_mul(contract.keys.codebook_entries) {
        Some(v) => v,
        None => return Err(DalucOracleError::ArithmeticOverflow("codebook elements")),
    };
    match entries.checked_mul(contract.keys.subspace_dim) {
        Some(v) => Ok(v),
        None => Err(DalucOracleError::ArithmeticOverflow("codebook elements")),
    }
}

/// The stored K codebook has the contract's length and only finite scalars;
/// the first non-finite scalar is reported.
pub fn validate_stored_codebook(contract: DalucKvViewContract, plane: &DalucOraclePlane) -> (r: Result<
    (),
    DalucOracleError,
>)
    requires
        contract.keys.subspace_dim > 0,
    ensures
        r == stored_codebook_rule(contract, *plane),
{
    let elements = codebook_elements(contract)?;
    let width: usize = match contract.keys.codebook_dtype {
        DalucFloatDType::F32 => 32,
        _ => 16,
    };
    let expected = match elements.checked_mul(width) {
        Some(v) => v,
        None => return Err(DalucOracleError::ArithmeticOverflow("codebook validation bits")),
    };
    if plane.logical_bits() != expected {
        return Err(
            DalucOracleError::LengthMismatch {
                what: "K codebook",
                expected,
                actual: plane.logical_bits(),
            },
        );
    }
    let dtype = contract.keys.codebook_dtype;
    let ghost check = codebook_value_checks(*plane, dtype);
    let mut i: usize = 0;
    while i < elements
        invariant
            i <= elements,
            dtype == contract.keys.codebook_dtype,
            check == codebook_value_checks(*plane, dtype),
            stored_codebook_rule(contract, *plane) == scan_from(0, elements as int, check),
            scan_from(0, elements as int, check) == scan_from(i as int, elements as int, check),
        decreases elements - i,
    {
        let bits = read_float_bits(plane, i, dtype)?;
        if !float_is_finite(dtype, bits) {
            return Err(DalucOracleError::MalformedPayload("non-finite stored K codebook value"));
        }
        proof {
            assert(check(i as int) is Ok);
        }
        i = i + 1;
    }
    Ok(())
}

// ---------------------------------------------------------------------------
// Live vectors.
// ---------------------------------------------------------------------------

/// Live logical vectors of the contract: batch x kv heads x kv_len.
pub open spec fn live_vectors(contract: DalucKvViewContract) -> int {
    contract.shape.batch * contract.shape.kv_heads * contract.shape.kv_len
}

/// Check of logical vector `v`, counted in (batch, head, token) order: its
/// physical row must exist and pass `row_check`.
pub open spec fn live_vector_check(
    g: DalucOracleGeometry,
    contract: DalucKvViewContract,
    row_check: spec_fn(int) -> Result<(), DalucOracleError>,
    v: int,
) -> Result<(), DalucOracleError> {
    let s = contract.shape;
    let b = v / ((s.kv_heads * s.kv_len) as int);
    let h = (v / (s.kv_len as int)) % (s.kv_heads as int);
    let t = v % (s.kv_len as int);
    let row = physical_row_rule(g, contract, b as usize, h as usize, t as usize);
    if row is Err {
        Err(row->Err_0)
    } else {
        row_check(row->Ok_0)
    }
}

pub open spec fn live_vector_checks(
    g: DalucOracleGeometry,
    contract: DalucKvViewContract,
    row_check: spec_fn(int) -> Result<(), DalucOracleError>,
) -> spec_fn(int) -> Result<(), DalucOracleError> {
    |v: int| live_vector_check(g, contract, row_check, v)
}

/// Every live vector's row passes `row_check`; the first failure is reported.
pub open spec fn live_scan(
    g: DalucOracleGeometry,
    contract: DalucKvViewContract,
    row_check: spec_fn(int) -> Result<(), DalucOracleError>,
) -> Result<(), DalucOracleError> {
    scan_from(0, live_vectors(contract), live_vector_checks(g, contract, row_check))
}

/// Vector (`b`, `h`, `t`) is live vector `(b * heads + h) * kv_len + t`, and
/// that number decodes back to it.
proof fn lemma_live_vector(contract: DalucKvViewContract, b: usize, h: usize, t: usize)
    requires
        b < contract.shape.batch,
        h < contract.shape.kv_heads,
        t < contract.shape.kv_len,
    ensures
        ({
            let s = contract.shape;
            let v = (b * s.kv_heads + h) * s.kv_len + t;
            &&& 0 <= v < live_vectors(contract)
            &&& v / ((s.kv_heads * s.kv_len) as int) == b
            &&& (v / (s.kv_len as int)) % (s.kv_heads as int) == h
            &&& v % (s.kv_len as int) == t
        }),
{
    let s = contract.shape;
    let hh = s.kv_heads as int;
    let tt = s.kv_len as int;
    let v = (b * hh + h) * tt + t;
    assert(v == b * (hh * tt) + (h * tt + t)) by (nonlinear_arith)
        requires
            v == (b * hh + h) * tt + t,
    ;
    assert(0 <= h * tt + t < hh * tt) by (nonlinear_arith)
        requires
            h < hh,
            t < tt,
            h >= 0,
            t >= 0,
    ;
    lemma_fundamental_div_mod_converse(v, hh * tt, b as int, h * tt + t);
    lemma_fundamental_div_mod_converse(v, tt, b * hh + h, t as int);
    lemma_fundamental_div_mod_converse(b * hh + h, hh, b as int, h as int);
    assert(v < live_vectors(contract)) by (nonlinear_arith)
        requires
            v == (b * hh + h) * tt + t,
            b < s.batch,
            h < hh,
            t < tt,
            live_vectors(contract) == s.batch * hh * tt,
    ;
}

/// Stepping the (batch, head, token) counters keeps the vector count.
proof fn lemma_live_vector_steps(contract: DalucKvViewContract, b: usize, h: usize)
    ensures
        ({
            let s = contract.shape;
            &&& (b * s.kv_heads + 0) * s.kv_len == b * (s.kv_heads * s.kv_len)
            &&& (b * s.kv_heads + h) * s.kv_len + s.kv_len == (b * s.kv_heads + h + 1) * s.kv_len
            &&& (b * s.kv_heads + s.kv_heads) * s.kv_len == (b + 1) * (s.kv_heads * s.kv_len)
            &&& s.batch * (s.kv_heads * s.kv_len) == live_vectors(contract)
        }),
{
    let s = contract.shape;
    assert((b * s.kv_heads + 0) * s.kv_len == b * (s.kv_heads * s.kv_len)) by (nonlinear_arith);
    assert((b * s.kv_heads + h) * s.kv_len + s.kv_len == (b * s.kv_heads + h + 1) * s.kv_len)
        by (nonlinear_arith);
    assert((b * s.kv_heads + s.kv_heads) * s.kv_len == (b + 1) * (s.kv_heads * s.kv_len))
        by (nonlinear_arith);
    assert(s.batch * (s.kv_heads * s.kv_len) == s.batch * s.kv_heads * s.kv_len)
        by (nonlinear_arith);
}

// ---------------------------------------------------------------------------
// V planes.
// ---------------------------------------------------------------------------

/// Zero point `index` of a plane of `mode` zero points must be readable. One
/// byte per zero point is read from the whole byte buffer; two-byte zero
/// points only from logical bytes.
pub open spec fn zero_point_rule(plane: DalucOraclePlane, index: usize, mode: DalucZeroPointStorage) -> Result<
    (),
    DalucOracleError,
> {
    match mode {
        DalucZeroPointStorage::NoZeroPoint => Ok(()),
        DalucZeroPointStorage::U8 => if index < plane.spec_bytes().len() {
            Ok(())
        } else {
            Err(DalucOracleError::MalformedPayload("u8 zero point read out of range"))
        },
        DalucZeroPointStorage::U16 => if index * 2 > usize::MAX {
            Err(DalucOracleError::ArithmeticOverflow("u16 zero point read offset"))
        } else if index * 2 + 2 > bytes_for_bits_spec(plane.spec_logical_bits() as int) {
            Err(DalucOracleError::MalformedPayload("u16 zero point read out of range"))
        } else {
            Ok(())
        },
    }
}

fn check_zero_point(plane: &DalucOraclePlane, index: usize, mode: DalucZeroPointStorage) -> (r: Result<
    (),
    DalucOracleError,
>)
    ensures
        r == zero_point_rule(*plane, index, mode),
{
    match mode {
        DalucZeroPointStorage::NoZeroPoint => Ok(()),
        DalucZeroPointStorage::U8 => if index < plane.total_bytes() {
            Ok(())
        } else {
            Err(DalucOracleError::MalformedPayload("u8 zero point read out of range"))
        },
        DalucZeroPointStorage::U16 => {
            let offset = match index.checked_mul(2) {
                Some(v) => v,
                None => return Err(DalucOracleError::ArithmeticOverflow("u16 zero point read offset")),
            };
            let logical = plane.logical_bytes();
            if offset > logical || logical - offset < 2 {
                Err(DalucOracleError::MalformedPayload("u16 zero point read out of range"))
            } else {
                Ok(())
            }
        },
    }
}

/// Dense V scalar `feature` of the vector at `row` must be readable and finite.
pub open spec fn dense_value_check(
    values: DalucOraclePlane,
    dtype: DalucFloatDType,
    dim: int,
    row: int,
    feature: int,
) -> Result<(), DalucOracleError> {
    let bits = float_bits_rule(values, (row * dim + feature) as usize, dtype);
    if bits is Err {
        Err(bits->Err_0)
    } else if !float_bits_finite(dtype, bits->Ok_0) {
        Err(DalucOracleError::MalformedPayload("non-finite dense V"))
    } else {
        Ok(())
    }
}

pub open spec fn dense_value_checks(
    values: DalucOraclePlane,
    dtype: DalucFloatDType,
    dim: int,
    row: int,
) -> spec_fn(int) -> Result<(), DalucOracleError> {
    |feature: int| dense_value_check(values, dtype, dim, row, feature)
}

/// Group `group` of the vector at `row`: its scale must be readable, finite
/// and positive, and its zero point readable.
pub open spec fn value_group_check(
    scales: DalucOraclePlane,
    zero_points: DalucOraclePlane,
    scale_dtype: DalucFloatDType,
    mode: DalucZeroPointStorage,
    groups: int,
    row: int,
    group: int,
) -> Result<(), DalucOracleError> {
    let index = (row * groups + group) as usize;
    let scale = float_bits_rule(scales, index, scale_dtype);
    if scale is Err {
        Err(scale->Err_0)
    } else if !(float_bits_finite(scale_dtype, scale->Ok_0) && float_bits_positive(
        scale_dtype,
        scale->Ok_0,
    )) {
        Err(DalucOracleError::ScaleUnderflow { row: row as usize, group: group as usize })
    } else {
        zero_point_rule(zero_points, index, mode)
    }
}

pub open spec fn value_group_checks(
    scales: DalucOraclePlane,
    zero_points: DalucOraclePlane,
    scale_dtype: DalucFloatDType,
    mode: DalucZeroPointStorage,
    groups: int,
    row: int,
) -> spec_fn(int) -> Result<(), DalucOracleError> {
    |group: int| value_group_check(scales, zero_points, scale_dtype, mode, groups, row, group)
}

/// Check of the V data of the vector at `row`.
pub open spec fn value_row_check(
    contract: DalucKvViewContract,
    values: DalucOraclePlane,
    scales: DalucOraclePlane,
    zero_points: DalucOraclePlane,
    row: int,
) -> Result<(), DalucOracleError> {
    let dim = contract.shape.value_head_dim as int;
    match contract.values {
        DalucValueRepresentation::Dense { dtype } => scan_from(
            0,
            dim,
            dense_value_checks(values, dtype, dim, row),
        ),
        DalucValueRepresentation::GroupwiseAffine { group_size, scale_dtype, zero_point, .. } => {
            let groups = dim / (group_size as int);
            scan_from(
                0,
                groups,
                value_group_checks(scales, zero_points, scale_dtype, zero_point, groups, row),
            )
        },
    }
}

pub open spec fn value_row_checks(
    contract: DalucKvViewContract,
    values: DalucOraclePlane,
    scales: DalucOraclePlane,
    zero_points: DalucOraclePlane,
) -> spec_fn(int) -> Result<(), DalucOracleError> {
    |row: int| value_row_check(contract, values, scales, zero_points, row)
}

/// Per-row V data entries: features when dense, groups when packed.
pub open spec fn value_row_entries(contract: DalucKvViewContract) -> int {
    match contract.values {
        DalucValueRepresentation::Dense { .. } => contract.shape.value_head_dim as int,
        DalucValueRepresentation::GroupwiseAffine { group_size, .. } => (contract.shape.value_head_dim
            / group_size) as int,
    }
}

fn check_value_row(
    contract: DalucKvViewContract,
    values: &DalucOraclePlane,
    scales: &DalucOraclePlane,
    zero_points: &DalucOraclePlane,
    row: usize,
    rows: usize,
) -> (r: Result<(), DalucOracleError>)
    requires
        row < rows,
        rows * value_row_entries(contract) <= usize::MAX,
        contract.values matches DalucValueRepresentation::GroupwiseAffine { group_size, .. }
            ==> group_size > 0,
    ensures
        r == value_row_check(contract, *values, *scales, *zero_points, row as int),
{
    let dim = contract.shape.value_head_dim;
    match contract.values {
        DalucValueRepresentation::Dense { dtype } => {
            let ghost check = dense_value_checks(*values, dtype, dim as int, row as int);
            let mut feature: usize = 0;
            while feature < dim
                invariant
                    feature <= dim,
                    row < rows,
                    rows * dim <= usize::MAX,
                    check == dense_value_checks(*values, dtype, dim as int, row as int),
                    value_row_check(contract, *values, *scales, *zero_points, row as int)
                        == scan_from(0, dim as int, check),
                    scan_from(0, dim as int, check) == scan_from(feature as int, dim as int, check),
                decreases dim - feature,
            {
                proof {
                    assert(row * dim + feature < rows * dim) by (nonlinear_arith)
                        requires
                            row < rows,
                            feature < dim,
                    ;
                }
                let bits = read_float_bits(values, row * dim + feature, dtype)?;
                if !float_is_finite(dtype, bits) {
                    return Err(DalucOracleError::MalformedPayload("non-finite dense V"));
                }
                proof {
                    assert(check(feature as int) is Ok);
                }
                feature = feature + 1;
            }
            Ok(())
        },
        DalucValueRepresentation::GroupwiseAffine { group_size, scale_dtype, zero_point, .. } => {
            let groups = dim / group_size;
            assert(rows * groups <= usize::MAX);
            let ghost check = value_group_checks(
                *scales,
                *zero_points,
                scale_dtype,
                zero_point,
                groups as int,
                row as int,
            );
            let mut group: usize = 0;
            while group < groups
                invariant
                    group <= groups,
                    row < rows,
                    rows * groups <= usize::MAX,
                    check == value_group_checks(
                        *scales,
                        *zero_points,
                        scale_dtype,
                        zero_point,
                        groups as int,
                        row as int,
                    ),
                    value_row_check(contract, *values, *scales, *zero_points, row as int)
                        == scan_from(0, groups as int, check),
                    scan_from(0, groups as int, check) == scan_from(group as int, groups as int, check),
                decreases groups - group,
            {
                proof {
                    assert(row * groups + group < rows * groups) by (nonlinear_arith)
                        requires
                            row < rows,
                            group < groups,
                    ;
                }
                let index = row * groups + group;
                let scale = read_float_bits(scales, index, scale_dtype)?;
                if !(float_is_finite(scale_dtype, scale) && float_is_positive(scale_dtype, scale)) {
                    return Err(DalucOracleError::ScaleUnderflow { row, group });
                }
                check_zero_point(zero_points, index, zero_point)?;
                proof {
                    assert(check(group as int) is Ok);
                }
                group = group + 1;
            }
            Ok(())
        },
    }
}

/// The V data of every live vector: dense scalars finite, or every group's
/// scale finite and positive and its zero point readable. The first failure
/// in (batch, head, token, entry) order is reported.
pub fn validate_value_planes(
    contract: DalucKvViewContract,
    g: &DalucOracleGeometry,
    values: &DalucOraclePlane,
    scales: &DalucOraclePlane,
    zero_points: &DalucOraclePlane,
) -> (r: Result<(), DalucOracleError>)
    requires
        geometry_covers_live(*g, contract),
        g.physical_rows * value_row_entries(contract) <= usize::MAX,
        contract.values matches DalucValueRepresentation::GroupwiseAffine { group_size, .. }
            ==> group_size > 0,
    ensures
        r == live_scan(*g, contract, value_row_checks(contract, *values, *scales, *zero_points)),
{
    let s = contract.shape;
    let ghost row_check = value_row_checks(contract, *values, *scales, *zero_points);
    let ghost check = live_vector_checks(*g, contract, row_check);
    let ghost n = live_vectors(contract);
    let mut b: usize = 0;
    while b < s.batch
        invariant
            b <= s.batch,
            s == contract.shape,
            n == live_vectors(contract),
            row_check == value_row_checks(contract, *values, *scales, *zero_points),
            check == live_vector_checks(*g, contract, row_check),
            geometry_covers_live(*g, contract),
            g.physical_rows * value_row_entries(contract) <= usize::MAX,
            contract.values matches DalucValueRepresentation::GroupwiseAffine { group_size, .. }
                ==> group_size > 0,
            scan_from(0, n, check) == scan_from(b * (s.kv_heads * s.kv_len), n, check),
        decreases s.batch - b,
    {
        proof {
            lemma_live_vector_steps(contract, b, 0);
        }
        let mut h: usize = 0;
        while h < s.kv_heads
            invariant
                b < s.batch,
                h <= s.kv_heads,
                s == contract.shape,
                n == live_vectors(contract),
                row_check == value_row_checks(contract, *values, *scales, *zero_points),
                check == live_vector_checks(*g, contract, row_check),
                geometry_covers_live(*g, contract),
                g.physical_rows * value_row_entries(contract) <= usize::MAX,
                contract.values matches DalucValueRepresentation::GroupwiseAffine { group_size, .. }
                    ==> group_size > 0,
                scan_from(0, n, check) == scan_from((b * s.kv_heads + h) * s.kv_len, n, check),
            decreases s.kv_heads - h,
        {
            let mut t: usize = 0;
            while t < s.kv_len
                invariant
                    b < s.batch,
                    h < s.kv_heads,
                    t <= s.kv_len,
                    s == contract.shape,
                    n == live_vectors(contract),
                    row_check == value_row_checks(contract, *values, *scales, *zero_points),
                    check == live_vector_checks(*g, contract, row_check),
                    geometry_covers_live(*g, contract),
                    g.physical_rows * value_row_entries(contract) <= usize::MAX,
                    contract.values matches DalucValueRepresentation::GroupwiseAffine {
                        group_size,
                        ..
                    } ==> group_size > 0,
                    scan_from(0, n, check) == scan_from((b * s.kv_heads + h) * s.kv_len + t, n, check),
                decreases s.kv_len - t,
            {
                proof {
                    lemma_live_vector(contract, b, h, t);
                    lemma_page_entry_exists(*g, contract, b, t);
                }
                let row = g.physical_row(contract, b, h, t)?;
                check_value_row(contract, values, scales, zero_points, row, g.physical_rows)?;
                t = t + 1;
            }
            proof {
                lemma_live_vector_steps(contract, b, h);
            }
            h = h + 1;
        }
        proof {
            lemma_live_vector_steps(contract, b, h);
        }
        b = b + 1;
    }
    proof {
        lemma_live_vector_steps(contract, b, 0);
    }
    Ok(())
}

// ---------------------------------------------------------------------------
// Sparse residuals.
// ---------------------------------------------------------------------------

/// Decoded coordinate of residual slot `slot` of the vector at `row`.
pub open spec fn residual_coordinate(
    indexing: DalucOraclePlane,
    k: int,
    row: int,
    slot: int,
    index_bits: u8,
    order: DalucBitOrder,
) -> Result<u32, DalucOracleError> {
    unpack_rule(indexing, (row * k + slot) as usize, index_bits, order)
}

/// Coordinate slot `slot` must decode to a coordinate below `dimension` that
/// no earlier slot of the same vector holds.
pub open spec fn coordinate_slot_check(
    indexing: DalucOraclePlane,
    k: int,
    dimension: int,
    row: int,
    index_bits: u8,
    order: DalucBitOrder,
    slot: int,
) -> Result<(), DalucOracleError> {
    let c = residual_coordinate(indexing, k, row, slot, index_bits, order);
    if c is Err {
        Err(c->Err_0)
    } else if c->Ok_0 >= dimension || exists|j: int|
        0 <= j < slot && #[trigger] residual_coordinate(indexing, k, row, j, index_bits, order)
            == Ok::<u32, DalucOracleError>(c->Ok_0) {
        Err(DalucOracleError::MalformedPayload("residual coordinates must be unique and in range"))
    } else {
        Ok(())
    }
}

pub open spec fn coordinate_slot_checks(
    indexing: DalucOraclePlane,
    k: int,
    dimension: int,
    row: int,
    index_bits: u8,
    order: DalucBitOrder,
) -> spec_fn(int) -> Result<(), DalucOracleError> {
    |slot: int| coordinate_slot_check(indexing, k, dimension, row, index_bits, order, slot)
}

/// Bitmap bit `c` of the vector at `row` must lie inside the logical bits.
pub open spec fn bitmap_read_check(indexing: DalucOraclePlane, dimension: int, row: int, c: int) -> Result<
    (),
    DalucOracleError,
> {
    if row * dimension + c >= indexing.spec_logical_bits() {
        Err(DalucOracleError::MalformedPayload("bit read out of range"))
    } else {
        Ok(())
    }
}

pub open spec fn bitmap_read_checks(indexing: DalucOraclePlane, dimension: int, row: int) -> spec_fn(
    int,
) -> Result<(), DalucOracleError> {
    |c: int| bitmap_read_check(indexing, dimension, row, c)
}

/// Set bits among the first `n` bitmap bits of the vector at `row`.
pub open spec fn bitmap_count(
    indexing: DalucOraclePlane,
    dimension: int,
    row: int,
    order: DalucBitOrder,
    n: int,
) -> int
    decreases n,
{
    if n <= 0 {
        0
    } else {
        bitmap_count(indexing, dimension, row, order, n - 1) + if stream_bit(
            indexing.spec_bytes(),
            row * dimension + n - 1,
            order,
        ) {
            1int
        } else {
            0int
        }
    }
}

/// Index part of the residual of the vector at `row`: unique in-range
/// coordinates, or a readable bitmap with exactly `k` set bits.
pub open spec fn residual_index_check(
    residual: DalucSparseResidual,
    dimension: int,
    indexing: DalucOraclePlane,
    row: int,
) -> Result<(), DalucOracleError> {
    let k = residual.max_entries_per_vector as int;
    match residual.indexing {
        DalucResidualIndexing::Coordinates { index_bits, bit_order } => scan_from(
            0,
            k,
            coordinate_slot_checks(indexing, k, dimension, row, index_bits, bit_order),
        ),
        DalucResidualIndexing::Bitmap { bit_order } => if scan_from(
            0,
            dimension,
            bitmap_read_checks(indexing, dimension, row),
        ) is Err {
            scan_from(0, dimension, bitmap_read_checks(indexing, dimension, row))
        } else if bitmap_count(indexing, dimension, row, bit_order, dimension) != k {
            Err(DalucOracleError::MalformedPayload("residual bitmap must contain the fixed oracle budget"))
        } else {
            Ok(())
        },
    }
}

/// Residual value slot `slot` of the vector at `row` must be readable and
/// finite.
pub open spec fn residual_value_check(
    values: DalucOraclePlane,
    dtype: DalucFloatDType,
    k: int,
    row: int,
    slot: int,
) -> Result<(), DalucOracleError> {
    let bits = float_bits_rule(values, (row * k + slot) as usize, dtype);
    if bits is Err {
        Err(bits->Err_0)
    } else if !float_bits_finite(dtype, bits->Ok_0) {
        Err(DalucOracleError::MalformedPayload("non-finite residual value"))
    } else {
        Ok(())
    }
}

pub open spec fn residual_value_checks(
    values: DalucOraclePlane,
    dtype: DalucFloatDType,
    k: int,
    row: int,
) -> spec_fn(int) -> Result<(), DalucOracleError> {
    |slot: int| residual_value_check(values, dtype, k, row, slot)
}

/// Residual of the vector at `row`: its index part, then its `k` values.
pub open spec fn residual_row_check(
    residual: DalucSparseResidual,
    dimension: int,
    values: DalucOraclePlane,
    indexing: DalucOraclePlane,
    row: int,
) -> Result<(), DalucOracleError> {
    let k = residual.max_entries_per_vector as int;
    if residual_index_check(residual, dimension, indexing, row) is Err {
        residual_index_check(residual, dimension, indexing, row)
    } else {
        scan_from(0, k, residual_value_checks(values, residual.value_dtype, k, row))
    }
}

pub open spec fn residual_row_checks(
    residual: DalucSparseResidual,
    dimension: int,
    values: DalucOraclePlane,
    indexing: DalucOraclePlane,
) -> spec_fn(int) -> Result<(), DalucOracleError> {
    |row: int| residual_row_check(residual, dimension, values, indexing, row)
}

/// The residual planes of one side: nothing to check without a residual,
/// else every live vector's residual.
pub open spec fn live_residuals_rule(
    g: DalucOracleGeometry,
    contract: DalucKvViewContract,
    values: DalucOraclePlane,
    indexing: DalucOraclePlane,
    key_side: bool,
) -> Result<(), DalucOracleError> {
    let (dimension, semantics) = side_residual(contract, key_side);
    match semantics {
        DalucResidualSemantics::NoResidual => Ok(()),
        DalucResidualSemantics::Sparse(residual) => live_scan(
            g,
            contract,
            residual_row_checks(residual, dimension as int, values, indexing),
        ),
    }
}

/// The size limits a side's residual walk needs: row offsets of the residual
/// slots and bitmap bits fit in `usize`, and coordinates are at most 32 bits.
pub open spec fn residual_limits(rows: int, contract: DalucKvViewContract, key_side: bool) -> bool {
    let (dimension, semantics) = side_residual(contract, key_side);
    semantics matches DalucResidualSemantics::Sparse(residual) ==> {
        &&& rows * residual.max_entries_per_vector <= usize::MAX
        &&& residual.indexing matches DalucResidualIndexing::Bitmap { .. } ==> rows * dimension
            <= usize::MAX
        &&& residual.indexing matches DalucResidualIndexing::Coordinates { index_bits, .. }
            ==> index_bits <= 32
    }
}

fn check_coordinates(
    indexing: &DalucOraclePlane,
    k: usize,
    dimension: usize,
    row: usize,
    rows: usize,
    index_bits: u8,
    order: DalucBitOrder,
) -> (r: Result<(), DalucOracleError>)
    requires
        row < rows,
        rows * k <= usize::MAX,
        index_bits <= 32,
    ensures
        r == scan_from(
            0,
            k as int,
            coordinate_slot_checks(*indexing, k as int, dimension as int, row as int, index_bits, order),
        ),
{
    let ghost check = coordinate_slot_checks(
        *indexing,
        k as int,
        dimension as int,
        row as int,
        index_bits,
        order,
    );
    let mut seen: Vec<bool> = Vec::new();
    let mut c: usize = 0;
    while c < dimension
        invariant
            c <= dimension,
            seen@.len() == c,
            forall|i: int| 0 <= i < c ==> !#[trigger] seen@[i],
        decreases dimension - c,
    {
        seen.push(false);
        c = c + 1;
    }
    let mut slot: usize = 0;
    while slot < k
        invariant
            slot <= k,
            row < rows,
            rows * k <= usize::MAX,
            index_bits <= 32,
            seen@.len() == dimension,
            check == coordinate_slot_checks(
                *indexing,
                k as int,
                dimension as int,
                row as int,
                index_bits,
                order,
            ),
            forall|j: int|
                0 <= j < slot ==> #[trigger] residual_coordinate(
                    *indexing,
                    k as int,
                    row as int,
                    j,
                    index_bits,
                    order,
                ) is Ok,
            forall|i: int|
                0 <= i < dimension ==> #[trigger] seen@[i] == exists|j: int|
                    0 <= j < slot && #[trigger] residual_coordinate(
                        *indexing,
                        k as int,
                        row as int,
                        j,
                        index_bits,
                        order,
                    )->Ok_0 == i,
            scan_from(0, k as int, check) == scan_from(slot as int, k as int, check),
        decreases k - slot,
    {
        proof {
            assert(row * k + slot < rows * k) by (nonlinear_arith)
                requires
                    row < rows,
                    slot < k,
            ;
        }
        let coordinate = unpack_integer(indexing, row * k + slot, index_bits, order)?;
        let ghost current = residual_coordinate(
            *indexing,
            k as int,
            row as int,
            slot as int,
            index_bits,
            order,
        );
        assert(current == Ok::<u32, DalucOracleError>(coordinate));
        if coordinate as usize >= dimension {
            return Err(
                DalucOracleError::MalformedPayload("residual coordinates must be unique and in range"),
            );
        }
        if seen[coordinate as usize] {
            proof {
                let j = choose|j: int|
                    0 <= j < slot && #[trigger] residual_coordinate(
                        *indexing,
                        k as int,
                        row as int,
                        j,
                        index_bits,
                        order,
                    )->Ok_0 == coordinate as int;
                assert(residual_coordinate(*indexing, k as int, row as int, j, index_bits, order) is Ok);
                assert(check(slot as int) is Err);
            }
            return Err(
                DalucOracleError::MalformedPayload("residual coordinates must be unique and in range"),
            );
        }
        proof {
            if exists|j: int|
                0 <= j < slot && #[trigger] residual_coordinate(
                    *indexing,
                    k as int,
                    row as int,
                    j,
                    index_bits,
                    order,
                ) == Ok::<u32, DalucOracleError>(coordinate) {
                let j = choose|j: int|
                    0 <= j < slot && #[trigger] residual_coordinate(
                        *indexing,
                        k as int,
                        row as int,
                        j,
                        index_bits,
                        order,
                    ) == Ok::<u32, DalucOracleError>(coordinate);
                assert(residual_coordinate(*indexing, k as int, row as int, j, index_bits, order)->Ok_0
                    == coordinate as int);
                assert(seen@[coordinate as int]);
            }
            assert(check(slot as int) is Ok);
        }
        let ghost before = seen@;
        seen.set(coordinate as usize, true);
        proof {
            assert forall|i: int| 0 <= i < dimension implies #[trigger] seen@[i] == exists|j: int|
                0 <= j < slot + 1 && #[trigger] residual_coordinate(
                    *indexing,
                    k as int,
                    row as int,
                    j,
                    index_bits,
                    order,
                )->Ok_0 == i by {
                if i == coordinate as int {
                    assert(residual_coordinate(
                        *indexing,
                        k as int,
                        row as int,
                        slot as int,
                        index_bits,
                        order,
                    )->Ok_0 == i);
                } else {
                    assert(seen@[i] == before[i]);
                    if exists|j: int|
                        0 <= j < slot + 1 && #[trigger] residual_coordinate(
                            *indexing,
                            k as int,
                            row as int,
                            j,
                            index_bits,
                            order,
                        )->Ok_0 == i {
                        let j = choose|j: int|
                            0 <= j < slot + 1 && #[trigger] residual_coordinate(
                                *indexing,
                                k as int,
                                row as int,
                                j,
                                index_bits,
                                order,
                            )->Ok_0 == i;
                        assert(j != slot);
                    }
                }
            }
        }
        slot = slot + 1;
    }
    Ok(())
}

fn check_bitmap(
    indexing: &DalucOraclePlane,
    k: usize,
    dimension: usize,
    row: usize,
    rows: usize,
    order: DalucBitOrder,
) -> (r: Result<(), DalucOracleError>)
    requires
        row < rows,
        rows * dimension <= usize::MAX,
    ensures
        r == (if scan_from(
            0,
            dimension as int,
            bitmap_read_checks(*indexing, dimension as int, row as int),
        ) is Err {
            scan_from(0, dimension as int, bitmap_read_checks(*indexing, dimension as int, row as int))
        } else if bitmap_count(*indexing, dimension as int, row as int, order, dimension as int)
            != k {
            Err(DalucOracleError::MalformedPayload("residual bitmap must contain the fixed oracle budget"))
        } else {
            Ok(())
        }),
{
    let ghost check = bitmap_read_checks(*indexing, dimension as int, row as int);
    let mut count: usize = 0;
    let mut c: usize = 0;
    while c < dimension
        invariant
            c <= dimension,
            row < rows,
            rows * dimension <= usize::MAX,
            count <= c,
            count == bitmap_count(*indexing, dimension as int, row as int, order, c as int),
            check == bitmap_read_checks(*indexing, dimension as int, row as int),
            scan_from(0, dimension as int, check) == scan_from(c as int, dimension as int, check),
        decreases dimension - c,
    {
        proof {
            assert(row * dimension + c < rows * dimension) by (nonlinear_arith)
                requires
                    row < rows,
                    c < dimension,
            ;
        }
        let set = get_stream_bit(indexing, row * dimension + c, order)?;
        if set {
            count = count + 1;
        }
        proof {
            assert(check(c as int) is Ok);
        }
        c = c + 1;
    }
    if count != k {
        return Err(
            DalucOracleError::MalformedPayload("residual bitmap must contain the fixed oracle budget"),
        );
    }
    Ok(())
}

fn check_residual_values(
    values: &DalucOraclePlane,
    dtype: DalucFloatDType,
    k: usize,
    row: usize,
    rows: usize,
) -> (r: Result<(), DalucOracleError>)
    requires
        row < rows,
        rows * k <= usize::MAX,
    ensures
        r == scan_from(0, k as int, residual_value_checks(*values, dtype, k as int, row as int)),
{
    let ghost check = residual_value_checks(*values, dtype, k as int, row as int);
    let mut slot: usize = 0;
    while slot < k
        invariant
            slot <= k,
            row < rows,
            rows * k <= usize::MAX,
            check == residual_value_checks(*values, dtype, k as int, row as int),
            scan_from(0, k as int, check) == scan_from(slot as int, k as int, check),
        decreases k - slot,
    {
        proof {
            assert(row * k + slot < rows * k) by (nonlinear_arith)
                requires
                    row < rows,
                    slot < k,
            ;
        }
        let bits = read_float_bits(values, row * k + slot, dtype)?;
        if !float_is_finite(dtype, bits) {
            return Err(DalucOracleError::MalformedPayload("non-finite residual value"));
        }
        proof {
            assert(check(slot as int) is Ok);
        }
        slot = slot + 1;
    }
    Ok(())
}

fn check_residual_row(
    residual: DalucSparseResidual,
    dimension: usize,
    values: &DalucOraclePlane,
    indexing: &DalucOraclePlane,
    row: usize,
    rows: usize,
) -> (r: Result<(), DalucOracleError>)
    requires
        row < rows,
        rows * residual.max_entries_per_vector <= usize::MAX,
        residual.indexing matches DalucResidualIndexing::Bitmap { .. } ==> rows * dimension
            <= usize::MAX,
        residual.indexing matches DalucResidualIndexing::Coordinates { index_bits, .. }
            ==> index_bits <= 32,
    ensures
        r == residual_row_check(residual, dimension as int, *values, *indexing, row as int),
{
    let k = residual.max_entries_per_vector;
    match residual.indexing {
        DalucResidualIndexing::Coordinates { index_bits, bit_order } => {
            check_coordinates(indexing, k, dimension, row, rows, index_bits, bit_order)?;
        },
        DalucResidualIndexing::Bitmap { bit_order } => {
            check_bitmap(indexing, k, dimension, row, rows, bit_order)?;
        },
    }
    check_residual_values(values, residual.value_dtype, k, row, rows)
}

/// The sparse residual of every live vector of one side: coordinates unique
/// and in range (or a bitmap with exactly the fixed budget of set bits), and
/// every stored residual value finite. Without a residual nothing is read.
pub fn validate_live_residuals(
    contract: DalucKvViewContract,
    g: &DalucOracleGeometry,
    values: &DalucOraclePlane,
    indexing: &DalucOraclePlane,
    key_side: bool,
) -> (r: Result<(), DalucOracleError>)
    requires
        geometry_covers_live(*g, contract),
        residual_limits(g.physical_rows as int, contract, key_side),
    ensures
        r == live_residuals_rule(*g, contract, *values, *indexing, key_side),
{
    let (dimension, semantics) = if key_side {
        (contract.shape.key_head_dim, contract.keys.residual)
    } else {
        match contract.values {
            DalucValueRepresentation::Dense { .. } => (
                contract.shape.value_head_dim,
                DalucResidualSemantics::NoResidual,
            ),
            DalucValueRepresentation::GroupwiseAffine { residual, .. } => (
                contract.shape.value_head_dim,
                residual,
            ),
        }
    };
    let residual = match semantics {
        DalucResidualSemantics::NoResidual => return Ok(()),
        DalucResidualSemantics::Sparse(residual) => residual,
    };
    let s = contract.shape;
    let ghost row_check = residual_row_checks(residual, dimension as int, *values, *indexing);
    let ghost check = live_vector_checks(*g, contract, row_check);
    let ghost n = live_vectors(contract);
    assert(live_residuals_rule(*g, contract, *values, *indexing, key_side) == scan_from(0, n, check));
    let mut b: usize = 0;
    while b < s.batch
        invariant
            b <= s.batch,
            s == contract.shape,
            n == live_vectors(contract),
            row_check == residual_row_checks(residual, dimension as int, *values, *indexing),
            check == live_vector_checks(*g, contract, row_check),
            geometry_covers_live(*g, contract),
            g.physical_rows * residual.max_entries_per_vector <= usize::MAX,
            residual.indexing matches DalucResidualIndexing::Bitmap { .. } ==> g.physical_rows
                * dimension <= usize::MAX,
            residual.indexing matches DalucResidualIndexing::Coordinates { index_bits, .. }
                ==> index_bits <= 32,
            live_residuals_rule(*g, contract, *values, *indexing, key_side) == scan_from(0, n, check),
            scan_from(0, n, check) == scan_from(b * (s.kv_heads * s.kv_len), n, check),
        decreases s.batch - b,
    {
        proof {
            lemma_live_vector_steps(contract, b, 0);
        }
        let mut h: usize = 0;
        while h < s.kv_heads
            invariant
                b < s.batch,
                h <= s.kv_heads,
                s == contract.shape,
                n == live_vectors(contract),
                row_check == residual_row_checks(residual, dimension as int, *values, *indexing),
                check == live_vector_checks(*g, contract, row_check),
                geometry_covers_live(*g, contract),
                g.physical_rows * residual.max_entries_per_vector <= usize::MAX,
                residual.indexing matches DalucResidualIndexing::Bitmap { .. } ==> g.physical_rows
                * dimension <= usize::MAX,
                residual.indexing matches DalucResidualIndexing::Coordinates { index_bits, .. }
                    ==> index_bits <= 32,
                live_residuals_rule(*g, contract, *values, *indexing, key_side) == scan_from(0, n, check),
                scan_from(0, n, check) == scan_from((b * s.kv_heads + h) * s.kv_len, n, check),
            decreases s.kv_heads - h,
        {
            let mut t: usize = 0;
            while t < s.kv_len
                invariant
                    b < s.batch,
                    h < s.kv_heads,
                    t <= s.kv_len,
                    s == contract.shape,
                    n == live_vectors(contract),
                    row_check == residual_row_checks(residual, dimension as int, *values, *indexing),
                    check == live_vector_checks(*g, contract, row_check),
                    geometry_covers_live(*g, contract),
                    g.physical_rows * residual.max_entries_per_vector <= usize::MAX,
                    residual.indexing matches DalucResidualIndexing::Bitmap { .. } ==> g.physical_rows
                * dimension <= usize::MAX,
                    residual.indexing matches DalucResidualIndexing::Coordinates { index_bits, .. }
                        ==> index_bits <= 32,
                    live_residuals_rule(*g, contract, *values, *indexing, key_side) == scan_from(
                        0,
                        n,
                        check,
                    ),
                    scan_from(0, n, check) == scan_from((b * s.kv_heads + h) * s.kv_len + t, n, check),
                decreases s.kv_len - t,
            {
                proof {
                    lemma_live_vector(contract, b, h, t);
                    lemma_page_entry_exists(*g, contract, b, t);
                }
                let row = g.physical_row(contract, b, h, t)?;
                check_residual_row(residual, dimension, values, indexing, row, g.physical_rows)?;
                t = t + 1;
            }
            proof {
                lemma_live_vector_steps(contract, b, h);
            }
            h = h + 1;
        }
        proof {
            lemma_live_vector_steps(contract, b, h);
        }
        b = b + 1;
    }
    proof {
        lemma_live_vector_steps(contract, b, 0);
    }
    Ok(())
}

// ---------------------------------------------------------------------------
// K codebook indices.
// ---------------------------------------------------------------------------

/// Acceptance of one decoded K codebook index: the contract must validate
/// and the index must name a codebook entry.
pub open spec fn codebook_index_rule(contract: DalucKvViewContract, index: u32) -> Result<
    (),
    DalucKvViewError,
> {
    first_failure(
        contract_rule(contract),
        if index as int >= contract.keys.codebook_entries as int {
            Err(
                DalucKvViewError::CodebookIndexOutOfRange {
                    index,
                    codebook_entries: contract.keys.codebook_entries,
                },
            )
        } else {
            Ok(())
        },
    )
}

/// Subspace `sub` of the vector at `row`: its codebook index must decode and
/// name a codebook entry.
pub open spec fn key_index_check(contract: DalucKvViewContract, plane: DalucOraclePlane, row: int, sub: int) -> Result<
    (),
    DalucOracleError,
> {
    let subspaces = contract.shape.key_head_dim / contract.keys.subspace_dim;
    let index = unpack_rule(
        plane,
        (row * subspaces + sub) as usize,
        contract.keys.index_bits,
        contract.keys.index_bit_order,
    );
    if index is Err {
        Err(index->Err_0)
    } else if codebook_index_rule(contract, index->Ok_0) is Err {
        Err(DalucOracleError::Contract(codebook_index_rule(contract, index->Ok_0)->Err_0))
    } else {
        Ok(())
    }
}

pub open spec fn key_index_checks(contract: DalucKvViewContract, plane: DalucOraclePlane, row: int) -> spec_fn(
    int,
) -> Result<(), DalucOracleError> {
    |sub: int| key_index_check(contract, plane, row, sub)
}

/// Every codebook index of the vector at `row`, in subspace order.
pub open spec fn key_index_row_check(contract: DalucKvViewContract, plane: DalucOraclePlane, row: int) -> Result<
    (),
    DalucOracleError,
> {
    scan_from(
        0,
        (contract.shape.key_head_dim / contract.keys.subspace_dim) as int,
        key_index_checks(contract, plane, row),
    )
}

pub open spec fn key_index_row_checks(contract: DalucKvViewContract, plane: DalucOraclePlane) -> spec_fn(
    int,
) -> Result<(), DalucOracleError> {
    |row: int| key_index_row_check(contract, plane, row)
}

fn check_key_index_row(contract: DalucKvViewContract, plane: &DalucOraclePlane, row: usize, rows: usize) -> (r:
    Result<(), DalucOracleError>)
    requires
        row < rows,
        contract.keys.subspace_dim > 0,
        contract.keys.index_bits <= 32,
        rows * (contract.shape.key_head_dim / contract.keys.subspace_dim) <= usize::MAX,
    ensures
        r == key_index_row_check(contract, *plane, row as int),
{
    let subspaces = contract.shape.key_head_dim / contract.keys.subspace_dim;
    let ghost check = key_index_checks(contract, *plane, row as int);
    let mut sub: usize = 0;
    while sub < subspaces
        invariant
            sub <= subspaces,
            subspaces == contract.shape.key_head_dim / contract.keys.subspace_dim,
            row < rows,
            rows * subspaces <= usize::MAX,
            contract.keys.index_bits <= 32,
            check == key_index_checks(contract, *plane, row as int),
            scan_from(0, subspaces as int, check) == scan_from(sub as int, subspaces as int, check),
        decreases subspaces - sub,
    {
        proof {
            assert(row * subspaces + sub < rows * subspaces) by (nonlinear_arith)
                requires
                    row < rows,
                    sub < subspaces,
            ;
        }
        let index = unpack_integer(
            plane,
            row * subspaces + sub,
            contract.keys.index_bits,
            contract.keys.index_bit_order,
        )?;
        match contract.validate_codebook_index(index) {
            Ok(()) => {},
            Err(e) => return Err(DalucOracleError::Contract(e)),
        }
        proof {
            assert(check(sub as int) is Ok);
        }
        sub = sub + 1;
    }
    Ok(())
}

/// Every live K vector's codebook indices, read from `plane`, name codebook
/// entries; the first offending vector and subspace is reported.
pub fn validate_live_key_indices(
    contract: DalucKvViewContract,
    g: &DalucOracleGeometry,
    plane: &DalucOraclePlane,
) -> (r: Result<(), DalucOracleError>)
    requires
        geometry_covers_live(*g, contract),
        contract.keys.subspace_dim > 0,
        contract.keys.index_bits <= 32,
        g.physical_rows * (contract.shape.key_head_dim / contract.keys.subspace_dim) <= usize::MAX,
    ensures
        r == live_scan(*g, contract, key_index_row_checks(contract, *plane)),
{
    let s = contract.shape;
    let ghost row_check = key_index_row_checks(contract, *plane);
    let ghost check = live_vector_checks(*g, contract, row_check);
    let ghost n = live_vectors(contract);
    let mut b: usize = 0;
    while b < s.batch
        invariant
            b <= s.batch,
            s == contract.shape,
            n == live_vectors(contract),
            row_check == key_index_row_checks(contract, *plane),
            check == live_vector_checks(*g, contract, row_check),
            geometry_covers_live(*g, contract),
            contract.keys.subspace_dim > 0,
            contract.keys.index_bits <= 32,
            g.physical_rows * (s.key_head_dim / contract.keys.subspace_dim) <= usize::MAX,
            scan_from(0, n, check) == scan_from(b * (s.kv_heads * s.kv_len), n, check),
        decreases s.batch - b,
    {
        proof {
            lemma_live_vector_steps(contract, b, 0);
        }
        let mut h: usize = 0;
        while h < s.kv_heads
            invariant
                b < s.batch,
                h <= s.kv_heads,
                s == contract.shape,
                n == live_vectors(contract),
                row_check == key_index_row_checks(contract, *plane),
                check == live_vector_checks(*g, contract, row_check),
                geometry_covers_live(*g, contract),
                contract.keys.subspace_dim > 0,
                contract.keys.index_bits <= 32,
                g.physical_rows * (s.key_head_dim / contract.keys.subspace_dim) <= usize::MAX,
                scan_from(0, n, check) == scan_from((b * s.kv_heads + h) * s.kv_len, n, check),
            decreases s.kv_heads - h,
        {
            let mut t: usize = 0;
            while t < s.kv_len
                invariant
                    b < s.batch,
                    h < s.kv_heads,
                    t <= s.kv_len,
                    s == contract.shape,
                    n == live_vectors(contract),
                    row_check == key_index_row_checks(contract, *plane),
                    check == live_vector_checks(*g, contract, row_check),
                    geometry_covers_live(*g, contract),
                    contract.keys.subspace_dim > 0,
                    contract.keys.index_bits <= 32,
                    g.physical_rows * (s.key_head_dim / contract.keys.subspace_dim) <= usize::MAX,
                    scan_from(0, n, check) == scan_from((b * s.kv_heads + h) * s.kv_len + t, n, check),
                decreases s.kv_len - t,
            {
                proof {
                    lemma_live_vector(contract, b, h, t);
                    lemma_page_entry_exists(*g, contract, b, t);
                }
                let row = g.physical_row(contract, b, h, t)?;
                check_key_index_row(contract, plane, row, g.physical_rows)?;
                t = t + 1;
            }
            proof {
                lemma_live_vector_steps(contract, b, h);
            }
            h = h + 1;
        }
        proof {
            lemma_live_vector_steps(contract, b, h);
        }
        b = b + 1;
    }
    proof {
        lemma_live_vector_steps(contract, b, 0);
    }
    Ok(())
}

// ---------------------------------------------------------------------------
// Geometry of a stored payload.
// ---------------------------------------------------------------------------

/// The first `n` little-endian 32-bit words of a plane.
pub open spec fn plane_words(plane: DalucOraclePlane, n: int) -> Seq<u32> {
    Seq::new(n as nat, |i: int| le_u32(plane.spec_bytes(), 4 * i) as u32)
}

/// A word's four little-endian bytes put back together give the word.
proof fn lemma_le_bytes_rebuild(v: u32)
    ensures
        le_byte(v, 0) + 256 * le_byte(v, 1) + 65536 * (le_byte(v, 2) + 256 * le_byte(v, 3)) == v,
{
    let b0 = ((v >> 0u32) & 0xffu32) as u8;
    let b1 = ((v >> 8u32) & 0xffu32) as u8;
    let b2 = ((v >> 16u32) & 0xffu32) as u8;
    let b3 = ((v >> 24u32) & 0xffu32) as u8;
    assert(b0 as u32 + 256 * (b1 as u32) + 65536 * (b2 as u32 + 256 * (b3 as u32)) == v) by (bit_vector)
        requires
            b0 == ((v >> 0u32) & 0xffu32) as u8,
            b1 == ((v >> 8u32) & 0xffu32) as u8,
            b2 == ((v >> 16u32) & 0xffu32) as u8,
            b3 == ((v >> 24u32) & 0xffu32) as u8,
    ;
    assert(le_byte(v, 0) == b0);
    assert(le_byte(v, 1) == b1);
    assert(le_byte(v, 2) == b2);
    assert(le_byte(v, 3) == b3);
}

/// A page table serialized as little-endian words reads back word for word:
/// the stored geometry of a paged payload sees the table that was written.
pub proof fn lemma_page_table_words_round_trip(plane: DalucOraclePlane, table: Seq<u32>)
    requires
        plane.spec_bytes().len() >= table.len() * 4,
        forall|i: int, j: int|
            0 <= i < table.len() && 0 <= j < 4 ==> #[trigger] plane.spec_bytes()[4 * i + j] == le_byte(
                table[i],
                j,
            ),
    ensures
        plane_words(plane, table.len() as int) == table,
{
    assert forall|i: int| 0 <= i < table.len() implies #[trigger] plane_words(plane, table.len() as int)[i]
        == table[i] by {
        let bytes = plane.spec_bytes();
        assert(bytes[4 * i + 0] == le_byte(table[i], 0));
        assert(bytes[4 * i + 1] == le_byte(table[i], 1));
        assert(bytes[4 * i + 2] == le_byte(table[i], 2));
        assert(bytes[4 * i + 3] == le_byte(table[i], 3));
        lemma_le_bytes_rebuild(table[i]);
    }
    assert(plane_words(plane, table.len() as int) =~= table);
}

/// The page table a stored page-table plane carries: none for contiguous
/// storage, which must carry no page metadata, else exactly one little-endian
/// word per logical page of each batch.
pub open spec fn stored_page_table_rule(contract: DalucKvViewContract, plane: DalucOraclePlane) -> Result<
    Option<Seq<u32>>,
    DalucOracleError,
> {
    match contract.layout.topology {
        DalucStorageTopology::Contiguous { .. } => if plane.spec_logical_bits() != 0
            || plane.spec_bytes().len() != 0 {
            Err(DalucOracleError::InvalidPageTable("contiguous payload contains page metadata"))
        } else {
            Ok(None)
        },
        DalucStorageTopology::Paged { page_size, .. } => {
            let pages = ceil_div_rule(contract.shape.kv_len, page_size);
            let entries = contract.shape.batch * pages->Ok_0;
            let logical_bytes = bytes_for_bits_spec(plane.spec_logical_bits() as int);
            if plane.spec_logical_bits() % 32 != 0 {
                Err(DalucOracleError::InvalidPageTable("page table is not a whole u32 stream"))
            } else if pages is Err {
                Err(pages->Err_0)
            } else if entries > usize::MAX {
                Err(DalucOracleError::ArithmeticOverflow("page table entries"))
            } else if entries * 4 > usize::MAX {
                Err(DalucOracleError::ArithmeticOverflow("page table bytes"))
            } else if logical_bytes != entries * 4 {
                Err(
                    DalucOracleError::LengthMismatch {
                        what: "page table bytes",
                        expected: (entries * 4) as usize,
                        actual: logical_bytes as usize,
                    },
                )
            } else {
                Ok(Some(plane_words(plane, entries)))
            }
        },
    }
}

/// The geometry of a stored payload: its page table read back from the
/// page-table plane, then checked as a supplied table would be.
pub open spec fn stored_geometry_rule(contract: DalucKvViewContract, plane: DalucOraclePlane) -> Result<
    (int, int, int, Seq<u32>),
    DalucOracleError,
> {
    let table = stored_page_table_rule(contract, plane);
    if table is Err {
        Err(table->Err_0)
    } else {
        geometry_rule(contract, table->Ok_0)
    }
}

/// `g` is the geometry (capacity, physical rows, logical pages per batch,
/// page table) described by `view`.
pub open spec fn geometry_is(g: DalucOracleGeometry, view: (int, int, int, Seq<u32>)) -> bool {
    &&& g.capacity_tokens == view.0
    &&& g.physical_rows == view.1
    &&& g.logical_pages_per_batch == view.2
    &&& g.page_table@ == view.3
}

/// Rebuild the geometry of a stored payload from its page-table plane.
pub fn geometry_from_page_table_plane(contract: DalucKvViewContract, plane: &DalucOraclePlane) -> (r:
    Result<DalucOracleGeometry, DalucOracleError>)
    requires
        contract.layout.topology matches DalucStorageTopology::Paged { page_size, .. }
            ==> page_size > 0,
    ensures
        match stored_geometry_rule(contract, *plane) {
            Ok(view) => r matches Ok(g) && geometry_is(g, view),
            Err(e) => r == Err::<DalucOracleGeometry, DalucOracleError>(e),
        },
{
    match contract.layout.topology {
        DalucStorageTopology::Contiguous { .. } => {
            if plane.logical_bits() != 0 || plane.total_bytes() != 0 {
                return Err(DalucOracleError::InvalidPageTable("contiguous payload contains page metadata"));
            }
            DalucOracleGeometry::new(contract, None)
        },
        DalucStorageTopology::Paged { page_size, .. } => {
            if plane.logical_bits() % 32 != 0 {
                return Err(DalucOracleError::InvalidPageTable("page table is not a whole u32 stream"));
            }
            let pages = match contract.shape.kv_len.checked_add(page_size - 1) {
                Some(v) => v / page_size,
                None => return Err(DalucOracleError::ArithmeticOverflow("ceil division")),
            };
            let entries = match contract.shape.batch.checked_mul(pages) {
                Some(v) => v,
                None => return Err(DalucOracleError::ArithmeticOverflow("page table entries")),
            };
            let expected = match entries.checked_mul(4) {
                Some(v) => v,
                None => return Err(DalucOracleError::ArithmeticOverflow("page table bytes")),
            };
            let logical_bytes = plane.logical_bytes();
            if logical_bytes != expected {
                return Err(
                    DalucOracleError::LengthMismatch {
                        what: "page table bytes",
                        expected,
                        actual: logical_bytes,
                    },
                );
            }
            let bytes = plane.bytes();
            let mut table: Vec<u32> = Vec::new();
            let mut i: usize = 0;
            while i < entries
                invariant
                    i <= entries,
                    expected == entries * 4,
                    bytes@ == plane.spec_bytes(),
                    bytes@.len() >= expected,
                    table@ == plane_words(*plane, i as int),
                decreases entries - i,
            {
                let at = 4 * i;
                let low: u32 = bytes[at] as u32 + 256 * (bytes[at + 1] as u32);
                let high: u32 = bytes[at + 2] as u32 + 256 * (bytes[at + 3] as u32);
                table.push(low + 65536 * high);
                i = i + 1;
                proof {
                    assert(table@ =~= plane_words(*plane, i as int));
                }
            }
            let ghost words = table@;
            let g = DalucOracleGeometry::new(contract, Some(table.as_slice()));
            proof {
                assert(stored_page_table_rule(contract, *plane) == Ok::<
                    Option<Seq<u32>>,
                    DalucOracleError,
                >(Some(words)));
            }
            g
        },
    }
}

// ---------------------------------------------------------------------------
// The payload.
// ---------------------------------------------------------------------------

/// Fully owned host-oracle payload: a view contract and its ten byte planes.
///
/// Physical planes follow the contract's row order and storage topology.
#[derive(Debug, Clone, PartialEq, Eq)]
pub struct DalucOraclePayload {
    payload_version: u16,
    contract: DalucKvViewContract,
    key_codebook: DalucOraclePlane,
    key_indices: DalucOraclePlane,
    key_residual_values: DalucOraclePlane,
    key_residual_indexing: DalucOraclePlane,
    values: DalucOraclePlane,
    value_scales: DalucOraclePlane,
    value_zero_points: DalucOraclePlane,
    value_residual_values: DalucOraclePlane,
    value_residual_indexing: DalucOraclePlane,
    page_table: DalucOraclePlane,
}

/// The ten planes of a payload, in storage order.
pub struct DalucPayloadPlanes {
    pub key_codebook: DalucOraclePlane,
    pub key_indices: DalucOraclePlane,
    pub key_residual_values: DalucOraclePlane,
    pub key_residual_indexing: DalucOraclePlane,
    pub values: DalucOraclePlane,
    pub value_scales: DalucOraclePlane,
    pub value_zero_points: DalucOraclePlane,
    pub value_residual_values: DalucOraclePlane,
    pub value_residual_indexing: DalucOraclePlane,
    pub page_table: DalucOraclePlane,
}

/// Logical bit lengths of a payload's planes.
pub open spec fn planes_bits(planes: DalucPayloadPlanes) -> DalucPlaneBits {
    DalucPlaneBits {
        key_codebook: planes.key_codebook.spec_logical_bits(),
        key_indices: planes.key_indices.spec_logical_bits(),
        key_residual_values: planes.key_residual_values.spec_logical_bits(),
        key_residual_indexing: planes.key_residual_indexing.spec_logical_bits(),
        values: planes.values.spec_logical_bits(),
        value_scales: planes.value_scales.spec_logical_bits(),
        value_zero_points: planes.value_zero_points.spec_logical_bits(),
        value_residual_values: planes.value_residual_values.spec_logical_bits(),
        value_residual_indexing: planes.value_residual_indexing.spec_logical_bits(),
        page_table: planes.page_table.spec_logical_bits(),
    }
}

/// Padding of every plane, in storage order, first failure first.
pub open spec fn planes_padding_rule(contract: DalucKvViewContract, p: DalucPayloadPlanes) -> Result<
    (),
    DalucOracleError,
> {
    first_failure(
        plane_padding_rule(contract, p.key_codebook),
        first_failure(
            plane_padding_rule(contract, p.key_indices),
            first_failure(
                plane_padding_rule(contract, p.key_residual_values),
                first_failure(
                    plane_padding_rule(contract, p.key_residual_indexing),
                    first_failure(
                        plane_padding_rule(contract, p.values),
                        first_failure(
                            plane_padding_rule(contract, p.value_scales),
                            first_failure(
                                plane_padding_rule(contract, p.value_zero_points),
                                first_failure(
                                    plane_padding_rule(contract, p.value_residual_values),
                                    first_failure(
                                        plane_padding_rule(contract, p.value_residual_indexing),
                                        plane_padding_rule(contract, p.page_table),
                                    ),
                                ),
                            ),
                        ),
                    ),
                ),
            ),
        ),
    )
}

/// The checks of a payload that do not walk the live vectors: the contract,
/// the payload version, the stored page table and geometry, every plane's
/// padding and length, and the stored codebook. Gives the geometry.
pub open spec fn payload_prefix_rule(
    version: u16,
    contract: DalucKvViewContract,
    p: DalucPayloadPlanes,
) -> Result<(int, int, int, Seq<u32>), DalucOracleError> {
    let geometry = stored_geometry_rule(contract, p.page_table);
    let view = geometry->Ok_0;
    if contract_rule(contract) is Err {
        Err(DalucOracleError::Contract(contract_rule(contract)->Err_0))
    } else if version != DA_LUC_ORACLE_PAYLOAD_VERSION {
        Err(
            DalucOracleError::UnsupportedPayloadVersion {
                actual: version,
                supported: DA_LUC_ORACLE_PAYLOAD_VERSION,
            },
        )
    } else if geometry is Err {
        Err(geometry->Err_0)
    } else if planes_padding_rule(contract, p) is Err {
        Err(planes_padding_rule(contract, p)->Err_0)
    } else if plane_lengths_rule(contract, view.1 as usize, view.3.len() as usize, planes_bits(p))
        is Err {
        Err(plane_lengths_rule(contract, view.1 as usize, view.3.len() as usize, planes_bits(p))->Err_0)
    } else if stored_codebook_rule(contract, p.key_codebook) is Err {
        Err(stored_codebook_rule(contract, p.key_codebook)->Err_0)
    } else {
        Ok(view)
    }
}

/// The checks of a payload that walk the live vectors of geometry `g`: K
/// codebook indices, K residuals, V data, V residuals, first failure first.
pub open spec fn payload_content_rule(
    g: DalucOracleGeometry,
    contract: DalucKvViewContract,
    p: DalucPayloadPlanes,
) -> Result<(), DalucOracleError> {
    first_failure(
        live_scan(g, contract, key_index_row_checks(contract, p.key_indices)),
        first_failure(
            live_residuals_rule(g, contract, p.key_residual_values, p.key_residual_indexing, true),
            first_failure(
                live_scan(
                    g,
                    contract,
                    value_row_checks(contract, p.values, p.value_scales, p.value_zero_points),
                ),
                live_residuals_rule(g, contract, p.value_residual_values, p.value_residual_indexing, false),
            ),
        ),
    )
}

/// Every check of a payload: the prefix, then the live-vector walks over any
/// geometry that the prefix describes.
pub open spec fn payload_accepts(
    version: u16,
    contract: DalucKvViewContract,
    p: DalucPayloadPlanes,
    r: Result<(), DalucOracleError>,
) -> bool {
    match payload_prefix_rule(version, contract, p) {
        Err(e) => r == Err::<(), DalucOracleError>(e),
        Ok(view) => (exists|g: DalucOracleGeometry| #[trigger] geometry_is(g, view)) && forall|
            g: DalucOracleGeometry,
        | #[trigger] geometry_is(g, view) ==> r == payload_content_rule(g, contract, p),
    }
}

/// The outcome of every payload check.
pub open spec fn payload_validation(version: u16, contract: DalucKvViewContract, p: DalucPayloadPlanes) -> Result<
    (),
    DalucOracleError,
> {
    choose|r: Result<(), DalucOracleError>| payload_accepts(version, contract, p, r)
}

/// The payload checks decide: two outcomes that both meet them are equal. In
/// particular a payload returned by `from_encoded_planes` validates again.
pub proof fn lemma_payload_checks_decide(
    version: u16,
    contract: DalucKvViewContract,
    p: DalucPayloadPlanes,
    r1: Result<(), DalucOracleError>,
    r2: Result<(), DalucOracleError>,
)
    requires
        payload_accepts(version, contract, p, r1),
        payload_accepts(version, contract, p, r2),
    ensures
        r1 == r2,
{
    match payload_prefix_rule(version, contract, p) {
        Err(e) => {},
        Ok(view) => {
            let g = choose|g: DalucOracleGeometry| #[trigger] geometry_is(g, view);
            assert(r1 == payload_content_rule(g, contract, p));
        },
    }
}

/// Two geometries with the same view walk the live vectors alike.
proof fn lemma_live_scan_congruent(
    g1: DalucOracleGeometry,
    g2: DalucOracleGeometry,
    contract: DalucKvViewContract,
    row_check: spec_fn(int) -> Result<(), DalucOracleError>,
)
    requires
        g1.capacity_tokens == g2.capacity_tokens,
        g1.physical_rows == g2.physical_rows,
        g1.logical_pages_per_batch == g2.logical_pages_per_batch,
        g1.page_table@ == g2.page_table@,
    ensures
        live_scan(g1, contract, row_check) == live_scan(g2, contract, row_check),
{
    assert forall|v: int| #[trigger]
        live_vector_checks(g1, contract, row_check)(v) == live_vector_checks(g2, contract, row_check)(v) by {
        let s = contract.shape;
        let b = v / ((s.kv_heads * s.kv_len) as int);
        let h = (v / (s.kv_len as int)) % (s.kv_heads as int);
        let t = v % (s.kv_len as int);
        assert(physical_row_rule(g1, contract, b as usize, h as usize, t as usize) == physical_row_rule(
            g2,
            contract,
            b as usize,
            h as usize,
            t as usize,
        ));
    }
    assert(live_vector_checks(g1, contract, row_check) =~= live_vector_checks(g2, contract, row_check));
}

/// A valid contract has the positive divisors and packed widths the payload
/// walks need.
pub(crate) proof fn lemma_valid_contract_facts(contract: DalucKvViewContract)
    requires
        contract_rule(contract) is Ok,
    ensures
        contract.keys.subspace_dim > 0,
        1 <= contract.keys.index_bits <= 32,
        alignment_is_power_of_two(contract),
        contract.layout.topology matches DalucStorageTopology::Paged { page_size, .. }
            ==> page_size > 0,
        contract.values matches DalucValueRepresentation::GroupwiseAffine { group_size, .. }
            ==> group_size > 0,
        ({
            let (dim, semantics) = side_residual(contract, true);
            semantics matches DalucResidualSemantics::Sparse(residual)
                ==> residual.indexing matches DalucResidualIndexing::Coordinates { index_bits, .. }
                ==> index_bits <= 32
        }),
        ({
            let (dim, semantics) = side_residual(contract, false);
            semantics matches DalucResidualSemantics::Sparse(residual)
                ==> residual.indexing matches DalucResidualIndexing::Coordinates { index_bits, .. }
                ==> index_bits <= 32
        }),
{
    match contract.layout.topology {
        DalucStorageTopology::Paged { page_size, physical_pages_per_batch } => {
            if page_size == 0 {
                assert(page_size * physical_pages_per_batch == 0);
            }
        },
        _ => {},
    }
}

/// Accepted plane lengths bound the offsets that the live-vector walks form.
proof fn lemma_plane_length_facts(
    contract: DalucKvViewContract,
    rows: usize,
    entries: usize,
    bits: DalucPlaneBits,
)
    requires
        contract_rule(contract) is Ok,
        plane_lengths_rule(contract, rows, entries, bits) is Ok,
    ensures
        rows * (contract.shape.key_head_dim / contract.keys.subspace_dim) <= usize::MAX,
        residual_limits(rows as int, contract, true),
        residual_limits(rows as int, contract, false),
        rows * value_row_entries(contract) <= usize::MAX,
{
    lemma_valid_contract_facts(contract);
}

impl DalucOraclePayload {
    pub closed spec fn spec_payload_version(self) -> u16 {
        self.payload_version
    }

    pub closed spec fn spec_contract(self) -> DalucKvViewContract {
        self.contract
    }

    pub closed spec fn spec_planes(self) -> DalucPayloadPlanes {
        DalucPayloadPlanes {
            key_codebook: self.key_codebook,
            key_indices: self.key_indices,
            key_residual_values: self.key_residual_values,
            key_residual_indexing: self.key_residual_indexing,
            values: self.values,
            value_scales: self.value_scales,
            value_zero_points: self.value_zero_points,
            value_residual_values: self.value_residual_values,
            value_residual_indexing: self.value_residual_indexing,
            page_table: self.page_table,
        }
    }

    /// Assemble a payload of the current version from encoded planes and
    /// validate it; the payload is returned only when every check passes.
    pub fn from_encoded_planes(contract: DalucKvViewContract, planes: DalucPayloadPlanes) -> (r: Result<
        Self,
        DalucOracleError,
    >)
        ensures
            payload_accepts(
                DA_LUC_ORACLE_PAYLOAD_VERSION,
                contract,
                planes,
                match r {
                    Ok(_) => Ok::<(), DalucOracleError>(()),
                    Err(e) => Err::<(), DalucOracleError>(e),
                },
            ),
            r matches Ok(p) ==> p.spec_payload_version() == DA_LUC_ORACLE_PAYLOAD_VERSION
                && p.spec_contract() == contract && p.spec_planes() == planes,
    {
        let payload = DalucOraclePayload {
            payload_version: DA_LUC_ORACLE_PAYLOAD_VERSION,
            contract,
            key_codebook: planes.key_codebook,
            key_indices: planes.key_indices,
            key_residual_values: planes.key_residual_values,
            key_residual_indexing: planes.key_residual_indexing,
            values: planes.values,
            value_scales: planes.value_scales,
            value_zero_points: planes.value_zero_points,
            value_residual_values: planes.value_residual_values,
            value_residual_indexing: planes.value_residual_indexing,
            page_table: planes.page_table,
        };
        payload.validate()?;
        Ok(payload)
    }

    pub fn payload_version(&self) -> (version: u16)
        ensures
            version == self.spec_payload_version(),
    {
        self.payload_version
    }

    pub fn contract(&self) -> (contract: DalucKvViewContract)
        ensures
            contract == self.spec_contract(),
    {
        self.contract
    }

    pub fn key_codebook_plane(&self) -> (plane: &DalucOraclePlane)
        ensures
            *plane == self.spec_planes().key_codebook,
    {
        &self.key_codebook
    }

    pub fn key_index_plane(&self) -> (plane: &DalucOraclePlane)
        ensures
            *plane == self.spec_planes().key_indices,
    {
        &self.key_indices
    }

    pub fn page_table_plane(&self) -> (plane: &DalucOraclePlane)
        ensures
            *plane == self.spec_planes().page_table,
    {
        &self.page_table
    }

    pub fn key_residual_value_plane(&self) -> (plane: &DalucOraclePlane)
        ensures
            *plane == self.spec_planes().key_residual_values,
    {
        &self.key_residual_values
    }

    pub fn key_residual_indexing_plane(&self) -> (plane: &DalucOraclePlane)
        ensures
            *plane == self.spec_planes().key_residual_indexing,
    {
        &self.key_residual_indexing
    }

    pub fn value_plane(&self) -> (plane: &DalucOraclePlane)
        ensures
            *plane == self.spec_planes().values,
    {
        &self.values
    }

    pub fn value_scale_plane(&self) -> (plane: &DalucOraclePlane)
        ensures
            *plane == self.spec_planes().value_scales,
    {
        &self.value_scales
    }

    pub fn value_zero_point_plane(&self) -> (plane: &DalucOraclePlane)
        ensures
            *plane == self.spec_planes().value_zero_points,
    {
        &self.value_zero_points
    }

    pub fn value_residual_value_plane(&self) -> (plane: &DalucOraclePlane)
        ensures
            *plane == self.spec_planes().value_residual_values,
    {
        &self.value_residual_values
    }

    pub fn value_residual_indexing_plane(&self) -> (plane: &DalucOraclePlane)
        ensures
            *plane == self.spec_planes().value_residual_indexing,
    {
        &self.value_residual_indexing
    }

    /// Validate the contract, the payload version, every plane's padding and
    /// length, the page mapping, the stored codebook, and every live vector's
    /// indices, residuals and V data; the first failure is reported.
    #[verifier::spinoff_prover]
    #[verifier::rlimit(60)]
    pub fn validate(&self) -> (r: Result<(), DalucOracleError>)
        ensures
            payload_accepts(self.spec_payload_version(), self.spec_contract(), self.spec_planes(), r),
            r == payload_validation(self.spec_payload_version(), self.spec_contract(), self.spec_planes()),
    {
        let contract = self.contract;
        match contract.validate() {
            Ok(()) => {},
            Err(e) => return Err(DalucOracleError::Contract(e)),
        }
        proof {
            lemma_valid_contract_facts(contract);
        }
        if self.payload_version != DA_LUC_ORACLE_PAYLOAD_VERSION {
            return Err(
                DalucOracleError::UnsupportedPayloadVersion {
                    actual: self.payload_version,
                    supported: DA_LUC_ORACLE_PAYLOAD_VERSION,
                },
            );
        }
        let geometry = geometry_from_page_table_plane(contract, &self.page_table)?;
        let ghost planes = self.spec_planes();
        validate_plane_padding(contract, &self.key_codebook)?;
        validate_plane_padding(contract, &self.key_indices)?;
        validate_plane_padding(contract, &self.key_residual_values)?;
        validate_plane_padding(contract, &self.key_residual_indexing)?;
        validate_plane_padding(contract, &self.values)?;
        validate_plane_padding(contract, &self.value_scales)?;
        validate_plane_padding(contract, &self.value_zero_points)?;
        validate_plane_padding(contract, &self.value_residual_values)?;
        validate_plane_padding(contract, &self.value_residual_indexing)?;
        validate_plane_padding(contract, &self.page_table)?;
        let bits = DalucPlaneBits {
            key_codebook: self.key_codebook.logical_bits(),
            key_indices: self.key_indices.logical_bits(),
            key_residual_values: self.key_residual_values.logical_bits(),
            key_residual_indexing: self.key_residual_indexing.logical_bits(),
            values: self.values.logical_bits(),
            value_scales: self.value_scales.logical_bits(),
            value_zero_points: self.value_zero_points.logical_bits(),
            value_residual_values: self.value_residual_values.logical_bits(),
            value_residual_indexing: self.value_residual_indexing.logical_bits(),
            page_table: self.page_table.logical_bits(),
        };
        validate_expected_plane_lengths(
            contract,
            geometry.physical_rows,
            geometry.page_table.len(),
            bits,
        )?;
        validate_stored_codebook(contract, &self.key_codebook)?;
        proof {
            lemma_plane_length_facts(
                contract,
                geometry.physical_rows,
                geometry.page_table.len(),
                bits,
            );
            lemma_accepted_geometry_covers_live(geometry, contract, stored_page_table_rule(contract, self.page_table)->Ok_0);
        }
        let r = match validate_live_key_indices(contract, &geometry, &self.key_indices) {
            Err(e) => Err(e),
            Ok(()) => match validate_live_residuals(
                contract,
                &geometry,
                &self.key_residual_values,
                &self.key_residual_indexing,
                true,
            ) {
                Err(e) => Err(e),
                Ok(()) => match validate_value_planes(
                    contract,
                    &geometry,
                    &self.values,
                    &self.value_scales,
                    &self.value_zero_points,
                ) {
                    Err(e) => Err(e),
                    Ok(()) => validate_live_residuals(
                        contract,
                        &geometry,
                        &self.value_residual_values,
                        &self.value_residual_indexing,
                        false,
                    ),
                },
            },
        };
        proof {
            assert(r == payload_content_rule(geometry, contract, planes));
            assert(geometry_is(geometry, payload_prefix_rule(self.payload_version, contract, planes)->Ok_0));
            assert forall|g: DalucOracleGeometry| #[trigger]
                geometry_is(
                    g,
                    payload_prefix_rule(self.payload_version, contract, planes)->Ok_0,
                ) implies r == payload_content_rule(g, contract, planes) by {
                lemma_live_scan_congruent(g, geometry, contract, key_index_row_checks(contract, planes.key_indices));
                lemma_live_scan_congruent(
                    g,
                    geometry,
                    contract,
                    value_row_checks(contract, planes.values, planes.value_scales, planes.value_zero_points),
                );
                let (kd, ks) = side_residual(contract, true);
                let (vd, vs) = side_residual(contract, false);
                match ks {
                    DalucResidualSemantics::Sparse(residual) => {
                        lemma_live_scan_congruent(
                            g,
                            geometry,
                            contract,
                            residual_row_checks(
                                residual,
                                kd as int,
                                planes.key_residual_values,
                                planes.key_residual_indexing,
                            ),
                        );
                    },
                    _ => {},
                }
                match vs {
                    DalucResidualSemantics::Sparse(residual) => {
                        lemma_live_scan_congruent(
                            g,
                            geometry,
                            contract,
                            residual_row_checks(
                                residual,
                                vd as int,
                                planes.value_residual_values,
                                planes.value_residual_indexing,
                            ),
                        );
                    },
                    _ => {},
                }
            }
            assert(payload_accepts(self.payload_version, contract, planes, r));
            let chosen = payload_validation(self.payload_version, contract, planes);
            lemma_payload_checks_decide(self.payload_version, contract, planes, r, chosen);
        }
        r
    }
}

// ---------------------------------------------------------------------------
// Storage accounting.
// ---------------------------------------------------------------------------

/// Exact byte accounting for one oracle payload. The bits-per-value and
/// compression ratios follow from these counts.
#[derive(Debug, Clone, Copy, PartialEq, Eq)]
pub struct DalucOracleStorageReport {
    pub logical_kv_scalar_count: usize,
    pub key_codebook_payload_bytes: usize,
    pub key_index_payload_bytes: usize,
    pub key_residual_value_payload_bytes: usize,
    pub key_residual_index_payload_bytes: usize,
    pub value_payload_bytes: usize,
    pub value_scale_payload_bytes: usize,
    pub value_zero_point_payload_bytes: usize,
    pub value_residual_value_payload_bytes: usize,
    pub value_residual_index_payload_bytes: usize,
    pub page_metadata_payload_bytes: usize,
    pub packing_tail_padding_bits: usize,
    pub alignment_padding_bytes: usize,
    /// Explicit metadata bytes supplied by the caller's surrounding protocol.
    pub external_metadata_bytes: usize,
    pub total_representation_bytes: usize,
    pub dense_baseline_dtype: DalucFloatDType,
    pub dense_baseline_bytes: usize,
}

/// The planes an array of ten plane references points at.
pub open spec fn plane_refs(planes: [&DalucOraclePlane; 10]) -> Seq<DalucOraclePlane> {
    Seq::new(10, |i: int| *planes[i])
}

/// The ten planes in storage order.
pub open spec fn plane_list(p: DalucPayloadPlanes) -> Seq<DalucOraclePlane> {
    seq![
        p.key_codebook,
        p.key_indices,
        p.key_residual_values,
        p.key_residual_indexing,
        p.values,
        p.value_scales,
        p.value_zero_points,
        p.value_residual_values,
        p.value_residual_indexing,
        p.page_table,
    ]
}

/// Logical bytes of a plane.
pub open spec fn logical_bytes_of(plane: DalucOraclePlane) -> int {
    bytes_for_bits_spec(plane.spec_logical_bits() as int)
}

/// Sum of `f` over the first `n` planes.
pub open spec fn plane_sum(planes: Seq<DalucOraclePlane>, f: spec_fn(DalucOraclePlane) -> int, n: int) -> int
    decreases n,
{
    if n <= 0 {
        0
    } else {
        plane_sum(planes, f, n - 1) + f(planes[n - 1])
    }
}

pub open spec fn alignment_padding_of() -> spec_fn(DalucOraclePlane) -> int {
    |plane: DalucOraclePlane| plane.spec_alignment_padding_bytes() as int
}

pub open spec fn tail_bits_of() -> spec_fn(DalucOraclePlane) -> int {
    |plane: DalucOraclePlane| logical_bytes_of(plane) * 8 - plane.spec_logical_bits()
}

pub open spec fn total_bytes_of() -> spec_fn(DalucOraclePlane) -> int {
    |plane: DalucOraclePlane| plane.spec_bytes().len() as int
}

/// `total`, or the overflow of a running sum reported under `label`.
pub open spec fn sum_rule(total: int, label: &'static str) -> Result<int, DalucOracleError> {
    if total > usize::MAX {
        Err(DalucOracleError::ArithmeticOverflow(label))
    } else {
        Ok(total)
    }
}

/// Live K and V scalars: batch x kv heads x kv_len x (key dim + value dim).
pub open spec fn logical_kv_scalar_rule(contract: DalucKvViewContract) -> Result<int, DalucOracleError> {
    let s = contract.shape;
    let per_vector = s.key_head_dim + s.value_head_dim;
    if per_vector > usize::MAX {
        Err(DalucOracleError::ArithmeticOverflow("K+V dimension"))
    } else if s.batch * s.kv_heads > usize::MAX || s.batch * s.kv_heads * s.kv_len > usize::MAX
        || s.batch * s.kv_heads * s.kv_len * per_vector > usize::MAX {
        Err(DalucOracleError::ArithmeticOverflow("logical KV scalar count"))
    } else {
        Ok(s.batch * s.kv_heads * s.kv_len * per_vector)
    }
}

/// Bytes of a plane of `logical` bytes once the contract's alignment padding
/// is added.
pub open spec fn padded_bytes_rule(contract: DalucKvViewContract, logical: int) -> Result<int, DalucOracleError> {
    if logical > usize::MAX {
        Err(DalucOracleError::ArithmeticOverflow("padded plane bytes"))
    } else {
        match padding_rule(contract, logical as usize) {
            Ok(padding) => Ok(logical + padding),
            Err(e) => Err(e),
        }
    }
}

/// `a * b * c` multiplied left to right, or the overflow reported under `label`.
pub open spec fn product3_rule(label: &'static str, a: int, b: int, c: int) -> Result<int, DalucOracleError> {
    if a * b > usize::MAX || a * b * c > usize::MAX {
        Err(DalucOracleError::ArithmeticOverflow(label))
    } else {
        Ok(a * b * c)
    }
}

/// Bytes of the same K/V stored densely in `dtype` under the same layout:
/// padded K and V planes, the page-table plane and the external metadata.
pub open spec fn dense_baseline_rule(
    contract: DalucKvViewContract,
    rows: int,
    page_table_bytes: int,
    dtype: DalucFloatDType,
    external: int,
) -> Result<int, DalucOracleError> {
    let size = dtype_bytes(dtype);
    let key_raw = product3_rule("dense baseline K bytes", rows, contract.shape.key_head_dim as int, size);
    let value_raw = product3_rule(
        "dense baseline V bytes",
        rows,
        contract.shape.value_head_dim as int,
        size,
    );
    let key_plane = padded_bytes_rule(contract, key_raw->Ok_0);
    let value_plane = padded_bytes_rule(contract, value_raw->Ok_0);
    if key_raw is Err {
        Err(key_raw->Err_0)
    } else if value_raw is Err {
        Err(value_raw->Err_0)
    } else if key_plane is Err {
        Err(key_plane->Err_0)
    } else if value_plane is Err {
        Err(value_plane->Err_0)
    } else {
        sum_rule(
            key_plane->Ok_0 + value_plane->Ok_0 + page_table_bytes + external,
            "dense baseline total bytes",
        )
    }
}

/// The storage report of a payload that validated with `rows` physical rows.
pub open spec fn storage_rule(
    contract: DalucKvViewContract,
    p: DalucPayloadPlanes,
    rows: int,
    dtype: DalucFloatDType,
    external: usize,
) -> Result<DalucOracleStorageReport, DalucOracleError> {
    let planes = plane_list(p);
    let alignment = sum_rule(plane_sum(planes, alignment_padding_of(), 10), "alignment padding sum");
    let tail = sum_rule(plane_sum(planes, tail_bits_of(), 10), "packing tail sum");
    let payload = sum_rule(plane_sum(planes, total_bytes_of(), 10), "payload byte sum");
    let total = sum_rule(payload->Ok_0 + external, "representation bytes");
    let scalars = logical_kv_scalar_rule(contract);
    let dense = dense_baseline_rule(
        contract,
        rows,
        p.page_table.spec_bytes().len() as int,
        dtype,
        external as int,
    );
    if alignment is Err {
        Err(alignment->Err_0)
    } else if tail is Err {
        Err(tail->Err_0)
    } else if payload is Err {
        Err(payload->Err_0)
    } else if total is Err {
        Err(total->Err_0)
    } else if scalars is Err {
        Err(scalars->Err_0)
    } else if dense is Err {
        Err(dense->Err_0)
    } else {
        Ok(
            DalucOracleStorageReport {
                logical_kv_scalar_count: scalars->Ok_0 as usize,
                key_codebook_payload_bytes: logical_bytes_of(p.key_codebook) as usize,
                key_index_payload_bytes: logical_bytes_of(p.key_indices) as usize,
                key_residual_value_payload_bytes: logical_bytes_of(p.key_residual_values) as usize,
                key_residual_index_payload_bytes: logical_bytes_of(p.key_residual_indexing) as usize,
                value_payload_bytes: logical_bytes_of(p.values) as usize,
                value_scale_payload_bytes: logical_bytes_of(p.value_scales) as usize,
                value_zero_point_payload_bytes: logical_bytes_of(p.value_zero_points) as usize,
                value_residual_value_payload_bytes: logical_bytes_of(p.value_residual_values) as usize,
                value_residual_index_payload_bytes: logical_bytes_of(p.value_residual_indexing) as usize,
                page_metadata_payload_bytes: logical_bytes_of(p.page_table) as usize,
                packing_tail_padding_bits: tail->Ok_0 as usize,
                alignment_padding_bytes: alignment->Ok_0 as usize,
                external_metadata_bytes: external,
                total_representation_bytes: total->Ok_0 as usize,
                dense_baseline_dtype: dtype,
                dense_baseline_bytes: dense->Ok_0 as usize,
            },
        )
    }
}

/// Sum `f` over the planes with overflow checks: the running sum overflows
/// exactly when the total does, since every term is non-negative.
fn sum_over_planes(
    planes: &[&DalucOraclePlane; 10],
    f: Ghost<spec_fn(DalucOraclePlane) -> int>,
    which: u8,
    label: &'static str,
) -> (r: Result<usize, DalucOracleError>)
    requires
        which < 3,
        f@ == (if which == 0 {
            alignment_padding_of()
        } else if which == 1 {
            tail_bits_of()
        } else {
            total_bytes_of()
        }),
    ensures
        ({
            let total = plane_sum(plane_refs(*planes), f@, 10);
            &&& total >= 0
            &&& total > usize::MAX ==> r == Err::<usize, DalucOracleError>(
                DalucOracleError::ArithmeticOverflow(label),
            )
            &&& total <= usize::MAX ==> r == Ok::<usize, DalucOracleError>(total as usize)
        }),
{
    let ghost list = plane_refs(*planes);
    let mut sum: usize = 0;
    let mut i: usize = 0;
    while i < 10
        invariant
            i <= 10,
            which < 3,
            list == plane_refs(*planes),
            f@ == (if which == 0 {
                alignment_padding_of()
            } else if which == 1 {
                tail_bits_of()
            } else {
                total_bytes_of()
            }),
            sum == plane_sum(list, f@, i as int),
            forall|j: int| 0 <= j < 10 ==> #[trigger] f@(list[j]) >= 0,
        decreases 10 - i,
    {
        let plane = planes[i];
        let term = if which == 0 {
            plane.alignment_padding_bytes()
        } else if which == 1 {
            plane.byte_tail_padding_bits()
        } else {
            plane.total_bytes()
        };
        assert(term == f@(list[i as int]));
        sum = match sum.checked_add(term) {
            Some(v) => v,
            None => {
                proof {
                    lemma_plane_sum_grows(list, f@, i as int + 1, 10);
                    lemma_plane_sum_grows(list, f@, 0, 10);
                }
                return Err(DalucOracleError::ArithmeticOverflow(label));
            },
        };
        i = i + 1;
    }
    proof {
        lemma_plane_sum_grows(list, f@, 0, 10);
    }
    Ok(sum)
}

/// With non-negative terms, longer prefix sums are no smaller.
proof fn lemma_plane_sum_grows(planes: Seq<DalucOraclePlane>, f: spec_fn(DalucOraclePlane) -> int, m: int, n: int)
    requires
        0 <= m <= n <= planes.len(),
        forall|j: int| 0 <= j < planes.len() ==> #[trigger] f(planes[j]) >= 0,
    ensures
        plane_sum(planes, f, m) <= plane_sum(planes, f, n),
    decreases n - m,
{
    if m < n {
        lemma_plane_sum_grows(planes, f, m, n - 1);
    }
}

/// Bytes of a plane of `logical` bytes once alignment padding is added.
fn padded_plane_bytes(contract: DalucKvViewContract, logical: usize) -> (r: Result<usize, DalucOracleError>)
    requires
        alignment_is_power_of_two(contract),
    ensures
        match padded_bytes_rule(contract, logical as int) {
            Ok(v) => v <= usize::MAX && r == Ok::<usize, DalucOracleError>(v as usize),
            Err(e) => r == Err::<usize, DalucOracleError>(e),
        },
{
    let padding = padding_bytes(contract, logical)?;
    Ok(logical + padding)
}

fn product3_checked(label: &'static str, a: usize, b: usize, c: usize) -> (r: Result<usize, DalucOracleError>)
    ensures
        match product3_rule(label, a as int, b as int, c as int) {
            Ok(v) => r == Ok::<usize, DalucOracleError>(v as usize),
            Err(e) => r == Err::<usize, DalucOracleError>(e),
        },
{
    let ab = match a.checked_mul(b) {
        Some(v) => v,
        None => return Err(DalucOracleError::ArithmeticOverflow(label)),
    };
    match ab.checked_mul(c) {
        Some(v) => Ok(v),
        None => Err(DalucOracleError::ArithmeticOverflow(label)),
    }
}

/// Live K and V scalars of the contract.
fn logical_kv_scalar_count(contract: DalucKvViewContract) -> (r: Result<usize, DalucOracleError>)
    ensures
        match logical_kv_scalar_rule(contract) {
            Ok(v) => r == Ok::<usize, DalucOracleError>(v as usize),
            Err(e) => r == Err::<usize, DalucOracleError>(e),
        },
{
    let s = contract.shape;
    let per_vector = match s.key_head_dim.checked_add(s.value_head_dim) {
        Some(v) => v,
        None => return Err(DalucOracleError::ArithmeticOverflow("K+V dimension")),
    };
    let heads = match s.batch.checked_mul(s.kv_heads) {
        Some(v) => v,
        None => return Err(DalucOracleError::ArithmeticOverflow("logical KV scalar count")),
    };
    let vectors = match heads.checked_mul(s.kv_len) {
        Some(v) => v,
        None => return Err(DalucOracleError::ArithmeticOverflow("logical KV scalar count")),
    };
    match vectors.checked_mul(per_vector) {
        Some(v) => Ok(v),
        None => Err(DalucOracleError::ArithmeticOverflow("logical KV scalar count")),
    }
}

/// Bytes of the same K/V stored densely in `dtype` under the same layout.
fn dense_baseline_bytes(
    contract: DalucKvViewContract,
    rows: usize,
    page_table_bytes: usize,
    dtype: DalucFloatDType,
    external: usize,
) -> (r: Result<usize, DalucOracleError>)
    requires
        alignment_is_power_of_two(contract),
    ensures
        match dense_baseline_rule(contract, rows as int, page_table_bytes as int, dtype, external as int) {
            Ok(v) => r == Ok::<usize, DalucOracleError>(v as usize),
            Err(e) => r == Err::<usize, DalucOracleError>(e),
        },
{
    let size: usize = match dtype {
        DalucFloatDType::F32 => 4,
        _ => 2,
    };
    assert(size == dtype_bytes(dtype));
    let key_raw = product3_checked("dense baseline K bytes", rows, contract.shape.key_head_dim, size)?;
    let value_raw = product3_checked("dense baseline V bytes", rows, contract.shape.value_head_dim, size)?;
    let key_plane = padded_plane_bytes(contract, key_raw)?;
    let value_plane = padded_plane_bytes(contract, value_raw)?;
    let overflow = DalucOracleError::ArithmeticOverflow("dense baseline total bytes");
    let a = match key_plane.checked_add(value_plane) {
        Some(v) => v,
        None => return Err(overflow),
    };
    let b = match a.checked_add(page_table_bytes) {
        Some(v) => v,
        None => return Err(overflow),
    };
    match b.checked_add(external) {
        Some(v) => Ok(v),
        None => Err(overflow),
    }
}

/// The storage report over the ten planes of `p`, given its physical rows.
fn storage_report_of(
    contract: DalucKvViewContract,
    planes: &[&DalucOraclePlane; 10],
    p: Ghost<DalucPayloadPlanes>,
    rows: usize,
    dtype: DalucFloatDType,
    external: usize,
) -> (r: Result<DalucOracleStorageReport, DalucOracleError>)
    requires
        alignment_is_power_of_two(contract),
        plane_refs(*planes) == plane_list(p@),
    ensures
        r == storage_rule(contract, p@, rows as int, dtype, external),
{
    let alignment_padding_bytes = sum_over_planes(
        planes,
        Ghost(alignment_padding_of()),
        0,
        "alignment padding sum",
    )?;
    let packing_tail_padding_bits = sum_over_planes(planes, Ghost(tail_bits_of()), 1, "packing tail sum")?;
    let payload_bytes = sum_over_planes(planes, Ghost(total_bytes_of()), 2, "payload byte sum")?;
    let total_representation_bytes = match payload_bytes.checked_add(external) {
        Some(v) => v,
        None => return Err(DalucOracleError::ArithmeticOverflow("representation bytes")),
    };
    let logical_kv_scalar_count = logical_kv_scalar_count(contract)?;
    proof {
        assert(*planes[9] == p@.page_table);
    }
    let dense_baseline_bytes = dense_baseline_bytes(
        contract,
        rows,
        planes[9].total_bytes(),
        dtype,
        external,
    )?;
    proof {
        assert(*planes[0] == p@.key_codebook);
        assert(*planes[1] == p@.key_indices);
        assert(*planes[2] == p@.key_residual_values);
        assert(*planes[3] == p@.key_residual_indexing);
        assert(*planes[4] == p@.values);
        assert(*planes[5] == p@.value_scales);
        assert(*planes[6] == p@.value_zero_points);
        assert(*planes[7] == p@.value_residual_values);
        assert(*planes[8] == p@.value_residual_indexing);
    }
    Ok(
        DalucOracleStorageReport {
            logical_kv_scalar_count,
            key_codebook_payload_bytes: planes[0].logical_bytes(),
            key_index_payload_bytes: planes[1].logical_bytes(),
            key_residual_value_payload_bytes: planes[2].logical_bytes(),
            key_residual_index_payload_bytes: planes[3].logical_bytes(),
            value_payload_bytes: planes[4].logical_bytes(),
            value_scale_payload_bytes: planes[5].logical_bytes(),
            value_zero_point_payload_bytes: planes[6].logical_bytes(),
            value_residual_value_payload_bytes: planes[7].logical_bytes(),
            value_residual_index_payload_bytes: planes[8].logical_bytes(),
            page_metadata_payload_bytes: planes[9].logical_bytes(),
            packing_tail_padding_bits,
            alignment_padding_bytes,
            external_metadata_bytes: external,
            total_representation_bytes,
            dense_baseline_dtype: dtype,
            dense_baseline_bytes,
        },
    )
}

impl DalucOraclePayload {
    /// Exact allocated-byte accounting for this payload, once it validates.
    ///
    /// `external_metadata_bytes` is explicit: callers count their surrounding
    /// protocol rather than letting the oracle invent one.
    #[verifier::rlimit(40)]
    pub fn storage_report(&self, dense_baseline_dtype: DalucFloatDType, external_metadata_bytes: usize) -> (r:
        Result<DalucOracleStorageReport, DalucOracleError>)
        ensures
            ({
                let validation = payload_validation(
                    self.spec_payload_version(),
                    self.spec_contract(),
                    self.spec_planes(),
                );
                let rows = payload_prefix_rule(
                    self.spec_payload_version(),
                    self.spec_contract(),
                    self.spec_planes(),
                )->Ok_0.1;
                match validation {
                    Err(e) => r == Err::<DalucOracleStorageReport, DalucOracleError>(e),
                    Ok(()) => r == storage_rule(
                        self.spec_contract(),
                        self.spec_planes(),
                        rows,
                        dense_baseline_dtype,
                        external_metadata_bytes,
                    ),
                }
            }),
    {
        let checked = self.validate();
        let ghost version = self.payload_version;
        let ghost planes_view = self.spec_planes();
        let contract = self.contract;
        if let Err(e) = checked {
            return Err(e);
        }
        proof {
            assert(payload_prefix_rule(version, contract, planes_view) is Ok);
            lemma_valid_contract_facts(contract);
        }
        let geometry = geometry_from_page_table_plane(contract, &self.page_table)?;
        let ghost rows = payload_prefix_rule(version, contract, planes_view)->Ok_0.1;
        assert(geometry.physical_rows == rows);
        let planes: [&DalucOraclePlane; 10] = [
            &self.key_codebook,
            &self.key_indices,
            &self.key_residual_values,
            &self.key_residual_indexing,
            &self.values,
            &self.value_scales,
            &self.value_zero_points,
            &self.value_residual_values,
            &self.value_residual_indexing,
            &self.page_table,
        ];
        proof {
            assert(plane_refs(planes) =~= plane_list(planes_view));
        }
        storage_report_of(
            contract,
            &planes,
            Ghost(planes_view),
            geometry.physical_rows,
            dense_baseline_dtype,
            external_metadata_bytes,
        )
    }
}

/// A scan succeeds only when every check in its range succeeds.
proof fn lemma_scan_ok(i: int, n: int, check: spec_fn(int) -> Result<(), DalucOracleError>, j: int)
    requires
        scan_from(i, n, check) is Ok,
        i <= j < n,
    ensures
        check(j) is Ok,
    decreases n - i,
{
    if i < j {
        lemma_scan_ok(i + 1, n, check, j);
    }
}

/// A payload that validates carries a valid contract and the current payload
/// version.
pub proof fn lemma_validated_payload_header(
    version: u16,
    contract: DalucKvViewContract,
    planes: DalucPayloadPlanes,
)
    requires
        payload_accepts(version, contract, planes, Ok(())),
    ensures
        contract_rule(contract) is Ok,
        version == DA_LUC_ORACLE_PAYLOAD_VERSION,
{
    assert(payload_prefix_rule(version, contract, planes) is Ok);
}

/// What a payload that validates guarantees of its keys: its K index plane holds exactly
/// `rows * subspaces * index_bits` logical bits for the `rows` physical rows
/// of its stored geometry, and, under that geometry, every live K vector has
/// a physical row at which each subspace's codebook index decodes and names a
/// codebook entry.
pub proof fn lemma_validated_payload_key_indices(
    version: u16,
    contract: DalucKvViewContract,
    planes: DalucPayloadPlanes,
    g: DalucOracleGeometry,
    v: int,
    sub: int,
)
    requires
        payload_accepts(version, contract, planes, Ok(())),
        payload_prefix_rule(version, contract, planes) is Ok ==> geometry_is(
            g,
            payload_prefix_rule(version, contract, planes)->Ok_0,
        ),
        0 <= v < live_vectors(contract),
        0 <= sub < contract.shape.key_head_dim / contract.keys.subspace_dim,
    ensures
        planes.key_indices.spec_logical_bits() == payload_prefix_rule(version, contract, planes)->Ok_0.1
            * (contract.shape.key_head_dim / contract.keys.subspace_dim) * contract.keys.index_bits,
        ({
            let s = contract.shape;
            let b = v / ((s.kv_heads * s.kv_len) as int);
            let h = (v / (s.kv_len as int)) % (s.kv_heads as int);
            let t = v % (s.kv_len as int);
            let row = physical_row_rule(g, contract, b as usize, h as usize, t as usize);
            row is Ok && key_index_check(contract, planes.key_indices, row->Ok_0, sub) is Ok
        }),
{
    let view = payload_prefix_rule(version, contract, planes)->Ok_0;
    assert(payload_prefix_rule(version, contract, planes) is Ok);
    let content = payload_content_rule(g, contract, planes);
    assert(content is Ok);
    let row_check = key_index_row_checks(contract, planes.key_indices);
    assert(live_scan(g, contract, row_check) is Ok);
    lemma_scan_ok(0, live_vectors(contract), live_vector_checks(g, contract, row_check), v);
    assert(live_vector_check(g, contract, row_check, v) is Ok);
    let s = contract.shape;
    let row = physical_row_rule(
        g,
        contract,
        (v / ((s.kv_heads * s.kv_len) as int)) as usize,
        ((v / (s.kv_len as int)) % (s.kv_heads as int)) as usize,
        (v % (s.kv_len as int)) as usize,
    );
    assert(row is Ok);
    assert(key_index_row_check(contract, planes.key_indices, row->Ok_0) is Ok);
    lemma_scan_ok(
        0,
        (contract.shape.key_head_dim / contract.keys.subspace_dim) as int,
        key_index_checks(contract, planes.key_indices, row->Ok_0),
        sub,
    );
}

/// A plane carries the least zero-filled padding its contract asks for: no
/// padding without zero-fill alignment or for an empty plane, else the fewest
/// bytes that bring its logical bytes to a multiple of the alignment; every
/// byte after the logical bytes is zero.
pub open spec fn least_zero_padding(contract: DalucKvViewContract, plane: DalucOraclePlane) -> bool {
    let lb = bytes_for_bits_spec(plane.spec_logical_bits() as int);
    let r = plane.spec_alignment_padding_bytes() as int;
    let a = contract.layout.plane_alignment_bytes as int;
    &&& plane.spec_bytes().len() == lb + r
    &&& forall|k: int| lb <= k < plane.spec_bytes().len() ==> #[trigger] plane.spec_bytes()[k] == 0u8
    &&& contract.layout.padding == DalucPaddingRule::NoPadding ==> r == 0
    &&& lb == 0 ==> r == 0
    &&& contract.layout.padding == DalucPaddingRule::ZeroFilledToAlignment && lb > 0 ==> r < a && (lb
        + r) % a == 0
}

/// A plane that passes the padding check of a contract with a power-of-two
/// alignment carries exactly the least zero-filled padding.
pub proof fn lemma_plane_padding_is_least(contract: DalucKvViewContract, plane: DalucOraclePlane)
    requires
        alignment_is_power_of_two(contract),
        plane_padding_rule(contract, plane) is Ok,
    ensures
        least_zero_padding(contract, plane),
{
    let lb = bytes_for_bits_spec(plane.spec_logical_bits() as int);
    let a = contract.layout.plane_alignment_bytes as int;
    if contract.layout.padding == DalucPaddingRule::ZeroFilledToAlignment && lb > 0 {
        let v = lb + a - 1;
        let up = round_up(lb, a);
        assert(up == (v / a) * a);
        assert(lb <= up < lb + a && up % a == 0) by (nonlinear_arith)
            requires
                a > 0,
                v == lb + a - 1,
                up == (v / a) * a,
        {
            assert(v == (v / a) * a + v % a);
        }
    }
    assert forall|k: int| lb <= k < plane.spec_bytes().len() implies #[trigger] plane.spec_bytes()[k]
        == 0u8 by {
        if plane.spec_bytes()[k] != 0u8 {
            assert(exists|j: int| lb <= j < plane.spec_bytes().len() && plane.spec_bytes()[j] != 0u8);
        }
    }
}

/// Every plane of a payload that validates carries exactly the least
/// zero-filled padding of its contract.
pub proof fn lemma_validated_payload_padding(
    version: u16,
    contract: DalucKvViewContract,
    planes: DalucPayloadPlanes,
)
    requires
        payload_accepts(version, contract, planes, Ok(())),
    ensures
        forall|i: int| 0 <= i < 10 ==> #[trigger] least_zero_padding(contract, plane_list(planes)[i]),
{
    assert(payload_prefix_rule(version, contract, planes) is Ok);
    lemma_valid_contract_facts(contract);
    assert(planes_padding_rule(contract, planes) is Ok);
    assert forall|i: int| 0 <= i < 10 implies #[trigger] least_zero_padding(
        contract,
        plane_list(planes)[i],
    ) by {
        lemma_plane_padding_is_least(contract, plane_list(planes)[i]);
    }
}

} // verus!
