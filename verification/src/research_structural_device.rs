//! Exact device representation for structural candidates.
//!
//! Converts a canonical host [`StructuralCandidateSet`] into two `u32` arrays
//! suitable for WGSL storage buffers, and back. Exact candidate identity is the
//! only authority: no density-only or page-level approximation is permitted.
use crate::attention_shape::{fits3, AttentionShape, FlatAttentionError};
use crate::fingerprint::{fnv1a64, fnv1a64_spec};
use crate::research_structural_routing::{
    lemma_canonical_rows_accepted, lemma_rows_determine_set, csr_rows, csr_wf, from_rows_rule, query_row_count,
    strictly_increasing, StructuralCandidateSet, StructuralRoutingError,
};
use vstd::arithmetic::div_mod::{lemma_div_denominator, lemma_fundamental_div_mod};
use vstd::prelude::*;

verus! {

/// Version of the structural device-buffer representation.
pub const STRUCTURAL_DEVICE_SCHEMA_VERSION: u32 = 1;

#[derive(Debug, Clone, Copy, PartialEq, Eq)]
#[non_exhaustive]
pub enum StructuralDevicePlanError {
    Routing(StructuralRoutingError),
    Attention(FlatAttentionError),
    ZeroGeometry,
    IndexSpaceExceeded { field: &'static str, value: usize },
    OffsetCountMismatch { actual: usize, expected: usize },
    FirstOffsetNonZero,
    TerminalOffsetMismatch { actual: u32, expected: u32 },
    DecreasingOffset { row: usize, start: u32, end: u32 },
    OffsetOutOfRange { row: usize, end: usize, key_count: usize },
    KeyOutOfRange { row: usize, key: u32, seq_len: u32 },
    NonIncreasingKey { row: usize, previous: u32, current: u32 },
    GeometryMismatch {
        plan_seq_len: u32,
        shape_seq_len: usize,
        plan_query_rows: u32,
        shape_query_rows: usize,
    },
}

/// First failure among the keys `keys[start + p..end]` of one row.
pub open spec fn row_keys_failure(seq_len: u32, keys: Seq<u32>, start: int, end: int, p: int, row: int) -> Option<
    StructuralDevicePlanError,
>
    decreases end - (start + p),
{
    if p < 0 || start + p >= end {
        None
    } else if keys[start + p] >= seq_len {
        Some(
            StructuralDevicePlanError::KeyOutOfRange {
                row: row as usize,
                key: keys[start + p],
                seq_len,
            },
        )
    } else if p > 0 && keys[start + p - 1] >= keys[start + p] {
        Some(
            StructuralDevicePlanError::NonIncreasingKey {
                row: row as usize,
                previous: keys[start + p - 1],
                current: keys[start + p],
            },
        )
    } else {
        row_keys_failure(seq_len, keys, start, end, p + 1, row)
    }
}

/// First failing row at or after `row`.
pub open spec fn plan_rows_failure(seq_len: u32, query_rows: u32, offsets: Seq<u32>, keys: Seq<u32>, row: int) -> Option<
    StructuralDevicePlanError,
>
    decreases query_rows - row,
{
    if row < 0 || row >= query_rows {
        None
    } else {
        let start = offsets[row];
        let end = offsets[row + 1];
        if start > end {
            Some(StructuralDevicePlanError::DecreasingOffset { row: row as usize, start, end })
        } else if end > keys.len() {
            Some(
                StructuralDevicePlanError::OffsetOutOfRange {
                    row: row as usize,
                    end: end as usize,
                    key_count: keys.len() as usize,
                },
            )
        } else {
            match row_keys_failure(seq_len, keys, start as int, end as int, 0, row) {
                Some(e) => Some(e),
                None => plan_rows_failure(seq_len, query_rows, offsets, keys, row + 1),
            }
        }
    }
}

/// The first failure of raw device arrays, in validation order.
pub open spec fn plan_failure(seq_len: u32, query_rows: u32, offsets: Seq<u32>, keys: Seq<u32>) -> Option<
    StructuralDevicePlanError,
> {
    if seq_len == 0 || query_rows == 0 {
        Some(StructuralDevicePlanError::ZeroGeometry)
    } else if offsets.len() != query_rows + 1 {
        Some(
            StructuralDevicePlanError::OffsetCountMismatch {
                actual: offsets.len() as usize,
                expected: (if query_rows + 1 > usize::MAX {
                    0
                } else {
                    query_rows + 1
                }) as usize,
            },
        )
    } else if offsets[0] != 0 {
        Some(StructuralDevicePlanError::FirstOffsetNonZero)
    } else if keys.len() > u32::MAX {
        Some(
            StructuralDevicePlanError::IndexSpaceExceeded {
                field: "key_count",
                value: keys.len() as usize,
            },
        )
    } else if offsets[query_rows as int] != keys.len() {
        Some(
            StructuralDevicePlanError::TerminalOffsetMismatch {
                actual: offsets[query_rows as int],
                expected: keys.len() as u32,
            },
        )
    } else {
        plan_rows_failure(seq_len, query_rows, offsets, keys, 0)
    }
}

/// Widen device indices to host indices.
pub open spec fn widen(s: Seq<u32>) -> Seq<usize> {
    s.map_values(|v: u32| v as usize)
}

/// Host rows carried by device arrays.
pub open spec fn plan_rows(query_rows: u32, offsets: Seq<u32>, keys: Seq<u32>) -> Seq<Seq<usize>> {
    csr_rows(query_rows as int, widen(offsets), widen(keys))
}

/// Little-endian bytes of one `u32`.
pub open spec fn u32_le_bytes(v: u32) -> Seq<u8> {
    seq![
        (v % 256) as u8,
        ((v / 256) % 256) as u8,
        ((v / 65536) % 256) as u8,
        ((v / 16777216) % 256) as u8,
    ]
}

/// Little-endian bytes of a `u32` sequence, in order.
pub open spec fn u32s_le_bytes(s: Seq<u32>) -> Seq<u8>
    decreases s.len(),
{
    if s.len() == 0 {
        Seq::empty()
    } else {
        u32s_le_bytes(s.drop_last()) + u32_le_bytes(s.last())
    }
}

/// Index of the first entry at or after `i` that does not fit in `u32`.
pub open spec fn first_unaddressable(s: Seq<usize>, i: int) -> Option<int>
    decreases s.len() - i,
{
    if i < 0 || i >= s.len() {
        None
    } else if s[i] > u32::MAX {
        Some(i)
    } else {
        first_unaddressable(s, i + 1)
    }
}

/// Exact device plan arrays.
#[derive(Debug, PartialEq, Eq)]
pub struct StructuralDevicePlan {
    seq_len: u32,
    query_rows: u32,
    offsets: Vec<u32>,
    key_positions: Vec<u32>,
}

impl StructuralDevicePlan {
    #[verifier::type_invariant]
    spec fn inv(self) -> bool {
        plan_failure(self.seq_len, self.query_rows, self.offsets@, self.key_positions@) is None
    }

    pub closed spec fn spec_seq_len(&self) -> u32 {
        self.seq_len
    }

    pub closed spec fn spec_query_rows(&self) -> u32 {
        self.query_rows
    }

    pub closed spec fn spec_offsets(&self) -> Seq<u32> {
        self.offsets@
    }

    pub closed spec fn spec_key_positions(&self) -> Seq<u32> {
        self.key_positions@
    }

    /// The arrays pass every device-plan check.
    pub open spec fn well_formed(&self) -> bool {
        plan_failure(
            self.spec_seq_len(),
            self.spec_query_rows(),
            self.spec_offsets(),
            self.spec_key_positions(),
        ) is None
    }

    /// Canonical little-endian record of the plan.
    pub open spec fn spec_canonical_bytes(&self) -> Seq<u8> {
        u32_le_bytes(STRUCTURAL_DEVICE_SCHEMA_VERSION) + u32_le_bytes(self.spec_seq_len())
            + u32_le_bytes(self.spec_query_rows()) + u32_le_bytes(
            self.spec_offsets().len() as u32,
        ) + u32_le_bytes(self.spec_key_positions().len() as u32) + u32s_le_bytes(
            self.spec_offsets(),
        ) + u32s_le_bytes(self.spec_key_positions())
    }

    /// Convert one canonical host candidate set into the portable WGSL `u32`
    /// index space.
    pub fn from_candidates(candidates: &StructuralCandidateSet) -> (r: Result<
        Self,
        StructuralDevicePlanError,
    >)
        ensures
            r is Ok <==> from_candidates_failure(candidates) is None,
            r matches Err(e) ==> from_candidates_failure(candidates) == Some(e),
            r matches Ok(plan) ==> (plan.spec_seq_len() == candidates.spec_seq_len()
                && plan.spec_query_rows() == candidates.spec_query_rows() && widen(
                plan.spec_offsets(),
            ) == candidates.spec_offsets() && widen(plan.spec_key_positions())
                == candidates.spec_key_positions() && plan_rows(
                plan.spec_query_rows(),
                plan.spec_offsets(),
                plan.spec_key_positions(),
            ) == candidates.rows()),
    {
        let seq_len = checked_u32(candidates.seq_len(), "seq_len")?;
        let query_rows = checked_u32(candidates.query_rows(), "query_rows")?;
        let offsets = narrow_all(candidates.offsets(), "offset")?;
        let key_positions = narrow_all(candidates.key_positions(), "key_position")?;
        proof {
            lemma_csr_plan_valid(
                candidates.spec_seq_len(),
                candidates.spec_query_rows(),
                candidates.spec_offsets(),
                candidates.spec_key_positions(),
                seq_len,
                query_rows,
                offsets@,
                key_positions@,
            );
        }
        Ok(StructuralDevicePlan { seq_len, query_rows, offsets, key_positions })
    }

    /// Revalidate one raw device representation before it can be used for a
    /// WGPU upload or reconstructed into host semantics.
    pub fn from_u32_parts(seq_len: u32, query_rows: u32, offsets: Vec<u32>, key_positions: Vec<u32>) -> (r:
        Result<Self, StructuralDevicePlanError>)
        ensures
            match r {
                Ok(plan) => plan_failure(seq_len, query_rows, offsets@, key_positions@) is None
                    && plan.spec_seq_len() == seq_len && plan.spec_query_rows() == query_rows
                    && plan.spec_offsets() == offsets@ && plan.spec_key_positions()
                    == key_positions@,
                Err(e) => plan_failure(seq_len, query_rows, offsets@, key_positions@) == Some(e),
            },
    {
        validate_parts(seq_len, query_rows, &offsets, &key_positions)?;
        Ok(StructuralDevicePlan { seq_len, query_rows, offsets, key_positions })
    }

    pub fn seq_len(&self) -> (r: u32)
        ensures
            r == self.spec_seq_len(),
    {
        self.seq_len
    }

    pub fn query_rows(&self) -> (r: u32)
        ensures
            r == self.spec_query_rows(),
    {
        self.query_rows
    }

    pub fn offsets(&self) -> (r: &[u32])
        ensures
            r@ == self.spec_offsets(),
            plan_failure(
                self.spec_seq_len(),
                self.spec_query_rows(),
                self.spec_offsets(),
                self.spec_key_positions(),
            ) is None,
    {
        proof {
            use_type_invariant(self);
        }
        self.offsets.as_slice()
    }

    pub fn key_positions(&self) -> (r: &[u32])
        ensures
            r@ == self.spec_key_positions(),
            plan_failure(
                self.spec_seq_len(),
                self.spec_query_rows(),
                self.spec_offsets(),
                self.spec_key_positions(),
            ) is None,
    {
        proof {
            use_type_invariant(self);
        }
        self.key_positions.as_slice()
    }

    pub fn admitted_count(&self) -> (r: usize)
        ensures
            r == self.spec_key_positions().len(),
    {
        self.key_positions.len()
    }

    /// Bytes of the offsets buffer.
    pub fn offsets_bytes(&self) -> (r: u64)
        ensures
            r == 4 * self.spec_offsets().len(),
    {
        proof {
            use_type_invariant(self);
        }
        (self.offsets.len() as u64) * 4
    }

    /// Bytes of the key-position buffer.
    pub fn key_positions_bytes(&self) -> (r: u64)
        ensures
            r == 4 * self.spec_key_positions().len(),
    {
        proof {
            use_type_invariant(self);
        }
        (self.key_positions.len() as u64) * 4
    }

    /// Bytes of both device buffers.
    pub fn total_storage_bytes(&self) -> (r: u64)
        ensures
            r == 4 * self.spec_offsets().len() + 4 * self.spec_key_positions().len(),
    {
        proof {
            use_type_invariant(self);
        }
        self.offsets_bytes() + self.key_positions_bytes()
    }

    /// Canonical little-endian bytes for deterministic evidence/fingerprinting.
    pub fn canonical_bytes(&self) -> (r: Vec<u8>)
        ensures
            r@ == self.spec_canonical_bytes(),
    {
        let mut bytes: Vec<u8> = Vec::new();
        push_u32_le(&mut bytes, STRUCTURAL_DEVICE_SCHEMA_VERSION);
        push_u32_le(&mut bytes, self.seq_len);
        push_u32_le(&mut bytes, self.query_rows);
        push_u32_le(&mut bytes, self.offsets.len() as u32);
        push_u32_le(&mut bytes, self.key_positions.len() as u32);
        push_u32s_le(&mut bytes, self.offsets.as_slice());
        push_u32s_le(&mut bytes, self.key_positions.as_slice());
        bytes
    }

    /// Deterministic structural fingerprint. This is not authentication.
    pub fn fingerprint_fnv1a64(&self) -> (r: u64)
        ensures
            r == fnv1a64_spec(self.spec_canonical_bytes()),
    {
        let bytes = self.canonical_bytes();
        fnv1a64(bytes.as_slice())
    }

    /// Reconstruct the authoritative host candidate semantics for an explicitly
    /// supplied attention shape.
    pub fn to_candidates(&self, shape: AttentionShape) -> (r: Result<
        StructuralCandidateSet,
        StructuralDevicePlanError,
    >)
        ensures
            match r {
                Ok(set) => to_candidates_rule(self, shape) == Ok::<
                    Seq<Seq<usize>>,
                    StructuralDevicePlanError,
                >(set.rows()) && set.spec_seq_len() == shape.seq_len && set.spec_query_rows()
                    == self.spec_query_rows() && set.well_formed(),
                Err(e) => to_candidates_rule(self, shape) == Err::<
                    Seq<Seq<usize>>,
                    StructuralDevicePlanError,
                >(e),
            },
    {
        proof {
            use_type_invariant(self);
        }
        validate_parts(self.seq_len, self.query_rows, &self.offsets, &self.key_positions)?;
        let expected_rows = match shape.lse_len() {
            Ok(v) => v,
            Err(e) => return Err(StructuralDevicePlanError::Attention(e)),
        };
        if shape.seq_len != self.seq_len as usize || expected_rows != self.query_rows as usize {
            return Err(
                StructuralDevicePlanError::GeometryMismatch {
                    plan_seq_len: self.seq_len,
                    shape_seq_len: shape.seq_len,
                    plan_query_rows: self.query_rows,
                    shape_query_rows: expected_rows,
                },
            );
        }
        let ghost rows_view = plan_rows(self.query_rows, self.offsets@, self.key_positions@);
        proof {
            lemma_plan_offsets_sound(self.seq_len, self.query_rows, self.offsets@, self.key_positions@);
        }
        let mut rows: Vec<Vec<usize>> = Vec::new();
        let mut row: usize = 0;
        while row < expected_rows
            invariant
                expected_rows == self.query_rows,
                rows_view == plan_rows(self.query_rows, self.offsets@, self.key_positions@),
                self.offsets@.len() == self.query_rows + 1,
                forall|i: int|
                    0 <= i < self.query_rows ==> #[trigger] device_row_sound(
                        self.seq_len,
                        self.offsets@,
                        self.key_positions@,
                        i,
                    ),
                0 <= row <= expected_rows,
                rows@.len() == row,
                forall|i: int| 0 <= i < row ==> (#[trigger] rows@[i])@ == rows_view[i],
            decreases expected_rows - row,
        {
            assert(device_row_sound(self.seq_len, self.offsets@, self.key_positions@, row as int));
            let start = self.offsets[row] as usize;
            let end = self.offsets[row + 1] as usize;
            let mut keys: Vec<usize> = Vec::new();
            let mut k = start;
            while k < end
                invariant
                    start <= k <= end,
                    end <= self.key_positions@.len(),
                    keys@ == widen(self.key_positions@).subrange(start as int, k as int),
                decreases end - k,
            {
                keys.push(self.key_positions[k] as usize);
                assert(keys@ =~= widen(self.key_positions@).subrange(start as int, k + 1));
                k = k + 1;
            }
            proof {
                assert(widen(self.offsets@)[row as int] == start);
                assert(widen(self.offsets@)[row + 1] == end);
            }
            rows.push(keys);
            row = row + 1;
        }
        proof {
            assert(crate::research_structural_routing::row_views(rows@) =~= rows_view);
        }
        match StructuralCandidateSet::from_rows(shape, rows) {
            Ok(set) => Ok(set),
            Err(e) => Err(StructuralDevicePlanError::Routing(e)),
        }
    }
}

/// The first index-space failure when narrowing a host set, if any.
pub open spec fn from_candidates_failure(c: &StructuralCandidateSet) -> Option<
    StructuralDevicePlanError,
> {
    if c.spec_seq_len() > u32::MAX {
        Some(
            StructuralDevicePlanError::IndexSpaceExceeded {
                field: "seq_len",
                value: c.spec_seq_len(),
            },
        )
    } else if c.spec_query_rows() > u32::MAX {
        Some(
            StructuralDevicePlanError::IndexSpaceExceeded {
                field: "query_rows",
                value: c.spec_query_rows(),
            },
        )
    } else {
        match first_unaddressable(c.spec_offsets(), 0) {
            Some(i) => Some(
                StructuralDevicePlanError::IndexSpaceExceeded {
                    field: "offset",
                    value: c.spec_offsets()[i],
                },
            ),
            None => match first_unaddressable(c.spec_key_positions(), 0) {
                Some(i) => Some(
                    StructuralDevicePlanError::IndexSpaceExceeded {
                        field: "key_position",
                        value: c.spec_key_positions()[i],
                    },
                ),
                None => None,
            },
        }
    }
}

/// Host rows reconstructed from a plan for a shape, or the first failure.
pub open spec fn to_candidates_rule(plan: &StructuralDevicePlan, shape: AttentionShape) -> Result<
    Seq<Seq<usize>>,
    StructuralDevicePlanError,
> {
    if !fits3(shape.batch, shape.heads, shape.seq_len) {
        Err(StructuralDevicePlanError::Attention(FlatAttentionError::ShapeOverflow))
    } else if shape.seq_len != plan.spec_seq_len() || query_row_count(shape)
        != plan.spec_query_rows() {
        Err(
            StructuralDevicePlanError::GeometryMismatch {
                plan_seq_len: plan.spec_seq_len(),
                shape_seq_len: shape.seq_len,
                plan_query_rows: plan.spec_query_rows(),
                shape_query_rows: query_row_count(shape) as usize,
            },
        )
    } else {
        match from_rows_rule(
            shape,
            plan_rows(plan.spec_query_rows(), plan.spec_offsets(), plan.spec_key_positions()),
        ) {
            Ok(rows) => Ok(rows),
            Err(e) => Err(StructuralDevicePlanError::Routing(e)),
        }
    }
}

fn checked_u32(value: usize, field: &'static str) -> (r: Result<u32, StructuralDevicePlanError>)
    ensures
        r is Ok <==> value <= u32::MAX,
        r matches Ok(v) ==> v == value,
        r matches Err(e) ==> (e == StructuralDevicePlanError::IndexSpaceExceeded { field, value }),
{
    if value > u32::MAX as usize {
        return Err(StructuralDevicePlanError::IndexSpaceExceeded { field, value });
    }
    Ok(value as u32)
}

/// Narrow every entry to `u32`, failing on the first entry that does not fit.
fn narrow_all(values: &[usize], field: &'static str) -> (r: Result<Vec<u32>, StructuralDevicePlanError>)
    ensures
        r is Ok <==> first_unaddressable(values@, 0) is None,
        r matches Ok(v) ==> widen(v@) == values@,
        r matches Err(e) ==> (first_unaddressable(values@, 0) matches Some(i) && e
            == StructuralDevicePlanError::IndexSpaceExceeded { field, value: values@[i] }),
{
    let mut out: Vec<u32> = Vec::new();
    let mut i: usize = 0;
    while i < values.len()
        invariant
            0 <= i <= values@.len(),
            out@.len() == i,
            forall|k: int| 0 <= k < i ==> out@[k] as usize == values@[k],
            first_unaddressable(values@, 0) == first_unaddressable(values@, i as int),
        decreases values@.len() - i,
    {
        let v = checked_u32(values[i], field)?;
        out.push(v);
        i = i + 1;
    }
    assert(widen(out@) =~= values@);
    Ok(out)
}

fn push_u32_le(bytes: &mut Vec<u8>, value: u32)
    ensures
        final(bytes)@ == old(bytes)@ + u32_le_bytes(value),
{
    bytes.push((value % 256) as u8);
    bytes.push(((value / 256) % 256) as u8);
    bytes.push(((value / 65536) % 256) as u8);
    bytes.push(((value / 16777216) % 256) as u8);
    assert(bytes@ =~= old(bytes)@ + u32_le_bytes(value));
}

fn push_u32s_le(bytes: &mut Vec<u8>, values: &[u32])
    ensures
        final(bytes)@ == old(bytes)@ + u32s_le_bytes(values@),
{
    let ghost start = bytes@;
    let mut i: usize = 0;
    assert(values@.take(0) =~= Seq::<u32>::empty());
    assert(start + u32s_le_bytes(values@.take(0)) =~= start);
    while i < values.len()
        invariant
            0 <= i <= values@.len(),
            bytes@ == start + u32s_le_bytes(values@.take(i as int)),
        decreases values@.len() - i,
    {
        push_u32_le(bytes, values[i]);
        assert(values@.take(i + 1).drop_last() =~= values@.take(i as int));
        assert(bytes@ =~= start + u32s_le_bytes(values@.take(i + 1)));
        i = i + 1;
    }
    assert(values@.take(values@.len() as int) =~= values@);
}

/// Check raw device arrays in validation order.
fn validate_parts(seq_len: u32, query_rows: u32, offsets: &Vec<u32>, keys: &Vec<u32>) -> (r: Result<
    (),
    StructuralDevicePlanError,
>)
    ensures
        match r {
            Ok(()) => plan_failure(seq_len, query_rows, offsets@, keys@) is None,
            Err(e) => plan_failure(seq_len, query_rows, offsets@, keys@) == Some(e),
        },
{
    if seq_len == 0 || query_rows == 0 {
        return Err(StructuralDevicePlanError::ZeroGeometry);
    }
    if offsets.len() as u64 != query_rows as u64 + 1 {
        return Err(
            StructuralDevicePlanError::OffsetCountMismatch {
                actual: offsets.len(),
                expected: match (query_rows as usize).checked_add(1) {
                    Some(v) => v,
                    None => 0,
                },
            },
        );
    }
    if offsets[0] != 0 {
        return Err(StructuralDevicePlanError::FirstOffsetNonZero);
    }
    if keys.len() > u32::MAX as usize {
        return Err(
            StructuralDevicePlanError::IndexSpaceExceeded { field: "key_count", value: keys.len() },
        );
    }
    let terminal = keys.len() as u32;
    if offsets[query_rows as usize] != terminal {
        return Err(
            StructuralDevicePlanError::TerminalOffsetMismatch {
                actual: offsets[query_rows as usize],
                expected: terminal,
            },
        );
    }
    let mut row: usize = 0;
    while row < query_rows as usize
        invariant
            offsets@.len() == query_rows + 1,
            0 <= row <= query_rows,
            plan_failure(seq_len, query_rows, offsets@, keys@) == plan_rows_failure(
                seq_len,
                query_rows,
                offsets@,
                keys@,
                row as int,
            ),
            seq_len != 0 && query_rows != 0 && offsets@[0] == 0 && keys@.len() <= u32::MAX
                && offsets@[query_rows as int] == keys@.len(),
        decreases query_rows - row,
    {
        let start = offsets[row];
        let end = offsets[row + 1];
        if start > end {
            return Err(StructuralDevicePlanError::DecreasingOffset { row, start, end });
        }
        let start = start as usize;
        let end = end as usize;
        if end > keys.len() {
            return Err(
                StructuralDevicePlanError::OffsetOutOfRange { row, end, key_count: keys.len() },
            );
        }
        let mut p: usize = 0;
        while p < end - start
            invariant
                start <= end <= keys@.len(),
                start == offsets@[row as int],
                end == offsets@[row + 1],
                0 <= row < query_rows,
                offsets@.len() == query_rows + 1,
                plan_failure(seq_len, query_rows, offsets@, keys@) == plan_rows_failure(
                    seq_len,
                    query_rows,
                    offsets@,
                    keys@,
                    row as int,
                ),
                row_keys_failure(seq_len, keys@, start as int, end as int, 0, row as int)
                    == row_keys_failure(seq_len, keys@, start as int, end as int, p as int, row as int),
            decreases end - (start + p),
        {
            let key = keys[start + p];
            if key >= seq_len {
                return Err(StructuralDevicePlanError::KeyOutOfRange { row, key, seq_len });
            }
            if p > 0 && keys[start + p - 1] >= key {
                return Err(
                    StructuralDevicePlanError::NonIncreasingKey {
                        row,
                        previous: keys[start + p - 1],
                        current: key,
                    },
                );
            }
            p = p + 1;
        }
        row = row + 1;
    }
    Ok(())
}

/// One device row is a monotone offset pair over strictly increasing in-range keys.
pub open spec fn device_row_sound(seq_len: u32, offsets: Seq<u32>, keys: Seq<u32>, i: int) -> bool {
    &&& offsets[i] <= offsets[i + 1] <= keys.len()
    &&& forall|t: int| offsets[i] <= t < offsets[i + 1] ==> #[trigger] keys[t] < seq_len
    &&& forall|t: int| offsets[i] <= t && t + 1 < offsets[i + 1] ==> #[trigger] keys[t] < keys[t + 1]
}

/// Rows of valid device arrays are strictly increasing and within `seq_len`.
proof fn lemma_row_keys_sound(seq_len: u32, keys: Seq<u32>, start: int, end: int, p: int, row: int)
    requires
        0 <= start <= end <= keys.len(),
        0 <= p,
        row_keys_failure(seq_len, keys, start, end, p, row) is None,
    ensures
        forall|t: int| start + p <= t < end ==> #[trigger] keys[t] < seq_len,
        forall|t: int| start + p <= t && t + 1 < end ==> #[trigger] keys[t] < keys[t + 1],
    decreases end - (start + p),
{
    if start + p < end {
        lemma_row_keys_sound(seq_len, keys, start, end, p + 1, row);
    }
}

/// Offsets of valid device arrays are monotone and each row is canonical.
proof fn lemma_plan_offsets_sound(seq_len: u32, query_rows: u32, offsets: Seq<u32>, keys: Seq<u32>)
    requires
        plan_failure(seq_len, query_rows, offsets, keys) is None,
    ensures
        offsets.len() == query_rows + 1,
        offsets[0] == 0,
        offsets[query_rows as int] == keys.len(),
        forall|i: int| 0 <= i < query_rows ==> #[trigger] device_row_sound(seq_len, offsets, keys, i),
{
    lemma_plan_rows_sound(seq_len, query_rows, offsets, keys, 0);
}

proof fn lemma_plan_rows_sound(seq_len: u32, query_rows: u32, offsets: Seq<u32>, keys: Seq<u32>, row: int)
    requires
        offsets.len() == query_rows + 1,
        0 <= row,
        plan_rows_failure(seq_len, query_rows, offsets, keys, row) is None,
    ensures
        forall|i: int| row <= i < query_rows ==> #[trigger] device_row_sound(seq_len, offsets, keys, i),
    decreases query_rows - row,
{
    if row < query_rows {
        lemma_row_keys_sound(seq_len, keys, offsets[row] as int, offsets[row + 1] as int, 0, row);
        lemma_plan_rows_sound(seq_len, query_rows, offsets, keys, row + 1);
    }
}

/// A well-formed host set that fits in `u32` narrows to valid device arrays.
proof fn lemma_csr_plan_valid(
    seq_len: usize,
    query_rows: usize,
    offsets: Seq<usize>,
    keys: Seq<usize>,
    seq_len32: u32,
    query_rows32: u32,
    offsets32: Seq<u32>,
    keys32: Seq<u32>,
)
    requires
        csr_wf(seq_len as int, query_rows as int, offsets, keys),
        seq_len32 == seq_len,
        query_rows32 == query_rows,
        widen(offsets32) == offsets,
        widen(keys32) == keys,
    ensures
        plan_failure(seq_len32, query_rows32, offsets32, keys32) is None,
        plan_rows(query_rows32, offsets32, keys32) == csr_rows(query_rows as int, offsets, keys),
{
    assert(offsets32.len() == offsets.len());
    assert(keys32.len() == keys.len());
    assert(offsets32[0] as usize == offsets[0]);
    assert(offsets32[query_rows as int] as usize == offsets[query_rows as int]);
    assert(keys.len() <= u32::MAX) by {
        assert(offsets[query_rows as int] == offsets32[query_rows as int]);
    }
    lemma_csr_rows_accepted(seq_len32, query_rows32, offsets32, keys32, offsets, keys, 0);
    assert(plan_rows(query_rows32, offsets32, keys32) =~= csr_rows(query_rows as int, offsets, keys));
}

proof fn lemma_csr_rows_accepted(
    seq_len32: u32,
    query_rows32: u32,
    offsets32: Seq<u32>,
    keys32: Seq<u32>,
    offsets: Seq<usize>,
    keys: Seq<usize>,
    row: int,
)
    requires
        csr_wf(seq_len32 as int, query_rows32 as int, offsets, keys),
        widen(offsets32) == offsets,
        widen(keys32) == keys,
        0 <= row,
    ensures
        plan_rows_failure(seq_len32, query_rows32, offsets32, keys32, row) is None,
    decreases query_rows32 - row,
{
    if row < query_rows32 {
        assert(offsets32.len() == offsets.len() && keys32.len() == keys.len());
        let start = offsets[row];
        let end = offsets[row + 1];
        assert(offsets32[row] as usize == start);
        assert(offsets32[row + 1] as usize == end);
        assert(start <= end);
        assert(end <= offsets[query_rows32 as int]);
        assert(strictly_increasing(keys.subrange(start as int, end as int)));
        lemma_csr_row_keys_accepted(seq_len32, keys32, keys, start as int, end as int, 0, row);
        lemma_csr_rows_accepted(seq_len32, query_rows32, offsets32, keys32, offsets, keys, row + 1);
    }
}

proof fn lemma_csr_row_keys_accepted(
    seq_len32: u32,
    keys32: Seq<u32>,
    keys: Seq<usize>,
    start: int,
    end: int,
    p: int,
    row: int,
)
    requires
        0 <= start <= end <= keys.len(),
        widen(keys32) == keys,
        forall|a: int| 0 <= a < keys.len() ==> keys[a] < seq_len32,
        strictly_increasing(keys.subrange(start, end)),
        0 <= p,
    ensures
        row_keys_failure(seq_len32, keys32, start, end, p, row) is None,
    decreases end - (start + p),
{
    if start + p < end {
        assert(keys32.len() == keys.len());
        assert(keys32[start + p] as usize == keys[start + p]);
        if p > 0 {
            assert(keys32[start + p - 1] as usize == keys[start + p - 1]);
            assert(keys.subrange(start, end)[p - 1] < keys.subrange(start, end)[p]);
        }
        lemma_csr_row_keys_accepted(seq_len32, keys32, keys, start, end, p + 1, row);
    }
}

/// Narrowing a host candidate set to device arrays and reconstructing it for
/// the shape it was canonicalized for yields exactly the same canonical rows.
pub proof fn lemma_host_device_round_trip(
    c: StructuralCandidateSet,
    plan: StructuralDevicePlan,
    shape: AttentionShape,
)
    requires
        csr_wf(
            c.spec_seq_len() as int,
            c.spec_query_rows() as int,
            c.spec_offsets(),
            c.spec_key_positions(),
        ),
        plan.spec_seq_len() == c.spec_seq_len(),
        plan.spec_query_rows() == c.spec_query_rows(),
        widen(plan.spec_offsets()) == c.spec_offsets(),
        widen(plan.spec_key_positions()) == c.spec_key_positions(),
        shape.valid(),
        shape.seq_len == c.spec_seq_len(),
        query_row_count(shape) == c.spec_query_rows(),
    ensures
        to_candidates_rule(&plan, shape) == Ok::<Seq<Seq<usize>>, StructuralDevicePlanError>(
            c.rows(),
        ),
{
    crate::wgpu_backward_grouped::lemma_lse_fits(shape.batch, shape.heads, shape.seq_len, shape.head_dim);
    lemma_csr_plan_valid(
        c.spec_seq_len(),
        c.spec_query_rows(),
        c.spec_offsets(),
        c.spec_key_positions(),
        plan.spec_seq_len(),
        plan.spec_query_rows(),
        plan.spec_offsets(),
        plan.spec_key_positions(),
    );
    let rows = c.rows();
    assert forall|r: int| 0 <= r < rows.len() implies strictly_increasing(#[trigger] rows[r])
        && forall|t: int| 0 <= t < rows[r].len() ==> #[trigger] rows[r][t] < shape.seq_len by {
        let offsets = c.spec_offsets();
        let keys = c.spec_key_positions();
        assert(offsets[r] <= offsets[r + 1] <= offsets[c.spec_query_rows() as int]);
        assert forall|t: int| 0 <= t < rows[r].len() implies #[trigger] rows[r][t] < shape.seq_len by {
            assert(rows[r][t] == keys[offsets[r] + t]);
        }
    }
    lemma_canonical_rows_accepted(rows, shape.seq_len, 0);
}

/// Round trip: a plan narrowed from a candidate set (the fields that
/// `from_candidates` gives) and read back under a valid shape with the set's
/// geometry yields exactly the set's rows; under a valid shape of any other
/// geometry the read-back is a geometry mismatch.
pub proof fn lemma_device_round_trip(
    c: &StructuralCandidateSet,
    plan: &StructuralDevicePlan,
    shape: AttentionShape,
)
    requires
        c.well_formed(),
        plan.spec_seq_len() == c.spec_seq_len(),
        plan.spec_query_rows() == c.spec_query_rows(),
        widen(plan.spec_offsets()) == c.spec_offsets(),
        widen(plan.spec_key_positions()) == c.spec_key_positions(),
        shape.valid(),
    ensures
        shape.seq_len == c.spec_seq_len() && query_row_count(shape) == c.spec_query_rows()
            ==> to_candidates_rule(plan, shape) == Ok::<
            Seq<Seq<usize>>,
            StructuralDevicePlanError,
        >(c.rows()),
        shape.seq_len != c.spec_seq_len() || query_row_count(shape) != c.spec_query_rows()
            ==> to_candidates_rule(plan, shape) == Err::<
            Seq<Seq<usize>>,
            StructuralDevicePlanError,
        >(
            StructuralDevicePlanError::GeometryMismatch {
                plan_seq_len: plan.spec_seq_len(),
                shape_seq_len: shape.seq_len,
                plan_query_rows: plan.spec_query_rows(),
                shape_query_rows: query_row_count(shape) as usize,
            },
        ),
{
    let rows = c.rows();
    assert(plan_rows(plan.spec_query_rows(), plan.spec_offsets(), plan.spec_key_positions())
        =~= rows);
    let n = c.spec_query_rows() as int;
    let offsets = c.spec_offsets();
    let keys = c.spec_key_positions();
    assert forall|r: int| 0 <= r < rows.len() implies strictly_increasing(#[trigger] rows[r])
        && forall|t: int| 0 <= t < rows[r].len() ==> #[trigger] rows[r][t] < c.spec_seq_len() by {
        assert(strictly_increasing(keys.subrange(offsets[r] as int, offsets[r + 1] as int)));
        assert(offsets[r] <= offsets[r + 1] && offsets[r + 1] <= offsets[n]);
        assert forall|t: int| 0 <= t < rows[r].len() implies #[trigger] rows[r][t]
            < c.spec_seq_len() by {
            assert(rows[r][t] == keys[offsets[r] + t]);
        }
    }
    if shape.seq_len == c.spec_seq_len() {
        lemma_canonical_rows_accepted(rows, shape.seq_len, 0);
    }
}

/// Exact identity round trip: the set that `to_candidates` reads back (under
/// a valid shape with the geometry of the set the plan was narrowed from) is
/// that set again in every field.
pub proof fn lemma_device_round_trip_identity(
    c: &StructuralCandidateSet,
    plan: &StructuralDevicePlan,
    shape: AttentionShape,
    d: &StructuralCandidateSet,
)
    requires
        c.well_formed(),
        plan.spec_seq_len() == c.spec_seq_len(),
        plan.spec_query_rows() == c.spec_query_rows(),
        widen(plan.spec_offsets()) == c.spec_offsets(),
        widen(plan.spec_key_positions()) == c.spec_key_positions(),
        shape.valid(),
        shape.seq_len == c.spec_seq_len(),
        query_row_count(shape) == c.spec_query_rows(),
        to_candidates_rule(plan, shape) == Ok::<Seq<Seq<usize>>, StructuralDevicePlanError>(d.rows()),
        d.spec_seq_len() == shape.seq_len,
        d.spec_query_rows() == plan.spec_query_rows(),
        d.well_formed(),
    ensures
        d.spec_seq_len() == c.spec_seq_len(),
        d.spec_query_rows() == c.spec_query_rows(),
        d.spec_offsets() == c.spec_offsets(),
        d.spec_key_positions() == c.spec_key_positions(),
{
    lemma_device_round_trip(c, plan, shape);
    lemma_rows_determine_set(d, c);
}

proof fn lemma_u32s_le_bytes_len(s: Seq<u32>)
    ensures
        u32s_le_bytes(s).len() == 4 * s.len(),
    decreases s.len(),
{
    if s.len() > 0 {
        lemma_u32s_le_bytes_len(s.drop_last());
    }
}

proof fn lemma_u32s_le_bytes_at(s: Seq<u32>, i: int)
    requires
        0 <= i < s.len(),
    ensures
        u32s_le_bytes(s).subrange(4 * i, 4 * i + 4) == u32_le_bytes(s[i]),
    decreases s.len(),
{
    lemma_u32s_le_bytes_len(s.drop_last());
    if i == s.len() - 1 {
        assert(u32s_le_bytes(s).subrange(4 * i, 4 * i + 4) =~= u32_le_bytes(s.last()));
    } else {
        lemma_u32s_le_bytes_at(s.drop_last(), i);
        assert(u32s_le_bytes(s).subrange(4 * i, 4 * i + 4) =~= u32s_le_bytes(
            s.drop_last(),
        ).subrange(4 * i, 4 * i + 4));
    }
}

proof fn lemma_u32_le_digits(v: u32)
    ensures
        v as int == (v % 256) as int + 256 * ((v / 256) % 256) as int + 65536 * ((v / 65536)
            % 256) as int + 16777216 * ((v / 16777216) % 256) as int,
{
    let x = v as int;
    lemma_fundamental_div_mod(x, 256);
    lemma_fundamental_div_mod(x / 256, 256);
    lemma_fundamental_div_mod(x / 65536, 256);
    lemma_fundamental_div_mod(x / 16777216, 256);
    lemma_div_denominator(x, 256, 256);
    lemma_div_denominator(x, 65536, 256);
    lemma_div_denominator(x, 16777216, 256);
    assert(x / 4294967296 == 0);
}

proof fn lemma_u32_le_bytes_injective(a: u32, b: u32)
    requires
        u32_le_bytes(a) == u32_le_bytes(b),
    ensures
        a == b,
{
    assert(u32_le_bytes(a)[0] == u32_le_bytes(b)[0]);
    assert(u32_le_bytes(a)[1] == u32_le_bytes(b)[1]);
    assert(u32_le_bytes(a)[2] == u32_le_bytes(b)[2]);
    assert(u32_le_bytes(a)[3] == u32_le_bytes(b)[3]);
    lemma_u32_le_digits(a);
    lemma_u32_le_digits(b);
}

proof fn lemma_u32s_le_bytes_injective(a: Seq<u32>, b: Seq<u32>)
    requires
        a.len() == b.len(),
        u32s_le_bytes(a) == u32s_le_bytes(b),
    ensures
        a == b,
{
    assert forall|i: int| 0 <= i < a.len() implies a[i] == b[i] by {
        lemma_u32s_le_bytes_at(a, i);
        lemma_u32s_le_bytes_at(b, i);
        lemma_u32_le_bytes_injective(a[i], b[i]);
    }
    assert(a =~= b);
}

proof fn lemma_record_parts(
    h0: Seq<u8>,
    h1: Seq<u8>,
    h2: Seq<u8>,
    h3: Seq<u8>,
    h4: Seq<u8>,
    x: Seq<u8>,
    y: Seq<u8>,
)
    requires
        h0.len() == 4,
        h1.len() == 4,
        h2.len() == 4,
        h3.len() == 4,
        h4.len() == 4,
    ensures
        (h0 + h1 + h2 + h3 + h4 + x + y).len() == 20 + x.len() + y.len(),
        (h0 + h1 + h2 + h3 + h4 + x + y).subrange(4, 8) == h1,
        (h0 + h1 + h2 + h3 + h4 + x + y).subrange(8, 12) == h2,
        (h0 + h1 + h2 + h3 + h4 + x + y).subrange(20, 20 + x.len() as int) == x,
        (h0 + h1 + h2 + h3 + h4 + x + y).subrange(20 + x.len() as int, 20 + x.len() + y.len() as int) == y,
{
    let b = h0 + h1 + h2 + h3 + h4 + x + y;
    assert(b.subrange(4, 8) =~= h1);
    assert(b.subrange(8, 12) =~= h2);
    assert(b.subrange(20, 20 + x.len() as int) =~= x);
    assert(b.subrange(20 + x.len() as int, 20 + x.len() + y.len() as int) =~= y);
}

proof fn lemma_plan_record_parts(p: &StructuralDevicePlan)
    ensures
        p.spec_canonical_bytes().len() == 20 + 4 * (p.spec_offsets().len()
            + p.spec_key_positions().len()),
        p.spec_canonical_bytes().subrange(4, 8) == u32_le_bytes(p.spec_seq_len()),
        p.spec_canonical_bytes().subrange(8, 12) == u32_le_bytes(p.spec_query_rows()),
        p.spec_canonical_bytes().subrange(20, 20 + 4 * p.spec_offsets().len() as int) == u32s_le_bytes(
            p.spec_offsets(),
        ),
        p.spec_canonical_bytes().subrange(
            20 + 4 * p.spec_offsets().len() as int,
            p.spec_canonical_bytes().len() as int,
        ) == u32s_le_bytes(p.spec_key_positions()),
{
    lemma_u32s_le_bytes_len(p.spec_offsets());
    lemma_u32s_le_bytes_len(p.spec_key_positions());
    lemma_record_parts(
        u32_le_bytes(STRUCTURAL_DEVICE_SCHEMA_VERSION),
        u32_le_bytes(p.spec_seq_len()),
        u32_le_bytes(p.spec_query_rows()),
        u32_le_bytes(p.spec_offsets().len() as u32),
        u32_le_bytes(p.spec_key_positions().len() as u32),
        u32s_le_bytes(p.spec_offsets()),
        u32s_le_bytes(p.spec_key_positions()),
    );
}

/// Canonical bytes are a 20-byte header followed by four bytes per offset and
/// per key position, and they identify a plan: two plans have the same
/// canonical bytes, and so the same fingerprint, exactly when their geometry,
/// offsets and key positions are equal.
pub proof fn lemma_canonical_bytes_identify_plan(p: &StructuralDevicePlan, q: &StructuralDevicePlan)
    requires
        p.well_formed(),
        q.well_formed(),
    ensures
        p.spec_canonical_bytes().len() == 20 + 4 * (p.spec_offsets().len()
            + p.spec_key_positions().len()),
        p.spec_canonical_bytes() == q.spec_canonical_bytes() <==> (p.spec_seq_len()
            == q.spec_seq_len() && p.spec_query_rows() == q.spec_query_rows() && p.spec_offsets()
            == q.spec_offsets() && p.spec_key_positions() == q.spec_key_positions()),
        p.spec_seq_len() == q.spec_seq_len() && p.spec_query_rows() == q.spec_query_rows()
            && p.spec_offsets() == q.spec_offsets() && p.spec_key_positions()
            == q.spec_key_positions() ==> fnv1a64_spec(p.spec_canonical_bytes()) == fnv1a64_spec(
            q.spec_canonical_bytes(),
        ),
{
    lemma_plan_record_parts(p);
    lemma_plan_record_parts(q);
    if p.spec_canonical_bytes() == q.spec_canonical_bytes() {
        lemma_u32_le_bytes_injective(p.spec_seq_len(), q.spec_seq_len());
        lemma_u32_le_bytes_injective(p.spec_query_rows(), q.spec_query_rows());
        assert(p.spec_offsets().len() == p.spec_query_rows() + 1);
        assert(q.spec_offsets().len() == q.spec_query_rows() + 1);
        lemma_u32s_le_bytes_len(p.spec_offsets());
        lemma_u32s_le_bytes_len(q.spec_offsets());
        lemma_u32s_le_bytes_injective(p.spec_offsets(), q.spec_offsets());
        lemma_u32s_le_bytes_len(p.spec_key_positions());
        lemma_u32s_le_bytes_len(q.spec_key_positions());
        lemma_u32s_le_bytes_injective(p.spec_key_positions(), q.spec_key_positions());
    }
}

} // verus!
