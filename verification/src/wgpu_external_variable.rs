//! Host-side contract of padded variable-length batches.
//!
//! Physical Q/K/V stay dense sequence-major projection outputs of extents
//! `query_len` and `kv_len`; each batch element supplies its own active query
//! and KV lengths and its causal and query-RoPE origins. Those per-sequence
//! values travel in the uniform block next to the pass geometry.
use crate::attention_shape::{AsymmetricGroupedAttentionShape, FlatAttentionError};
use crate::wgpu_external::ExternalWgpuError;
use vstd::prelude::*;

verus! {

/// Maximum batch cardinality encoded in the portable uniform block.
pub const WGSL_VARIABLE_MAX_BATCH: usize = 256;

/// Words of the uniform block: twelve header words, then four per sequence.
pub const VARIABLE_PARAM_WORDS: usize = 1036;

/// Active logical extents and query position domains for one padded sequence.
#[derive(Debug, Clone, Copy, PartialEq, Eq, Structural)]
pub struct VariableLengthSequenceMetadata {
    pub active_query_len: usize,
    pub active_kv_len: usize,
    /// Absolute query position used by causal masking for local query row zero.
    pub query_position_offset: usize,
    /// RoPE position used by local query row zero.
    pub query_rope_position_offset: usize,
}

/// Why one sequence's metadata does not fit the physical extents, first
/// failure first. Every position it implies must fit in `u32`.
pub open spec fn entry_rule(
    entry: VariableLengthSequenceMetadata,
    query_len: usize,
    kv_len: usize,
    kv_position_offset: usize,
) -> Result<(), FlatAttentionError> {
    if entry.active_query_len == 0 || entry.active_kv_len == 0 {
        Err(FlatAttentionError::ZeroDimension)
    } else if entry.active_query_len > query_len {
        Err(
            FlatAttentionError::LengthMismatch {
                tensor: "active query length",
                actual: entry.active_query_len,
                expected: query_len,
            },
        )
    } else if entry.active_kv_len > kv_len {
        Err(
            FlatAttentionError::LengthMismatch {
                tensor: "active KV length",
                actual: entry.active_kv_len,
                expected: kv_len,
            },
        )
    } else if entry.query_position_offset + entry.active_query_len > u32::MAX
        || entry.query_rope_position_offset + entry.active_query_len - 1 > u32::MAX
        || kv_position_offset + entry.active_kv_len - 1 > u32::MAX {
        Err(FlatAttentionError::PositionOverflow)
    } else {
        Ok(())
    }
}

/// Index of the first rejected entry at or after `i`, or the length.
pub open spec fn first_bad_entry_from(
    metadata: Seq<VariableLengthSequenceMetadata>,
    query_len: usize,
    kv_len: usize,
    kv_position_offset: usize,
    i: int,
) -> int
    decreases metadata.len() - i,
{
    if i < 0 || i >= metadata.len() {
        metadata.len() as int
    } else if entry_rule(metadata[i], query_len, kv_len, kv_position_offset) is Err {
        i
    } else {
        first_bad_entry_from(metadata, query_len, kv_len, kv_position_offset, i + 1)
    }
}

/// The metadata contract of a padded batch of `batch` sequences.
pub open spec fn metadata_rule(
    batch: usize,
    query_len: usize,
    kv_len: usize,
    kv_position_offset: usize,
    metadata: Seq<VariableLengthSequenceMetadata>,
) -> Result<(), ExternalWgpuError> {
    let bad = first_bad_entry_from(metadata, query_len, kv_len, kv_position_offset, 0);
    if batch > WGSL_VARIABLE_MAX_BATCH {
        Err(
            ExternalWgpuError::DispatchLimit {
                axis: "batch_metadata",
                actual: batch,
                maximum: WGSL_VARIABLE_MAX_BATCH as u32,
            },
        )
    } else if metadata.len() != batch {
        Err(
            ExternalWgpuError::Core(
                FlatAttentionError::LengthMismatch {
                    tensor: "active sequence metadata",
                    actual: metadata.len() as usize,
                    expected: batch,
                },
            ),
        )
    } else if bad < metadata.len() {
        Err(
            ExternalWgpuError::Core(
                entry_rule(metadata[bad], query_len, kv_len, kv_position_offset)->Err_0,
            ),
        )
    } else {
        Ok(())
    }
}

fn check_entry(
    entry: VariableLengthSequenceMetadata,
    query_len: usize,
    kv_len: usize,
    kv_position_offset: usize,
) -> (r: Result<(), FlatAttentionError>)
    ensures
        r == entry_rule(entry, query_len, kv_len, kv_position_offset),
{
    if entry.active_query_len == 0 || entry.active_kv_len == 0 {
        return Err(FlatAttentionError::ZeroDimension);
    }
    if entry.active_query_len > query_len {
        return Err(
            FlatAttentionError::LengthMismatch {
                tensor: "active query length",
                actual: entry.active_query_len,
                expected: query_len,
            },
        );
    }
    if entry.active_kv_len > kv_len {
        return Err(
            FlatAttentionError::LengthMismatch {
                tensor: "active KV length",
                actual: entry.active_kv_len,
                expected: kv_len,
            },
        );
    }
    let causal_exclusive = match entry.query_position_offset.checked_add(entry.active_query_len) {
        Some(v) => v,
        None => return Err(FlatAttentionError::PositionOverflow),
    };
    let q_rope_last = match entry.query_rope_position_offset.checked_add(entry.active_query_len - 1) {
        Some(v) => v,
        None => return Err(FlatAttentionError::PositionOverflow),
    };
    let kv_rope_last = match kv_position_offset.checked_add(entry.active_kv_len - 1) {
        Some(v) => v,
        None => return Err(FlatAttentionError::PositionOverflow),
    };
    if causal_exclusive > 0xffff_ffffusize || q_rope_last > 0xffff_ffffusize || kv_rope_last
        > 0xffff_ffffusize {
        return Err(FlatAttentionError::PositionOverflow);
    }
    Ok(())
}

/// Validates the per-sequence metadata of a padded batch with physical
/// extents `query_len` × `kv_len` and shared K/V RoPE origin
/// `kv_position_offset`.
pub fn validate_sequence_metadata(
    batch: usize,
    query_len: usize,
    kv_len: usize,
    kv_position_offset: usize,
    metadata: &[VariableLengthSequenceMetadata],
) -> (r: Result<(), ExternalWgpuError>)
    ensures
        r == metadata_rule(batch, query_len, kv_len, kv_position_offset, metadata@),
{
    if batch > WGSL_VARIABLE_MAX_BATCH {
        return Err(
            ExternalWgpuError::DispatchLimit {
                axis: "batch_metadata",
                actual: batch,
                maximum: 256u32,
            },
        );
    }
    if metadata.len() != batch {
        return Err(
            ExternalWgpuError::Core(
                FlatAttentionError::LengthMismatch {
                    tensor: "active sequence metadata",
                    actual: metadata.len(),
                    expected: batch,
                },
            ),
        );
    }
    let mut i: usize = 0;
    while i < metadata.len()
        invariant
            i <= metadata@.len(),
            metadata@.len() == batch,
            batch <= WGSL_VARIABLE_MAX_BATCH,
            first_bad_entry_from(metadata@, query_len, kv_len, kv_position_offset, 0)
                == first_bad_entry_from(metadata@, query_len, kv_len, kv_position_offset, i as int),
        decreases metadata.len() - i,
    {
        match check_entry(metadata[i], query_len, kv_len, kv_position_offset) {
            Ok(()) => {},
            Err(e) => return Err(ExternalWgpuError::Core(e)),
        }
        i = i + 1;
    }
    Ok(())
}

/// The uniform header values: extents, heads, causality, scale, theta and the
/// shared K/V RoPE origin, then two reserved words.
pub open spec fn header_values(
    shape: AsymmetricGroupedAttentionShape,
    causal: bool,
    scale_bits: u32,
    theta_bits: u32,
    kv_position_offset: usize,
) -> Seq<usize> {
    seq![
        shape.query_len,
        shape.kv_len,
        shape.head_dim,
        shape.q_heads,
        shape.kv_heads,
        shape.batch,
        if causal {
            1usize
        } else {
            0usize
        },
        scale_bits as usize,
        theta_bits as usize,
        kv_position_offset,
        0usize,
        0usize,
    ]
}

/// Field `k` of a metadata entry in uniform order.
pub open spec fn entry_value(entry: VariableLengthSequenceMetadata, k: int) -> usize {
    if k == 0 {
        entry.active_query_len
    } else if k == 1 {
        entry.active_kv_len
    } else if k == 2 {
        entry.query_position_offset
    } else {
        entry.query_rope_position_offset
    }
}

/// Every value of the uniform block in order, before zero padding.
pub open spec fn param_values(
    shape: AsymmetricGroupedAttentionShape,
    causal: bool,
    scale_bits: u32,
    theta_bits: u32,
    kv_position_offset: usize,
    metadata: Seq<VariableLengthSequenceMetadata>,
) -> Seq<usize> {
    header_values(shape, causal, scale_bits, theta_bits, kv_position_offset) + Seq::new(
        4 * metadata.len(),
        |k: int| entry_value(metadata[k / 4], k % 4),
    )
}

/// Index of the first value at or after `i` that does not fit in `u32`, or
/// the length.
pub open spec fn first_wide_from(values: Seq<usize>, i: int) -> int
    decreases values.len() - i,
{
    if i < 0 || i >= values.len() {
        values.len() as int
    } else if values[i] > u32::MAX {
        i
    } else {
        first_wide_from(values, i + 1)
    }
}

/// Packs the uniform block of a padded variable-length pass: the header, four
/// words per sequence, and zeros up to [`VARIABLE_PARAM_WORDS`]. The first
/// value that does not fit in `u32` is reported.
pub fn variable_params(
    shape: AsymmetricGroupedAttentionShape,
    causal: bool,
    scale_bits: u32,
    theta_bits: u32,
    kv_position_offset: usize,
    metadata: &[VariableLengthSequenceMetadata],
) -> (r: Result<Vec<u32>, ExternalWgpuError>)
    requires
        metadata@.len() <= WGSL_VARIABLE_MAX_BATCH,
    ensures
        ({
            let values = param_values(
                shape,
                causal,
                scale_bits,
                theta_bits,
                kv_position_offset,
                metadata@,
            );
            let wide = first_wide_from(values, 0);
            if wide < values.len() {
                r == Err::<Vec<u32>, ExternalWgpuError>(
                    ExternalWgpuError::IndexSpaceExceeded { elements: values[wide] },
                )
            } else {
                r matches Ok(words) && words@.len() == VARIABLE_PARAM_WORDS && (forall|k: int|
                    0 <= k < VARIABLE_PARAM_WORDS ==> #[trigger] words@[k] == (if k < values.len() {
                        values[k] as u32
                    } else {
                        0u32
                    }))
            }
        }),
{
    let ghost values = param_values(
        shape,
        causal,
        scale_bits,
        theta_bits,
        kv_position_offset,
        metadata@,
    );
    let mut staged: Vec<usize> = Vec::new();
    staged.push(shape.query_len);
    staged.push(shape.kv_len);
    staged.push(shape.head_dim);
    staged.push(shape.q_heads);
    staged.push(shape.kv_heads);
    staged.push(shape.batch);
    staged.push(if causal { 1usize } else { 0usize });
    staged.push(scale_bits as usize);
    staged.push(theta_bits as usize);
    staged.push(kv_position_offset);
    staged.push(0);
    staged.push(0);
    let mut e: usize = 0;
    while e < metadata.len()
        invariant
            e <= metadata@.len(),
            metadata@.len() <= WGSL_VARIABLE_MAX_BATCH,
            staged@.len() == 12 + 4 * e,
            forall|k: int| 0 <= k < 12 ==> #[trigger] staged@[k] == header_values(shape, causal, scale_bits, theta_bits, kv_position_offset)[k],
            forall|k: int|
                12 <= k < 12 + 4 * e ==> #[trigger] staged@[k] == entry_value(
                    metadata@[(k - 12) / 4],
                    (k - 12) % 4,
                ),
        decreases metadata.len() - e,
    {
        let entry = metadata[e];
        staged.push(entry.active_query_len);
        staged.push(entry.active_kv_len);
        staged.push(entry.query_position_offset);
        staged.push(entry.query_rope_position_offset);
        e = e + 1;
    }
    proof {
        assert(staged@ =~= values);
    }
    let mut words: Vec<u32> = Vec::new();
    let mut k: usize = 0;
    while k < staged.len()
        invariant
            k <= staged@.len(),
            values == param_values(
                shape,
                causal,
                scale_bits,
                theta_bits,
                kv_position_offset,
                metadata@,
            ),
            staged@ == values,
            values.len() <= VARIABLE_PARAM_WORDS,
            words@.len() == k,
            first_wide_from(values, 0) == first_wide_from(values, k as int),
            forall|j: int| 0 <= j < k ==> #[trigger] words@[j] == values[j] as u32,
        decreases staged.len() - k,
    {
        let value = staged[k];
        if value > 0xffff_ffffusize {
            return Err(ExternalWgpuError::IndexSpaceExceeded { elements: value });
        }
        words.push(value as u32);
        k = k + 1;
    }
    while words.len() < VARIABLE_PARAM_WORDS
        invariant
            values.len() <= words@.len() <= VARIABLE_PARAM_WORDS,
            values == param_values(
                shape,
                causal,
                scale_bits,
                theta_bits,
                kv_position_offset,
                metadata@,
            ),

            first_wide_from(values, 0) == values.len(),
            forall|j: int|
                0 <= j < words@.len() ==> #[trigger] words@[j] == (if j < values.len() {
                    values[j] as u32
                } else {
                    0u32
                }),
        decreases VARIABLE_PARAM_WORDS - words.len(),
    {
        words.push(0);
    }
    Ok(words)
}

} // verus!
