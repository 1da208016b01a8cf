//! Host-side contract of packed-binary16 I/O.
//!
//! Two IEEE-754 binary16 scalars travel in each `u32` word, the first in the
//! low half. All attention arithmetic and the LSE rows stay `f32`, so the
//! output buffer holds `tensor_len / 2` packed output words followed by one
//! `f32` word per query row. Packed I/O serves head dimensions 64 and 128;
//! every other request is routed to the `f32` executor.
use crate::attention_shape::{AttentionShape, FlatAttentionError};
use crate::wgpu_backend::{ResidentOperand, WgpuFlatAttentionError};
use crate::wgpu_external::{lemma_ceil_div, query_tiles};
use vstd::prelude::*;

verus! {

#[derive(Debug, Clone, Copy, PartialEq, Eq, Structural)]
pub enum WgpuIoPrecision {
    F32,
    PackedF16,
}

#[derive(Debug, Clone, PartialEq)]
pub enum WgpuF16AttentionError {
    Core(FlatAttentionError),
    F32(WgpuFlatAttentionError),
    Unavailable,
    PackedShaderUnsupported(String),
    UnsupportedHeadDim { actual: usize },
    OddPackedLength { actual: usize },
    DispatchLimit { axis: &'static str, actual: usize, maximum: u32 },
    IndexSpaceExceeded { elements: usize },
    DeviceBufferLimit { required_bytes: u64, maximum_bytes: u64 },
    ForeignBuffer,
    ResidentLength { tensor: &'static str, actual: usize, expected: usize },
    Execution(String),
}

/// Packed binary16 I/O is used for head dimensions 64 and 128 when a packed
/// context exists; everything else stays `f32`.
pub open spec fn io_precision_rule(packed_available: bool, head_dim: usize) -> WgpuIoPrecision {
    if packed_available && (head_dim == 64 || head_dim == 128) {
        WgpuIoPrecision::PackedF16
    } else {
        WgpuIoPrecision::F32
    }
}

pub fn io_precision_for_head_dim(packed_available: bool, head_dim: usize) -> (precision: WgpuIoPrecision)
    ensures
        precision == io_precision_rule(packed_available, head_dim),
{
    if packed_available && (head_dim == 64 || head_dim == 128) {
        WgpuIoPrecision::PackedF16
    } else {
        WgpuIoPrecision::F32
    }
}

/// The word holding `low` in its low half and `high` in its high half.
pub open spec fn pair_word(low: u16, high: u16) -> u32 {
    (low as u32) | ((high as u32) << 16u32)
}

/// Packs binary16 scalars (by their bits) two per word, in order.
pub fn pack_f16_pairs(bits: &[u16]) -> (r: Result<Vec<u32>, WgpuF16AttentionError>)
    ensures
        bits@.len() % 2 != 0 ==> r == Err::<Vec<u32>, WgpuF16AttentionError>(
            WgpuF16AttentionError::OddPackedLength { actual: bits@.len() as usize },
        ),
        bits@.len() % 2 == 0 ==> (r matches Ok(words) && words@.len() == bits@.len() / 2 && forall|
            i: int,
        |
            0 <= i < words@.len() ==> #[trigger] words@[i] == pair_word(bits@[2 * i], bits@[2 * i + 1])),
{
    if bits.len() % 2 != 0 {
        return Err(WgpuF16AttentionError::OddPackedLength { actual: bits.len() });
    }
    let mut words: Vec<u32> = Vec::new();
    let mut i: usize = 0;
    while i < bits.len() / 2
        invariant
            bits@.len() % 2 == 0,
            i <= bits@.len() / 2,
            words@.len() == i,
            forall|j: int| 0 <= j < i ==> #[trigger] words@[j] == pair_word(bits@[2 * j], bits@[2 * j + 1]),
        decreases bits.len() / 2 - i,
    {
        let low = bits[2 * i];
        let high = bits[2 * i + 1];
        words.push((low as u32) | ((high as u32) << 16u32));
        i = i + 1;
    }
    Ok(words)
}

/// Unpacks words into binary16 scalars (by their bits), low half first.
pub fn unpack_f16_pairs(words: &[u32]) -> (bits: Vec<u16>)
    requires
        2 * words@.len() <= usize::MAX,
    ensures
        bits@.len() == 2 * words@.len(),
        forall|i: int|
            0 <= i < words@.len() ==> #[trigger] bits@[2 * i] == (words@[i] & 0xffffu32) as u16
                && bits@[2 * i + 1] == (words@[i] >> 16u32) as u16,
{
    let mut bits: Vec<u16> = Vec::new();
    let mut i: usize = 0;
    while i < words.len()
        invariant
            2 * words@.len() <= usize::MAX,
            i <= words@.len(),
            bits@.len() == 2 * i,
            forall|j: int| 0 <= j < i ==> #[trigger] bits@[2 * j] == (words@[j] & 0xffffu32) as u16,
            forall|j: int| 0 <= j < i ==> #[trigger] bits@[2 * j + 1] == (words@[j] >> 16u32) as u16,
        decreases words.len() - i,
    {
        let word = words[i];
        bits.push((word & 0xffffu32) as u16);
        bits.push((word >> 16u32) as u16);
        i = i + 1;
    }
    bits
}

/// Unpacking a packed pair gives back both scalars: the low half holds the
/// first and the high half the second.
pub proof fn lemma_pair_round_trip(low: u16, high: u16)
    ensures
        (pair_word(low, high) & 0xffffu32) as u16 == low,
        (pair_word(low, high) >> 16u32) as u16 == high,
{
    assert(((((low as u32) | ((high as u32) << 16u32)) & 0xffffu32) as u16) == low) by (bit_vector);
    assert(((((low as u32) | ((high as u32) << 16u32)) >> 16u32) as u16) == high) by (bit_vector);
}

/// Packing binary16 scalars two per word and unpacking the words gives back
/// exactly the original scalars, in order.
pub proof fn lemma_packed_round_trip(bits: Seq<u16>, words: Seq<u32>, unpacked: Seq<u16>)
    requires
        bits.len() % 2 == 0,
        words.len() == bits.len() / 2,
        forall|i: int| 0 <= i < words.len() ==> #[trigger] words[i] == pair_word(bits[2 * i], bits[2 * i + 1]),
        unpacked.len() == 2 * words.len(),
        forall|i: int| 0 <= i < words.len() ==> #[trigger] unpacked[2 * i] == (words[i] & 0xffffu32) as u16,
        forall|i: int| 0 <= i < words.len() ==> #[trigger] unpacked[2 * i + 1] == (words[i] >> 16u32) as u16,
    ensures
        unpacked == bits,
{
    assert forall|k: int| 0 <= k < bits.len() implies #[trigger] unpacked[k] == bits[k] by {
        let i = k / 2;
        assert(0 <= i < words.len());
        assert(words[i] == pair_word(bits[2 * i], bits[2 * i + 1]));
        lemma_pair_round_trip(bits[2 * i], bits[2 * i + 1]);
        if k % 2 == 0 {
            assert(k == 2 * i);
            assert(unpacked[2 * i] == (words[i] & 0xffffu32) as u16);
        } else {
            assert(k == 2 * i + 1);
            assert(unpacked[2 * i + 1] == (words[i] >> 16u32) as u16);
        }
    }
    assert(unpacked =~= bits);
}

/// Everything one packed-f16 resident forward encodes.
#[derive(Debug, Clone, PartialEq, Eq)]
pub struct PackedF16Dispatch {
    pub tensor_len: usize,
    pub lse_len: usize,
    /// Packed output words followed by one LSE word per query row.
    pub output_words: usize,
    pub output_bytes: u64,
    pub params: Vec<u32>,
    pub query_workgroups: u32,
    pub batch_heads: u32,
}

pub open spec fn packed_resident_rule(tensor: &'static str, owner: usize, operand: ResidentOperand, expected: int) -> Result<
    (),
    WgpuF16AttentionError,
> {
    if operand.owner != owner {
        Err(WgpuF16AttentionError::ForeignBuffer)
    } else if operand.len != expected {
        Err(
            WgpuF16AttentionError::ResidentLength {
                tensor,
                actual: operand.len,
                expected: expected as usize,
            },
        )
    } else {
        Ok(())
    }
}

/// Every check of one packed-f16 resident forward of the context `owner`, in
/// the order the host makes them. The binding limit covers the packed Q, K,
/// V and output words together.
pub open spec fn packed_dispatch_rule(
    shape: AttentionShape,
    max_head_dim: usize,
    query_rows: usize,
    max_workgroups: u32,
    max_binding_bytes: u64,
    owner: usize,
    q: ResidentOperand,
    k: ResidentOperand,
    v: ResidentOperand,
    scale_bits: Result<u32, FlatAttentionError>,
) -> Result<(), WgpuF16AttentionError> {
    let tensor = shape.batch * shape.heads * shape.seq_len * shape.head_dim;
    let rows = shape.batch * shape.heads * shape.seq_len;
    let tiles = query_tiles(shape.seq_len, query_rows);
    let packed = (tensor + 1) / 2;
    let required_words = 3 * packed + packed;
    if shape.batch == 0 || shape.heads == 0 || shape.seq_len == 0 || shape.head_dim == 0 {
        Err(WgpuF16AttentionError::Core(FlatAttentionError::ZeroDimension))
    } else if !shape.valid() {
        Err(WgpuF16AttentionError::Core(FlatAttentionError::ShapeOverflow))
    } else if shape.head_dim > max_head_dim || !(shape.head_dim == 64 || shape.head_dim == 128) {
        Err(WgpuF16AttentionError::UnsupportedHeadDim { actual: shape.head_dim })
    } else if tensor > u32::MAX {
        Err(WgpuF16AttentionError::IndexSpaceExceeded { elements: tensor as usize })
    } else if tiles > max_workgroups {
        Err(
            WgpuF16AttentionError::DispatchLimit {
                axis: "x/query_tiles",
                actual: tiles as usize,
                maximum: max_workgroups,
            },
        )
    } else if shape.batch * shape.heads > max_workgroups {
        Err(
            WgpuF16AttentionError::DispatchLimit {
                axis: "y/batch_heads",
                actual: (shape.batch * shape.heads) as usize,
                maximum: max_workgroups,
            },
        )
    } else if 3 * packed > usize::MAX || required_words > usize::MAX || 4 * required_words
        > usize::MAX {
        Err(WgpuF16AttentionError::Core(FlatAttentionError::ShapeOverflow))
    } else if 4 * required_words > max_binding_bytes {
        Err(
            WgpuF16AttentionError::DeviceBufferLimit {
                required_bytes: (4 * required_words) as u64,
                maximum_bytes: max_binding_bytes,
            },
        )
    } else if packed_resident_rule("Q", owner, q, tensor) is Err {
        packed_resident_rule("Q", owner, q, tensor)
    } else if packed_resident_rule("K", owner, k, tensor) is Err {
        packed_resident_rule("K", owner, k, tensor)
    } else if packed_resident_rule("V", owner, v, tensor) is Err {
        packed_resident_rule("V", owner, v, tensor)
    } else if scale_bits is Err {
        Err(WgpuF16AttentionError::Core(scale_bits->Err_0))
    } else if tensor / 2 + rows > usize::MAX || 4 * (tensor / 2 + rows) > usize::MAX {
        Err(WgpuF16AttentionError::Core(FlatAttentionError::ShapeOverflow))
    } else {
        Ok(())
    }
}

fn check_packed_operand(tensor: &'static str, owner: usize, operand: ResidentOperand, expected: usize) -> (r:
    Result<(), WgpuF16AttentionError>)
    ensures
        r == packed_resident_rule(tensor, owner, operand, expected as int),
{
    if operand.owner != owner {
        return Err(WgpuF16AttentionError::ForeignBuffer);
    }
    if operand.len != expected {
        return Err(WgpuF16AttentionError::ResidentLength { tensor, actual: operand.len, expected });
    }
    Ok(())
}

/// Plans one packed-f16 resident forward of the context `owner` and packs
/// its eight uniform words `[seq_len, head_dim, batch_heads, causal, scale,
/// 0, 0, 0]`. `query_rows` is the number of query rows one workgroup covers.
pub fn plan_packed_f16_forward(
    shape: AttentionShape,
    max_head_dim: usize,
    query_rows: usize,
    max_workgroups: u32,
    max_binding_bytes: u64,
    owner: usize,
    q: ResidentOperand,
    k: ResidentOperand,
    v: ResidentOperand,
    causal: bool,
    scale_bits: Result<u32, FlatAttentionError>,
) -> (r: Result<PackedF16Dispatch, WgpuF16AttentionError>)
    requires
        query_rows > 0,
    ensures
        ({
            let rule = packed_dispatch_rule(
                shape,
                max_head_dim,
                query_rows,
                max_workgroups,
                max_binding_bytes,
                owner,
                q,
                k,
                v,
                scale_bits,
            );
            let tensor = shape.batch * shape.heads * shape.seq_len * shape.head_dim;
            let rows = shape.batch * shape.heads * shape.seq_len;
            &&& rule is Err ==> r == Err::<PackedF16Dispatch, WgpuF16AttentionError>(rule->Err_0)
            &&& rule is Ok ==> (r matches Ok(dispatch) && {
                &&& dispatch.tensor_len == tensor
                &&& dispatch.lse_len == rows
                &&& dispatch.output_words == tensor / 2 + rows
                &&& dispatch.output_bytes == 4 * (tensor / 2 + rows)
                &&& dispatch.params@ == seq![
                    shape.seq_len as u32,
                    shape.head_dim as u32,
                    (shape.batch * shape.heads) as u32,
                    if causal {
                        1u32
                    } else {
                        0u32
                    },
                    scale_bits->Ok_0,
                    0u32,
                    0u32,
                    0u32,
                ]
                &&& dispatch.query_workgroups == query_tiles(shape.seq_len, query_rows)
                &&& dispatch.batch_heads == shape.batch * shape.heads
            })
        }),
{
    match shape.validate() {
        Ok(()) => {},
        Err(e) => return Err(WgpuF16AttentionError::Core(e)),
    }
    if shape.head_dim > max_head_dim || !(shape.head_dim == 64 || shape.head_dim == 128) {
        return Err(WgpuF16AttentionError::UnsupportedHeadDim { actual: shape.head_dim });
    }
    let tensor_len = match shape.tensor_len() {
        Ok(v) => v,
        Err(e) => return Err(WgpuF16AttentionError::Core(e)),
    };
    proof {
        let b = shape.batch as int;
        let h = shape.heads as int;
        let sl = shape.seq_len as int;
        let d = shape.head_dim as int;
        assert(b * h <= b * h * sl && sl <= b * h * sl && b * h * sl <= b * h * sl * d)
            by (nonlinear_arith)
            requires
                b >= 1,
                h >= 1,
                sl >= 1,
                d >= 1,
        ;
    }
    let lse_len = match shape.lse_len() {
        Ok(v) => v,
        Err(e) => return Err(WgpuF16AttentionError::Core(e)),
    };
    if tensor_len > 0xffff_ffffusize {
        return Err(WgpuF16AttentionError::IndexSpaceExceeded { elements: tensor_len });
    }
    let batch_heads = shape.batch * shape.heads;
    let whole_tiles = shape.seq_len / query_rows;
    proof {
        assert(whole_tiles <= shape.seq_len) by (nonlinear_arith)
            requires
                whole_tiles == shape.seq_len / query_rows,
                query_rows > 0,
        ;
        if shape.seq_len % query_rows != 0 {
            assert(whole_tiles < shape.seq_len) by (nonlinear_arith)
                requires
                    whole_tiles == shape.seq_len / query_rows,
                    query_rows > 1,
                    shape.seq_len >= 1,
            ;
        }
    }
    let query_workgroups = if shape.seq_len % query_rows != 0 {
        whole_tiles + 1
    } else {
        whole_tiles
    };
    proof {
        lemma_ceil_div(
            shape.seq_len as int,
            query_rows as int,
            whole_tiles as int,
            query_workgroups as int,
        );
    }
    if query_workgroups > max_workgroups as usize {
        return Err(
            WgpuF16AttentionError::DispatchLimit {
                axis: "x/query_tiles",
                actual: query_workgroups,
                maximum: max_workgroups,
            },
        );
    }
    if batch_heads > max_workgroups as usize {
        return Err(
            WgpuF16AttentionError::DispatchLimit {
                axis: "y/batch_heads",
                actual: batch_heads,
                maximum: max_workgroups,
            },
        );
    }
    let packed = tensor_len / 2 + tensor_len % 2;
    proof {
        assert(packed == (tensor_len + 1) / 2);
    }
    let overflow = WgpuF16AttentionError::Core(FlatAttentionError::ShapeOverflow);
    let input_words = match packed.checked_mul(3) {
        Some(v) => v,
        None => return Err(overflow),
    };
    let required_words = match input_words.checked_add(packed) {
        Some(v) => v,
        None => return Err(overflow),
    };
    let required_bytes = match required_words.checked_mul(4) {
        Some(v) => v as u64,
        None => return Err(overflow),
    };
    if required_bytes > max_binding_bytes {
        return Err(
            WgpuF16AttentionError::DeviceBufferLimit {
                required_bytes,
                maximum_bytes: max_binding_bytes,
            },
        );
    }
    check_packed_operand("Q", owner, q, tensor_len)?;
    check_packed_operand("K", owner, k, tensor_len)?;
    check_packed_operand("V", owner, v, tensor_len)?;
    let scale = match scale_bits {
        Ok(bits) => bits,
        Err(e) => return Err(WgpuF16AttentionError::Core(e)),
    };
    let output_words = match (tensor_len / 2).checked_add(lse_len) {
        Some(v) => v,
        None => return Err(overflow),
    };
    let output_bytes = match output_words.checked_mul(4) {
        Some(v) => v as u64,
        None => return Err(overflow),
    };
    let params: Vec<u32> = vec![
        shape.seq_len as u32,
        shape.head_dim as u32,
        batch_heads as u32,
        if causal { 1u32 } else { 0u32 },
        scale,
        0,
        0,
        0,
    ];
    Ok(
        PackedF16Dispatch {
            tensor_len,
            lse_len,
            output_words,
            output_bytes,
            params,
            query_workgroups: query_workgroups as u32,
            batch_heads: batch_heads as u32,
        },
    )
}

} // verus!
