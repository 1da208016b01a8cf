//! Host-side orchestration of chunked prefill over projection-layout GQA.
//!
//! The full query sequence is split into chunks of at most
//! `query_chunk_size` rows. For each chunk, the Q rows of every batch element
//! are gathered into a compact scratch buffer with device-to-device copies,
//! the rectangular projection pass attends them over the whole resident K/V
//! sequence, and the compact O rows and LSE runs are scattered back into the
//! caller-owned full `O|LSE` buffer. K/V are never copied. This module decides
//! the chunks and every copy region; the device work stays with the caller.
use crate::attention_shape::{FlatAttentionError, GroupedAttentionShape};
use crate::rotary_grouped::RotaryEmbeddingConfig;
use crate::wgpu_external::{
    external_layout_rule, external_projection_layout, grouped_shape_rule, lemma_ceil_div,
    ExternalProjectionLayout, ExternalWgpuError,
};
use vstd::arithmetic::div_mod::lemma_fundamental_div_mod;
use vstd::prelude::*;

verus! {

/// Explicit chunked-prefill host-side failures.
#[derive(Debug, Clone, PartialEq, Eq)]
pub enum WgpuChunkedProjectionPrefillError {
    Core(FlatAttentionError),
    External(ExternalWgpuError),
    ZeroQueryChunkSize,
    BufferTooSmall { tensor: &'static str, actual_bytes: u64, required_bytes: u64 },
    MissingBufferUsage { tensor: &'static str, required: &'static str },
}

/// Sizes and copy usages of the caller-owned buffers of one prefill.
#[derive(Debug, Clone, Copy, PartialEq, Eq, Structural)]
pub struct PrefillBuffers {
    pub q_bytes: u64,
    pub k_bytes: u64,
    pub v_bytes: u64,
    pub out_and_lse_bytes: u64,
    /// Q declares `COPY_SRC` usage.
    pub q_copy_src: bool,
    /// `O|LSE` declares `COPY_DST` usage.
    pub out_and_lse_copy_dst: bool,
}

/// One query chunk: rows `[query_start, query_start + query_len)` of every
/// batch element, whose query RoPE origin is `q_rope_offset`.
#[derive(Debug, Clone, Copy, PartialEq, Eq, Structural)]
pub struct PrefillChunk {
    pub query_start: usize,
    pub query_len: usize,
    pub q_rope_offset: usize,
}

/// One buffer-to-buffer copy.
#[derive(Debug, Clone, Copy, PartialEq, Eq, Structural)]
pub struct PrefillCopy {
    pub source_offset: u64,
    pub destination_offset: u64,
    pub size_bytes: u64,
}

/// The copies of one chunk: Q gathers (one per batch element), then O
/// scatters (one per batch element) and LSE scatters (one per batch element
/// and query head, batch-major).
#[derive(Debug, Clone, PartialEq, Eq)]
pub struct PrefillChunkCopies {
    pub q_gather: Vec<PrefillCopy>,
    pub output_scatter: Vec<PrefillCopy>,
    pub lse_scatter: Vec<PrefillCopy>,
}

pub open spec fn prefill_failure(e: WgpuChunkedProjectionPrefillError) -> Result<
    (),
    WgpuChunkedProjectionPrefillError,
> {
    Err(e)
}

pub open spec fn prefill_buffer_rule(tensor: &'static str, actual: u64, required: u64) -> Result<
    (),
    WgpuChunkedProjectionPrefillError,
> {
    if actual < required {
        prefill_failure(
            WgpuChunkedProjectionPrefillError::BufferTooSmall {
                tensor,
                actual_bytes: actual,
                required_bytes: required,
            },
        )
    } else {
        Ok(())
    }
}

/// Every host-side check of a chunked prefill, first failure first.
pub open spec fn prefill_rule(
    shape: GroupedAttentionShape,
    rotary: RotaryEmbeddingConfig,
    query_chunk_size: usize,
    buffers: PrefillBuffers,
) -> Result<(), WgpuChunkedProjectionPrefillError> {
    let layout = external_layout_rule(shape)->Ok_0;
    if query_chunk_size == 0 {
        prefill_failure(WgpuChunkedProjectionPrefillError::ZeroQueryChunkSize)
    } else if grouped_shape_rule(shape) is Err {
        prefill_failure(WgpuChunkedProjectionPrefillError::Core(grouped_shape_rule(shape)->Err_0))
    } else if rotary.rotary_rule(shape.head_dim, shape.seq_len) is Err {
        prefill_failure(
            WgpuChunkedProjectionPrefillError::Core(
                rotary.rotary_rule(shape.head_dim, shape.seq_len)->Err_0,
            ),
        )
    } else if external_layout_rule(shape) is Err {
        prefill_failure(
            WgpuChunkedProjectionPrefillError::External(external_layout_rule(shape)->Err_0),
        )
    } else if prefill_buffer_rule("Q", buffers.q_bytes, layout.q_bytes) is Err {
        prefill_buffer_rule("Q", buffers.q_bytes, layout.q_bytes)
    } else if prefill_buffer_rule("K", buffers.k_bytes, layout.kv_bytes) is Err {
        prefill_buffer_rule("K", buffers.k_bytes, layout.kv_bytes)
    } else if prefill_buffer_rule("V", buffers.v_bytes, layout.kv_bytes) is Err {
        prefill_buffer_rule("V", buffers.v_bytes, layout.kv_bytes)
    } else if prefill_buffer_rule("O|LSE", buffers.out_and_lse_bytes, layout.combined_bytes) is Err {
        prefill_buffer_rule("O|LSE", buffers.out_and_lse_bytes, layout.combined_bytes)
    } else if !buffers.q_copy_src {
        prefill_failure(
            WgpuChunkedProjectionPrefillError::MissingBufferUsage { tensor: "Q", required: "COPY_SRC" },
        )
    } else if !buffers.out_and_lse_copy_dst {
        prefill_failure(
            WgpuChunkedProjectionPrefillError::MissingBufferUsage {
                tensor: "O|LSE",
                required: "COPY_DST",
            },
        )
    } else {
        Ok(())
    }
}

/// Number of chunks of `size` rows covering `seq_len` rows.
pub open spec fn chunk_count(seq_len: usize, size: usize) -> int {
    (seq_len + size - 1) / (size as int)
}

/// Chunk `i`: it starts at `i * size` and holds at most `size` rows.
pub open spec fn chunk_of(seq_len: usize, size: usize, rope_offset: usize, i: int) -> PrefillChunk {
    let start = i * size;
    PrefillChunk {
        query_start: start as usize,
        query_len: (if seq_len - start < size {
            seq_len - start
        } else {
            size as int
        }) as usize,
        q_rope_offset: (rope_offset + start) as usize,
    }
}

proof fn lemma_chunk_start_in_range(seq_len: usize, size: usize, i: int)
    requires
        size > 0,
        0 <= i < chunk_count(seq_len, size),
    ensures
        i * size < seq_len,
{
    let count = chunk_count(seq_len, size);
    lemma_fundamental_div_mod(seq_len + size - 1, size as int);
    assert(i * size <= (count - 1) * size) by (nonlinear_arith)
        requires
            i <= count - 1,
            size > 0,
    ;
    assert((count - 1) * size == count * size - size) by (nonlinear_arith);
}

/// Validates a chunked prefill and plans its chunks: the full-sequence
/// geometry and, in order, every chunk of at most `query_chunk_size` rows
/// with its query RoPE origin `position_offset + query_start`.
pub fn plan_chunked_prefill(
    shape: GroupedAttentionShape,
    rotary: RotaryEmbeddingConfig,
    query_chunk_size: usize,
    buffers: PrefillBuffers,
) -> (r: Result<(ExternalProjectionLayout, Vec<PrefillChunk>), WgpuChunkedProjectionPrefillError>)
    ensures
        ({
            let rule = prefill_rule(shape, rotary, query_chunk_size, buffers);
            &&& rule is Err ==> r == Err::<
                (ExternalProjectionLayout, Vec<PrefillChunk>),
                WgpuChunkedProjectionPrefillError,
            >(rule->Err_0)
            &&& rule is Ok ==> (r matches Ok((layout, chunks)) && {
                &&& layout == external_layout_rule(shape)->Ok_0
                &&& chunks@.len() == chunk_count(shape.seq_len, query_chunk_size)
                &&& forall|i: int|
                    0 <= i < chunks@.len() ==> #[trigger] chunks@[i] == chunk_of(
                        shape.seq_len,
                        query_chunk_size,
                        rotary.position_offset,
                        i,
                    )
            })
        }),
{
    if query_chunk_size == 0 {
        return Err(WgpuChunkedProjectionPrefillError::ZeroQueryChunkSize);
    }
    match shape.validate() {
        Ok(()) => {},
        Err(e) => return Err(WgpuChunkedProjectionPrefillError::Core(e)),
    }
    match rotary.validate(shape.head_dim, shape.seq_len) {
        Ok(()) => {},
        Err(e) => return Err(WgpuChunkedProjectionPrefillError::Core(e)),
    }
    let layout = match external_projection_layout(shape) {
        Ok(layout) => layout,
        Err(e) => return Err(WgpuChunkedProjectionPrefillError::External(e)),
    };
    if buffers.q_bytes < layout.q_bytes {
        return Err(
            WgpuChunkedProjectionPrefillError::BufferTooSmall {
                tensor: "Q",
                actual_bytes: buffers.q_bytes,
                required_bytes: layout.q_bytes,
            },
        );
    }
    if buffers.k_bytes < layout.kv_bytes {
        return Err(
            WgpuChunkedProjectionPrefillError::BufferTooSmall {
                tensor: "K",
                actual_bytes: buffers.k_bytes,
                required_bytes: layout.kv_bytes,
            },
        );
    }
    if buffers.v_bytes < layout.kv_bytes {
        return Err(
            WgpuChunkedProjectionPrefillError::BufferTooSmall {
                tensor: "V",
                actual_bytes: buffers.v_bytes,
                required_bytes: layout.kv_bytes,
            },
        );
    }
    if buffers.out_and_lse_bytes < layout.combined_bytes {
        return Err(
            WgpuChunkedProjectionPrefillError::BufferTooSmall {
                tensor: "O|LSE",
                actual_bytes: buffers.out_and_lse_bytes,
                required_bytes: layout.combined_bytes,
            },
        );
    }
    if !buffers.q_copy_src {
        return Err(
            WgpuChunkedProjectionPrefillError::MissingBufferUsage { tensor: "Q", required: "COPY_SRC" },
        );
    }
    if !buffers.out_and_lse_copy_dst {
        return Err(
            WgpuChunkedProjectionPrefillError::MissingBufferUsage {
                tensor: "O|LSE",
                required: "COPY_DST",
            },
        );
    }
    let seq_len = shape.seq_len;
    let size = query_chunk_size;
    let whole = seq_len / size;
    proof {
        if seq_len % size != 0 {
            assert(whole < seq_len) by (nonlinear_arith)
                requires
                    whole == seq_len / size,
                    size >= 2,
                    seq_len >= 1,
            ;
        }
    }
    let count = if seq_len % size != 0 {
        whole + 1
    } else {
        whole
    };
    proof {
        lemma_ceil_div(seq_len as int, size as int, whole as int, count as int);
    }
    let mut chunks: Vec<PrefillChunk> = Vec::new();
    let mut i: usize = 0;
    while i < count
        invariant
            size > 0,
            count == chunk_count(seq_len, size),
            i <= count,
            rotary.position_offset + (seq_len - 1) <= usize::MAX,
            seq_len > 0,
            chunks@.len() == i,
            forall|j: int|
                0 <= j < i ==> #[trigger] chunks@[j] == chunk_of(
                    seq_len,
                    size,
                    rotary.position_offset,
                    j,
                ),
        decreases count - i,
    {
        proof {
            lemma_chunk_start_in_range(seq_len, size, i as int);
        }
        let start = i * size;
        let rest = seq_len - start;
        let len = if rest < size {
            rest
        } else {
            size
        };
        chunks.push(
            PrefillChunk { query_start: start, query_len: len, q_rope_offset: rotary.position_offset + start },
        );
        i = i + 1;
    }
    Ok((layout, chunks))
}

/// Every query row belongs to exactly one chunk: row `r` lies in chunk
/// `r / size` and in no other chunk of the plan.
pub proof fn lemma_chunks_partition_rows(seq_len: usize, size: usize, rope_offset: usize, r: int)
    requires
        size > 0,
        0 <= r < seq_len,
    ensures
        0 <= r / (size as int) < chunk_count(seq_len, size),
        ({
            let c = chunk_of(seq_len, size, rope_offset, r / (size as int));
            c.query_start <= r < c.query_start + c.query_len
        }),
        forall|j: int|
            0 <= j < chunk_count(seq_len, size) && j != r / (size as int) ==> !({
                let c = #[trigger] chunk_of(seq_len, size, rope_offset, j);
                c.query_start <= r < c.query_start + c.query_len
            }),
{
    let s = size as int;
    let i = r / s;
    lemma_fundamental_div_mod(r, s);
    lemma_fundamental_div_mod(seq_len + s - 1, s);
    assert(0 <= i) by (nonlinear_arith)
        requires
            r >= 0,
            s > 0,
            i == r / s,
    ;
    assert(i < chunk_count(seq_len, size)) by (nonlinear_arith)
        requires
            r == s * i + r % s,
            0 <= r % s < s,
            r < seq_len,
            seq_len + s - 1 == s * ((seq_len + s - 1) / s) + (seq_len + s - 1) % s,
            0 <= (seq_len + s - 1) % s < s,
            chunk_count(seq_len, size) == (seq_len + s - 1) / s,
            s > 0,
    ;
    assert(i * s <= r < i * s + s) by (nonlinear_arith)
        requires
            r == s * i + r % s,
            0 <= r % s < s,
    ;
    lemma_chunk_start_in_range(seq_len, size, i);
    assert forall|j: int|
        0 <= j < chunk_count(seq_len, size) && j != i implies !({
            let c = #[trigger] chunk_of(seq_len, size, rope_offset, j);
            c.query_start <= r < c.query_start + c.query_len
        }) by {
        lemma_chunk_start_in_range(seq_len, size, j);
        if j < i {
            assert(j * s + s <= i * s) by (nonlinear_arith)
                requires
                    j < i,
                    s > 0,
            ;
        } else {
            assert(i * s + s <= j * s) by (nonlinear_arith)
                requires
                    i < j,
                    s > 0,
            ;
        }
    }
}

/// Every planned chunk is a non-empty run of rows inside the sequence, so
/// its copy regions can be planned; consecutive chunks are adjacent and the
/// last one ends at the sequence length.
pub proof fn lemma_planned_chunks_fit(seq_len: usize, size: usize, rope_offset: usize, i: int)
    requires
        size > 0,
        0 <= i < chunk_count(seq_len, size),
    ensures
        ({
            let c = chunk_of(seq_len, size, rope_offset, i);
            &&& 0 < c.query_len <= size
            &&& c.query_start + c.query_len <= seq_len
            &&& i + 1 < chunk_count(seq_len, size) ==> chunk_of(
                seq_len,
                size,
                rope_offset,
                i + 1,
            ).query_start == c.query_start + c.query_len
            &&& i + 1 == chunk_count(seq_len, size) ==> c.query_start + c.query_len == seq_len
        }),
{
    let s = size as int;
    lemma_chunk_start_in_range(seq_len, size, i);
    assert((i + 1) * s == i * s + s) by (nonlinear_arith);
    if i + 1 < chunk_count(seq_len, size) {
        lemma_chunk_start_in_range(seq_len, size, i + 1);
    } else {
        lemma_fundamental_div_mod(seq_len + s - 1, s);
        assert(i * s + s >= seq_len) by (nonlinear_arith)
            requires
                i + 1 == (seq_len + s - 1) / s,
                seq_len + s - 1 == s * ((seq_len + s - 1) / s) + (seq_len + s - 1) % s,
                0 <= (seq_len + s - 1) % s < s,
                s > 0,
        ;
    }
}

/// The Q gather of batch element `b`: its chunk rows, moved to the compact
/// row block `b * query_len`.
pub open spec fn gather_copy(shape: GroupedAttentionShape, chunk: PrefillChunk, b: int) -> PrefillCopy {
    let width = shape.q_heads * shape.head_dim;
    PrefillCopy {
        source_offset: (4 * ((b * shape.seq_len + chunk.query_start) * width)) as u64,
        destination_offset: (4 * ((b * chunk.query_len) * width)) as u64,
        size_bytes: (4 * (chunk.query_len * width)) as u64,
    }
}

/// The O scatter of batch element `b`: the inverse placement of its gather.
pub open spec fn scatter_copy(shape: GroupedAttentionShape, chunk: PrefillChunk, b: int) -> PrefillCopy {
    let width = shape.q_heads * shape.head_dim;
    PrefillCopy {
        source_offset: (4 * ((b * chunk.query_len) * width)) as u64,
        destination_offset: (4 * ((b * shape.seq_len + chunk.query_start) * width)) as u64,
        size_bytes: (4 * (chunk.query_len * width)) as u64,
    }
}

/// The LSE scatter of row `k = b * q_heads + h`: the chunk's run of that row,
/// from the compact LSE tail into the full LSE tail.
pub open spec fn lse_copy(shape: GroupedAttentionShape, chunk: PrefillChunk, k: int) -> PrefillCopy {
    let compact_output = shape.batch * shape.q_heads * chunk.query_len * shape.head_dim;
    let full_output = shape.batch * shape.q_heads * shape.seq_len * shape.head_dim;
    PrefillCopy {
        source_offset: (4 * compact_output + 4 * (k * chunk.query_len)) as u64,
        destination_offset: (4 * full_output + 4 * (k * shape.seq_len + chunk.query_start)) as u64,
        size_bytes: (4 * chunk.query_len) as u64,
    }
}

proof fn lemma_row_copy_bounds(shape: GroupedAttentionShape, chunk: PrefillChunk, b: int)
    requires
        external_layout_rule(shape) is Ok,
        0 <= b < shape.batch,
        0 < chunk.query_len,
        chunk.query_start + chunk.query_len <= shape.seq_len,
    ensures
        ({
            let width = shape.q_heads * shape.head_dim;
            let q = shape.batch * shape.q_heads * shape.seq_len * shape.head_dim;
            &&& 1 <= width <= usize::MAX
            &&& b * shape.seq_len + chunk.query_start <= (b * shape.seq_len + chunk.query_start)
                * width
            &&& b * chunk.query_len <= (b * chunk.query_len) * width
            &&& chunk.query_len * width <= 4 * (chunk.query_len * width)
            &&& 4 * ((b * shape.seq_len + chunk.query_start) * width) + 4 * (chunk.query_len * width)
                <= 4 * q
            &&& 4 * ((b * chunk.query_len) * width) + 4 * (chunk.query_len * width) <= 4 * q
            &&& 4 * q <= usize::MAX
        }),
{
    let bb = shape.batch as int;
    let h = shape.q_heads as int;
    let s = shape.seq_len as int;
    let d = shape.head_dim as int;
    let w = h * d;
    let start = chunk.query_start as int;
    let len = chunk.query_len as int;
    assert(w >= 1) by (nonlinear_arith)
        requires
            w == h * d,
            h >= 1,
            d >= 1,
    ;
    assert(bb * h * s * d == (bb * s) * w) by (nonlinear_arith)
        requires
            w == h * d,
    ;
    assert(w <= (bb * s) * w) by (nonlinear_arith)
        requires
            bb >= 1,
            s >= 1,
            w >= 0,
    ;
    assert(b * s + start + len <= bb * s) by (nonlinear_arith)
        requires
            0 <= b < bb,
            start + len <= s,
            s >= 0,
    ;
    assert((b * s + start) * w + len * w <= (bb * s) * w) by (nonlinear_arith)
        requires
            b * s + start + len <= bb * s,
            b >= 0,
            s >= 0,
            start >= 0,
            len >= 0,
            w >= 0,
    ;
    assert(b * len + len <= bb * s) by (nonlinear_arith)
        requires
            0 <= b < bb,
            0 <= len <= s,
    ;
    assert((b * len) * w + len * w <= (bb * s) * w) by (nonlinear_arith)
        requires
            b * len + len <= bb * s,
            b >= 0,
            len >= 0,
            w >= 0,
    ;
    assert(b * s + start <= (b * s + start) * w && b * len <= (b * len) * w) by (nonlinear_arith)
        requires
            w >= 1,
            b >= 0,
            s >= 0,
            start >= 0,
            len >= 0,
    ;
}

proof fn lemma_lse_copy_bounds(shape: GroupedAttentionShape, chunk: PrefillChunk, k: int)
    requires
        external_layout_rule(shape) is Ok,
        0 <= k < shape.batch * shape.q_heads,
        0 < chunk.query_len,
        chunk.query_start + chunk.query_len <= shape.seq_len,
    ensures
        ({
            let rows = shape.batch * shape.q_heads * shape.seq_len;
            let compact_output = shape.batch * shape.q_heads * chunk.query_len * shape.head_dim;
            let full_output = shape.batch * shape.q_heads * shape.seq_len * shape.head_dim;
            &&& shape.batch * shape.q_heads * chunk.query_len <= rows
            &&& compact_output <= full_output
            &&& k * chunk.query_len + chunk.query_len <= rows
            &&& k * shape.seq_len + chunk.query_start + chunk.query_len <= rows
            &&& 4 * (full_output + rows) <= usize::MAX
        }),
{
    let bh = shape.batch * shape.q_heads;
    let s = shape.seq_len as int;
    let d = shape.head_dim as int;
    let start = chunk.query_start as int;
    let len = chunk.query_len as int;
    assert(bh * len <= bh * s) by (nonlinear_arith)
        requires
            bh >= 0,
            len <= s,
    ;
    assert(bh * len * d <= bh * s * d) by (nonlinear_arith)
        requires
            bh * len <= bh * s,
            d >= 0,
    ;
    assert(k * len + len <= bh * s) by (nonlinear_arith)
        requires
            0 <= k < bh,
            0 <= len <= s,
    ;
    assert(k * s + start + len <= bh * s) by (nonlinear_arith)
        requires
            0 <= k < bh,
            start + len <= s,
            s >= 0,
    ;
}

/// The copy regions of one chunk of a validated shape. Every region lies
/// inside its source and destination buffers.
pub fn chunk_copies(shape: GroupedAttentionShape, chunk: PrefillChunk) -> (copies: PrefillChunkCopies)
    requires
        external_layout_rule(shape) is Ok,
        0 < chunk.query_len,
        chunk.query_start + chunk.query_len <= shape.seq_len,
    ensures
        copies.q_gather@.len() == shape.batch,
        copies.output_scatter@.len() == shape.batch,
        copies.lse_scatter@.len() == shape.batch * shape.q_heads,
        forall|b: int|
            0 <= b < shape.batch ==> #[trigger] copies.q_gather@[b] == gather_copy(shape, chunk, b),
        forall|b: int|
            0 <= b < shape.batch ==> #[trigger] copies.output_scatter@[b] == scatter_copy(
                shape,
                chunk,
                b,
            ),
        forall|k: int|
            0 <= k < shape.batch * shape.q_heads ==> #[trigger] copies.lse_scatter@[k] == lse_copy(
                shape,
                chunk,
                k,
            ),
{
    proof {
        lemma_row_copy_bounds(shape, chunk, 0);
    }
    let width = shape.q_heads * shape.head_dim;
    let row_bytes = 4 * (chunk.query_len * width);
    let mut q_gather: Vec<PrefillCopy> = Vec::new();
    let mut output_scatter: Vec<PrefillCopy> = Vec::new();
    let mut b: usize = 0;
    while b < shape.batch
        invariant
            external_layout_rule(shape) is Ok,
            0 < chunk.query_len,
            chunk.query_start + chunk.query_len <= shape.seq_len,
            width == shape.q_heads * shape.head_dim,
            row_bytes == 4 * (chunk.query_len * width),
            b <= shape.batch,
            q_gather@.len() == b,
            output_scatter@.len() == b,
            forall|j: int| 0 <= j < b ==> #[trigger] q_gather@[j] == gather_copy(shape, chunk, j),
            forall|j: int|
                0 <= j < b ==> #[trigger] output_scatter@[j] == scatter_copy(shape, chunk, j),
        decreases shape.batch - b,
    {
        proof {
            lemma_row_copy_bounds(shape, chunk, b as int);
        }
        let full_offset = 4 * ((b * shape.seq_len + chunk.query_start) * width);
        let compact_offset = 4 * ((b * chunk.query_len) * width);
        q_gather.push(
            PrefillCopy {
                source_offset: full_offset as u64,
                destination_offset: compact_offset as u64,
                size_bytes: row_bytes as u64,
            },
        );
        output_scatter.push(
            PrefillCopy {
                source_offset: compact_offset as u64,
                destination_offset: full_offset as u64,
                size_bytes: row_bytes as u64,
            },
        );
        b = b + 1;
    }
    let rows = shape.batch * shape.q_heads;
    let mut lse_scatter: Vec<PrefillCopy> = Vec::new();
    let mut k: usize = 0;
    while k < rows
        invariant
            external_layout_rule(shape) is Ok,
            0 < chunk.query_len,
            chunk.query_start + chunk.query_len <= shape.seq_len,
            rows == shape.batch * shape.q_heads,
            k <= rows,
            lse_scatter@.len() == k,
            forall|j: int| 0 <= j < k ==> #[trigger] lse_scatter@[j] == lse_copy(shape, chunk, j),
        decreases rows - k,
    {
        proof {
            lemma_lse_copy_bounds(shape, chunk, k as int);
        }
        let compact_output = shape.batch * shape.q_heads * chunk.query_len * shape.head_dim;
        let full_output = shape.batch * shape.q_heads * shape.seq_len * shape.head_dim;
        lse_scatter.push(
            PrefillCopy {
                source_offset: (4 * compact_output + 4 * (k * chunk.query_len)) as u64,
                destination_offset: (4 * full_output + 4 * (k * shape.seq_len + chunk.query_start))
                    as u64,
                size_bytes: (4 * chunk.query_len) as u64,
            },
        );
        k = k + 1;
    }
    PrefillChunkCopies { q_gather, output_scatter, lse_scatter }
}

} // verus!
