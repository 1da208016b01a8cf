//! Length bookkeeping and append planning of a fixed-capacity resident K/V
//! cache.
//!
//! Physical layout is sequence-major projection layout with fixed capacity:
//! `K/V: [batch, capacity, kv_heads * head_dim]`. Only rows `[0, len)` of each
//! batch are logically live. An append copies just the new rows of each batch
//! into their final capacity-strided place; resetting changes metadata only.
use vstd::prelude::*;
use vstd::arithmetic::mul::{
    lemma_mul_inequality, lemma_mul_is_associative, lemma_mul_is_commutative,
    lemma_mul_is_distributive_add_other_way,
};

verus! {

/// Explicit resident-KV cache failures.
#[derive(Debug, Clone, PartialEq, Eq)]
pub enum WgpuResidentKvCacheError {
    ZeroDimension,
    ShapeOverflow,
    CapacityExceeded { current_len: usize, append_len: usize, capacity: usize },
    BufferTooSmall { tensor: &'static str, actual_bytes: u64, required_bytes: u64 },
    MissingBufferUsage { tensor: &'static str, required: &'static str },
    DeviceBufferLimit { required_bytes: u64, maximum_bytes: u64 },
}

/// What an append reads of one caller-owned source buffer.
#[derive(Debug, Clone, Copy, PartialEq, Eq, Structural)]
pub struct ResidentAppendSource {
    pub size_bytes: u64,
    pub copy_src: bool,
}

/// One buffer-to-buffer copy of `size_bytes` bytes, applied to K and to V.
#[derive(Debug, Clone, Copy, PartialEq, Eq, Structural)]
pub struct ResidentCopyRegion {
    pub source_offset: u64,
    pub destination_offset: u64,
    pub size_bytes: u64,
}

/// Geometry and logical length of a fixed-capacity resident K/V cache.
#[derive(Debug)]
pub struct ResidentKvCacheState {
    batch: usize,
    kv_heads: usize,
    capacity: usize,
    head_dim: usize,
    len: usize,
    row_bytes: u64,
}

/// Bytes of one token row of K (or V): `kv_heads * head_dim` f32 scalars.
pub open spec fn row_bytes_of(kv_heads: usize, head_dim: usize) -> int {
    4 * (kv_heads * head_dim)
}

/// Bytes of the whole K (or V) tensor.
pub open spec fn tensor_bytes_of(batch: usize, capacity: usize, kv_heads: usize, head_dim: usize) -> int {
    (batch * capacity) * row_bytes_of(kv_heads, head_dim)
}

pub open spec fn cache_failure(e: WgpuResidentKvCacheError) -> Result<(), WgpuResidentKvCacheError> {
    Err(e)
}

/// Why a cache of this geometry cannot be allocated, first failure first.
pub open spec fn allocation_rule(
    batch: usize,
    kv_heads: usize,
    capacity: usize,
    head_dim: usize,
    max_buffer_size: u64,
) -> Result<(), WgpuResidentKvCacheError> {
    if batch == 0 || kv_heads == 0 || capacity == 0 || head_dim == 0 {
        cache_failure(WgpuResidentKvCacheError::ZeroDimension)
    } else if kv_heads * head_dim > usize::MAX || row_bytes_of(kv_heads, head_dim) > u64::MAX
        || batch * capacity > usize::MAX || tensor_bytes_of(batch, capacity, kv_heads, head_dim)
        > u64::MAX {
        cache_failure(WgpuResidentKvCacheError::ShapeOverflow)
    } else if tensor_bytes_of(batch, capacity, kv_heads, head_dim) > max_buffer_size {
        cache_failure(
            WgpuResidentKvCacheError::DeviceBufferLimit {
                required_bytes: tensor_bytes_of(batch, capacity, kv_heads, head_dim) as u64,
                maximum_bytes: max_buffer_size,
            },
        )
    } else {
        Ok(())
    }
}

pub open spec fn source_rule(tensor: &'static str, source: ResidentAppendSource, required: int) -> Result<
    (),
    WgpuResidentKvCacheError,
> {
    if source.size_bytes < required {
        cache_failure(
            WgpuResidentKvCacheError::BufferTooSmall {
                tensor,
                actual_bytes: source.size_bytes,
                required_bytes: required as u64,
            },
        )
    } else if !source.copy_src {
        cache_failure(WgpuResidentKvCacheError::MissingBufferUsage { tensor, required: "COPY_SRC" })
    } else {
        Ok(())
    }
}

/// The copy of batch `b`'s new rows.
pub open spec fn append_region(
    capacity: usize,
    len: usize,
    row_bytes: u64,
    append_len: usize,
    b: int,
) -> ResidentCopyRegion {
    ResidentCopyRegion {
        source_offset: (b * (append_len * row_bytes)) as u64,
        destination_offset: ((b * capacity + len) * row_bytes) as u64,
        size_bytes: (append_len * row_bytes) as u64,
    }
}


/// What appending `append_len` rows to a cache of this state yields, first
/// failure first: the new length on success.
pub open spec fn append_rule(
    batch: usize,
    capacity: usize,
    len: usize,
    row_bytes: u64,
    append_len: usize,
    k_source: ResidentAppendSource,
    v_source: ResidentAppendSource,
) -> Result<usize, WgpuResidentKvCacheError> {
    let required = batch * (append_len * row_bytes);
    if append_len == 0 {
        Err(WgpuResidentKvCacheError::ZeroDimension)
    } else if len + append_len > usize::MAX {
        Err(WgpuResidentKvCacheError::ShapeOverflow)
    } else if len + append_len > capacity {
        Err(
            WgpuResidentKvCacheError::CapacityExceeded {
                current_len: len,
                append_len,
                capacity,
            },
        )
    } else if append_len * row_bytes > u64::MAX || required > u64::MAX {
        Err(WgpuResidentKvCacheError::ShapeOverflow)
    } else if source_rule("K", k_source, required) is Err {
        Err(source_rule("K", k_source, required)->Err_0)
    } else if source_rule("V", v_source, required) is Err {
        Err(source_rule("V", v_source, required)->Err_0)
    } else {
        Ok((len + append_len) as usize)
    }
}


/// Byte range `[start, end)` of the live rows `[0, len)` of batch `b`.
pub open spec fn live_prefix_range(capacity: usize, len: usize, row_bytes: u64, b: int) -> (int, int) {
    ((b * capacity) * row_bytes, (b * capacity + len) * row_bytes)
}

/// An append copies only new rows: the destination of batch `b`'s region
/// starts right after that batch's live prefix, ends at the new length of
/// the same batch, and overlaps the live prefix of no batch, so the existing
/// cache contents are never moved or rewritten.
pub proof fn lemma_append_preserves_live_prefix(
    batch: usize,
    capacity: usize,
    len: usize,
    row_bytes: u64,
    append_len: usize,
    b: int,
    other: int,
)
    requires
        0 <= b < batch,
        0 <= other < batch,
        len + append_len <= capacity,
        (batch * capacity) * row_bytes <= u64::MAX,
    ensures
        ({
            let region = append_region(capacity, len, row_bytes, append_len, b);
            let (start, end) = live_prefix_range(capacity, len, row_bytes, other);
            &&& region.destination_offset == live_prefix_range(capacity, len, row_bytes, b).1
            &&& region.destination_offset + region.size_bytes == (b * capacity + len
                + append_len) * row_bytes
            &&& region.destination_offset + region.size_bytes <= ((b + 1) * capacity) * row_bytes
            &&& (region.destination_offset + region.size_bytes <= start || end
                <= region.destination_offset)
        }),
{
    let cap = capacity as int;
    let rb = row_bytes as int;
    let al = append_len as int;
    lemma_mul_inequality(b + 1, batch as int, cap);
    lemma_mul_is_distributive_add_other_way(cap, b, 1);
    lemma_mul_inequality(b * cap + len + al, (b + 1) * cap, rb);
    lemma_mul_inequality((b + 1) * cap, batch * cap, rb);
    lemma_mul_inequality(b * cap + len, b * cap + len + al, rb);
    lemma_mul_is_distributive_add_other_way(rb, b * cap + len, al);
    lemma_mul_inequality(b, batch as int, al);
    lemma_mul_inequality(al, cap, batch as int);
    lemma_mul_is_commutative(batch as int, al);
    lemma_mul_inequality(b * al, batch * cap, rb);
    lemma_mul_is_associative(b, al, rb);
    if other < b {
        lemma_mul_inequality(other + 1, b, cap);
        lemma_mul_is_distributive_add_other_way(cap, other, 1);
        lemma_mul_inequality(other * cap + len, b * cap + len, rb);
    } else if b < other {
        lemma_mul_inequality(b + 1, other, cap);
        lemma_mul_inequality((b + 1) * cap, other * cap, rb);
    }
}

proof fn lemma_append_fits(
    batch: usize,
    capacity: usize,
    len: usize,
    append_len: usize,
    row_bytes: u64,
    kv_heads: usize,
    head_dim: usize,
)
    requires
        batch > 0,
        len + append_len <= capacity,
        row_bytes == row_bytes_of(kv_heads, head_dim),
        tensor_bytes_of(batch, capacity, kv_heads, head_dim) <= u64::MAX,
    ensures
        append_len * row_bytes <= u64::MAX,
        batch * (append_len * row_bytes) <= u64::MAX,
        (batch * capacity) * row_bytes <= u64::MAX,
{
    lemma_mul_inequality(append_len as int, capacity as int, batch as int);
    lemma_mul_inequality((batch * append_len) as int, (batch * capacity) as int, row_bytes as int);
    lemma_mul_is_associative(batch as int, append_len as int, row_bytes as int);
    lemma_mul_inequality(1, batch as int, (append_len * row_bytes) as int);
}

proof fn lemma_region_fits(
    batch: usize,
    capacity: usize,
    len: usize,
    append_len: usize,
    row_bytes: u64,
    b: usize,
)
    requires
        b < batch,
        0 < append_len,
        len + append_len <= capacity,
        batch * capacity <= usize::MAX,
        (batch * capacity) * row_bytes <= u64::MAX,
    ensures
        b * capacity + len < batch * capacity,
        (b * capacity + len) * row_bytes <= u64::MAX,
        b * (append_len * row_bytes) <= u64::MAX,
{
    lemma_mul_inequality(b + 1, batch as int, capacity as int);
    lemma_mul_is_distributive_add_other_way(capacity as int, b as int, 1);
    lemma_mul_inequality(b * capacity + len, batch * capacity, row_bytes as int);
    lemma_mul_inequality(b as int, batch as int, append_len as int);
    lemma_mul_inequality(append_len as int, capacity as int, batch as int);
    lemma_mul_is_commutative(batch as int, append_len as int);
    lemma_mul_inequality((b * append_len) as int, (batch * capacity) as int, row_bytes as int);
    lemma_mul_is_associative(b as int, append_len as int, row_bytes as int);
}

impl ResidentKvCacheState {
    #[verifier::type_invariant]
    spec fn well_formed(self) -> bool {
        &&& self.batch > 0 && self.kv_heads > 0 && self.capacity > 0 && self.head_dim > 0
        &&& self.len <= self.capacity
        &&& self.kv_heads * self.head_dim <= usize::MAX
        &&& self.batch * self.capacity <= usize::MAX
        &&& self.row_bytes == row_bytes_of(self.kv_heads, self.head_dim)
        &&& tensor_bytes_of(self.batch, self.capacity, self.kv_heads, self.head_dim) <= u64::MAX
    }

    pub closed spec fn spec_batch(self) -> usize {
        self.batch
    }

    pub closed spec fn spec_kv_heads(self) -> usize {
        self.kv_heads
    }

    pub closed spec fn spec_capacity(self) -> usize {
        self.capacity
    }

    pub closed spec fn spec_head_dim(self) -> usize {
        self.head_dim
    }

    pub closed spec fn spec_len(self) -> usize {
        self.len
    }

    pub closed spec fn spec_row_bytes(self) -> u64 {
        self.row_bytes
    }

    /// An empty cache of `capacity` rows per batch whose K and V tensors each
    /// fit in a device buffer of at most `max_buffer_size` bytes.
    pub fn new(
        batch: usize,
        kv_heads: usize,
        capacity: usize,
        head_dim: usize,
        max_buffer_size: u64,
    ) -> (r: Result<Self, WgpuResidentKvCacheError>)
        ensures
            match allocation_rule(batch, kv_heads, capacity, head_dim, max_buffer_size) {
                Err(e) => r == Err::<Self, WgpuResidentKvCacheError>(e),
                Ok(()) => r matches Ok(cache) && {
                    &&& cache.spec_batch() == batch
                    &&& cache.spec_kv_heads() == kv_heads
                    &&& cache.spec_capacity() == capacity
                    &&& cache.spec_head_dim() == head_dim
                    &&& cache.spec_len() == 0
                    &&& cache.spec_row_bytes() == row_bytes_of(kv_heads, head_dim)
                },
            },
    {
        if batch == 0 || kv_heads == 0 || capacity == 0 || head_dim == 0 {
            return Err(WgpuResidentKvCacheError::ZeroDimension);
        }
        let row_elements = match kv_heads.checked_mul(head_dim) {
            Some(elements) => elements,
            None => return Err(WgpuResidentKvCacheError::ShapeOverflow),
        };
        let row_bytes = match (row_elements as u64).checked_mul(4) {
            Some(bytes) => bytes,
            None => return Err(WgpuResidentKvCacheError::ShapeOverflow),
        };
        let rows = match batch.checked_mul(capacity) {
            Some(rows) => rows,
            None => return Err(WgpuResidentKvCacheError::ShapeOverflow),
        };
        let tensor_bytes = match (rows as u64).checked_mul(row_bytes) {
            Some(bytes) => bytes,
            None => return Err(WgpuResidentKvCacheError::ShapeOverflow),
        };
        if tensor_bytes > max_buffer_size {
            return Err(
                WgpuResidentKvCacheError::DeviceBufferLimit {
                    required_bytes: tensor_bytes,
                    maximum_bytes: max_buffer_size,
                },
            );
        }
        Ok(Self { batch, kv_heads, capacity, head_dim, len: 0, row_bytes })
    }

    pub fn batch(&self) -> (batch: usize)
        ensures
            batch == self.spec_batch(),
    {
        self.batch
    }

    pub fn kv_heads(&self) -> (kv_heads: usize)
        ensures
            kv_heads == self.spec_kv_heads(),
    {
        self.kv_heads
    }

    pub fn capacity(&self) -> (capacity: usize)
        ensures
            capacity == self.spec_capacity(),
    {
        self.capacity
    }

    pub fn head_dim(&self) -> (head_dim: usize)
        ensures
            head_dim == self.spec_head_dim(),
    {
        self.head_dim
    }

    pub fn len(&self) -> (len: usize)
        ensures
            len == self.spec_len(),
    {
        self.len
    }

    pub fn is_empty(&self) -> (empty: bool)
        ensures
            empty == (self.spec_len() == 0),
    {
        self.len == 0
    }

    pub fn remaining_capacity(&self) -> (remaining: usize)
        ensures
            remaining == self.spec_capacity() - self.spec_len(),
    {
        proof {
            use_type_invariant(self);
        }
        self.capacity - self.len
    }

    /// Bytes of the K (and of the V) tensor.
    pub fn tensor_bytes(&self) -> (bytes: u64)
        ensures
            bytes == tensor_bytes_of(
                self.spec_batch(),
                self.spec_capacity(),
                self.spec_kv_heads(),
                self.spec_head_dim(),
            ),
    {
        proof {
            use_type_invariant(self);
        }
        (self.batch * self.capacity) as u64 * self.row_bytes
    }

    /// Logical reset. Stale bytes stay resident but lie outside `[0, len)`.
    pub fn reset(&mut self)
        ensures
            final(self).spec_len() == 0,
            final(self).spec_batch() == old(self).spec_batch(),
            final(self).spec_kv_heads() == old(self).spec_kv_heads(),
            final(self).spec_capacity() == old(self).spec_capacity(),
            final(self).spec_head_dim() == old(self).spec_head_dim(),
            final(self).spec_row_bytes() == old(self).spec_row_bytes(),
    {
        proof {
            use_type_invariant(&*self);
        }
        self.len = 0;
    }

    /// Plans an append of `append_len` rows per batch from sequence-major
    /// sources `[batch, append_len, kv_heads * head_dim]`. On success the
    /// length advances and one copy region per batch is returned, in batch
    /// order; each is applied to K and to V. On failure nothing changes.
    pub fn plan_append(
        &mut self,
        append_len: usize,
        k_source: ResidentAppendSource,
        v_source: ResidentAppendSource,
    ) -> (r: Result<(usize, Vec<ResidentCopyRegion>), WgpuResidentKvCacheError>)
        ensures
            final(self).spec_batch() == old(self).spec_batch(),
            final(self).spec_kv_heads() == old(self).spec_kv_heads(),
            final(self).spec_capacity() == old(self).spec_capacity(),
            final(self).spec_head_dim() == old(self).spec_head_dim(),
            final(self).spec_row_bytes() == old(self).spec_row_bytes(),
            match append_rule(
                old(self).spec_batch(),
                old(self).spec_capacity(),
                old(self).spec_len(),
                old(self).spec_row_bytes(),
                append_len,
                k_source,
                v_source,
            ) {
                Err(e) => r == Err::<(usize, Vec<ResidentCopyRegion>), WgpuResidentKvCacheError>(e)
                    && final(self).spec_len() == old(self).spec_len(),
                Ok(new_len) => r matches Ok((n, regions)) && {
                    &&& n == new_len
                    &&& final(self).spec_len() == new_len
                    &&& regions@.len() == old(self).spec_batch()
                    &&& forall|b: int|
                        0 <= b < regions@.len() ==> #[trigger] regions@[b] == append_region(
                            old(self).spec_capacity(),
                            old(self).spec_len(),
                            old(self).spec_row_bytes(),
                            append_len,
                            b,
                        )
                },
            },
    {
        proof {
            use_type_invariant(&*self);
        }
        if append_len == 0 {
            return Err(WgpuResidentKvCacheError::ZeroDimension);
        }
        let new_len = match self.len.checked_add(append_len) {
            Some(n) => n,
            None => return Err(WgpuResidentKvCacheError::ShapeOverflow),
        };
        if new_len > self.capacity {
            return Err(
                WgpuResidentKvCacheError::CapacityExceeded {
                    current_len: self.len,
                    append_len,
                    capacity: self.capacity,
                },
            );
        }
        let batch = self.batch;
        let capacity = self.capacity;
        let len = self.len;
        let row_bytes = self.row_bytes;
        proof {
            lemma_append_fits(batch, capacity, len, append_len, row_bytes, self.kv_heads, self.head_dim);
        }
        let source_batch_bytes = append_len as u64 * row_bytes;
        let required = batch as u64 * source_batch_bytes;
        if k_source.size_bytes < required {
            return Err(
                WgpuResidentKvCacheError::BufferTooSmall {
                    tensor: "K",
                    actual_bytes: k_source.size_bytes,
                    required_bytes: required,
                },
            );
        }
        if !k_source.copy_src {
            return Err(
                WgpuResidentKvCacheError::MissingBufferUsage { tensor: "K", required: "COPY_SRC" },
            );
        }
        if v_source.size_bytes < required {
            return Err(
                WgpuResidentKvCacheError::BufferTooSmall {
                    tensor: "V",
                    actual_bytes: v_source.size_bytes,
                    required_bytes: required,
                },
            );
        }
        if !v_source.copy_src {
            return Err(
                WgpuResidentKvCacheError::MissingBufferUsage { tensor: "V", required: "COPY_SRC" },
            );
        }
        let mut regions: Vec<ResidentCopyRegion> = Vec::new();
        let mut b: usize = 0;
        while b < batch
            invariant
                b <= batch,
                0 < append_len,
                len + append_len <= capacity,
                batch * capacity <= usize::MAX,
                (batch * capacity) * row_bytes <= u64::MAX,
                source_batch_bytes == append_len * row_bytes,
                regions@.len() == b,
                forall|i: int|
                    0 <= i < b ==> #[trigger] regions@[i] == append_region(
                        capacity,
                        len,
                        row_bytes,
                        append_len,
                        i,
                    ),
            decreases batch - b,
        {
            proof {
                lemma_region_fits(batch, capacity, len, append_len, row_bytes, b);
            }
            let destination_row = b * capacity + len;
            let region = ResidentCopyRegion {
                source_offset: b as u64 * source_batch_bytes,
                destination_offset: destination_row as u64 * row_bytes,
                size_bytes: source_batch_bytes,
            };
            regions.push(region);
            b = b + 1;
        }
        self.len = new_len;
        Ok((new_len, regions))
    }
}

} // verus!
