//! Research-only structural candidate routing for masked attention.
//!
//! A deterministic CSR-like host representation of per-query key candidates.
//! Rows are ordered by `[batch, head, query_position]`; within one row key
//! positions are strictly increasing. Empty rows are representable.
use crate::attention_shape::{AttentionShape, FlatAttentionError};
use vstd::prelude::*;
use vstd::relations::{sorted_by, total_ordering};
use vstd::seq_lib::lemma_sorted_unique;

verus! {

/// Version of the research structural-candidate representation.
pub const STRUCTURAL_CANDIDATE_SCHEMA_VERSION: u32 = 1;

/// Fail-closed structural-routing errors.
#[derive(Debug, Clone, Copy, PartialEq, Eq)]
#[non_exhaustive]
pub enum StructuralRoutingError {
    Attention(FlatAttentionError),
    RowCountMismatch { actual: usize, expected: usize },
    RowOutOfRange { row: usize, query_rows: usize },
    KeyOutOfRange { row: usize, key_position: usize, seq_len: usize },
    DuplicateKey { row: usize, key_position: usize },
    GeometryMismatch {
        set_seq_len: usize,
        shape_seq_len: usize,
        set_query_rows: usize,
        shape_query_rows: usize,
    },
    EmptyEffectiveCandidates { row: usize },
    AccountingOverflow,
}

/// Structural-routing accounting emitted by host numerical oracles.
#[derive(Debug, Clone, Copy, PartialEq, Eq)]
pub struct StructuralRoutingCounters {
    /// Query-key pairs present in the structural candidate representation.
    pub admitted_pairs: usize,
    /// Candidate pairs actually evaluated after optional causal intersection.
    pub executed_pairs: usize,
}

/// Ascending order of key positions.
pub open spec fn key_order() -> spec_fn(usize, usize) -> bool {
    |a: usize, b: usize| a <= b
}

/// The canonical (ascending) arrangement of one row's keys.
pub open spec fn canonical_row(row: Seq<usize>) -> Seq<usize> {
    row.sort_by(key_order())
}

/// Keys strictly increase along the row.
pub open spec fn strictly_increasing(row: Seq<usize>) -> bool {
    forall|a: int, b: int| 0 <= a < b < row.len() ==> row[a] < row[b]
}

/// Index of the first key at or after `j` that is not below `bound`.
pub open spec fn first_at_least(s: Seq<usize>, bound: usize, j: int) -> Option<int>
    decreases s.len() - j,
{
    if j < 0 || j >= s.len() {
        None
    } else if s[j] >= bound {
        Some(j)
    } else {
        first_at_least(s, bound, j + 1)
    }
}

/// Index of the first adjacent repeated pair at or after `j`.
pub open spec fn first_repeat(s: Seq<usize>, j: int) -> Option<int>
    decreases s.len() - j,
{
    if j < 0 || j + 1 >= s.len() {
        None
    } else if s[j] == s[j + 1] {
        Some(j)
    } else {
        first_repeat(s, j + 1)
    }
}

/// Failure of one canonical row: the first out-of-range key in ascending
/// order, else the first repeated key in ascending order.
pub open spec fn row_failure(s: Seq<usize>, seq_len: usize, row: int) -> Option<
    StructuralRoutingError,
> {
    match first_at_least(s, seq_len, 0) {
        Some(j) => Some(
            StructuralRoutingError::KeyOutOfRange {
                row: row as usize,
                key_position: s[j],
                seq_len,
            },
        ),
        None => match first_repeat(s, 0) {
            Some(j) => Some(
                StructuralRoutingError::DuplicateKey { row: row as usize, key_position: s[j] },
            ),
            None => None,
        },
    }
}

/// First failing row at or after `i`.
pub open spec fn rows_failure(rows: Seq<Seq<usize>>, seq_len: usize, i: int) -> Option<
    StructuralRoutingError,
>
    decreases rows.len() - i,
{
    if i < 0 || i >= rows.len() {
        None
    } else {
        match row_failure(canonical_row(rows[i]), seq_len, i) {
            Some(e) => Some(e),
            None => rows_failure(rows, seq_len, i + 1),
        }
    }
}

/// The error `AttentionShape::validate` reports for an invalid shape.
pub open spec fn shape_failure(shape: AttentionShape) -> FlatAttentionError {
    if shape.batch == 0 || shape.heads == 0 || shape.seq_len == 0 || shape.head_dim == 0 {
        FlatAttentionError::ZeroDimension
    } else {
        FlatAttentionError::ShapeOverflow
    }
}

/// Number of query rows of a shape.
pub open spec fn query_row_count(shape: AttentionShape) -> int {
    shape.batch * shape.heads * shape.seq_len
}

/// Canonical rows built from caller rows for a shape, or the first failure.
pub open spec fn from_rows_rule(shape: AttentionShape, rows: Seq<Seq<usize>>) -> Result<
    Seq<Seq<usize>>,
    StructuralRoutingError,
> {
    if !shape.valid() {
        Err(StructuralRoutingError::Attention(shape_failure(shape)))
    } else if rows.len() != query_row_count(shape) {
        Err(
            StructuralRoutingError::RowCountMismatch {
                actual: rows.len() as usize,
                expected: query_row_count(shape) as usize,
            },
        )
    } else {
        match rows_failure(rows, shape.seq_len, 0) {
            Some(e) => Err(e),
            None => Ok(rows.map_values(|row: Seq<usize>| canonical_row(row))),
        }
    }
}

/// Views of caller-owned rows.
pub open spec fn row_views(rows: Seq<Vec<usize>>) -> Seq<Seq<usize>> {
    rows.map_values(|row: Vec<usize>| row@)
}

/// Canonical CSR-like candidate keys for every attention query.
#[derive(Debug, PartialEq, Eq)]
pub struct StructuralCandidateSet {
    seq_len: usize,
    query_rows: usize,
    offsets: Vec<usize>,
    key_positions: Vec<usize>,
}

/// CSR well-formedness of raw candidate arrays.
pub open spec fn csr_wf(seq_len: int, query_rows: int, offsets: Seq<usize>, keys: Seq<usize>) -> bool {
    &&& seq_len > 0
    &&& query_rows > 0
    &&& offsets.len() == query_rows + 1
    &&& offsets[0] == 0
    &&& offsets[query_rows] == keys.len()
    &&& forall|i: int, j: int| 0 <= i <= j <= query_rows ==> offsets[i] <= offsets[j]
    &&& forall|a: int| 0 <= a < keys.len() ==> keys[a] < seq_len
    &&& forall|i: int|
        0 <= i < query_rows ==> #[trigger] strictly_increasing(
            keys.subrange(offsets[i] as int, offsets[i + 1] as int),
        )
}

/// Rows of raw CSR arrays.
pub open spec fn csr_rows(query_rows: int, offsets: Seq<usize>, keys: Seq<usize>) -> Seq<Seq<usize>> {
    Seq::new(
        query_rows as nat,
        |i: int| keys.subrange(offsets[i] as int, offsets[i + 1] as int),
    )
}

impl Clone for StructuralCandidateSet {
    fn clone(&self) -> (r: Self)
        ensures
            r.rows() == self.rows(),
            r.spec_seq_len() == self.spec_seq_len(),
            r.spec_query_rows() == self.spec_query_rows(),
            r.spec_offsets() == self.spec_offsets(),
            r.spec_key_positions() == self.spec_key_positions(),
    {
        proof {
            use_type_invariant(self);
        }
        let offsets = self.offsets.clone();
        let key_positions = self.key_positions.clone();
        assert(offsets@ =~= self.offsets@);
        assert(key_positions@ =~= self.key_positions@);
        StructuralCandidateSet {
            seq_len: self.seq_len,
            query_rows: self.query_rows,
            offsets,
            key_positions,
        }
    }
}

impl StructuralCandidateSet {
    #[verifier::type_invariant]
    spec fn inv(self) -> bool {
        csr_wf(self.seq_len as int, self.query_rows as int, self.offsets@, self.key_positions@)
    }

    pub closed spec fn spec_seq_len(&self) -> usize {
        self.seq_len
    }

    pub closed spec fn spec_query_rows(&self) -> usize {
        self.query_rows
    }

    pub closed spec fn spec_offsets(&self) -> Seq<usize> {
        self.offsets@
    }

    pub closed spec fn spec_key_positions(&self) -> Seq<usize> {
        self.key_positions@
    }

    /// The arrays form canonical CSR rows: ascending, in range, one per query.
    pub open spec fn well_formed(&self) -> bool {
        csr_wf(
            self.spec_seq_len() as int,
            self.spec_query_rows() as int,
            self.spec_offsets(),
            self.spec_key_positions(),
        )
    }

    /// Canonical key positions of every query row.
    pub open spec fn rows(&self) -> Seq<Seq<usize>> {
        csr_rows(self.spec_query_rows() as int, self.spec_offsets(), self.spec_key_positions())
    }

    /// Canonicalize per-query key rows by sorting them and rejecting duplicates.
    pub fn from_rows(shape: AttentionShape, rows: Vec<Vec<usize>>) -> (r: Result<
        Self,
        StructuralRoutingError,
    >)
        ensures
            match r {
                Ok(set) => from_rows_rule(shape, row_views(rows@)) == Ok::<
                    Seq<Seq<usize>>,
                    StructuralRoutingError,
                >(set.rows()) && set.spec_seq_len() == shape.seq_len && set.spec_query_rows()
                    == query_row_count(shape) && set.well_formed(),
                Err(e) => from_rows_rule(shape, row_views(rows@)) == Err::<
                    Seq<Seq<usize>>,
                    StructuralRoutingError,
                >(e),
            },
    {
        match shape.validate() {
            Ok(()) => {},
            Err(e) => return Err(StructuralRoutingError::Attention(e)),
        }
        let query_rows = match shape.lse_len() {
            Ok(v) => v,
            Err(e) => return Err(StructuralRoutingError::Attention(e)),
        };
        let ghost views = row_views(rows@);
        if rows.len() != query_rows {
            return Err(
                StructuralRoutingError::RowCountMismatch { actual: rows.len(), expected: query_rows },
            );
        }
        let mut offsets: Vec<usize> = Vec::new();
        let mut key_positions: Vec<usize> = Vec::new();
        offsets.push(0);
        let mut row_index: usize = 0;
        while row_index < rows.len()
            invariant
                views == row_views(rows@),
                rows@.len() == query_rows,
                query_rows == query_row_count(shape),
                shape.valid(),
                0 <= row_index <= rows@.len(),
                offsets@.len() == row_index + 1,
                offsets@[0] == 0,
                offsets@[row_index as int] == key_positions@.len(),
                forall|i: int, j: int| 0 <= i <= j <= row_index ==> offsets@[i] <= offsets@[j],
                forall|a: int| 0 <= a < key_positions@.len() ==> key_positions@[a] < shape.seq_len,
                forall|i: int|
                    0 <= i < row_index ==> (#[trigger] key_positions@.subrange(
                        offsets@[i] as int,
                        offsets@[i + 1] as int,
                    )) == canonical_row(views[i]),
                forall|i: int|
                    0 <= i < row_index ==> strictly_increasing(
                        #[trigger] key_positions@.subrange(offsets@[i] as int, offsets@[i + 1] as int),
                    ),
                rows_failure(views, shape.seq_len, 0) == rows_failure(
                    views,
                    shape.seq_len,
                    row_index as int,
                ),
            decreases rows@.len() - row_index,
        {
            let row = sorted_row(&rows[row_index]);
            assert(views[row_index as int] == rows@[row_index as int]@);
            proof {
                lemma_canonical_row_sorted(views[row_index as int]);
                reveal_with_fuel(rows_failure, 2);
            }
            check_canonical_row(&row, shape.seq_len, row_index)?;
            let ghost old_keys = key_positions@;
            let ghost old_offsets = offsets@;
            key_positions.extend_from_slice(row.as_slice());
            offsets.push(key_positions.len());
            proof {
                assert forall|i: int| 0 <= i < row_index + 1 implies (#[trigger] key_positions@.subrange(
                    offsets@[i] as int,
                    offsets@[i + 1] as int,
                )) == canonical_row(views[i]) && strictly_increasing(
                    key_positions@.subrange(offsets@[i] as int, offsets@[i + 1] as int),
                ) by {
                    if i < row_index {
                        assert(key_positions@.subrange(offsets@[i] as int, offsets@[i + 1] as int)
                            =~= old_keys.subrange(old_offsets[i] as int, old_offsets[i + 1] as int));
                    } else {
                        assert(key_positions@.subrange(offsets@[i] as int, offsets@[i + 1] as int)
                            =~= row@);
                    }
                }
                assert forall|a: int| 0 <= a < key_positions@.len() implies key_positions@[a]
                    < shape.seq_len by {
                    if a >= old_keys.len() {
                        assert(key_positions@[a] == row@[a - old_keys.len()]);
                    }
                }
            }
            row_index = row_index + 1;
        }
        proof {
            let built = csr_rows(query_rows as int, offsets@, key_positions@);
            let expected = views.map_values(|row: Seq<usize>| canonical_row(row));
            assert(built =~= expected);
            assert(rows_failure(views, shape.seq_len, row_index as int) is None);
        }
        assert(query_rows > 0) by (nonlinear_arith)
            requires
                query_rows == shape.batch * shape.heads * shape.seq_len,
                shape.batch >= 1,
                shape.heads >= 1,
                shape.seq_len >= 1,
        ;
        let set = StructuralCandidateSet {
            seq_len: shape.seq_len,
            query_rows,
            offsets,
            key_positions,
        };
        Ok(set)
    }

    /// Construct the all-accept structural control for one attention shape.
    pub fn all(shape: AttentionShape) -> (r: Result<Self, StructuralRoutingError>)
        ensures
            match r {
                Ok(set) => shape.valid() && set.well_formed() && set.spec_seq_len() == shape.seq_len
                    && set.spec_query_rows() == query_row_count(shape) && set.rows() == Seq::new(
                    query_row_count(shape) as nat,
                    |i: int| Seq::new(shape.seq_len as nat, |k: int| k as usize),
                ),
                Err(e) => !shape.valid() && e == StructuralRoutingError::Attention(
                    shape_failure(shape),
                ),
            },
    {
        match shape.validate() {
            Ok(()) => {},
            Err(e) => return Err(StructuralRoutingError::Attention(e)),
        }
        let query_rows = match shape.lse_len() {
            Ok(v) => v,
            Err(e) => return Err(StructuralRoutingError::Attention(e)),
        };
        let ghost full = Seq::new(shape.seq_len as nat, |k: int| k as usize);
        let mut rows: Vec<Vec<usize>> = Vec::new();
        let mut r: usize = 0;
        while r < query_rows
            invariant
                0 <= r <= query_rows,
                full == Seq::new(shape.seq_len as nat, |k: int| k as usize),
                rows@.len() == r,
                forall|i: int| 0 <= i < r ==> (#[trigger] rows@[i])@ == full,
            decreases query_rows - r,
        {
            let mut row: Vec<usize> = Vec::new();
            let mut k: usize = 0;
            while k < shape.seq_len
                invariant
                    0 <= k <= shape.seq_len,
                    row@ == Seq::new(k as nat, |t: int| t as usize),
                decreases shape.seq_len - k,
            {
                row.push(k);
                assert(row@ =~= Seq::new((k + 1) as nat, |t: int| t as usize));
                k = k + 1;
            }
            assert(row@ =~= full);
            rows.push(row);
            r = r + 1;
        }
        proof {
            lemma_ascending_is_canonical(full, shape.seq_len);
            let views = row_views(rows@);
            assert forall|i: int| 0 <= i < views.len() implies rows_failure(views, shape.seq_len, i)
                is None by {
                lemma_full_rows_accepted(views, full, shape.seq_len, i);
            }
            assert(views.map_values(|row: Seq<usize>| canonical_row(row)) =~= Seq::new(
                query_rows as nat,
                |i: int| full,
            ));
        }
        Self::from_rows(shape, rows)
    }

    /// Number of logical query rows represented by this candidate set.
    pub fn query_rows(&self) -> (r: usize)
        ensures
            r == self.spec_query_rows(),
    {
        self.query_rows
    }

    /// Sequence length used when the candidate set was canonicalized.
    pub fn seq_len(&self) -> (r: usize)
        ensures
            r == self.spec_seq_len(),
    {
        self.seq_len
    }

    /// Canonical offsets; length is `query_rows + 1`.
    pub fn offsets(&self) -> (r: &[usize])
        ensures
            r@ == self.spec_offsets(),
            csr_wf(
                self.spec_seq_len() as int,
                self.spec_query_rows() as int,
                self.spec_offsets(),
                self.spec_key_positions(),
            ),
    {
        proof {
            use_type_invariant(self);
        }
        self.offsets.as_slice()
    }

    /// Flat canonical key-position array.
    pub fn key_positions(&self) -> (r: &[usize])
        ensures
            r@ == self.spec_key_positions(),
            csr_wf(
                self.spec_seq_len() as int,
                self.spec_query_rows() as int,
                self.spec_offsets(),
                self.spec_key_positions(),
            ),
    {
        proof {
            use_type_invariant(self);
        }
        self.key_positions.as_slice()
    }

    /// Exact number of structurally admitted query-key pairs before causal masking.
    pub fn admitted_count(&self) -> (r: usize)
        ensures
            r == self.spec_key_positions().len(),
    {
        self.key_positions.len()
    }

    /// Canonical key positions admitted for one query row.
    pub fn row(&self, row: usize) -> (r: Result<&[usize], StructuralRoutingError>)
        ensures
            match r {
                Ok(keys) => row < self.spec_query_rows() && keys@ == self.rows()[row as int],
                Err(e) => row >= self.spec_query_rows() && e
                    == StructuralRoutingError::RowOutOfRange {
                    row,
                    query_rows: self.spec_query_rows(),
                },
            },
    {
        proof {
            use_type_invariant(self);
        }
        if row >= self.query_rows {
            return Err(StructuralRoutingError::RowOutOfRange { row, query_rows: self.query_rows });
        }
        let begin = self.offsets[row];
        let end = self.offsets[row + 1];
        Ok(vstd::slice::slice_subrange(self.key_positions.as_slice(), begin, end))
    }

    /// Test one canonical row/key membership without scanning unrelated rows.
    pub fn is_admitted(&self, row: usize, key_position: usize) -> (r: Result<
        bool,
        StructuralRoutingError,
    >)
        ensures
            match r {
                Ok(b) => key_position < self.spec_seq_len() && row < self.spec_query_rows() && b
                    == self.rows()[row as int].contains(key_position),
                Err(e) => if key_position >= self.spec_seq_len() {
                    e == StructuralRoutingError::KeyOutOfRange {
                        row,
                        key_position,
                        seq_len: self.spec_seq_len(),
                    }
                } else {
                    row >= self.spec_query_rows() && e == StructuralRoutingError::RowOutOfRange {
                        row,
                        query_rows: self.spec_query_rows(),
                    }
                },
            },
    {
        if key_position >= self.seq_len {
            return Err(
                StructuralRoutingError::KeyOutOfRange { row, key_position, seq_len: self.seq_len },
            );
        }
        let keys = self.row(row)?;
        let mut i: usize = 0;
        while i < keys.len()
            invariant
                key_position < self.spec_seq_len(),
                row < self.spec_query_rows(),
                keys@ == self.rows()[row as int],
                0 <= i <= keys@.len(),
                forall|t: int| 0 <= t < i ==> keys@[t] != key_position,
            decreases keys@.len() - i,
        {
            if keys[i] == key_position {
                return Ok(true);
            }
            i = i + 1;
        }
        Ok(false)
    }

    /// Intersect structural candidates with autoregressive causal eligibility.
    ///
    /// The query position of a row is `row % seq_len`. The result stays
    /// canonical and may contain empty rows.
    pub fn intersect_causal(&self) -> (r: Self)
        ensures
            r.spec_seq_len() == self.spec_seq_len(),
            r.spec_query_rows() == self.spec_query_rows(),
            r.rows().len() == self.rows().len(),
            forall|i: int|
                0 <= i < self.rows().len() ==> causal_prefix(
                    #[trigger] self.rows()[i],
                    r.rows()[i],
                    (i % self.spec_seq_len() as int) as usize,
                ),
            r.rows() == causal_rows(self.rows(), self.spec_seq_len()),
            r.well_formed(),
    {
        proof {
            use_type_invariant(self);
        }
        let mut offsets: Vec<usize> = Vec::new();
        let mut key_positions: Vec<usize> = Vec::new();
        offsets.push(0);
        let ghost source = self.rows();
        let mut row: usize = 0;
        while row < self.query_rows
            invariant
                csr_wf(self.seq_len as int, self.query_rows as int, self.offsets@, self.key_positions@),
                source == self.rows(),
                0 <= row <= self.query_rows,
                offsets@.len() == row + 1,
                offsets@[0] == 0,
                offsets@[row as int] == key_positions@.len(),
                key_positions@.len() <= self.offsets@[row as int],
                forall|i: int, j: int| 0 <= i <= j <= row ==> offsets@[i] <= offsets@[j],
                forall|a: int| 0 <= a < key_positions@.len() ==> key_positions@[a] < self.seq_len,
                forall|i: int|
                    0 <= i < row ==> causal_prefix(
                        source[i],
                        #[trigger] key_positions@.subrange(offsets@[i] as int, offsets@[i + 1] as int),
                        (i % self.seq_len as int) as usize,
                    ),
                forall|i: int|
                    0 <= i < row ==> strictly_increasing(
                        #[trigger] key_positions@.subrange(offsets@[i] as int, offsets@[i + 1] as int),
                    ),
            decreases self.query_rows - row,
        {
            let query_position = row % self.seq_len;
            let begin = self.offsets[row];
            let end = self.offsets[row + 1];
            let ghost src = source[row as int];
            assert(src == self.key_positions@.subrange(begin as int, end as int));
            assert(strictly_increasing(src));
            let ghost old_keys = key_positions@;
            let ghost old_offsets = offsets@;
            let mut k = begin;
            while k < end
                invariant_except_break
                    begin <= k <= end,
                    end <= self.key_positions@.len(),
                    src == self.key_positions@.subrange(begin as int, end as int),
                    key_positions@ == old_keys + src.take(k - begin),
                    forall|t: int| 0 <= t < k - begin ==> src[t] <= query_position,
                ensures
                    begin <= k <= end,
                    key_positions@ == old_keys + src.take(k - begin),
                    forall|t: int| 0 <= t < k - begin ==> src[t] <= query_position,
                    k < end ==> src[k - begin] > query_position,
                decreases end - k,
            {
                let key = self.key_positions[k];
                if key > query_position {
                    break;
                }
                key_positions.push(key);
                assert(src.take(k + 1 - begin) =~= src.take(k - begin).push(key));
                k = k + 1;
            }
            offsets.push(key_positions.len());
            proof {
                let taken = src.take(k - begin);
                assert forall|i: int| 0 <= i < row + 1 implies causal_prefix(
                    source[i],
                    #[trigger] key_positions@.subrange(offsets@[i] as int, offsets@[i + 1] as int),
                    (i % self.seq_len as int) as usize,
                ) && strictly_increasing(
                    key_positions@.subrange(offsets@[i] as int, offsets@[i + 1] as int),
                ) by {
                    if i < row {
                        assert(key_positions@.subrange(offsets@[i] as int, offsets@[i + 1] as int)
                            =~= old_keys.subrange(old_offsets[i] as int, old_offsets[i + 1] as int));
                    } else {
                        assert(key_positions@.subrange(offsets@[i] as int, offsets@[i + 1] as int)
                            =~= taken);
                    }
                }
                assert forall|a: int| 0 <= a < key_positions@.len() implies key_positions@[a]
                    < self.seq_len by {
                    if a >= old_keys.len() {
                        assert(key_positions@[a] == src[a - old_keys.len()]);
                        assert(self.key_positions@[begin + a - old_keys.len()] < self.seq_len);
                    }
                }
                assert(self.offsets@[row as int] <= self.offsets@[row + 1]);
            }
            row = row + 1;
        }
        proof {
            assert(self.offsets@[self.query_rows as int] == self.key_positions@.len());
        }
        let r = StructuralCandidateSet {
            seq_len: self.seq_len,
            query_rows: self.query_rows,
            offsets,
            key_positions,
        };
        proof {
            assert forall|i: int| 0 <= i < source.len() implies #[trigger] r.rows()[i]
                == source[i].filter(causal_key((i % self.seq_len as int) as usize)) by {
                lemma_causal_prefix_is_filter(
                    source[i],
                    r.rows()[i],
                    (i % self.seq_len as int) as usize,
                );
            }
            assert(r.rows() =~= causal_rows(source, self.seq_len));
        }
        r
    }

    /// Structural-routing counters of executing this set under `shape`:
    /// admitted pairs, and pairs evaluated after the optional causal cut, row by
    /// row in `[batch, head, query_position]` order. A row left with no key
    /// fails closed.
    pub fn routing_counters(&self, shape: AttentionShape, causal: bool) -> (r: Result<
        StructuralRoutingCounters,
        StructuralRoutingError,
    >)
        ensures
            r == counters_rule(self, shape, causal),
    {
        proof {
            use_type_invariant(self);
        }
        match shape.validate() {
            Ok(()) => {},
            Err(e) => return Err(StructuralRoutingError::Attention(e)),
        }
        let query_rows = match shape.lse_len() {
            Ok(v) => v,
            Err(e) => return Err(StructuralRoutingError::Attention(e)),
        };
        if self.seq_len != shape.seq_len || self.query_rows != query_rows {
            return Err(
                StructuralRoutingError::GeometryMismatch {
                    set_seq_len: self.seq_len,
                    shape_seq_len: shape.seq_len,
                    set_query_rows: self.query_rows,
                    shape_query_rows: query_rows,
                },
            );
        }
        let effective = if causal {
            self.intersect_causal()
        } else {
            self.clone()
        };
        proof {
            use_type_invariant(&effective);
        }
        let ghost rows = effective_rows(self.rows(), self.seq_len, causal);
        assert(effective.rows() == rows);
        let mut executed: usize = 0;
        let mut row: usize = 0;
        while row < effective.query_rows
            invariant
                csr_wf(
                    effective.seq_len as int,
                    effective.query_rows as int,
                    effective.offsets@,
                    effective.key_positions@,
                ),
                rows == effective.rows(),
                rows == effective_rows(self.rows(), self.spec_seq_len(), causal),
                shape.valid(),
                self.spec_seq_len() == shape.seq_len,
                self.spec_query_rows() == query_row_count(shape),
                0 <= row <= effective.query_rows,
                executed == effective.offsets@[row as int],
                executed == rows_len_sum(rows, row as int),
                first_empty_row(rows, 0) == first_empty_row(rows, row as int),
            decreases effective.query_rows - row,
        {
            let begin = effective.offsets[row];
            let end = effective.offsets[row + 1];
            assert(begin <= end);
            assert(rows[row as int].len() == end - begin);
            assert(rows.len() == effective.query_rows);
            if end == begin {
                assert(first_empty_row(rows, row as int) == Some(row as int));
                return Err(StructuralRoutingError::EmptyEffectiveCandidates { row });
            }
            executed = end;
            row = row + 1;
        }
        Ok(
            StructuralRoutingCounters {
                admitted_pairs: self.key_positions.len(),
                executed_pairs: executed,
            },
        )
    }
}

/// The rows that numerical execution visits: each row cut to its causal keys
/// when `causal` holds, else the rows as admitted.
pub open spec fn effective_rows(rows: Seq<Seq<usize>>, seq_len: usize, causal: bool) -> Seq<
    Seq<usize>,
> {
    if causal {
        causal_rows(rows, seq_len)
    } else {
        rows
    }
}

/// Index of the first empty row at or after `i`.
pub open spec fn first_empty_row(rows: Seq<Seq<usize>>, i: int) -> Option<int>
    decreases rows.len() - i,
{
    if i < 0 || i >= rows.len() {
        None
    } else if rows[i].len() == 0 {
        Some(i)
    } else {
        first_empty_row(rows, i + 1)
    }
}

/// Total length of the first `n` rows.
pub open spec fn rows_len_sum(rows: Seq<Seq<usize>>, n: int) -> int
    decreases n,
{
    if n <= 0 {
        0
    } else {
        rows_len_sum(rows, n - 1) + rows[n - 1].len()
    }
}

/// Routing counters of a candidate set executed under a shape, or the first
/// failure: an invalid shape, a geometry mismatch, or the first row left with
/// no key to attend to.
pub open spec fn counters_rule(set: &StructuralCandidateSet, shape: AttentionShape, causal: bool) -> Result<
    StructuralRoutingCounters,
    StructuralRoutingError,
> {
    if !shape.valid() {
        Err(StructuralRoutingError::Attention(shape_failure(shape)))
    } else if set.spec_seq_len() != shape.seq_len || set.spec_query_rows() != query_row_count(
        shape,
    ) {
        Err(
            StructuralRoutingError::GeometryMismatch {
                set_seq_len: set.spec_seq_len(),
                shape_seq_len: shape.seq_len,
                set_query_rows: set.spec_query_rows(),
                shape_query_rows: query_row_count(shape) as usize,
            },
        )
    } else {
        let rows = effective_rows(set.rows(), set.spec_seq_len(), causal);
        match first_empty_row(rows, 0) {
            Some(row) => Err(StructuralRoutingError::EmptyEffectiveCandidates { row: row as usize }),
            None => Ok(
                StructuralRoutingCounters {
                    admitted_pairs: set.spec_key_positions().len() as usize,
                    executed_pairs: rows_len_sum(rows, rows.len() as int) as usize,
                },
            ),
        }
    }
}

/// The keys of a row that a query at `query_position` may attend to.
pub open spec fn causal_key(query_position: usize) -> spec_fn(usize) -> bool {
    |k: usize| k <= query_position
}

/// Each row filtered, in order, to the causal keys of its query position
/// `row % seq_len`.
pub open spec fn causal_rows(rows: Seq<Seq<usize>>, seq_len: usize) -> Seq<Seq<usize>> {
    Seq::new(rows.len(), |i: int| rows[i].filter(causal_key((i % seq_len as int) as usize)))
}

proof fn lemma_filter_keeps_all(s: Seq<usize>, p: spec_fn(usize) -> bool)
    requires
        forall|t: int| 0 <= t < s.len() ==> p(#[trigger] s[t]),
    ensures
        s.filter(p) == s,
    decreases s.len(),
{
    reveal(Seq::filter);
    if s.len() > 0 {
        lemma_filter_keeps_all(s.drop_last(), p);
        assert(s.drop_last().push(s.last()) =~= s);
    }
}

proof fn lemma_filter_drops_all(s: Seq<usize>, p: spec_fn(usize) -> bool)
    requires
        forall|t: int| 0 <= t < s.len() ==> !p(#[trigger] s[t]),
    ensures
        s.filter(p) == Seq::<usize>::empty(),
    decreases s.len(),
{
    reveal(Seq::filter);
    if s.len() > 0 {
        lemma_filter_drops_all(s.drop_last(), p);
    } else {
        assert(s =~= Seq::<usize>::empty());
    }
}

/// The causal prefix of a strictly increasing row is that row filtered to its
/// causal keys.
proof fn lemma_causal_prefix_is_filter(row: Seq<usize>, next: Seq<usize>, query_position: usize)
    requires
        strictly_increasing(row),
        causal_prefix(row, next, query_position),
    ensures
        next == row.filter(causal_key(query_position)),
{
    let p = causal_key(query_position);
    let n = next.len() as int;
    let head = row.take(n);
    let tail = row.skip(n);
    assert(head + tail =~= row);
    Seq::filter_distributes_over_add(head, tail, p);
    lemma_filter_keeps_all(head, p);
    assert forall|t: int| 0 <= t < tail.len() implies !p(#[trigger] tail[t]) by {
        if t > 0 {
            assert(row[n] < row[n + t]);
        }
    }
    lemma_filter_drops_all(tail, p);
    assert(head + Seq::<usize>::empty() =~= head);
}

proof fn lemma_offsets_agree(
    n: int,
    oa: Seq<usize>,
    ka: Seq<usize>,
    ob: Seq<usize>,
    kb: Seq<usize>,
    seq_len: int,
    i: int,
)
    requires
        csr_wf(seq_len, n, oa, ka),
        csr_wf(seq_len, n, ob, kb),
        csr_rows(n, oa, ka) == csr_rows(n, ob, kb),
        0 <= i <= n,
    ensures
        oa[i] == ob[i],
    decreases i,
{
    if i > 0 {
        lemma_offsets_agree(n, oa, ka, ob, kb, seq_len, i - 1);
        assert(oa[i - 1] <= oa[i] && ob[i - 1] <= ob[i]);
        assert(csr_rows(n, oa, ka)[i - 1].len() == oa[i] - oa[i - 1]);
        assert(csr_rows(n, ob, kb)[i - 1].len() == ob[i] - ob[i - 1]);
    }
}

proof fn lemma_row_of_position(o: Seq<usize>, n: int, a: int) -> (i: int)
    requires
        0 <= n < o.len(),
        o[0] == 0,
        0 <= a < o[n],
        forall|x: int, y: int| 0 <= x <= y <= n ==> o[x] <= o[y],
    ensures
        0 <= i < n,
        o[i] <= a < o[i + 1],
    decreases n,
{
    if o[n - 1] <= a {
        n - 1
    } else {
        lemma_row_of_position(o, n - 1, a)
    }
}

/// Rows determine the arrays: two well-formed sets with the same geometry and
/// the same rows have the same offsets and key positions, so they are the
/// same set.
pub proof fn lemma_rows_determine_set(a: &StructuralCandidateSet, b: &StructuralCandidateSet)
    requires
        a.well_formed(),
        b.well_formed(),
        a.spec_seq_len() == b.spec_seq_len(),
        a.spec_query_rows() == b.spec_query_rows(),
        a.rows() == b.rows(),
    ensures
        a.spec_offsets() == b.spec_offsets(),
        a.spec_key_positions() == b.spec_key_positions(),
{
    let n = a.spec_query_rows() as int;
    let seq_len = a.spec_seq_len() as int;
    let (oa, ka, ob, kb) = (a.spec_offsets(), a.spec_key_positions(), b.spec_offsets(), b.spec_key_positions());
    assert forall|i: int| 0 <= i < oa.len() implies oa[i] == ob[i] by {
        lemma_offsets_agree(n, oa, ka, ob, kb, seq_len, i);
    }
    assert(oa =~= ob);
    assert forall|x: int| 0 <= x < ka.len() implies ka[x] == kb[x] by {
        let i = lemma_row_of_position(oa, n, x);
        assert(csr_rows(n, oa, ka)[i][x - oa[i]] == ka[x]);
        assert(csr_rows(n, ob, kb)[i][x - ob[i]] == kb[x]);
    }
    assert(ka =~= kb);
}

/// Causal intersection of a whole set is idempotent: a set `u` intersected
/// from `t`, itself intersected from `s`, is `t` again in every field.
pub proof fn lemma_intersect_causal_set_idempotent(
    s: &StructuralCandidateSet,
    t: &StructuralCandidateSet,
    u: &StructuralCandidateSet,
)
    requires
        t.well_formed(),
        u.well_formed(),
        t.spec_seq_len() == s.spec_seq_len(),
        t.spec_query_rows() == s.spec_query_rows(),
        t.rows() == causal_rows(s.rows(), s.spec_seq_len()),
        u.spec_seq_len() == t.spec_seq_len(),
        u.spec_query_rows() == t.spec_query_rows(),
        u.rows() == causal_rows(t.rows(), t.spec_seq_len()),
    ensures
        u.spec_seq_len() == t.spec_seq_len(),
        u.spec_query_rows() == t.spec_query_rows(),
        u.spec_offsets() == t.spec_offsets(),
        u.spec_key_positions() == t.spec_key_positions(),
{
    lemma_causal_rows_idempotent(s.rows(), s.spec_seq_len());
    lemma_rows_determine_set(u, t);
}

/// Causal intersection is idempotent: intersecting rows that were already
/// intersected with causal eligibility gives them back unchanged.
pub proof fn lemma_causal_rows_idempotent(rows: Seq<Seq<usize>>, seq_len: usize)
    ensures
        causal_rows(causal_rows(rows, seq_len), seq_len) == causal_rows(rows, seq_len),
{
    let once = causal_rows(rows, seq_len);
    assert forall|i: int| 0 <= i < once.len() implies #[trigger] once[i].filter(
        causal_key((i % seq_len as int) as usize),
    ) == once[i] by {
        let p = causal_key((i % seq_len as int) as usize);
        assert forall|t: int| 0 <= t < once[i].len() implies p(#[trigger] once[i][t]) by {
            rows[i].lemma_filter_pred(p, t);
        }
        lemma_filter_keeps_all(once[i], p);
    }
    assert(causal_rows(once, seq_len) =~= once);
}

/// `next` is the longest prefix of the ascending row `row` whose keys do not
/// exceed `query_position`.
pub open spec fn causal_prefix(row: Seq<usize>, next: Seq<usize>, query_position: usize) -> bool {
    &&& next.len() <= row.len()
    &&& next == row.take(next.len() as int)
    &&& forall|t: int| 0 <= t < next.len() ==> next[t] <= query_position
    &&& next.len() < row.len() ==> row[next.len() as int] > query_position
}

proof fn lemma_key_order_total()
    ensures
        total_ordering(key_order()),
{
    assert(vstd::relations::reflexive(key_order()));
    assert(vstd::relations::antisymmetric(key_order()));
    assert(vstd::relations::transitive(key_order()));
    assert(vstd::relations::strongly_connected(key_order()));
}

proof fn lemma_canonical_row_sorted(row: Seq<usize>)
    ensures
        sorted_by(canonical_row(row), key_order()),
        canonical_row(row).to_multiset() == row.to_multiset(),
{
    lemma_key_order_total();
    row.lemma_sort_by_ensures(key_order());
}

/// An ascending row without adjacent repeats is strictly increasing.
proof fn lemma_sorted_no_repeat_strict(s: Seq<usize>)
    requires
        sorted_by(s, key_order()),
        forall|t: int| 0 <= t && t + 1 < s.len() ==> #[trigger] s[t] != s[t + 1],
    ensures
        strictly_increasing(s),
{
    assert forall|a: int, b: int| 0 <= a < b < s.len() implies s[a] < s[b] by {
        assert(key_order()(s[a], s[a + 1]));
        if a + 1 < b {
            assert(key_order()(s[a + 1], s[b]));
        }
        assert(s[a] != s[a + 1]);
    }
}

/// A strictly increasing in-range row is already canonical and accepted.
pub proof fn lemma_canonical_row_fixed(row: Seq<usize>, seq_len: usize)
    requires
        strictly_increasing(row),
        forall|t: int| 0 <= t < row.len() ==> #[trigger] row[t] < seq_len,
    ensures
        canonical_row(row) == row,
        first_at_least(row, seq_len, 0) is None,
        first_repeat(row, 0) is None,
{
    lemma_key_order_total();
    row.lemma_sort_by_ensures(key_order());
    assert(sorted_by(row, key_order()));
    lemma_sorted_unique(canonical_row(row), row, key_order());
    lemma_in_range_no_key_at_least(row, seq_len, 0);
    lemma_increasing_no_repeat(row, 0);
}

proof fn lemma_in_range_no_key_at_least(row: Seq<usize>, seq_len: usize, j: int)
    requires
        forall|t: int| 0 <= t < row.len() ==> #[trigger] row[t] < seq_len,
        0 <= j,
    ensures
        first_at_least(row, seq_len, j) is None,
    decreases row.len() - j,
{
    if j < row.len() {
        lemma_in_range_no_key_at_least(row, seq_len, j + 1);
    }
}

proof fn lemma_increasing_no_repeat(row: Seq<usize>, j: int)
    requires
        strictly_increasing(row),
        0 <= j,
    ensures
        first_repeat(row, j) is None,
    decreases row.len() - j,
{
    if j + 1 < row.len() {
        lemma_increasing_no_repeat(row, j + 1);
    }
}

/// Rows that are all canonical and in range pass every row check from `i` on.
pub proof fn lemma_canonical_rows_accepted(rows: Seq<Seq<usize>>, seq_len: usize, i: int)
    requires
        forall|r: int|
            0 <= r < rows.len() ==> strictly_increasing(#[trigger] rows[r]) && forall|t: int|
                0 <= t < rows[r].len() ==> #[trigger] rows[r][t] < seq_len,
        0 <= i,
    ensures
        rows_failure(rows, seq_len, i) is None,
        rows.map_values(|row: Seq<usize>| canonical_row(row)) == rows,
    decreases rows.len() - i,
{
    if i < rows.len() {
        lemma_canonical_row_fixed(rows[i], seq_len);
        lemma_canonical_rows_accepted(rows, seq_len, i + 1);
    }
    assert forall|r: int| 0 <= r < rows.len() implies canonical_row(rows[r]) == rows[r] by {
        lemma_canonical_row_fixed(rows[r], seq_len);
    }
    assert(rows.map_values(|row: Seq<usize>| canonical_row(row)) =~= rows);
}

/// `0..n` is its own canonical arrangement.
proof fn lemma_ascending_is_canonical(full: Seq<usize>, n: usize)
    requires
        full == Seq::new(n as nat, |k: int| k as usize),
    ensures
        canonical_row(full) == full,
        first_at_least(full, n, 0) is None,
        first_repeat(full, 0) is None,
{
    lemma_key_order_total();
    full.lemma_sort_by_ensures(key_order());
    assert(sorted_by(full, key_order()));
    lemma_sorted_unique(canonical_row(full), full, key_order());
    lemma_no_key_at_least(full, n, 0);
    assert forall|t: int| 0 <= t < full.len() implies #[trigger] full[t] == t by {}
    lemma_no_repeat_in_range(full, 0);
}

proof fn lemma_no_key_at_least(full: Seq<usize>, n: usize, j: int)
    requires
        full == Seq::new(n as nat, |k: int| k as usize),
        0 <= j,
    ensures
        first_at_least(full, n, j) is None,
    decreases full.len() - j,
{
    if j < full.len() {
        lemma_no_key_at_least(full, n, j + 1);
    }
}

proof fn lemma_no_repeat_in_range(full: Seq<usize>, j: int)
    requires
        forall|t: int| 0 <= t < full.len() ==> #[trigger] full[t] == t,
        0 <= j,
    ensures
        first_repeat(full, j) is None,
    decreases full.len() - j,
{
    if j + 1 < full.len() {
        lemma_no_repeat_in_range(full, j + 1);
    }
}

proof fn lemma_full_rows_accepted(views: Seq<Seq<usize>>, full: Seq<usize>, n: usize, i: int)
    requires
        forall|t: int| 0 <= t < views.len() ==> views[t] == full,
        canonical_row(full) == full,
        first_at_least(full, n, 0) is None,
        first_repeat(full, 0) is None,
        0 <= i,
    ensures
        rows_failure(views, n, i) is None,
    decreases views.len() - i,
{
    if i < views.len() {
        lemma_full_rows_accepted(views, full, n, i + 1);
    }
}

/// Reject the first out-of-range or repeated key of one ascending row.
fn check_canonical_row(row: &Vec<usize>, seq_len: usize, row_index: usize) -> (r: Result<
    (),
    StructuralRoutingError,
>)
    requires
        sorted_by(row@, key_order()),
    ensures
        r == (match row_failure(row@, seq_len, row_index as int) {
            Some(e) => Err(e),
            None => Ok::<(), StructuralRoutingError>(()),
        }),
        r is Ok ==> strictly_increasing(row@) && forall|t: int|
            0 <= t < row@.len() ==> #[trigger] row@[t] < seq_len,
{
    let mut j: usize = 0;
    while j < row.len()
        invariant
            0 <= j <= row@.len(),
            forall|t: int| 0 <= t < j ==> #[trigger] row@[t] < seq_len,
            first_at_least(row@, seq_len, 0) == first_at_least(row@, seq_len, j as int),
        decreases row@.len() - j,
    {
        if row[j] >= seq_len {
            return Err(
                StructuralRoutingError::KeyOutOfRange {
                    row: row_index,
                    key_position: row[j],
                    seq_len,
                },
            );
        }
        j = j + 1;
    }
    assert(first_at_least(row@, seq_len, row@.len() as int) is None);
    if row.len() == 0 {
        assert(first_repeat(row@, 0) is None);
        return Ok(());
    }
    let mut j: usize = 0;
    while j < row.len() - 1
        invariant
            row@.len() > 0,
            0 <= j <= row@.len() - 1,
            first_at_least(row@, seq_len, 0) is None,
            forall|t: int| 0 <= t < j ==> #[trigger] row@[t] != row@[t + 1],
            first_repeat(row@, 0) == first_repeat(row@, j as int),
        decreases row@.len() - j,
    {
        if row[j] == row[j + 1] {
            return Err(StructuralRoutingError::DuplicateKey { row: row_index, key_position: row[j] });
        }
        j = j + 1;
    }
    assert(first_repeat(row@, j as int) is None);
    proof {
        lemma_sorted_no_repeat_strict(row@);
    }
    Ok(())
}

/// An ascending copy of one row.
fn sorted_row(row: &Vec<usize>) -> (r: Vec<usize>)
    ensures
        r@ == canonical_row(row@),
{
    let mut out: Vec<usize> = Vec::new();
    let mut i: usize = 0;
    assert(row@.take(0) =~= out@);
    while i < row.len()
        invariant
            0 <= i <= row@.len(),
            sorted_by(out@, key_order()),
            out@.to_multiset() == row@.take(i as int).to_multiset(),
        decreases row@.len() - i,
    {
        let x = row[i];
        let mut pos: usize = 0;
        while pos < out.len() && out[pos] <= x
            invariant
                0 <= pos <= out@.len(),
                forall|t: int| 0 <= t < pos ==> out@[t] <= x,
            decreases out@.len() - pos,
        {
            pos = pos + 1;
        }
        let ghost before = out@;
        out.insert(pos, x);
        proof {
            vstd::seq_lib::to_multiset_insert(before, pos as int, x);
            vstd::seq_lib::to_multiset_build(row@.take(i as int), x);
            assert(row@.take(i + 1) =~= row@.take(i as int).push(x));
            assert forall|a: int, b: int| 0 <= a < b < out@.len() implies #[trigger] key_order()(
                out@[a],
                out@[b],
            ) by {
                if b < pos {
                    assert(key_order()(before[a], before[b]));
                } else if b == pos {
                    assert(before[a] <= x);
                } else if a < pos {
                    assert(key_order()(before[a], before[b - 1]) || a == b - 1);
                    if pos < before.len() {
                        assert(before[pos as int] > x);
                    }
                } else if a == pos {
                    assert(before[pos as int] > x);
                    if pos < b - 1 {
                        assert(key_order()(before[pos as int], before[b - 1]));
                    }
                } else {
                    assert(key_order()(before[a - 1], before[b - 1]));
                }
            }
        }
        i = i + 1;
    }
    proof {
        assert(row@.take(row@.len() as int) =~= row@);
        lemma_canonical_row_sorted(row@);
        lemma_key_order_total();
        lemma_sorted_unique(out@, canonical_row(row@), key_order());
    }
    out
}

} // verus!
