//! Logical attention geometries and their element counts.
//!
//! Every element count is computed with checked arithmetic in a fixed factor
//! order; a count exists exactly when every partial product of that order fits
//! in `usize`.
use vstd::prelude::*;

verus! {

/// Shape and arithmetic failures shared by the attention front ends.
#[derive(Debug, Clone, Copy, PartialEq, Eq)]
#[non_exhaustive]
pub enum FlatAttentionError {
    ZeroDimension,
    ShapeOverflow,
    InvalidHeadGrouping { q_heads: usize, kv_heads: usize },
    InvalidRotaryHeadDim { head_dim: usize },
    PositionOverflow,
    InvalidRotaryTheta(u32),
    LengthMismatch { tensor: &'static str, actual: usize, expected: usize },
    NonFiniteInput { tensor: &'static str, index: usize },
}

/// Equal-length multi-head geometry `[batch, heads, seq_len, head_dim]`.
#[derive(Debug, Clone, Copy, PartialEq, Eq)]
pub struct AttentionShape {
    pub batch: usize,
    pub heads: usize,
    pub seq_len: usize,
    pub head_dim: usize,
}

/// Native grouped-query geometry; `kv_heads` must divide `q_heads`.
#[derive(Debug, Clone, Copy, PartialEq, Eq)]
pub struct GroupedAttentionShape {
    pub batch: usize,
    pub q_heads: usize,
    pub kv_heads: usize,
    pub seq_len: usize,
    pub head_dim: usize,
}

/// Grouped geometry whose query rows sit at absolute positions
/// `query_position_offset..query_position_offset + query_len` over `kv_len` keys.
#[derive(Debug, Clone, Copy, PartialEq, Eq)]
pub struct AsymmetricGroupedAttentionShape {
    pub batch: usize,
    pub q_heads: usize,
    pub kv_heads: usize,
    pub query_len: usize,
    pub kv_len: usize,
    pub head_dim: usize,
    pub query_position_offset: usize,
}

/// Every left-to-right partial product of `a * b * c` fits in `usize`.
pub open spec fn fits3(a: usize, b: usize, c: usize) -> bool {
    a * b <= usize::MAX && a * b * c <= usize::MAX
}

/// Every left-to-right partial product of `a * b * c * d` fits in `usize`.
pub open spec fn fits4(a: usize, b: usize, c: usize, d: usize) -> bool {
    fits3(a, b, c) && a * b * c * d <= usize::MAX
}

/// Checked `a * b * c` in that order.
pub fn checked_mul3(a: usize, b: usize, c: usize) -> (r: Result<usize, FlatAttentionError>)
    ensures
        r is Ok <==> fits3(a, b, c),
        r matches Ok(v) ==> v == a * b * c,
        r matches Err(e) ==> e == FlatAttentionError::ShapeOverflow,
{
    let ab = match a.checked_mul(b) {
        Some(v) => v,
        None => return Err(FlatAttentionError::ShapeOverflow),
    };
    match ab.checked_mul(c) {
        Some(v) => Ok(v),
        None => Err(FlatAttentionError::ShapeOverflow),
    }
}

/// Checked `a * b * c * d` in that order.
pub fn checked_mul4(a: usize, b: usize, c: usize, d: usize) -> (r: Result<usize, FlatAttentionError>)
    ensures
        r is Ok <==> fits4(a, b, c, d),
        r matches Ok(v) ==> v == a * b * c * d,
        r matches Err(e) ==> e == FlatAttentionError::ShapeOverflow,
{
    let abc = checked_mul3(a, b, c)?;
    match abc.checked_mul(d) {
        Some(v) => Ok(v),
        None => Err(FlatAttentionError::ShapeOverflow),
    }
}

impl AttentionShape {
    pub open spec fn valid(self) -> bool {
        &&& self.batch != 0 && self.heads != 0 && self.seq_len != 0 && self.head_dim != 0
        &&& fits4(self.batch, self.heads, self.seq_len, self.head_dim)
    }

    /// Element count of one `[batch, heads, seq_len, head_dim]` tensor.
    pub fn tensor_len(self) -> (r: Result<usize, FlatAttentionError>)
        ensures
            r is Ok <==> fits4(self.batch, self.heads, self.seq_len, self.head_dim),
            r matches Ok(v) ==> v == self.batch * self.heads * self.seq_len * self.head_dim,
            r matches Err(e) ==> e == FlatAttentionError::ShapeOverflow,
    {
        checked_mul4(self.batch, self.heads, self.seq_len, self.head_dim)
    }

    /// Number of query rows, one log-sum-exp statistic each.
    pub fn lse_len(self) -> (r: Result<usize, FlatAttentionError>)
        ensures
            r is Ok <==> fits3(self.batch, self.heads, self.seq_len),
            r matches Ok(v) ==> v == self.batch * self.heads * self.seq_len,
            r matches Err(e) ==> e == FlatAttentionError::ShapeOverflow,
    {
        checked_mul3(self.batch, self.heads, self.seq_len)
    }

    /// Reject zero dimensions and unaddressable element counts.
    pub fn validate(self) -> (r: Result<(), FlatAttentionError>)
        ensures
            r is Ok <==> self.valid(),
            r matches Err(e) ==> (if self.batch == 0 || self.heads == 0 || self.seq_len == 0
                || self.head_dim == 0 {
                e == FlatAttentionError::ZeroDimension
            } else {
                e == FlatAttentionError::ShapeOverflow
            }),
    {
        if self.batch == 0 || self.heads == 0 || self.seq_len == 0 || self.head_dim == 0 {
            return Err(FlatAttentionError::ZeroDimension);
        }
        self.tensor_len()?;
        Ok(())
    }
}

impl GroupedAttentionShape {
    pub open spec fn valid(self) -> bool {
        &&& self.batch != 0 && self.q_heads != 0 && self.kv_heads != 0 && self.seq_len != 0
            && self.head_dim != 0
        &&& self.q_heads % self.kv_heads == 0
        &&& fits4(self.batch, self.q_heads, self.seq_len, self.head_dim)
        &&& fits4(self.batch, self.kv_heads, self.seq_len, self.head_dim)
    }

    /// Element count of the `[batch, q_heads, seq_len, head_dim]` query tensor.
    pub fn q_tensor_len(self) -> (r: Result<usize, FlatAttentionError>)
        ensures
            r is Ok <==> fits4(self.batch, self.q_heads, self.seq_len, self.head_dim),
            r matches Ok(v) ==> v == self.batch * self.q_heads * self.seq_len * self.head_dim,
            r matches Err(e) ==> e == FlatAttentionError::ShapeOverflow,
    {
        checked_mul4(self.batch, self.q_heads, self.seq_len, self.head_dim)
    }

    /// Element count of one `[batch, kv_heads, seq_len, head_dim]` K or V tensor.
    pub fn kv_tensor_len(self) -> (r: Result<usize, FlatAttentionError>)
        ensures
            r is Ok <==> fits4(self.batch, self.kv_heads, self.seq_len, self.head_dim),
            r matches Ok(v) ==> v == self.batch * self.kv_heads * self.seq_len * self.head_dim,
            r matches Err(e) ==> e == FlatAttentionError::ShapeOverflow,
    {
        checked_mul4(self.batch, self.kv_heads, self.seq_len, self.head_dim)
    }

    /// Number of query rows, one log-sum-exp statistic each.
    pub fn lse_len(self) -> (r: Result<usize, FlatAttentionError>)
        ensures
            r is Ok <==> fits3(self.batch, self.q_heads, self.seq_len),
            r matches Ok(v) ==> v == self.batch * self.q_heads * self.seq_len,
            r matches Err(e) ==> e == FlatAttentionError::ShapeOverflow,
    {
        checked_mul3(self.batch, self.q_heads, self.seq_len)
    }

    /// Reject zero dimensions, non-divisible head grouping and unaddressable counts.
    pub fn validate(self) -> (r: Result<(), FlatAttentionError>)
        ensures
            r is Ok <==> self.valid(),
            r matches Err(e) ==> (if self.batch == 0 || self.q_heads == 0 || self.kv_heads == 0
                || self.seq_len == 0 || self.head_dim == 0 {
                e == FlatAttentionError::ZeroDimension
            } else if self.q_heads % self.kv_heads != 0 {
                e == FlatAttentionError::InvalidHeadGrouping {
                    q_heads: self.q_heads,
                    kv_heads: self.kv_heads,
                }
            } else {
                e == FlatAttentionError::ShapeOverflow
            }),
    {
        if self.batch == 0 || self.q_heads == 0 || self.kv_heads == 0 || self.seq_len == 0
            || self.head_dim == 0 {
            return Err(FlatAttentionError::ZeroDimension);
        }
        if self.q_heads % self.kv_heads != 0 {
            return Err(
                FlatAttentionError::InvalidHeadGrouping {
                    q_heads: self.q_heads,
                    kv_heads: self.kv_heads,
                },
            );
        }
        self.q_tensor_len()?;
        self.kv_tensor_len()?;
        Ok(())
    }
}

} // verus!
