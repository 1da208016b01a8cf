//! Head-local interleaved rotary embedding parameters.
//!
//! The base frequency is carried by its IEEE-754 single-precision bits, so
//! every check on it is an exact integer statement.
use crate::attention_shape::FlatAttentionError;
use vstd::prelude::*;

verus! {

/// RoPE parameters of one attention call.
#[derive(Debug, Clone, Copy, PartialEq, Eq, Structural)]
pub struct RotaryEmbeddingConfig {
    /// Bits of the RoPE base frequency `theta`.
    pub theta_bits: u32,
    /// Absolute position added to every token index in this attention call.
    pub position_offset: usize,
}

/// A single-precision value is finite and positive exactly when its bits lie
/// in `(0, 0x7f80_0000)`: sign clear, not zero, exponent not all ones.
pub open spec fn finite_positive_bits(bits: u32) -> bool {
    0 < bits && bits < 0x7f80_0000
}

impl RotaryEmbeddingConfig {
    /// Why these parameters cannot rotate `seq_len` tokens of `head_dim`, first
    /// failure first.
    pub open spec fn rotary_rule(self, head_dim: usize, seq_len: usize) -> Result<
        (),
        FlatAttentionError,
    > {
        let last = if seq_len == 0 {
            0int
        } else {
            seq_len - 1
        };
        if head_dim == 0 || head_dim % 2 != 0 {
            Err(FlatAttentionError::InvalidRotaryHeadDim { head_dim })
        } else if !finite_positive_bits(self.theta_bits) {
            Err(FlatAttentionError::InvalidRotaryTheta(self.theta_bits))
        } else if self.position_offset + last > usize::MAX {
            Err(FlatAttentionError::PositionOverflow)
        } else {
            Ok(())
        }
    }

    /// Requires an even, nonzero head dimension, a finite positive theta and
    /// an addressable last position `position_offset + seq_len - 1`.
    pub fn validate(self, head_dim: usize, seq_len: usize) -> (r: Result<(), FlatAttentionError>)
        ensures
            r == self.rotary_rule(head_dim, seq_len),
    {
        if head_dim == 0 || head_dim % 2 != 0 {
            return Err(FlatAttentionError::InvalidRotaryHeadDim { head_dim });
        }
        if !(0 < self.theta_bits && self.theta_bits < 0x7f80_0000) {
            return Err(FlatAttentionError::InvalidRotaryTheta(self.theta_bits));
        }
        match self.position_offset.checked_add(seq_len.saturating_sub(1)) {
            Some(_) => Ok(()),
            None => Err(FlatAttentionError::PositionOverflow),
        }
    }
}

} // verus!
