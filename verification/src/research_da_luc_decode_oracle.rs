//! Evidence types of the direct q_len=1 attention oracle over the compressed
//! DA-LUC payload.
use crate::attention_shape::FlatAttentionError;
use crate::research_da_luc::{contract_rule, DalucKvViewContract};
use crate::research_da_luc_oracle::DalucOracleError;
use vstd::prelude::*;

verus! {

/// Version of the research-only compressed q_len=1 attention oracle semantics.
pub const DA_LUC_COMPRESSED_DECODE_ORACLE_VERSION: u16 = 1;

/// q_len=1 attention configuration.
///
/// `attention` is the causal policy and score scaling shared with the dense
/// attention path; it is carried through unchanged.
#[derive(Debug, Clone, Copy, PartialEq)]
pub struct DalucQlen1DecodeConfig<A> {
    pub attention: A,
    /// Absolute position of the single query token.
    pub query_position: usize,
}

impl<A> DalucQlen1DecodeConfig<A> {
    /// Canonical autoregressive decode configuration for the last live KV token:
    /// the contract is validated first, and the query sits at `kv_len - 1`.
    pub fn for_last_token(contract: DalucKvViewContract, attention: A) -> (r: Result<
        Self,
        DalucDecodeOracleError,
    >)
        ensures
            match r {
                Ok(c) => contract_rule(contract) is Ok && c.attention == attention
                    && c.query_position == contract.shape.kv_len - 1,
                Err(e) => contract_rule(contract) is Err && e == DalucDecodeOracleError::Oracle(
                    DalucOracleError::Contract(contract_rule(contract)->Err_0),
                ),
            },
    {
        match contract.validate() {
            Err(error) => Err(DalucDecodeOracleError::Oracle(DalucOracleError::Contract(error))),
            Ok(()) => Ok(Self { attention, query_position: contract.shape.kv_len - 1 }),
        }
    }
}

/// Structural execution evidence from the scalar compressed-consumption oracle.
///
/// These are deterministic logical operation counts. They are not physical
/// memory transactions, bandwidth, latency, throughput, or a performance claim.
#[derive(Debug, Clone, Copy, Default, PartialEq, Eq)]
pub struct DalucQlen1DecodeTrace {
    pub lut_entry_dot_products: usize,
    pub key_index_lookups: usize,
    pub key_residual_corrections: usize,
    pub attended_kv_rows: usize,
    pub value_primary_scalar_reads: usize,
    pub value_quantized_scalar_conversions: usize,
    pub value_residual_corrections: usize,
}

#[derive(Debug)]
#[non_exhaustive]
pub enum DalucDecodeOracleError {
    Oracle(DalucOracleError),
    Attention(FlatAttentionError),
}

} // verus!
