use vstd::prelude::*;

pub mod arith;
pub mod research_da_luc;
pub mod attention_shape;
pub mod wgpu_backward;
pub mod wgpu_backward_grouped;
pub mod wgpu_forward_grouped;
pub mod wgpu_decode_prerotated_k;
pub mod fingerprint;
pub mod research_structural_routing;
pub mod research_structural_device;
pub mod research_da_luc_tiering;
pub mod research_da_luc_paged_binding;
pub mod research_nonlocal;
pub mod research_nonlocal_evidence;
pub mod wgpu_backend;
pub mod research_nonlocal_wgpu;
pub mod research_da_luc_oracle;
pub mod research_da_luc_decode_oracle;
pub mod boolean_attention;
pub mod wgpu_boolean_router;
pub mod canonical_text;
pub mod wgpu_boolean_selected_paged_decode;
pub mod research_structural_wgpu;
pub mod research_da_luc_wgpu;
pub mod wgpu_kv_cache;
pub mod wgpu_decode;
pub mod rotary_grouped;
pub mod wgpu_external;
pub mod wgpu_external_asymmetric;
pub mod wgpu_external_variable;
pub mod wgpu_chunked_prefill;
pub mod wgpu_grouped_backend;
pub mod wgpu_f16_backend;
pub mod research_da_luc_payload;
