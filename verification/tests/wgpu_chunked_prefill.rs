use flat_attention::attention_shape::{FlatAttentionError, GroupedAttentionShape};
use flat_attention::rotary_grouped::RotaryEmbeddingConfig;
use flat_attention::wgpu_chunked_prefill::{
    chunk_copies, plan_chunked_prefill, PrefillBuffers, PrefillChunk, PrefillCopy,
    WgpuChunkedProjectionPrefillError,
};
use flat_attention::wgpu_external::ExternalWgpuError;

fn shape() -> GroupedAttentionShape {
    GroupedAttentionShape {
        batch: 2,
        q_heads: 2,
        kv_heads: 1,
        seq_len: 5,
        head_dim: 2,
    }
}

fn rotary() -> RotaryEmbeddingConfig {
    RotaryEmbeddingConfig {
        theta_bits: 10_000.0f32.to_bits(),
        position_offset: 10,
    }
}

fn buffers() -> PrefillBuffers {
    PrefillBuffers {
        q_bytes: 160,
        k_bytes: 80,
        v_bytes: 80,
        out_and_lse_bytes: 240,
        q_copy_src: true,
        out_and_lse_copy_dst: true,
    }
}

#[test]
fn chunks_tile_the_sequence_in_order() {
    let (layout, chunks) = plan_chunked_prefill(shape(), rotary(), 2, buffers()).unwrap();
    assert_eq!(layout.combined_bytes, 240);
    assert_eq!(
        chunks,
        vec![
            PrefillChunk {
                query_start: 0,
                query_len: 2,
                q_rope_offset: 10
            },
            PrefillChunk {
                query_start: 2,
                query_len: 2,
                q_rope_offset: 12
            },
            PrefillChunk {
                query_start: 4,
                query_len: 1,
                q_rope_offset: 14
            },
        ]
    );
    let (_, whole) = plan_chunked_prefill(shape(), rotary(), 64, buffers()).unwrap();
    assert_eq!(
        whole,
        vec![PrefillChunk {
            query_start: 0,
            query_len: 5,
            q_rope_offset: 10
        }]
    );
}

#[test]
fn prefill_rejections_follow_check_order() {
    assert_eq!(
        plan_chunked_prefill(shape(), rotary(), 0, buffers()).unwrap_err(),
        WgpuChunkedProjectionPrefillError::ZeroQueryChunkSize
    );
    let mut grouped = shape();
    grouped.kv_heads = 3;
    assert_eq!(
        plan_chunked_prefill(grouped, rotary(), 2, buffers()).unwrap_err(),
        WgpuChunkedProjectionPrefillError::Core(FlatAttentionError::InvalidHeadGrouping {
            q_heads: 2,
            kv_heads: 3
        })
    );
    let bad_theta = RotaryEmbeddingConfig {
        theta_bits: f32::NAN.to_bits(),
        position_offset: 0,
    };
    assert_eq!(
        plan_chunked_prefill(shape(), bad_theta, 2, buffers()).unwrap_err(),
        WgpuChunkedProjectionPrefillError::Core(FlatAttentionError::InvalidRotaryTheta(
            f32::NAN.to_bits()
        ))
    );
    let mut short = buffers();
    short.out_and_lse_bytes = 239;
    assert_eq!(
        plan_chunked_prefill(shape(), rotary(), 2, short).unwrap_err(),
        WgpuChunkedProjectionPrefillError::BufferTooSmall {
            tensor: "O|LSE",
            actual_bytes: 239,
            required_bytes: 240
        }
    );
    let mut no_src = buffers();
    no_src.q_copy_src = false;
    assert_eq!(
        plan_chunked_prefill(shape(), rotary(), 2, no_src).unwrap_err(),
        WgpuChunkedProjectionPrefillError::MissingBufferUsage {
            tensor: "Q",
            required: "COPY_SRC"
        }
    );
    let mut no_dst = buffers();
    no_dst.out_and_lse_copy_dst = false;
    assert_eq!(
        plan_chunked_prefill(shape(), rotary(), 2, no_dst).unwrap_err(),
        WgpuChunkedProjectionPrefillError::MissingBufferUsage {
            tensor: "O|LSE",
            required: "COPY_DST"
        }
    );
    let mut huge = shape();
    huge.seq_len = usize::MAX / 8;
    huge.batch = 1;
    huge.q_heads = 1;
    huge.head_dim = 2;
    assert_eq!(
        plan_chunked_prefill(huge, rotary(), 2, buffers()).unwrap_err(),
        WgpuChunkedProjectionPrefillError::External(ExternalWgpuError::Core(
            FlatAttentionError::ShapeOverflow
        ))
    );
}

#[test]
fn chunk_copies_gather_and_scatter_rows_and_lse_runs() {
    let chunk = PrefillChunk {
        query_start: 2,
        query_len: 2,
        q_rope_offset: 12,
    };
    let copies = chunk_copies(shape(), chunk);
    assert_eq!(
        copies.q_gather,
        vec![
            PrefillCopy {
                source_offset: 32,
                destination_offset: 0,
                size_bytes: 32
            },
            PrefillCopy {
                source_offset: 112,
                destination_offset: 32,
                size_bytes: 32
            },
        ]
    );
    assert_eq!(
        copies.output_scatter,
        vec![
            PrefillCopy {
                source_offset: 0,
                destination_offset: 32,
                size_bytes: 32
            },
            PrefillCopy {
                source_offset: 32,
                destination_offset: 112,
                size_bytes: 32
            },
        ]
    );
    assert_eq!(copies.lse_scatter.len(), 4);
    assert_eq!(
        copies.lse_scatter[1],
        PrefillCopy {
            source_offset: 72,
            destination_offset: 188,
            size_bytes: 8
        }
    );
    assert_eq!(
        copies.lse_scatter[3],
        PrefillCopy {
            source_offset: 64 + 4 * 6,
            destination_offset: 160 + 4 * (3 * 5 + 2),
            size_bytes: 8
        }
    );
}
