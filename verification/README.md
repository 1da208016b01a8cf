# flat_attention

Host-side planning and validation for FLAT attention kernels and the
research-only DA-LUC compressed KV representation, verified with Verus.

Every decision a GPU pass depends on is made on the host from plain integers:
tensor geometry, buffer sizes, dispatch grids, uniform parameter words, packed
bit planes, page tables, tier routing and candidate sets. Those decisions live
in `src/` with contracts that state their results exactly, first failure
first. Floating-point values enter only as IEEE-754 bit patterns.

## Layout

- `src/` — the verified library.
  - `attention_shape`, `arith`, `canonical_text`, `fingerprint`: shared
    geometry, integer facts, canonical text records and FNV-1a hashing.
  - `wgpu_*`: layouts, buffer checks and launch parameters of the forward,
    grouped, decode, external-projection, chunked-prefill, packed-f16,
    backward-recomputation and Boolean-routing passes, and the resident KV
    cache bookkeeping.
  - `research_da_luc*`: the DA-LUC view contract, its packed oracle planes,
    page tables and geometry, payload validation and storage accounting,
    precision-tier routing and its binding to an observed paged cache.
  - `research_structural_*`, `research_nonlocal*`, `boolean_attention`:
    structural candidate sets, their routing counters and device form,
    non-local history windows and evidence records, Boolean signatures and
    masks.
- `app/` — unverified glue: device limits, uniform and plane staging into
  device bytes, the resident KV-cache buffers and their append copies, the
  chunked-prefill gather/scatter copies, and the floating-point work the
  library leaves to its caller: DA-LUC encoding, decoding and q_len=1
  oracles, the structural and RoPE scalar references, attention-mass ranking
  and storage ratios. Pipeline creation, dispatch and readback are left to the
  caller.
- `tests/` — executable tests of the library.
