# sapient

Verified core of SAPIENT's kernel study and C API, written in Verus.

- `src/quant.rs` — the integer heart of the Q4_K × Q8_K dot product: 6-bit
  scale/min unpacking and the per-super-block `isum`/`imin`, for a single row
  and for a Q4_K_R4 four-row group, with the proof that both agree.
- `src/fixture.rs` — the deterministic generator streams, super-block header
  stamping, the Q4_K_R4 interleave and the fixture weights.
- `src/capi.rs`, `src/text.rs`, `src/transcript.rs`, `src/abi.rs` — the
  decisions of the C ABI: status codes, backend selection, input validation,
  error settling, NUL escaping, decimal rendering, the conversation transcript
  and the C header.
- `app/` — what stays outside: floating-point kernel tails, C++ bindings,
  float fixtures, and the `extern "C"` entry points.
