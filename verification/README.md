# shell_chain

Validation logic for a smart-contract chain designed around post-quantum
assumptions, written in Verus. Every executable function under `src/` is
verified against its `requires` and `ensures`, except the call into `sha2`,
whose digest is named rather than proved. Transaction admission and witness
proof checking are services this crate calls through traits, not logic it
holds.

## Layout

| Path | What it holds |
|---|---|
| `src/hashing.rs` | SHA-256 through the `sha2` crate (the one trusted call) and big-endian framing |
| `src/primitives.rs` | roots, domain separation, signing roots, validation outcomes, primitive errors |
| `src/state_key.rs`, `src/key_order.rs` | canonical state-key encoding and the total order it induces |
| `src/transactions.rs` | payloads, envelopes, payload and envelope roots |
| `src/crypto.rs`, `src/mempool.rs` | signature-dispatch boundary and admission error classification |
| `src/state.rs` | the sorted in-memory accumulator and the root-continuity applier |
| `src/execution.rs` | stateless block execution, receipts roots, planned executors |
| `src/consensus.rs` | block import stages (B0 to B5) and their error taxonomy |
| `src/network.rs` | fetch policy, announcement filtering and peer consequences |
| `src/hex.rs`, `src/fixture_vectors.rs`, `src/fixtures.rs` | test-vector shapes and their decoding |
| `src/harness.rs` | the local reference scenario: shape checks, the reference flow's steps, admission index, reference execution engine, gossip verdicts |
| `tests/` | executable tests of the library |
| `app/` | reading fixture files from disk with `serde_json`; the in-process runtime that drives the reference flow |
