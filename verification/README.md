# SynapseFlow adapters, verified

The adapters of SynapseFlow's node: a bounded loopback transport with
deterministic fault injection, in-memory test doubles, a content-addressed
artifact cache, SQLite session state, Loom's layer-range execution and the
native llama.cpp generation loop.

- `src/` is the library, written in Verus: frame and stage-input parsing,
  transport queues and faults, cache paths and integrity checks, admission and
  session records, tokenization, Loom's layout, session and output rules, and
  the generation state machine. Every function carries its contract, and the
  `law_*` proof functions state what holds across calls.
- `app/` runs that logic against threads, the filesystem, SQLite, candle's
  `f32` tensors and the llama.cpp runtime.
- `tests/` exercises the library on concrete values.

Signed-manifest resolution is not part of this crate: checking a manifest's
signature against a trust store belongs to the domain crate, which is not
included. `ProvisionedManifestRegistry` therefore holds the provisioned
documents by reference and hands out the document for a reference; it keeps no
trust store and offers no `resolve`.

For the same reason the request checks of the domain crate (a shard request
against its model, an output against its request) are not part of the crate:
`InMemoryShardExecutionBackend` records each request and answers with its
configured output without them, and the Loom backend's own checks are those of
`plan_stage`, `stage_input` and `encode_output`.
