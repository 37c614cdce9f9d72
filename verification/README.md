# kamn-core

Verified protocol and data-layer contracts of the KAMN core, written in Verus.

- `src/` — the library. Every function carries a `requires`/`ensures`
  contract over mathematical models (`Seq`, `Map`, `Set`, spec functions)
  and is proved by Verus: channel permission policies and their snapshots,
  content storage (CIDs, integrity tags, the persisted store format and its
  round trip), content lifecycle, replication and retrieval, data
  classification, the cross-chain bridge gate, cross-store replay
  consistency, and the M0/M1/M10/M11 data-layer contracts (hash-chained
  ledger, merkle batches and inclusion proofs, idempotent anchoring
  bookkeeping, partition month arithmetic, the hardening readiness matrix).
  Storage adapters are specified by the `ContentStorageAdapter` trait: each
  exposes what it holds as `stored()`, and `put`/`get`/`head`/`verify` are
  stated over that map, so replication and retrieval are proved for every
  adapter that keeps the trait's contract.
- `tests/` — executable tests of the library.
- `app/` — the file-backed content store, which reads and writes the
  persisted store text that the library parses and produces.

The one outside crate, `sha2`, is reached through a single trusted wrapper
(`digest::sha256`) whose contract names the SHA-256 result.

Left out, because what they call is not part of this code base: the data-layer
crate (`kamn_data_layer`, behind the M10 partition registry, its retry and
phase-6 scheduling, and the partition status type), the bridge adapter engine
behind the bridge `process_*` entry points, the commit client behind anchoring
submission, the M1 batch-trigger scheduler, and the envelope and agent-DID
types. Their validation rules are not restated here; the logic around them
stands in `src/` and takes their results as arguments.
