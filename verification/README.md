# sp_cdr_reconciliation_bc

A verified library for reconciling roaming charges between mobile operators:
call detail records and billing records are batched and priced, bilateral
obligations are netted, settlements are negotiated and executed by small
contract programs, and validators agree on blocks. Every function in `src/`
carries a Verus contract; calls into outside crates (blst, sha2, hex,
getrandom, rand, ark-groth16) stand behind a few trusted wrappers whose
contracts say what those crates document.

## Layout

- `src/primitives/`: digests, network identities, records, errors.
- `src/crypto/`: BLS keys, signatures and aggregates, multi-signatures, key
  registry.
- `src/smart_contracts/`: the contract machine, the settlement programs and
  the proof and signature checks they call.
- `src/network/`: netting, settlement negotiation, peer directory,
  consensus rounds.
- `src/cdr_pipeline.rs`, `src/bce_pipeline.rs`, `src/api/`: the record
  pipelines and the ingestion interface.
- `src/blockchain/`, `src/sp_blockchain.rs`, `src/storage/`, `src/common/`:
  blocks, chain, validator sets and storage.
- `src/clock.rs`, `src/entropy.rs`, `src/encoding.rs`: the clock, random
  bytes, and byte and text encodings.
- `src/node.rs`: the decisions of the node's command line.
- `src/collections.rs`: `VecMap`, see below.
- `tests/`: tests run against the compiled library.

## Maps

The library's maps are keyed by strings, network identities, digests and
pairs of these. vstd specifies `std::collections::HashMap` through the key
type's hashing and equality, and for keys like these it gives no usable link
between the map's contents and its model: even the length after one insert
cannot be proved. So the library keeps its maps in `VecMap`: a vector of
entries with distinct keys (its type invariant), compared through each key
type's verified equality, whose view is a `Map` and whose entries come out
in insertion order. Where a result lists a map's entries, it lists them in
that order.
