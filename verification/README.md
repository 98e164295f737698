# veilid_iroh_blobs

The rules of a peer-to-peer blob node: how it answers a peer over a tunnel, how it asks a peer for a
blob and fetches it, how it cuts a blob into chunks, and how it keeps named collections of files in
a blob store. The rules are written and verified in Verus.

- `src/` is the library. It performs no input or output: each operation is a state machine that
  hands out actions and takes in events. `VeilidIrohBlobs` in `src/blobs.rs` starts every operation.
  `src/buffer.rs`, `src/cbor.rs` and `hash_to_text` in `src/hash.rs` hold all that is taken on trust
  of outside crates. `src/transfer_laws.rs`, `src/store_laws.rs` and `src/catalog_laws.rs` prove what
  two nodes, or an operation and a store, do together.
- `tests/` runs the library.
- `app/` performs the actions: on tunnels to peers, and on the blob store on disk.
