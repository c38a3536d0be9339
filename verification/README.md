# zebra_crosslink

Verified core of a Crosslink (trailing finality layer) node, written in Verus.

- `src/` — the library, verified by Verus:
  - `dynamic_sigma` — the dynamic confirmation-depth controller and its evidence checks;
  - `chain`, `fat_pointer`, `bytes` — BFT blocks, PoW headers, fat pointers and votes, with
    their byte layouts and round-trip proofs;
  - `tfl`, `tfl_service` — finality candidates, Tenderlink payload decoding, validation of
    BFT blocks against the PoW chain, recording decided blocks, and finality queries;
  - `roster` — reward apportioning, staking commands, and the sorted roster;
  - `chain_sync` — decisions of the trusted chain syncer;
  - `consensus_config`, `halo2_accel` — Halo2 acceleration settings and batch gating;
  - `rpc` — `getrawmempool` details and RPC middleware labels;
  - `genesis` — which genesis block a node commits at startup.
- `app/` — configuration files, error messages, display forms, key derivation, and the
  drivers that answer state lookups and carry out the library's decisions.
- `tests/` — tests of the library on concrete values.
