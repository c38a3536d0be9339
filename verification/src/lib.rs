//! Crosslink consensus logic: the dynamic sigma controller, BFT block
//! structures and their byte encodings, the finality service's decisions and
//! roster maintenance, the trusted chain syncer's decisions, Halo2
//! acceleration gating, the `getrawmempool` details, and the choice of the
//! genesis block.
pub mod dynamic_sigma;
pub mod bytes;
pub mod fat_pointer;
pub mod chain;
pub mod tfl;
pub mod consensus_config;
pub mod halo2_accel;
pub mod rpc;
pub mod roster;
pub mod tfl_service;
pub mod chain_sync;
pub mod genesis;
