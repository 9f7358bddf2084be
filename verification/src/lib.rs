//! Authenticated state storage for a modular blockchain execution framework.
//!
//! Application logic reads and writes key/value state through a per-execution
//! working set, which buffers accesses in a cache log with
//! first-read/last-write semantics. Freezing the working set yields the cache
//! log together with an ordered witness of hints; the Merkle-authenticated
//! prover storage validates the recorded reads against a versioned Jellyfish
//! Merkle tree, applies the writes, and returns the new root, while the
//! witness-driven replay storage reaches the identical result from the hints
//! alone.

pub mod codec;
pub mod witness;
pub mod cache;
pub mod storage;
pub mod db;
pub mod prover;
pub mod zk;
pub mod working_set;
pub mod value;
pub mod map;
pub mod mocks;
pub mod hooks;
pub mod laws;
