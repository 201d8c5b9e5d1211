//! A chain indexer's core, verified: the decoder from raw block data to
//! a canonical relational model, the bound tracker that derives the next
//! unindexed height range, and a store model whose per-block commits are
//! atomic and keyed uniquely. The surrounding process — RPC transport,
//! the on-disk engine, the serving of queries — stays outside and talks
//! to the library in plain values.
pub mod api;
pub mod args;
pub mod fetch;
pub mod indexer;
pub mod model;
pub mod tables;
pub mod wire;
