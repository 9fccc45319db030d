//! Aggregator side: the node-keyed network-graph store.

pub mod storage;
