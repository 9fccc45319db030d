//! Topology-monitoring core for a peer-to-peer overlay network.
//!
//! Agent nodes track the status and metrics of their local links in a
//! [`agent::storage::ConnectionStorage`], and on every tick a report builder
//! turns that snapshot into a liveness ping plus size-bounded batches of
//! connection records.  An aggregator ("master") merges those reports into an
//! in-memory network graph, keyed either by node id
//! ([`collector::storage::NodeConnectionStorage`]) or by transport address
//! ([`master::transport::NodeConnectionStorage`]), from which read-only
//! snapshots are served.

use vstd::prelude::*;

pub mod agent;
pub mod api;
pub mod collector;
pub mod conn;
pub mod identity;
pub mod master;
pub mod service;
pub mod util;

pub use agent::msg::{ConnectionMsg, VisualizationAgentMsg, MAX_CONN_STATS_SEND};
pub use agent::storage::{ConnectionModifyData, ConnectionNode, ConnectionStorage};
pub use collector::storage::NodeData;
pub use conn::{generate_connection_id, get_direction, get_node_id, get_protocol};
pub use identity::{ConnectionDirection, ConnectionMetric, ConnectionStatus, CONNECTION_TIMEOUT_MS};
pub use util::calc_hash;

verus! {

/// Service id of the aggregating master role.
pub const VISUALIZATION_MASTER_SERVICE: u8 = 8;

/// Service id of the reporting agent role.
pub const VISUALIZATION_AGENT_SERVICE: u8 = 9;

} // verus!
