//! Report messages sent from an agent to the aggregator.

use vstd::prelude::*;

use crate::identity::{ConnectionMetric, ConnectionStatus};

verus! {

/// Cap on how many connection records one report message may carry, so the
/// transport's message size stays bounded.
pub const MAX_CONN_STATS_SEND: usize = 10;

/// One connection record as it travels inside a report message.
#[derive(Debug, PartialEq, Eq)]
pub struct ConnectionMsg {
    pub conn_id: u64,
    pub protocol: u8,
    pub addr: String,
    pub node_id: u32,
    pub direction: u8,
    pub status: ConnectionStatus,
    pub metric: ConnectionMetric,
    pub latest_updated_at: u64,
}

impl Clone for ConnectionMsg {
    fn clone(&self) -> (r: Self)
        ensures
            r == *self,
    {
        ConnectionMsg {
            conn_id: self.conn_id,
            protocol: self.protocol,
            addr: self.addr.clone(),
            node_id: self.node_id,
            direction: self.direction,
            status: self.status,
            metric: self.metric,
            latest_updated_at: self.latest_updated_at,
        }
    }
}

/// A report delivered to the aggregator: either a liveness ping or one batch
/// of connection records.
#[derive(Debug, PartialEq, Eq)]
pub enum VisualizationAgentMsg {
    /// Liveness signal: node id, its address and the current timestamp.
    NodePing(u32, String, u64),
    /// One batch of connection records, at most [`MAX_CONN_STATS_SEND`] long.
    NodeConnections(u32, Vec<ConnectionMsg>),
}

impl VisualizationAgentMsg {
    /// Two messages carry the same report: same variant, same fields, and for
    /// a batch the same records in the same order.
    pub open spec fn reports_same(self, other: Self) -> bool {
        match (self, other) {
            (
                VisualizationAgentMsg::NodePing(id, addr, ts),
                VisualizationAgentMsg::NodePing(oid, oaddr, ots),
            ) => oid == id && oaddr == addr && ots == ts,
            (
                VisualizationAgentMsg::NodeConnections(id, conns),
                VisualizationAgentMsg::NodeConnections(oid, oconns),
            ) => oid == id && oconns@ == conns@,
            _ => false,
        }
    }
}

impl Clone for VisualizationAgentMsg {
    fn clone(&self) -> (r: Self)
        ensures
            self.reports_same(r),
    {
        match self {
            VisualizationAgentMsg::NodePing(id, addr, ts) => {
                VisualizationAgentMsg::NodePing(*id, addr.clone(), *ts)
            }
            VisualizationAgentMsg::NodeConnections(id, conns) => {
                let mut copied: Vec<ConnectionMsg> = Vec::new();
                let mut i: usize = 0;
                while i < conns.len()
                    invariant
                        i <= conns.len(),
                        copied@ =~= conns@.take(i as int),
                    decreases conns.len() - i,
                {
                    copied.push(conns[i].clone());
                    proof {
                        assert(conns@.take(i + 1) =~= conns@.take(i as int).push(conns@[i as int]));
                    }
                    i += 1;
                }
                proof {
                    assert(conns@.take(conns@.len() as int) =~= conns@);
                }
                VisualizationAgentMsg::NodeConnections(*id, copied)
            }
        }
    }
}

} // verus!
