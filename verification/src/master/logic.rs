//! Master-side reconciliation: applies each incoming agent report to the
//! node-keyed store.

use vstd::prelude::*;

use crate::agent::msg::{ConnectionMsg, VisualizationAgentMsg};
use crate::collector::storage::{
    spec_update_node_connection, spec_upsert, NodeConnectionData, NodeData, NodeDataView,
};
use crate::master::controller::VisualizationController;

verus! {

/// A batch record as the store keeps it: same fields, the store's names.
pub open spec fn spec_conn_data_of(m: ConnectionMsg) -> NodeConnectionData {
    NodeConnectionData {
        id: m.conn_id,
        node_id: m.node_id,
        protocol: m.protocol,
        addr: m.addr,
        metric: m.metric,
        status: m.status,
        last_updated_at: m.latest_updated_at,
        direction: m.direction,
    }
}

/// The reconciler: one report in, one store mutation out.
pub struct VisualizationMasterLogic {
    controller: VisualizationController,
}

impl VisualizationMasterLogic {
    /// The stored node records.
    pub closed spec fn nodes(&self) -> Seq<NodeDataView> {
        self.controller.nodes()
    }

    pub closed spec fn wf(&self) -> bool {
        self.controller.wf()
    }

    pub fn new(controller: VisualizationController) -> (r: Self)
        requires
            controller.wf(),
        ensures
            r.wf(),
            r.nodes() == controller.nodes(),
    {
        VisualizationMasterLogic { controller }
    }

    /// Applies one agent report: a ping sights or refreshes the node, a
    /// connection batch is merged into the node it names.
    pub fn process_agent_msg(&mut self, msg: VisualizationAgentMsg)
        requires
            old(self).wf(),
        ensures
            final(self).wf(),
            match msg {
                VisualizationAgentMsg::NodePing(node_id, addr, now_ms) => final(self).nodes()
                    == spec_upsert(old(self).nodes(), node_id, addr, now_ms),
                VisualizationAgentMsg::NodeConnections(node_id, conns) => final(self).nodes()
                    == spec_update_node_connection(
                    old(self).nodes(),
                    node_id,
                    conns@.map_values(|m: ConnectionMsg| spec_conn_data_of(m)),
                ),
            },
    {
        match msg {
            VisualizationAgentMsg::NodePing(node_id, addr, now_ms) => {
                self.controller.upsert_node(node_id, addr, now_ms);
            }
            VisualizationAgentMsg::NodeConnections(node_id, conns) => {
                let ghost orig = conns@;
                let mut incoming = conns;
                let mut data: Vec<NodeConnectionData> = Vec::new();
                while incoming.len() > 0
                    invariant
                        incoming@.len() <= orig.len(),
                        incoming@ =~= orig.skip(orig.len() - incoming@.len()),
                        data@ =~= orig.take(orig.len() - incoming@.len()).map_values(
                            |m: ConnectionMsg| spec_conn_data_of(m),
                        ),
                    decreases incoming.len(),
                {
                    let ghost done: int = orig.len() - incoming@.len();
                    let conn = incoming.remove(0);
                    proof {
                        assert(conn == orig[done]);
                        assert(orig.skip(done).remove(0) =~= orig.skip(done + 1));
                        assert(orig.take(done + 1) =~= orig.take(done).push(orig[done]));
                    }
                    data.push(
                        NodeConnectionData {
                            id: conn.conn_id,
                            node_id: conn.node_id,
                            protocol: conn.protocol,
                            addr: conn.addr,
                            metric: conn.metric,
                            status: conn.status,
                            last_updated_at: conn.latest_updated_at,
                            direction: conn.direction,
                        },
                    );
                    proof {
                        assert(data@ =~= orig.take(done + 1).map_values(
                            |m: ConnectionMsg| spec_conn_data_of(m),
                        ));
                    }
                }
                proof {
                    assert(orig.take(orig.len() as int) =~= orig);
                }
                self.controller.update_node_conns(node_id, data);
            }
        }
    }

    /// A copy of every node record.
    pub fn get_nodes(&self) -> (r: Vec<NodeData>)
        ensures
            r@.map_values(|n: NodeData| n@) == self.nodes(),
    {
        self.controller.get_nodes()
    }

    /// A copy of the record for `node_id`, or `None` when unknown.
    pub fn get_node(&self, node_id: u32) -> (r: Option<NodeData>)
        requires
            self.wf(),
        ensures
            match r {
                Some(n) => crate::collector::storage::has_node(self.nodes(), node_id) && n@
                    == self.nodes()[crate::collector::storage::index_of_node(
                    self.nodes(),
                    node_id,
                )],
                None => !crate::collector::storage::has_node(self.nodes(), node_id),
            },
    {
        self.controller.get_node(node_id)
    }
}

} // verus!
