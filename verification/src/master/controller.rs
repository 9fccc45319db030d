//! Plain facade over the node-keyed store for the master role.  Thread-safe
//! sharing, where the host needs it, wraps this facade from outside.

use vstd::prelude::*;

use crate::collector::storage::{
    has_node, index_of_node, spec_update_node_connection, spec_upsert, NodeConnectionData,
    NodeConnectionStorage, NodeData, NodeDataView,
};

verus! {

/// The master's view of the network: a node-keyed store behind read and
/// write operations.
pub struct VisualizationController {
    node_storage: NodeConnectionStorage,
}

impl VisualizationController {
    /// The stored node records.
    pub closed spec fn nodes(&self) -> Seq<NodeDataView> {
        self.node_storage@
    }

    pub closed spec fn wf(&self) -> bool {
        self.node_storage.wf()
    }

    pub fn new() -> (r: VisualizationController)
        ensures
            r.wf(),
            r.nodes() == Seq::<NodeDataView>::empty(),
    {
        VisualizationController { node_storage: NodeConnectionStorage::new() }
    }

    /// Applies a ping; see the store for the merge rule.
    pub fn upsert_node(&mut self, node_id: u32, addr: String, now_ms: u64)
        requires
            old(self).wf(),
        ensures
            final(self).wf(),
            final(self).nodes() == spec_upsert(old(self).nodes(), node_id, addr, now_ms),
    {
        self.node_storage.upsert_node(node_id, addr, now_ms);
    }

    /// Applies a connection batch; see the store for the merge rule.
    pub fn update_node_conns(&mut self, node_id: u32, conns: Vec<NodeConnectionData>)
        requires
            old(self).wf(),
        ensures
            final(self).wf(),
            final(self).nodes() == spec_update_node_connection(
                old(self).nodes(),
                node_id,
                conns@,
            ),
    {
        self.node_storage.update_node_connection(node_id, conns);
    }

    /// A copy of every node record.
    pub fn get_nodes(&self) -> (r: Vec<NodeData>)
        ensures
            r@.map_values(|n: NodeData| n@) == self.nodes(),
    {
        self.node_storage.list_node()
    }

    /// A copy of the record for `node_id`, or `None` when unknown.
    pub fn get_node(&self, node_id: u32) -> (r: Option<NodeData>)
        requires
            self.wf(),
        ensures
            match r {
                Some(n) => has_node(self.nodes(), node_id) && n@ == self.nodes()[index_of_node(
                    self.nodes(),
                    node_id,
                )],
                None => !has_node(self.nodes(), node_id),
            },
    {
        self.node_storage.get_node(node_id)
    }
}

} // verus!
