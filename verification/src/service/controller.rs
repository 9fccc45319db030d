//! The two controller roles behind the monitor: an agent that only queues
//! actions for the transport, and a collector that also reconciles them into
//! its own neighbor graph.  The role is picked once, at construction, from
//! the host configuration.

use std::collections::VecDeque;

use vstd::prelude::*;

use crate::service::msg::{VisualizationControllAction, VisualziationConf};
use crate::service::store::{
    spec_add_edge, spec_remove_edge, spec_upsert, NetworkGraph, NetworkGraphEdgeData,
    NetworkNodeView,
};

verus! {

/// One action applied to a neighbor graph: a stats report sights the node, a
/// connect report adds the edge, a disconnect report removes it.
pub open spec fn spec_execute(
    g: Seq<NetworkNodeView>,
    action: VisualizationControllAction,
) -> Seq<NetworkNodeView> {
    match action {
        VisualizationControllAction::NodeStats(id, addr, ts) => spec_upsert(g, id, addr, ts),
        VisualizationControllAction::OnNodeConnected(sid, saddr, did, daddr, ts) => spec_add_edge(
            g,
            sid,
            saddr,
            did,
            daddr,
            ts,
        ),
        VisualizationControllAction::OnNodeDisconencted(sid, saddr, did, _daddr, ts) => spec_remove_edge(
            g,
            sid,
            saddr,
            did,
            ts,
        ),
    }
}

/// Agent role: every event becomes an action queued for the transport;
/// nothing is stored locally.
pub struct NodeAgent {
    node_id: u32,
    node_addr: String,
    queue_action: VecDeque<VisualizationControllAction>,
}

impl NodeAgent {
    pub closed spec fn spec_node_id(&self) -> u32 {
        self.node_id
    }

    pub closed spec fn spec_node_addr(&self) -> String {
        self.node_addr
    }

    /// Actions not yet handed to the transport, oldest first.
    pub closed spec fn queue(&self) -> Seq<VisualizationControllAction> {
        self.queue_action@
    }

    pub fn new(node_id: u32, node_addr: String) -> (r: Self)
        ensures
            r.spec_node_id() == node_id,
            r.spec_node_addr() == node_addr,
            r.queue() == Seq::<VisualizationControllAction>::empty(),
    {
        NodeAgent { node_id, node_addr, queue_action: VecDeque::new() }
    }

    /// Queues this node's own liveness report.
    pub fn report_stats(&mut self, ts: u64)
        ensures
            final(self).spec_node_id() == old(self).spec_node_id(),
            final(self).spec_node_addr() == old(self).spec_node_addr(),
            final(self).queue() == old(self).queue().push(
                VisualizationControllAction::NodeStats(
                    old(self).spec_node_id(),
                    old(self).spec_node_addr(),
                    ts,
                ),
            ),
    {
        let action = VisualizationControllAction::NodeStats(
            self.node_id,
            self.node_addr.clone(),
            ts,
        );
        self.queue_action.push_back(action);
    }

    /// Queues a connect report.
    pub fn on_node_connected(
        &mut self,
        src_id: u32,
        src_addr: String,
        dest_id: u32,
        dest_addr: String,
        now: u64,
    )
        ensures
            final(self).spec_node_id() == old(self).spec_node_id(),
            final(self).spec_node_addr() == old(self).spec_node_addr(),
            final(self).queue() == old(self).queue().push(
                VisualizationControllAction::OnNodeConnected(
                    src_id,
                    src_addr,
                    dest_id,
                    dest_addr,
                    now,
                ),
            ),
    {
        let action = VisualizationControllAction::OnNodeConnected(
            src_id,
            src_addr,
            dest_id,
            dest_addr,
            now,
        );
        self.queue_action.push_back(action);
    }

    /// Queues a disconnect report.
    pub fn on_node_disconnected(
        &mut self,
        src_id: u32,
        src_addr: String,
        dest_id: u32,
        dest_addr: String,
        now: u64,
    )
        ensures
            final(self).spec_node_id() == old(self).spec_node_id(),
            final(self).spec_node_addr() == old(self).spec_node_addr(),
            final(self).queue() == old(self).queue().push(
                VisualizationControllAction::OnNodeDisconencted(
                    src_id,
                    src_addr,
                    dest_id,
                    dest_addr,
                    now,
                ),
            ),
    {
        let action = VisualizationControllAction::OnNodeDisconencted(
            src_id,
            src_addr,
            dest_id,
            dest_addr,
            now,
        );
        self.queue_action.push_back(action);
    }

    /// Hands out the oldest queued action, if any.
    pub fn pop_action(&mut self) -> (r: Option<VisualizationControllAction>)
        ensures
            final(self).spec_node_id() == old(self).spec_node_id(),
            final(self).spec_node_addr() == old(self).spec_node_addr(),
            match r {
                Some(a) => old(self).queue().len() > 0 && a == old(self).queue()[0]
                    && final(self).queue() == old(self).queue().skip(1),
                None => old(self).queue().len() == 0 && final(self).queue() == old(self).queue(),
            },
    {
        self.queue_action.pop_front()
    }
}

/// Collector role: every action is queued for the transport, and the ones
/// that concern this node are also applied to the local neighbor graph.
pub struct NodeStatsCollector {
    node_id: u32,
    node_addr: String,
    store: NetworkGraph,
    queue_action: VecDeque<VisualizationControllAction>,
}

impl NodeStatsCollector {
    pub closed spec fn spec_node_id(&self) -> u32 {
        self.node_id
    }

    pub closed spec fn spec_node_addr(&self) -> String {
        self.node_addr
    }

    /// Actions not yet handed to the transport, oldest first.
    pub closed spec fn queue(&self) -> Seq<VisualizationControllAction> {
        self.queue_action@
    }

    /// The reconciled neighbor graph.
    pub closed spec fn graph(&self) -> Seq<NetworkNodeView> {
        self.store@
    }

    pub closed spec fn wf(&self) -> bool {
        self.store.wf()
    }

    pub fn new(node_id: u32, node_addr: String) -> (r: Self)
        ensures
            r.wf(),
            r.spec_node_id() == node_id,
            r.spec_node_addr() == node_addr,
            r.queue() == Seq::<VisualizationControllAction>::empty(),
            r.graph() == Seq::<NetworkNodeView>::empty(),
    {
        NodeStatsCollector {
            node_id,
            node_addr,
            store: NetworkGraph::new(),
            queue_action: VecDeque::new(),
        }
    }

    /// Applies one action to the local graph; the queue is untouched.
    pub fn execute_action(&mut self, action: VisualizationControllAction)
        requires
            old(self).wf(),
        ensures
            final(self).wf(),
            final(self).spec_node_id() == old(self).spec_node_id(),
            final(self).spec_node_addr() == old(self).spec_node_addr(),
            final(self).queue() == old(self).queue(),
            final(self).graph() == spec_execute(old(self).graph(), action),
    {
        match action {
            VisualizationControllAction::NodeStats(node_id, node_addr, ts) => {
                self.store.upsert_node(node_id, node_addr, ts);
            }
            VisualizationControllAction::OnNodeConnected(
                src_node_id,
                src_node_addr,
                dest_node_id,
                dest_node_addr,
                ts,
            ) => {
                let node_edge_data = NetworkGraphEdgeData::new(
                    src_node_id,
                    src_node_addr,
                    dest_node_id,
                    dest_node_addr,
                    ts,
                );
                self.store.add_edge(node_edge_data);
            }
            VisualizationControllAction::OnNodeDisconencted(
                src_node_id,
                src_node_addr,
                dest_node_id,
                dest_node_addr,
                ts,
            ) => {
                let node_edge_data = NetworkGraphEdgeData::new(
                    src_node_id,
                    src_node_addr,
                    dest_node_id,
                    dest_node_addr,
                    ts,
                );
                self.store.remove_edge(node_edge_data);
            }
        }
    }

    /// One tick: this node's own liveness report is applied locally and
    /// queued for the transport.
    pub fn report_stats(&mut self, ts: u64)
        requires
            old(self).wf(),
        ensures
            final(self).wf(),
            final(self).spec_node_id() == old(self).spec_node_id(),
            final(self).spec_node_addr() == old(self).spec_node_addr(),
            ({
                let action = VisualizationControllAction::NodeStats(
                    old(self).spec_node_id(),
                    old(self).spec_node_addr(),
                    ts,
                );
                final(self).queue() == old(self).queue().push(action) && final(self).graph()
                    == spec_execute(old(self).graph(), action)
            }),
    {
        let action = VisualizationControllAction::NodeStats(
            self.node_id,
            self.node_addr.clone(),
            ts,
        );
        self.execute_action(action.clone());
        self.queue_action.push_back(action);
    }

    /// A connect report: queued always, applied locally only when one
    /// endpoint is this node.
    pub fn on_node_connected(
        &mut self,
        src_id: u32,
        src_addr: String,
        dest_id: u32,
        dest_addr: String,
        now: u64,
    )
        requires
            old(self).wf(),
        ensures
            final(self).wf(),
            final(self).spec_node_id() == old(self).spec_node_id(),
            final(self).spec_node_addr() == old(self).spec_node_addr(),
            ({
                let action = VisualizationControllAction::OnNodeConnected(
                    src_id,
                    src_addr,
                    dest_id,
                    dest_addr,
                    now,
                );
                final(self).queue() == old(self).queue().push(action) && final(self).graph() == (
                if src_id == old(self).spec_node_id() || dest_id == old(self).spec_node_id() {
                    spec_execute(old(self).graph(), action)
                } else {
                    old(self).graph()
                })
            }),
    {
        let action = VisualizationControllAction::OnNodeConnected(
            src_id,
            src_addr,
            dest_id,
            dest_addr,
            now,
        );
        if Self::action_concerns(&action, self.node_id) {
            self.execute_action(action.clone());
        }
        self.queue_action.push_back(action);
    }

    /// A disconnect report: queued always, applied locally only when one
    /// endpoint is this node.
    pub fn on_node_disconnected(
        &mut self,
        src_id: u32,
        src_addr: String,
        dest_id: u32,
        dest_addr: String,
        now: u64,
    )
        requires
            old(self).wf(),
        ensures
            final(self).wf(),
            final(self).spec_node_id() == old(self).spec_node_id(),
            final(self).spec_node_addr() == old(self).spec_node_addr(),
            ({
                let action = VisualizationControllAction::OnNodeDisconencted(
                    src_id,
                    src_addr,
                    dest_id,
                    dest_addr,
                    now,
                );
                final(self).queue() == old(self).queue().push(action) && final(self).graph() == (
                if src_id == old(self).spec_node_id() || dest_id == old(self).spec_node_id() {
                    spec_execute(old(self).graph(), action)
                } else {
                    old(self).graph()
                })
            }),
    {
        let action = VisualizationControllAction::OnNodeDisconencted(
            src_id,
            src_addr,
            dest_id,
            dest_addr,
            now,
        );
        if Self::action_concerns(&action, self.node_id) {
            self.execute_action(action.clone());
        }
        self.queue_action.push_back(action);
    }

    /// Whether one endpoint of the action is `node_id`.
    fn action_concerns(action: &VisualizationControllAction, node_id: u32) -> (r: bool)
        ensures
            r == match *action {
                VisualizationControllAction::NodeStats(id, _, _) => id == node_id,
                VisualizationControllAction::OnNodeConnected(sid, _, did, _, _) => sid == node_id
                    || did == node_id,
                VisualizationControllAction::OnNodeDisconencted(sid, _, did, _, _) => sid
                    == node_id || did == node_id,
            },
    {
        match action {
            VisualizationControllAction::NodeStats(id, _, _) => *id == node_id,
            VisualizationControllAction::OnNodeConnected(sid, _, did, _, _) => *sid == node_id
                || *did == node_id,
            VisualizationControllAction::OnNodeDisconencted(sid, _, did, _, _) => *sid == node_id
                || *did == node_id,
        }
    }

    /// Hands out the oldest queued action, if any.
    pub fn pop_action(&mut self) -> (r: Option<VisualizationControllAction>)
        requires
            old(self).wf(),
        ensures
            final(self).wf(),
            final(self).spec_node_id() == old(self).spec_node_id(),
            final(self).spec_node_addr() == old(self).spec_node_addr(),
            final(self).graph() == old(self).graph(),
            match r {
                Some(a) => old(self).queue().len() > 0 && a == old(self).queue()[0]
                    && final(self).queue() == old(self).queue().skip(1),
                None => old(self).queue().len() == 0 && final(self).queue() == old(self).queue(),
            },
    {
        self.queue_action.pop_front()
    }

    /// A snapshot of the graph: id, address, last ping and neighbors of
    /// each node.
    pub fn graph_nodes(&self) -> (r: Vec<(u32, String, u64, Vec<u32>)>)
        ensures
            r@.len() == self.graph().len(),
            forall|k: int|
                0 <= k < self.graph().len() ==> {
                    &&& (#[trigger] r@[k]).0 == self.graph()[k].node_id
                    &&& r@[k].1 == self.graph()[k].node_addr
                    &&& r@[k].2 == self.graph()[k].latest_ping
                    &&& r@[k].3@ == self.graph()[k].neighbors
                },
    {
        self.store.list_nodes()
    }
}

/// The controller behind the monitor, one of the two roles.
pub enum VisualizationControllerRole {
    Agent(NodeAgent),
    Collector(NodeStatsCollector),
}

impl VisualizationControllerRole {
    /// Whether this controller reconciles reports into a local graph.
    pub open spec fn is_master(&self) -> bool {
        self is Collector
    }

    pub open spec fn spec_node_id(&self) -> u32 {
        match self {
            VisualizationControllerRole::Agent(a) => a.spec_node_id(),
            VisualizationControllerRole::Collector(c) => c.spec_node_id(),
        }
    }

    pub open spec fn spec_node_addr(&self) -> String {
        match self {
            VisualizationControllerRole::Agent(a) => a.spec_node_addr(),
            VisualizationControllerRole::Collector(c) => c.spec_node_addr(),
        }
    }

    /// Actions not yet handed to the transport, oldest first.
    pub open spec fn queue(&self) -> Seq<VisualizationControllAction> {
        match self {
            VisualizationControllerRole::Agent(a) => a.queue(),
            VisualizationControllerRole::Collector(c) => c.queue(),
        }
    }

    /// The reconciled graph; an agent keeps none.
    pub open spec fn graph(&self) -> Seq<NetworkNodeView> {
        match self {
            VisualizationControllerRole::Agent(_) => Seq::empty(),
            VisualizationControllerRole::Collector(c) => c.graph(),
        }
    }

    pub open spec fn wf(&self) -> bool {
        match self {
            VisualizationControllerRole::Agent(_) => true,
            VisualizationControllerRole::Collector(c) => c.wf(),
        }
    }

    /// One tick: this node's own liveness report is queued, and a collector
    /// also applies it locally.
    pub fn report_stats(&mut self, ts: u64)
        requires
            old(self).wf(),
        ensures
            final(self).wf(),
            final(self).is_master() == old(self).is_master(),
            final(self).spec_node_id() == old(self).spec_node_id(),
            final(self).spec_node_addr() == old(self).spec_node_addr(),
            ({
                let action = VisualizationControllAction::NodeStats(
                    old(self).spec_node_id(),
                    old(self).spec_node_addr(),
                    ts,
                );
                final(self).queue() == old(self).queue().push(action) && final(self).graph() == (
                if old(self).is_master() {
                    spec_execute(old(self).graph(), action)
                } else {
                    old(self).graph()
                })
            }),
    {
        match self {
            VisualizationControllerRole::Agent(a) => a.report_stats(ts),
            VisualizationControllerRole::Collector(c) => c.report_stats(ts),
        }
    }

    /// A connect report: queued always; a collector applies it locally when
    /// one endpoint is itself.
    pub fn on_node_connected(
        &mut self,
        src_id: u32,
        src_addr: String,
        dest_id: u32,
        dest_addr: String,
        now: u64,
    )
        requires
            old(self).wf(),
        ensures
            final(self).wf(),
            final(self).is_master() == old(self).is_master(),
            final(self).spec_node_id() == old(self).spec_node_id(),
            final(self).spec_node_addr() == old(self).spec_node_addr(),
            ({
                let action = VisualizationControllAction::OnNodeConnected(
                    src_id,
                    src_addr,
                    dest_id,
                    dest_addr,
                    now,
                );
                final(self).queue() == old(self).queue().push(action) && final(self).graph() == (
                if old(self).is_master() && (src_id == old(self).spec_node_id() || dest_id == old(
                    self,
                ).spec_node_id()) {
                    spec_execute(old(self).graph(), action)
                } else {
                    old(self).graph()
                })
            }),
    {
        match self {
            VisualizationControllerRole::Agent(a) => a.on_node_connected(
                src_id,
                src_addr,
                dest_id,
                dest_addr,
                now,
            ),
            VisualizationControllerRole::Collector(c) => c.on_node_connected(
                src_id,
                src_addr,
                dest_id,
                dest_addr,
                now,
            ),
        }
    }

    /// A disconnect report: queued always; a collector applies it locally
    /// when one endpoint is itself.
    pub fn on_node_disconnected(
        &mut self,
        src_id: u32,
        src_addr: String,
        dest_id: u32,
        dest_addr: String,
        now: u64,
    )
        requires
            old(self).wf(),
        ensures
            final(self).wf(),
            final(self).is_master() == old(self).is_master(),
            final(self).spec_node_id() == old(self).spec_node_id(),
            final(self).spec_node_addr() == old(self).spec_node_addr(),
            ({
                let action = VisualizationControllAction::OnNodeDisconencted(
                    src_id,
                    src_addr,
                    dest_id,
                    dest_addr,
                    now,
                );
                final(self).queue() == old(self).queue().push(action) && final(self).graph() == (
                if old(self).is_master() && (src_id == old(self).spec_node_id() || dest_id == old(
                    self,
                ).spec_node_id()) {
                    spec_execute(old(self).graph(), action)
                } else {
                    old(self).graph()
                })
            }),
    {
        match self {
            VisualizationControllerRole::Agent(a) => a.on_node_disconnected(
                src_id,
                src_addr,
                dest_id,
                dest_addr,
                now,
            ),
            VisualizationControllerRole::Collector(c) => c.on_node_disconnected(
                src_id,
                src_addr,
                dest_id,
                dest_addr,
                now,
            ),
        }
    }

    /// Applies one action locally: a collector mutates its graph, an agent
    /// has nothing to apply.
    pub fn execute_action(&mut self, action: VisualizationControllAction)
        requires
            old(self).wf(),
        ensures
            final(self).wf(),
            final(self).is_master() == old(self).is_master(),
            final(self).spec_node_id() == old(self).spec_node_id(),
            final(self).spec_node_addr() == old(self).spec_node_addr(),
            final(self).queue() == old(self).queue(),
            final(self).graph() == if old(self).is_master() {
                spec_execute(old(self).graph(), action)
            } else {
                old(self).graph()
            },
    {
        match self {
            VisualizationControllerRole::Agent(_) => {}
            VisualizationControllerRole::Collector(c) => c.execute_action(action),
        }
    }

    /// Hands out the oldest queued action, if any.
    pub fn pop_action(&mut self) -> (r: Option<VisualizationControllAction>)
        requires
            old(self).wf(),
        ensures
            final(self).wf(),
            final(self).is_master() == old(self).is_master(),
            final(self).spec_node_id() == old(self).spec_node_id(),
            final(self).spec_node_addr() == old(self).spec_node_addr(),
            final(self).graph() == old(self).graph(),
            match r {
                Some(a) => old(self).queue().len() > 0 && a == old(self).queue()[0]
                    && final(self).queue() == old(self).queue().skip(1),
                None => old(self).queue().len() == 0 && final(self).queue() == old(self).queue(),
            },
    {
        match self {
            VisualizationControllerRole::Agent(a) => a.pop_action(),
            VisualizationControllerRole::Collector(c) => c.pop_action(),
        }
    }

    /// A snapshot of the reconciled graph; empty for an agent.
    pub fn graph_nodes(&self) -> (r: Vec<(u32, String, u64, Vec<u32>)>)
        ensures
            r@.len() == self.graph().len(),
            forall|k: int|
                0 <= k < self.graph().len() ==> {
                    &&& (#[trigger] r@[k]).0 == self.graph()[k].node_id
                    &&& r@[k].1 == self.graph()[k].node_addr
                    &&& r@[k].2 == self.graph()[k].latest_ping
                    &&& r@[k].3@ == self.graph()[k].neighbors
                },
    {
        match self {
            VisualizationControllerRole::Agent(_) => Vec::new(),
            VisualizationControllerRole::Collector(c) => c.graph_nodes(),
        }
    }
}

/// Builds the controller for this host: a collector when the host is the
/// aggregating master, an agent otherwise.
pub fn visualization_controller_build(conf: VisualziationConf) -> (r: VisualizationControllerRole)
    ensures
        conf.is_master ==> (r matches VisualizationControllerRole::Collector(c) && c.wf()
            && c.spec_node_id() == conf.node_id && c.spec_node_addr() == conf.node_addr
            && c.queue().len() == 0 && c.graph().len() == 0),
        !conf.is_master ==> (r matches VisualizationControllerRole::Agent(a) && a.spec_node_id()
            == conf.node_id && a.spec_node_addr() == conf.node_addr && a.queue().len() == 0),
{
    if conf.is_master {
        VisualizationControllerRole::Collector(NodeStatsCollector::new(conf.node_id, conf.node_addr))
    } else {
        VisualizationControllerRole::Agent(NodeAgent::new(conf.node_id, conf.node_addr))
    }
}

} // verus!
