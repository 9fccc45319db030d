//! Agent-side report builder.
//!
//! On every tick the logic emits exactly one liveness ping and partitions the
//! metric-bearing connection records into consecutive batches of at most
//! [`MAX_CONN_STATS_SEND`] records; connections with no metric sample yet are
//! left out of every batch.

use std::collections::VecDeque;

use vstd::prelude::*;

use crate::agent::msg::{ConnectionMsg, VisualizationAgentMsg, MAX_CONN_STATS_SEND};
use crate::agent::storage::{
    has_uuid, index_of_uuid, spec_fresh_connection, spec_modified, spec_reconnected,
    ConnectionModifyData, ConnectionNode, ConnectionStorage,
};
use crate::conn::spec_connection_id;
use crate::identity::{ConnectionDirection, ConnectionMetric, ConnectionStatus};

verus! {

/// The record `c` as it travels in a batch; meaningful when `c` carries a
/// metric.
pub open spec fn spec_conn_msg(c: ConnectionNode) -> ConnectionMsg {
    ConnectionMsg {
        conn_id: c.uuid,
        protocol: c.protocol,
        addr: c.addr,
        node_id: c.node_id,
        direction: c.direction,
        status: c.status,
        metric: c.metric->0,
        latest_updated_at: c.latest_updated_at,
    }
}

/// The records of `conns` that carry a metric, in order, as batch entries.
pub open spec fn spec_eligible_msgs(conns: Seq<ConnectionNode>) -> Seq<ConnectionMsg>
    decreases conns.len(),
{
    if conns.len() == 0 {
        Seq::empty()
    } else {
        let rest = spec_eligible_msgs(conns.drop_last());
        if conns.last().metric is Some {
            rest.push(spec_conn_msg(conns.last()))
        } else {
            rest
        }
    }
}

/// The records one report message carries: its batch, or nothing for a ping.
pub open spec fn spec_batch_of(m: VisualizationAgentMsg) -> Seq<ConnectionMsg> {
    match m {
        VisualizationAgentMsg::NodeConnections(_, conns) => conns@,
        VisualizationAgentMsg::NodePing(_, _, _) => Seq::empty(),
    }
}

/// All records carried by a sequence of report messages, in order.
pub open spec fn spec_batches_flat(msgs: Seq<VisualizationAgentMsg>) -> Seq<ConnectionMsg>
    decreases msgs.len(),
{
    if msgs.len() == 0 {
        Seq::empty()
    } else {
        spec_batches_flat(msgs.drop_last()) + spec_batch_of(msgs.last())
    }
}

/// `m` is a batch message reporting for node `id`.
pub open spec fn spec_is_batch_for(m: VisualizationAgentMsg, id: u32) -> bool {
    m is NodeConnections && m->NodeConnections_0 == id
}

/// The batch messages `r` are a partition of the metric-bearing records of
/// `conns` for node `id`: concatenated they give exactly those records, each
/// batch stays within the size cap, and only the trailing batch may be
/// short.
pub open spec fn spec_batches_complete(
    r: Seq<VisualizationAgentMsg>,
    id: u32,
    conns: Seq<ConnectionNode>,
) -> bool {
    &&& spec_batches_flat(r) == spec_eligible_msgs(conns)
    &&& forall|k: int|
        0 <= k < r.len() ==> spec_is_batch_for(#[trigger] r[k], id) && 0 < spec_batch_of(
            r[k],
        ).len() <= MAX_CONN_STATS_SEND
    &&& forall|k: int|
        0 <= k < r.len() - 1 ==> spec_batch_of(#[trigger] r[k]).len() == MAX_CONN_STATS_SEND
}

/// Builds the batch messages for one tick out of a snapshot of the store.
pub fn build_conns_stats_msg(id: u32, conns: Vec<ConnectionNode>) -> (r: Vec<
    VisualizationAgentMsg,
>)
    ensures
        spec_batches_complete(r@, id, conns@),
{
    let mut ret: Vec<VisualizationAgentMsg> = Vec::new();
    let mut batch: Vec<ConnectionMsg> = Vec::new();
    let mut i: usize = 0;
    while i < conns.len()
        invariant
            i <= conns.len(),
            batch@.len() < MAX_CONN_STATS_SEND,
            spec_batches_flat(ret@) + batch@ =~= spec_eligible_msgs(conns@.take(i as int)),
            forall|k: int|
                0 <= k < ret@.len() ==> spec_is_batch_for(#[trigger] ret@[k], id) && spec_batch_of(
                    ret@[k],
                ).len() == MAX_CONN_STATS_SEND,
        decreases conns.len() - i,
    {
        let c = &conns[i];
        match &c.metric {
            Some(m) => {
                batch.push(
                    ConnectionMsg {
                        conn_id: c.uuid,
                        protocol: c.protocol,
                        addr: c.addr.clone(),
                        node_id: c.node_id,
                        direction: c.direction,
                        status: c.status,
                        metric: *m,
                        latest_updated_at: c.latest_updated_at,
                    },
                );
                if batch.len() >= MAX_CONN_STATS_SEND {
                    let full = batch;
                    batch = Vec::new();
                    proof {
                        let msg = VisualizationAgentMsg::NodeConnections(id, full);
                        assert(ret@.push(msg).drop_last() =~= ret@);
                    }
                    ret.push(VisualizationAgentMsg::NodeConnections(id, full));
                }
            }
            None => {}
        }
        proof {
            assert(conns@.take(i + 1).drop_last() =~= conns@.take(i as int));
            assert(conns@.take(i + 1).last() == conns@[i as int]);
        }
        i += 1;
    }
    proof {
        assert(conns@.take(conns@.len() as int) =~= conns@);
    }
    if batch.len() > 0 {
        proof {
            let msg = VisualizationAgentMsg::NodeConnections(id, batch);
            assert(ret@.push(msg).drop_last() =~= ret@);
        }
        ret.push(VisualizationAgentMsg::NodeConnections(id, batch));
    }
    ret
}

/// Agent-side logic: owns the metric store and a queue of outbound reports.
pub struct VisualizationAgentLogic {
    node_id: u32,
    node_addr: String,
    msg_queue: VecDeque<VisualizationAgentMsg>,
    storage: ConnectionStorage,
}

impl VisualizationAgentLogic {
    /// The id this agent reports under.
    pub closed spec fn spec_node_id(&self) -> u32 {
        self.node_id
    }

    /// The address this agent reports under.
    pub closed spec fn spec_node_addr(&self) -> String {
        self.node_addr
    }

    /// Reports not yet handed to the transport, oldest first.
    pub closed spec fn queue(&self) -> Seq<VisualizationAgentMsg> {
        self.msg_queue@
    }

    /// The tracked connection records.
    pub closed spec fn conns(&self) -> Seq<ConnectionNode> {
        self.storage@
    }

    pub closed spec fn wf(&self) -> bool {
        self.storage.wf()
    }

    pub fn new(node_id: u32, node_addr: String) -> (r: Self)
        ensures
            r.wf(),
            r.spec_node_id() == node_id,
            r.spec_node_addr() == node_addr,
            r.queue() == Seq::<VisualizationAgentMsg>::empty(),
            r.conns() == Seq::<ConnectionNode>::empty(),
    {
        VisualizationAgentLogic {
            node_id,
            node_addr,
            msg_queue: VecDeque::new(),
            storage: ConnectionStorage::new(),
        }
    }

    /// One tick: queue exactly one liveness ping, then the batches built from
    /// the current snapshot.  The store itself is left untouched.
    pub fn report_stats(&mut self, now_ms: u64)
        requires
            old(self).wf(),
        ensures
            final(self).wf(),
            final(self).spec_node_id() == old(self).spec_node_id(),
            final(self).spec_node_addr() == old(self).spec_node_addr(),
            final(self).conns() == old(self).conns(),
            final(self).queue().len() > old(self).queue().len(),
            final(self).queue().take(old(self).queue().len() as int) == old(self).queue(),
            final(self).queue()[old(self).queue().len() as int]
                == VisualizationAgentMsg::NodePing(
                old(self).spec_node_id(),
                old(self).spec_node_addr(),
                now_ms,
            ),
            spec_batches_complete(
                final(self).queue().skip(old(self).queue().len() as int + 1),
                old(self).spec_node_id(),
                old(self).conns(),
            ),
    {
        let ghost q0 = self.msg_queue@;
        let ping_msg = VisualizationAgentMsg::NodePing(
            self.node_id,
            self.node_addr.clone(),
            now_ms,
        );
        self.msg_queue.push_back(ping_msg);
        let snapshot = self.storage.list_conns();
        let mut stats_msgs = build_conns_stats_msg(self.node_id, snapshot);
        let ghost orig = stats_msgs@;
        while stats_msgs.len() > 0
            invariant
                stats_msgs@.len() <= orig.len(),
                stats_msgs@ =~= orig.skip(orig.len() - stats_msgs@.len()),
                self.msg_queue@ =~= q0.push(
                    VisualizationAgentMsg::NodePing(self.node_id, self.node_addr, now_ms),
                ) + orig.take(orig.len() - stats_msgs@.len()),
                self.node_id == old(self).spec_node_id(),
                self.node_addr == old(self).spec_node_addr(),
                self.storage == old(self).storage,
            decreases stats_msgs.len(),
        {
            let ghost done: int = orig.len() - stats_msgs@.len();
            let msg = stats_msgs.remove(0);
            self.msg_queue.push_back(msg);
            proof {
                assert(orig.skip(done).remove(0) =~= orig.skip(done + 1));
                assert(orig.take(done + 1) =~= orig.take(done).push(orig[done]));
            }
        }
        proof {
            assert(orig.take(orig.len() as int) =~= orig);
            assert(self.msg_queue@.skip(q0.len() as int + 1) =~= orig);
            assert(self.msg_queue@.take(q0.len() as int) =~= q0);
        }
    }

    /// Records a connect event for a link to `node_id`.
    pub fn on_node_connected(
        &mut self,
        protocol: u8,
        direction: ConnectionDirection,
        node_id: u32,
        addr: String,
        now: u64,
    )
        requires
            old(self).wf(),
        ensures
            final(self).wf(),
            final(self).spec_node_id() == old(self).spec_node_id(),
            final(self).spec_node_addr() == old(self).spec_node_addr(),
            final(self).queue() == old(self).queue(),
            ({
                let uuid = spec_connection_id(protocol, direction.as_byte(), node_id);
                if has_uuid(old(self).conns(), uuid) {
                    final(self).conns() == old(self).conns().update(
                        index_of_uuid(old(self).conns(), uuid),
                        spec_reconnected(
                            old(self).conns()[index_of_uuid(old(self).conns(), uuid)],
                            now,
                        ),
                    )
                } else {
                    final(self).conns() == old(self).conns().push(
                        spec_fresh_connection(protocol, direction.as_byte(), node_id, addr, now),
                    )
                }
            }),
    {
        self.storage.new_connection(protocol, direction, node_id, addr, now);
    }

    /// Records a disconnect event: the record's status flips down and its
    /// timestamp advances; its last metric is kept.  Unknown links are a
    /// tolerated anomaly and leave the store untouched.
    pub fn on_node_disconnected(
        &mut self,
        protocol: u8,
        direction: ConnectionDirection,
        node_id: u32,
        now: u64,
    )
        requires
            old(self).wf(),
        ensures
            final(self).wf(),
            final(self).spec_node_id() == old(self).spec_node_id(),
            final(self).spec_node_addr() == old(self).spec_node_addr(),
            final(self).queue() == old(self).queue(),
            ({
                let uuid = spec_connection_id(protocol, direction.as_byte(), node_id);
                let data = ConnectionModifyData {
                    status: Some(ConnectionStatus::DISCONNECTED),
                    metric: None,
                    latest_updated_at: now,
                };
                if has_uuid(old(self).conns(), uuid) {
                    final(self).conns() == old(self).conns().update(
                        index_of_uuid(old(self).conns(), uuid),
                        spec_modified(
                            old(self).conns()[index_of_uuid(old(self).conns(), uuid)],
                            data,
                        ),
                    )
                } else {
                    final(self).conns() == old(self).conns()
                }
            }),
    {
        let uuid = crate::conn::generate_connection_id(protocol, direction, node_id);
        self.storage.update_connection_data(
            uuid,
            ConnectionModifyData {
                status: Some(ConnectionStatus::DISCONNECTED),
                metric: None,
                latest_updated_at: now,
            },
        );
    }

    /// Records a metric sample: the metric and timestamp advance, the status
    /// stays.  Unknown links are a tolerated anomaly and leave the store
    /// untouched.
    pub fn on_connection_stats(
        &mut self,
        protocol: u8,
        direction: ConnectionDirection,
        node_id: u32,
        metric: ConnectionMetric,
        now: u64,
    )
        requires
            old(self).wf(),
        ensures
            final(self).wf(),
            final(self).spec_node_id() == old(self).spec_node_id(),
            final(self).spec_node_addr() == old(self).spec_node_addr(),
            final(self).queue() == old(self).queue(),
            ({
                let uuid = spec_connection_id(protocol, direction.as_byte(), node_id);
                let data = ConnectionModifyData {
                    status: None,
                    metric: Some(metric),
                    latest_updated_at: now,
                };
                if has_uuid(old(self).conns(), uuid) {
                    final(self).conns() == old(self).conns().update(
                        index_of_uuid(old(self).conns(), uuid),
                        spec_modified(
                            old(self).conns()[index_of_uuid(old(self).conns(), uuid)],
                            data,
                        ),
                    )
                } else {
                    final(self).conns() == old(self).conns()
                }
            }),
    {
        let uuid = crate::conn::generate_connection_id(protocol, direction, node_id);
        self.storage.update_connection_data(
            uuid,
            ConnectionModifyData { status: None, metric: Some(metric), latest_updated_at: now },
        );
    }

    /// Hands out the oldest queued report, if any.
    pub fn pop_msg(&mut self) -> (r: Option<VisualizationAgentMsg>)
        requires
            old(self).wf(),
        ensures
            final(self).wf(),
            final(self).spec_node_id() == old(self).spec_node_id(),
            final(self).spec_node_addr() == old(self).spec_node_addr(),
            final(self).conns() == old(self).conns(),
            match r {
                Some(m) => old(self).queue().len() > 0 && m == old(self).queue()[0]
                    && final(self).queue() == old(self).queue().skip(1),
                None => old(self).queue().len() == 0 && final(self).queue() == old(self).queue(),
            },
    {
        self.msg_queue.pop_front()
    }
}

} // verus!
