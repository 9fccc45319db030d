//! Node-keyed network-graph store of the aggregator.
//!
//! One record per reporting node, created lazily on its first ping and never
//! deleted; staleness shows in `last_ping_ts`, not in removal.  Connection
//! detail is merged per connection id: identity fields are immutable, only
//! metric, status and timestamp are overwritten, and an empty incoming batch
//! leaves the stored detail as it is.

use vstd::prelude::*;

use crate::identity::{ConnectionMetric, ConnectionStatus};

verus! {

/// One connection record as the aggregator stores it.
#[derive(Debug, PartialEq, Eq)]
pub struct NodeConnectionData {
    /// Packed connection id; the merge key.
    pub id: u64,
    /// Remote node of the link.
    pub node_id: u32,
    pub protocol: u8,
    /// Remote address of the link.
    pub addr: String,
    pub metric: ConnectionMetric,
    pub status: ConnectionStatus,
    pub last_updated_at: u64,
    pub direction: u8,
}

impl Clone for NodeConnectionData {
    fn clone(&self) -> (r: Self)
        ensures
            r == *self,
    {
        NodeConnectionData {
            id: self.id,
            node_id: self.node_id,
            protocol: self.protocol,
            addr: self.addr.clone(),
            metric: self.metric,
            status: self.status,
            last_updated_at: self.last_updated_at,
            direction: self.direction,
        }
    }
}

/// One node of the graph: its address, last liveness timestamp and the
/// connection detail it reported.
#[derive(Debug, PartialEq, Eq)]
pub struct NodeData {
    pub id: u32,
    pub addr: String,
    pub last_ping_ts: u64,
    pub conns: Vec<NodeConnectionData>,
}

/// What a [`NodeData`] holds, with the connection list as a sequence.
#[verifier::ext_equal]
pub struct NodeDataView {
    pub id: u32,
    pub addr: String,
    pub last_ping_ts: u64,
    pub conns: Seq<NodeConnectionData>,
}

impl View for NodeData {
    type V = NodeDataView;

    open spec fn view(&self) -> NodeDataView {
        NodeDataView {
            id: self.id,
            addr: self.addr,
            last_ping_ts: self.last_ping_ts,
            conns: self.conns@,
        }
    }
}

impl Clone for NodeData {
    fn clone(&self) -> (r: Self)
        ensures
            r@ == self@,
    {
        let mut conns: Vec<NodeConnectionData> = Vec::new();
        let mut i: usize = 0;
        while i < self.conns.len()
            invariant
                i <= self.conns.len(),
                conns@ =~= self.conns@.take(i as int),
            decreases self.conns.len() - i,
        {
            conns.push(self.conns[i].clone());
            proof {
                assert(self.conns@.take(i + 1) =~= self.conns@.take(i as int).push(
                    self.conns@[i as int],
                ));
            }
            i += 1;
        }
        proof {
            assert(self.conns@.take(self.conns@.len() as int) =~= self.conns@);
        }
        NodeData { id: self.id, addr: self.addr.clone(), last_ping_ts: self.last_ping_ts, conns }
    }
}

impl NodeData {
    /// A fresh node record: no connection detail yet.
    pub fn new(node_id: u32, addr: String, last_ping_ts: u64) -> (r: NodeData)
        ensures
            r@ == (NodeDataView {
                id: node_id,
                addr,
                last_ping_ts,
                conns: Seq::<NodeConnectionData>::empty(),
            }),
    {
        let r = NodeData { id: node_id, addr, last_ping_ts, conns: Vec::new() };
        proof {
            assert(r@ =~= NodeDataView {
                id: node_id,
                addr: r.addr,
                last_ping_ts,
                conns: Seq::<NodeConnectionData>::empty(),
            });
        }
        r
    }
}

/// Whether some node record in `s` has the id `node_id`.
pub open spec fn has_node(s: Seq<NodeDataView>, node_id: u32) -> bool {
    exists|i: int| 0 <= i < s.len() && (#[trigger] s[i]).id == node_id
}

/// The index of the record with id `node_id`; meaningful when the ids of `s`
/// are distinct and `has_node(s, node_id)` holds.
pub open spec fn index_of_node(s: Seq<NodeDataView>, node_id: u32) -> int {
    choose|i: int| 0 <= i < s.len() && (#[trigger] s[i]).id == node_id
}

/// No two node records of `s` share an id.
pub open spec fn node_ids_unique(s: Seq<NodeDataView>) -> bool {
    forall|i: int, j: int| 0 <= i < j < s.len() ==> (#[trigger] s[i]).id != (#[trigger] s[j]).id
}

/// With distinct ids, any index holding `node_id` is the one `index_of_node`
/// picks.
pub proof fn lemma_index_of_node(s: Seq<NodeDataView>, node_id: u32, i: int)
    requires
        node_ids_unique(s),
        0 <= i < s.len(),
        s[i].id == node_id,
    ensures
        has_node(s, node_id),
        index_of_node(s, node_id) == i,
{
    assert(has_node(s, node_id));
    let j = index_of_node(s, node_id);
    if i < j {
        assert(s[i].id != s[j].id);
    } else if j < i {
        assert(s[j].id != s[i].id);
    }
}

/// Whether some connection record in `s` has the id `id`.
pub open spec fn has_conn(s: Seq<NodeConnectionData>, id: u64) -> bool {
    exists|i: int| 0 <= i < s.len() && (#[trigger] s[i]).id == id
}

/// The index of the connection record with id `id`; meaningful when the ids
/// of `s` are distinct and `has_conn(s, id)` holds.
pub open spec fn index_of_conn(s: Seq<NodeConnectionData>, id: u64) -> int {
    choose|i: int| 0 <= i < s.len() && (#[trigger] s[i]).id == id
}

/// No two connection records of `s` share an id.
pub open spec fn conn_ids_unique(s: Seq<NodeConnectionData>) -> bool {
    forall|i: int, j: int| 0 <= i < j < s.len() ==> (#[trigger] s[i]).id != (#[trigger] s[j]).id
}

/// With distinct ids, any index holding `id` is the one `index_of_conn`
/// picks.
pub proof fn lemma_index_of_conn(s: Seq<NodeConnectionData>, id: u64, i: int)
    requires
        conn_ids_unique(s),
        0 <= i < s.len(),
        s[i].id == id,
    ensures
        has_conn(s, id),
        index_of_conn(s, id) == i,
{
    assert(has_conn(s, id));
    let j = index_of_conn(s, id);
    if i < j {
        assert(s[i].id != s[j].id);
    } else if j < i {
        assert(s[j].id != s[i].id);
    }
}

/// A stored connection record after an incoming record with the same id hit
/// it: metric, status and timestamp are overwritten, identity fields stay.
pub open spec fn spec_conn_overwritten(
    cur: NodeConnectionData,
    c: NodeConnectionData,
) -> NodeConnectionData {
    NodeConnectionData {
        metric: c.metric,
        status: c.status,
        last_updated_at: c.last_updated_at,
        ..cur
    }
}

/// One incoming connection record applied to a node's stored detail: an id
/// already present is overwritten in place, a new id is appended.
pub open spec fn spec_apply_conn(
    cur: Seq<NodeConnectionData>,
    c: NodeConnectionData,
) -> Seq<NodeConnectionData> {
    if has_conn(cur, c.id) {
        cur.update(index_of_conn(cur, c.id), spec_conn_overwritten(cur[index_of_conn(cur, c.id)], c))
    } else {
        cur.push(c)
    }
}

/// A whole incoming batch applied in order, first record first.
pub open spec fn spec_merge_conns(
    cur: Seq<NodeConnectionData>,
    incoming: Seq<NodeConnectionData>,
) -> Seq<NodeConnectionData>
    decreases incoming.len(),
{
    if incoming.len() == 0 {
        cur
    } else {
        spec_apply_conn(spec_merge_conns(cur, incoming.drop_last()), incoming.last())
    }
}

/// A ping applied to the store: a known node only advances its timestamp, and
/// only if the ping is strictly newer; an unknown node gets a fresh record.
pub open spec fn spec_upsert(
    s: Seq<NodeDataView>,
    node_id: u32,
    addr: String,
    ts: u64,
) -> Seq<NodeDataView> {
    if has_node(s, node_id) {
        let i = index_of_node(s, node_id);
        s.update(
            i,
            NodeDataView {
                last_ping_ts: if ts > s[i].last_ping_ts {
                    ts
                } else {
                    s[i].last_ping_ts
                },
                ..s[i]
            },
        )
    } else {
        s.push(
            NodeDataView { id: node_id, addr, last_ping_ts: ts, conns: Seq::empty() },
        )
    }
}

/// A connection batch applied to the store: merged into the detail of the
/// node it names, dropped whole if that node was never pinged.
pub open spec fn spec_update_node_connection(
    s: Seq<NodeDataView>,
    node_id: u32,
    conns: Seq<NodeConnectionData>,
) -> Seq<NodeDataView> {
    if has_node(s, node_id) {
        let i = index_of_node(s, node_id);
        s.update(i, NodeDataView { conns: spec_merge_conns(s[i].conns, conns), ..s[i] })
    } else {
        s
    }
}

/// The last liveness timestamp stored for `node_id`.
pub open spec fn spec_last_ping_of(s: Seq<NodeDataView>, node_id: u32) -> u64 {
    s[index_of_node(s, node_id)].last_ping_ts
}

/// The node-keyed store.
pub struct NodeConnectionStorage {
    nodes: Vec<NodeData>,
}

impl View for NodeConnectionStorage {
    type V = Seq<NodeDataView>;

    closed spec fn view(&self) -> Seq<NodeDataView> {
        self.nodes@.map_values(|n: NodeData| n@)
    }
}

impl NodeConnectionStorage {
    /// Node ids are distinct, and so are the connection ids within each node.
    pub open spec fn wf(&self) -> bool {
        &&& node_ids_unique(self@)
        &&& forall|i: int| 0 <= i < self@.len() ==> conn_ids_unique((#[trigger] self@[i]).conns)
    }

    pub fn new() -> (r: NodeConnectionStorage)
        ensures
            r@ == Seq::<NodeDataView>::empty(),
            r.wf(),
    {
        let r = NodeConnectionStorage { nodes: Vec::new() };
        proof {
            assert(r@ =~= Seq::<NodeDataView>::empty());
        }
        r
    }

    /// The index of the node record with id `node_id`, if one exists.
    fn find_index(&self, node_id: u32) -> (r: Option<usize>)
        ensures
            match r {
                Some(i) => i < self@.len() && self@[i as int].id == node_id,
                None => !has_node(self@, node_id),
            },
    {
        let mut i: usize = 0;
        while i < self.nodes.len()
            invariant
                i <= self.nodes.len(),
                self@ == self.nodes@.map_values(|n: NodeData| n@),
                forall|j: int| 0 <= j < i ==> (#[trigger] self.nodes@[j])@.id != node_id,
            decreases self.nodes.len() - i,
        {
            if self.nodes[i].id == node_id {
                return Some(i);
            }
            i += 1;
        }
        None
    }

    /// Applies a ping.  A stale or repeated ping never regresses the stored
    /// timestamp; a first sighting creates the node record.
    pub fn upsert_node(&mut self, node_id: u32, addr: String, last_ping_ts: u64)
        requires
            old(self).wf(),
        ensures
            final(self).wf(),
            final(self)@ == spec_upsert(old(self)@, node_id, addr, last_ping_ts),
    {
        match self.find_index(node_id) {
            Some(i) => {
                proof {
                    lemma_index_of_node(self@, node_id, i as int);
                }
                let node = &mut self.nodes[i];
                if last_ping_ts > node.last_ping_ts {
                    node.last_ping_ts = last_ping_ts;
                }
                proof {
                    assert(self@ =~= spec_upsert(old(self)@, node_id, addr, last_ping_ts));
                }
            }
            None => {
                let node = NodeData::new(node_id, addr, last_ping_ts);
                self.nodes.push(node);
                proof {
                    assert(self@ =~= spec_upsert(old(self)@, node_id, addr, last_ping_ts));
                }
            }
        }
    }

    /// The index of the connection record keyed `id` in `conns`, if any.
    fn find_conn_index(conns: &Vec<NodeConnectionData>, id: u64) -> (r: Option<usize>)
        ensures
            match r {
                Some(k) => k < conns@.len() && conns@[k as int].id == id,
                None => !has_conn(conns@, id),
            },
    {
        let mut k: usize = 0;
        while k < conns.len()
            invariant
                k <= conns.len(),
                forall|j: int| 0 <= j < k ==> (#[trigger] conns@[j]).id != id,
            decreases conns.len() - k,
        {
            if conns[k].id == id {
                return Some(k);
            }
            k += 1;
        }
        None
    }

    /// Applies one incoming connection record to the node at index `i`.
    fn apply_conn(&mut self, i: usize, c: NodeConnectionData)
        requires
            old(self).wf(),
            i < old(self)@.len(),
        ensures
            final(self).wf(),
            final(self)@.len() == old(self)@.len(),
            forall|k: int|
                0 <= k < old(self)@.len() && k != i ==> final(self)@[k] == old(self)@[k],
            final(self)@[i as int].id == old(self)@[i as int].id,
            final(self)@[i as int].addr == old(self)@[i as int].addr,
            final(self)@[i as int].last_ping_ts == old(self)@[i as int].last_ping_ts,
            final(self)@[i as int].conns =~= spec_apply_conn(old(self)@[i as int].conns, c),
    {
        let node = &mut self.nodes[i];
        let found = Self::find_conn_index(&node.conns, c.id);
        match found {
            Some(k) => {
                proof {
                    assert(conn_ids_unique(old(self)@[i as int].conns));
                    lemma_index_of_conn(node.conns@, c.id, k as int);
                }
                let slot = &mut node.conns[k];
                slot.metric = c.metric;
                slot.status = c.status;
                slot.last_updated_at = c.last_updated_at;
            }
            None => {
                node.conns.push(c);
            }
        }
        proof {
            assert(self@ =~= old(self)@.update(
                i as int,
                NodeDataView {
                    conns: spec_apply_conn(old(self)@[i as int].conns, c),
                    ..old(self)@[i as int]
                },
            ));
        }
    }

    /// Applies a connection batch for `node_id`.  An unknown node means the
    /// ordering contract was violated upstream; the whole batch is dropped
    /// rather than fabricating a node.  An empty batch changes nothing.
    pub fn update_node_connection(&mut self, node_id: u32, conns: Vec<NodeConnectionData>)
        requires
            old(self).wf(),
        ensures
            final(self).wf(),
            final(self)@ == spec_update_node_connection(old(self)@, node_id, conns@),
    {
        match self.find_index(node_id) {
            Some(i) => {
                proof {
                    lemma_index_of_node(self@, node_id, i as int);
                }
                let mut incoming = conns;
                let ghost orig = incoming@;
                let ghost conns0 = self@[i as int].conns;
                while incoming.len() > 0
                    invariant
                        self.wf(),
                        i < self@.len(),
                        self@.len() == old(self)@.len(),
                        incoming@.len() <= orig.len(),
                        incoming@ =~= orig.skip(orig.len() - incoming@.len()),
                        forall|k: int|
                            0 <= k < self@.len() && k != i ==> self@[k] == old(self)@[k],
                        self@[i as int].id == old(self)@[i as int].id,
                        self@[i as int].addr == old(self)@[i as int].addr,
                        self@[i as int].last_ping_ts == old(self)@[i as int].last_ping_ts,
                        self@[i as int].conns =~= spec_merge_conns(
                            conns0,
                            orig.take(orig.len() - incoming@.len()),
                        ),
                        conns0 == old(self)@[i as int].conns,
                    decreases incoming.len(),
                {
                    let ghost done: int = orig.len() - incoming@.len();
                    let ghost prev = self@;
                    let c = incoming.remove(0);
                    proof {
                        assert(c == orig[done]);
                        assert(orig.skip(done).remove(0) =~= orig.skip(done + 1));
                    }
                    self.apply_conn(i, c);
                    proof {
                        assert(orig.take(done + 1).drop_last() =~= orig.take(done));
                        assert(orig.take(done + 1).last() == orig[done]);
                        assert(prev[i as int].conns =~= spec_merge_conns(conns0, orig.take(done)));
                        assert(spec_merge_conns(conns0, orig.take(done + 1)) == spec_apply_conn(
                            spec_merge_conns(conns0, orig.take(done)),
                            orig[done],
                        ));
                        assert(self@[i as int].conns =~= spec_merge_conns(
                            conns0,
                            orig.take(done + 1),
                        ));
                    }
                }
                proof {
                    assert(orig.take(orig.len() as int) =~= orig);
                    assert(self@[i as int].conns =~= spec_merge_conns(conns0, orig));
                    assert(self@ =~= old(self)@.update(
                        i as int,
                        NodeDataView {
                            conns: spec_merge_conns(conns0, orig),
                            ..old(self)@[i as int]
                        },
                    ));
                    assert(self@ =~= spec_update_node_connection(old(self)@, node_id, orig));
                }
            }
            None => {}
        }
    }

    /// A copy of every node record.
    pub fn list_node(&self) -> (r: Vec<NodeData>)
        ensures
            r@.map_values(|n: NodeData| n@) == self@,
    {
        let mut ret: Vec<NodeData> = Vec::new();
        let mut i: usize = 0;
        while i < self.nodes.len()
            invariant
                i <= self.nodes.len(),
                ret@.map_values(|n: NodeData| n@) =~= self@.take(i as int),
                self@ == self.nodes@.map_values(|n: NodeData| n@),
            decreases self.nodes.len() - i,
        {
            let n = self.nodes[i].clone();
            ret.push(n);
            proof {
                assert(self@.take(i as int + 1) =~= self@.take(i as int).push(self@[i as int]));
                assert(ret@.map_values(|n: NodeData| n@) =~= self@.take(i as int + 1));
            }
            i += 1;
        }
        proof {
            assert(self@.take(self@.len() as int) =~= self@);
        }
        ret
    }

    /// A copy of the record for `node_id`, or `None` when that node was never
    /// sighted.
    pub fn get_node(&self, id: u32) -> (r: Option<NodeData>)
        requires
            self.wf(),
        ensures
            match r {
                Some(n) => has_node(self@, id) && n@ == self@[index_of_node(self@, id)],
                None => !has_node(self@, id),
            },
    {
        match self.find_index(id) {
            Some(i) => {
                proof {
                    lemma_index_of_node(self@, id, i as int);
                }
                Some(self.nodes[i].clone())
            }
            None => None,
        }
    }

    /// How many nodes are known.
    pub fn len(&self) -> (n: usize)
        ensures
            n == self@.len(),
    {
        self.nodes.len()
    }
}

/// Applying the same ping twice changes nothing beyond the first
/// application.
pub proof fn lemma_ping_idempotent(s: Seq<NodeDataView>, node_id: u32, addr: String, ts: u64)
    requires
        node_ids_unique(s),
    ensures
        spec_upsert(spec_upsert(s, node_id, addr, ts), node_id, addr, ts) == spec_upsert(
            s,
            node_id,
            addr,
            ts,
        ),
{
    let s1 = spec_upsert(s, node_id, addr, ts);
    if has_node(s, node_id) {
        let i = index_of_node(s, node_id);
        lemma_index_of_node(s, node_id, i);
        assert(s1[i].id == node_id);
        assert(node_ids_unique(s1));
        lemma_index_of_node(s1, node_id, i);
        assert(spec_upsert(s1, node_id, addr, ts) =~= s1);
    } else {
        let i = s.len() as int;
        assert(s1[i].id == node_id);
        assert(node_ids_unique(s1));
        lemma_index_of_node(s1, node_id, i);
        assert(spec_upsert(s1, node_id, addr, ts) =~= s1);
    }
}

/// Out-of-order pings never regress liveness: after a newer and then an
/// older ping, the stored timestamp is the newer one.
pub proof fn lemma_ping_monotonic(
    s: Seq<NodeDataView>,
    node_id: u32,
    addr1: String,
    addr2: String,
    t1: u64,
    t2: u64,
)
    requires
        node_ids_unique(s),
        t1 < t2,
    ensures
        has_node(spec_upsert(spec_upsert(s, node_id, addr2, t2), node_id, addr1, t1), node_id),
        spec_last_ping_of(
            spec_upsert(spec_upsert(s, node_id, addr2, t2), node_id, addr1, t1),
            node_id,
        ) == if has_node(s, node_id) && spec_last_ping_of(s, node_id) > t2 {
            spec_last_ping_of(s, node_id)
        } else {
            t2
        },
{
    let s1 = spec_upsert(s, node_id, addr2, t2);
    if has_node(s, node_id) {
        let i = index_of_node(s, node_id);
        lemma_index_of_node(s, node_id, i);
        assert(s1[i].id == node_id);
        assert(node_ids_unique(s1));
        lemma_index_of_node(s1, node_id, i);
        let s2 = spec_upsert(s1, node_id, addr1, t1);
        assert(s2[i].id == node_id);
        assert(node_ids_unique(s2));
        lemma_index_of_node(s2, node_id, i);
    } else {
        let i = s.len() as int;
        assert(s1[i].id == node_id);
        assert(node_ids_unique(s1));
        lemma_index_of_node(s1, node_id, i);
        let s2 = spec_upsert(s1, node_id, addr1, t1);
        assert(s2[i].id == node_id);
        assert(node_ids_unique(s2));
        lemma_index_of_node(s2, node_id, i);
    }
}

/// An empty incoming batch never removes stored connection detail: the store
/// is left exactly as it was.
pub proof fn lemma_empty_batch_non_destructive(s: Seq<NodeDataView>, node_id: u32)
    ensures
        spec_update_node_connection(s, node_id, Seq::<NodeConnectionData>::empty()) == s,
{
    if has_node(s, node_id) {
        let i = index_of_node(s, node_id);
        assert(spec_merge_conns(s[i].conns, Seq::<NodeConnectionData>::empty()) == s[i].conns);
        assert(spec_update_node_connection(s, node_id, Seq::<NodeConnectionData>::empty())
            =~= s);
    }
}

} // verus!
