//! Address-keyed transport store of the master.
//!
//! A node may report from several transport addresses; each address gets its
//! own record, keyed by the hash of the address text, carrying its own ping
//! timestamp and connection detail.  Read operations group the records back
//! together by node id.

use vstd::multiset::Multiset;
use vstd::prelude::*;

use crate::identity::{ConnectionMetric, ConnectionStatus};
use crate::util::{hash_of, hash_string};

verus! {

/// One connection record as an address-keyed transport stores it.
#[derive(Debug, PartialEq, Eq)]
pub struct TransportConnectionData {
    pub id: u64,
    /// Remote node of the link.
    pub node_id: u32,
    /// Remote address of the link; the merge key within one transport.
    pub addr: String,
    pub metric: ConnectionMetric,
    pub status: ConnectionStatus,
    pub last_updated_at: u64,
    pub direction: u8,
}

impl Clone for TransportConnectionData {
    fn clone(&self) -> (r: Self)
        ensures
            r == *self,
    {
        TransportConnectionData {
            id: self.id,
            node_id: self.node_id,
            addr: self.addr.clone(),
            metric: self.metric,
            status: self.status,
            last_updated_at: self.last_updated_at,
            direction: self.direction,
        }
    }
}

/// One stored transport: an address a node reports from.
#[derive(Debug, PartialEq, Eq)]
pub struct NodeTransportData {
    id: u64,
    node_id: u32,
    addr: String,
    last_ping_ts: u64,
    connections: Vec<TransportConnectionData>,
}

/// What a [`NodeTransportData`] holds, with the connection list as a
/// sequence.
#[verifier::ext_equal]
pub struct TransportView {
    pub id: u64,
    pub node_id: u32,
    pub addr: String,
    pub last_ping_ts: u64,
    pub connections: Seq<TransportConnectionData>,
}

impl View for NodeTransportData {
    type V = TransportView;

    closed spec fn view(&self) -> TransportView {
        TransportView {
            id: self.id,
            node_id: self.node_id,
            addr: self.addr,
            last_ping_ts: self.last_ping_ts,
            connections: self.connections@,
        }
    }
}

impl NodeTransportData {
    /// A fresh transport record: keyed by the hash of its address, no
    /// connection detail yet.
    pub fn new(node_id: u32, addr: String, last_ping_ts: u64) -> (r: Self)
        ensures
            r@ == (TransportView {
                id: hash_of(addr@),
                node_id,
                addr,
                last_ping_ts,
                connections: Seq::<TransportConnectionData>::empty(),
            }),
    {
        let id = hash_string(&addr);
        let r = NodeTransportData { id, node_id, addr, last_ping_ts, connections: Vec::new() };
        proof {
            assert(r@ =~= TransportView {
                id: hash_of(r.addr@),
                node_id,
                addr: r.addr,
                last_ping_ts,
                connections: Seq::<TransportConnectionData>::empty(),
            });
        }
        r
    }
}

/// One transport of a grouped read-out: same data, without the node id that
/// the surrounding record carries.
#[derive(Debug, PartialEq, Eq)]
pub struct NetworkTransportData {
    pub id: u64,
    pub addr: String,
    pub last_ping_ts: u64,
    pub connections: Vec<TransportConnectionData>,
}

/// What a [`NetworkTransportData`] holds, with the connection list as a
/// sequence.
#[verifier::ext_equal]
pub struct NetTransportView {
    pub id: u64,
    pub addr: String,
    pub last_ping_ts: u64,
    pub connections: Seq<TransportConnectionData>,
}

impl View for NetworkTransportData {
    type V = NetTransportView;

    open spec fn view(&self) -> NetTransportView {
        NetTransportView {
            id: self.id,
            addr: self.addr,
            last_ping_ts: self.last_ping_ts,
            connections: self.connections@,
        }
    }
}

/// One node of a grouped read-out: all transports it reports from.
#[derive(Debug, PartialEq, Eq)]
pub struct NetworkNodeData {
    pub node_id: u32,
    pub transports: Vec<NetworkTransportData>,
}

/// The read-out form of a stored transport.
pub open spec fn spec_net_of(t: TransportView) -> NetTransportView {
    NetTransportView {
        id: t.id,
        addr: t.addr,
        last_ping_ts: t.last_ping_ts,
        connections: t.connections,
    }
}

/// The read-out transports of node `id`, in store order.
pub open spec fn spec_transports_of(s: Seq<TransportView>, id: u32) -> Seq<NetTransportView>
    decreases s.len(),
{
    if s.len() == 0 {
        Seq::empty()
    } else {
        let rest = spec_transports_of(s.drop_last(), id);
        if s.last().node_id == id {
            rest.push(spec_net_of(s.last()))
        } else {
            rest
        }
    }
}

/// The node ids of `s`, in first-appearance order, each once.
pub open spec fn spec_node_ids(s: Seq<TransportView>) -> Seq<u32>
    decreases s.len(),
{
    if s.len() == 0 {
        Seq::empty()
    } else {
        let rest = spec_node_ids(s.drop_last());
        if rest.contains(s.last().node_id) {
            rest
        } else {
            rest.push(s.last().node_id)
        }
    }
}

/// Whether some transport of `s` is keyed by `id`.
pub open spec fn has_tid(s: Seq<TransportView>, id: u64) -> bool {
    exists|i: int| 0 <= i < s.len() && (#[trigger] s[i]).id == id
}

/// The index of the transport keyed `id`; meaningful when keys are distinct
/// and `has_tid(s, id)` holds.
pub open spec fn index_of_tid(s: Seq<TransportView>, id: u64) -> int {
    choose|i: int| 0 <= i < s.len() && (#[trigger] s[i]).id == id
}

/// No two transports of `s` share a key.
pub open spec fn tids_unique(s: Seq<TransportView>) -> bool {
    forall|i: int, j: int| 0 <= i < j < s.len() ==> (#[trigger] s[i]).id != (#[trigger] s[j]).id
}

/// With distinct keys, any index holding `id` is the one `index_of_tid`
/// picks.
pub proof fn lemma_index_of_tid(s: Seq<TransportView>, id: u64, i: int)
    requires
        tids_unique(s),
        0 <= i < s.len(),
        s[i].id == id,
    ensures
        has_tid(s, id),
        index_of_tid(s, id) == i,
{
    assert(has_tid(s, id));
    let j = index_of_tid(s, id);
    if i < j {
        assert(s[i].id != s[j].id);
    } else if j < i {
        assert(s[j].id != s[i].id);
    }
}

/// Whether some connection record of `s` is for the remote address `addr`.
pub open spec fn has_conn_addr(s: Seq<TransportConnectionData>, addr: Seq<char>) -> bool {
    exists|i: int| 0 <= i < s.len() && (#[trigger] s[i]).addr@ == addr
}

/// The index of the record for `addr`; meaningful when addresses are
/// distinct and `has_conn_addr(s, addr)` holds.
pub open spec fn index_of_conn_addr(s: Seq<TransportConnectionData>, addr: Seq<char>) -> int {
    choose|i: int| 0 <= i < s.len() && (#[trigger] s[i]).addr@ == addr
}

/// No two connection records of `s` share a remote address.
pub open spec fn conn_addrs_unique(s: Seq<TransportConnectionData>) -> bool {
    forall|i: int, j: int|
        0 <= i < j < s.len() ==> (#[trigger] s[i]).addr@ != (#[trigger] s[j]).addr@
}

/// With distinct addresses, any index holding `addr` is the one
/// `index_of_conn_addr` picks.
pub proof fn lemma_index_of_conn_addr(s: Seq<TransportConnectionData>, addr: Seq<char>, i: int)
    requires
        conn_addrs_unique(s),
        0 <= i < s.len(),
        s[i].addr@ == addr,
    ensures
        has_conn_addr(s, addr),
        index_of_conn_addr(s, addr) == i,
{
    assert(has_conn_addr(s, addr));
    let j = index_of_conn_addr(s, addr);
    if i < j {
        assert(s[i].addr@ != s[j].addr@);
    } else if j < i {
        assert(s[j].addr@ != s[i].addr@);
    }
}

/// A stored connection record after an incoming record with the same
/// remote address hit it: metric, status and timestamp are overwritten,
/// identity fields stay.
pub open spec fn spec_tconn_overwritten(
    cur: TransportConnectionData,
    c: TransportConnectionData,
) -> TransportConnectionData {
    TransportConnectionData {
        metric: c.metric,
        status: c.status,
        last_updated_at: c.last_updated_at,
        ..cur
    }
}

/// One incoming connection record applied to a transport's stored detail:
/// an address already present is overwritten in place, a new one is
/// appended.
pub open spec fn spec_apply_tconn(
    cur: Seq<TransportConnectionData>,
    c: TransportConnectionData,
) -> Seq<TransportConnectionData> {
    if has_conn_addr(cur, c.addr@) {
        cur.update(
            index_of_conn_addr(cur, c.addr@),
            spec_tconn_overwritten(cur[index_of_conn_addr(cur, c.addr@)], c),
        )
    } else {
        cur.push(c)
    }
}

/// A whole incoming batch applied in order, first record first.
pub open spec fn spec_merge_tconns(
    cur: Seq<TransportConnectionData>,
    incoming: Seq<TransportConnectionData>,
) -> Seq<TransportConnectionData>
    decreases incoming.len(),
{
    if incoming.len() == 0 {
        cur
    } else {
        spec_apply_tconn(spec_merge_tconns(cur, incoming.drop_last()), incoming.last())
    }
}

/// A ping applied to the store: a known address only advances its
/// timestamp, and only if the ping is strictly newer; an unknown address
/// gets a fresh transport record.
pub open spec fn spec_upsert(
    s: Seq<TransportView>,
    node_id: u32,
    addr: String,
    ts: u64,
) -> Seq<TransportView> {
    if has_tid(s, hash_of(addr@)) {
        let i = index_of_tid(s, hash_of(addr@));
        s.update(
            i,
            TransportView {
                last_ping_ts: if ts > s[i].last_ping_ts {
                    ts
                } else {
                    s[i].last_ping_ts
                },
                ..s[i]
            },
        )
    } else {
        s.push(
            TransportView {
                id: hash_of(addr@),
                node_id,
                addr,
                last_ping_ts: ts,
                connections: Seq::empty(),
            },
        )
    }
}

/// A connection batch applied to the store: merged into the transport whose
/// address it names, dropped whole if that address was never pinged.
pub open spec fn spec_update_node_connection(
    s: Seq<TransportView>,
    addr: Seq<char>,
    conns: Seq<TransportConnectionData>,
) -> Seq<TransportView> {
    if has_tid(s, hash_of(addr)) {
        let i = index_of_tid(s, hash_of(addr));
        s.update(
            i,
            TransportView { connections: spec_merge_tconns(s[i].connections, conns), ..s[i] },
        )
    } else {
        s
    }
}

/// The address-keyed store.
pub struct NodeConnectionStorage {
    transports: Vec<NodeTransportData>,
}

impl View for NodeConnectionStorage {
    type V = Seq<TransportView>;

    closed spec fn view(&self) -> Seq<TransportView> {
        self.transports@.map_values(|t: NodeTransportData| t@)
    }
}

impl NodeConnectionStorage {
    /// Keys are distinct, each key is the hash of its own address, and
    /// remote addresses are distinct within each transport's detail.
    pub open spec fn wf(&self) -> bool {
        &&& tids_unique(self@)
        &&& forall|i: int| 0 <= i < self@.len() ==> (#[trigger] self@[i]).id == hash_of(
            self@[i].addr@,
        )
        &&& forall|i: int|
            0 <= i < self@.len() ==> conn_addrs_unique((#[trigger] self@[i]).connections)
    }

    pub fn new() -> (r: NodeConnectionStorage)
        ensures
            r@ == Seq::<TransportView>::empty(),
            r.wf(),
    {
        let r = NodeConnectionStorage { transports: Vec::new() };
        proof {
            assert(r@ =~= Seq::<TransportView>::empty());
        }
        r
    }

    /// The index of the transport keyed `id`, if one exists.
    fn find_index(&self, id: u64) -> (r: Option<usize>)
        ensures
            match r {
                Some(i) => i < self@.len() && self@[i as int].id == id,
                None => !has_tid(self@, id),
            },
    {
        let mut i: usize = 0;
        while i < self.transports.len()
            invariant
                i <= self.transports.len(),
                self@ == self.transports@.map_values(|t: NodeTransportData| t@),
                forall|j: int| 0 <= j < i ==> (#[trigger] self.transports@[j])@.id != id,
            decreases self.transports.len() - i,
        {
            if self.transports[i].id == id {
                return Some(i);
            }
            i += 1;
        }
        None
    }

    /// Applies a ping for one transport address.  A stale or repeated ping
    /// never regresses the stored timestamp; a first sighting creates the
    /// record.
    pub fn upsert_node(&mut self, node_id: u32, addr: String, last_ping_ts: u64)
        requires
            old(self).wf(),
        ensures
            final(self).wf(),
            final(self)@ == spec_upsert(old(self)@, node_id, addr, last_ping_ts),
    {
        let id = hash_string(&addr);
        match self.find_index(id) {
            Some(i) => {
                proof {
                    lemma_index_of_tid(self@, id, i as int);
                }
                let trans = &mut self.transports[i];
                if last_ping_ts > trans.last_ping_ts {
                    trans.last_ping_ts = last_ping_ts;
                }
                proof {
                    assert(self@ =~= spec_upsert(old(self)@, node_id, addr, last_ping_ts));
                }
            }
            None => {
                let trans = NodeTransportData::new(node_id, addr, last_ping_ts);
                self.transports.push(trans);
                proof {
                    assert(self@ =~= spec_upsert(old(self)@, node_id, addr, last_ping_ts));
                }
            }
        }
    }

    /// Applies one incoming connection record to the transport at index `i`.
    fn apply_conn(&mut self, i: usize, c: TransportConnectionData)
        requires
            old(self).wf(),
            i < old(self)@.len(),
        ensures
            final(self).wf(),
            final(self)@.len() == old(self)@.len(),
            forall|k: int|
                0 <= k < old(self)@.len() && k != i ==> final(self)@[k] == old(self)@[k],
            final(self)@[i as int].id == old(self)@[i as int].id,
            final(self)@[i as int].node_id == old(self)@[i as int].node_id,
            final(self)@[i as int].addr == old(self)@[i as int].addr,
            final(self)@[i as int].last_ping_ts == old(self)@[i as int].last_ping_ts,
            final(self)@[i as int].connections =~= spec_apply_tconn(
                old(self)@[i as int].connections,
                c,
            ),
    {
        let trans = &mut self.transports[i];
        let found = Self::find_conn_index(&trans.connections, &c.addr);
        match found {
            Some(k) => {
                proof {
                    assert(conn_addrs_unique(old(self)@[i as int].connections));
                    lemma_index_of_conn_addr(trans.connections@, c.addr@, k as int);
                }
                let slot = &mut trans.connections[k];
                slot.metric = c.metric;
                slot.status = c.status;
                slot.last_updated_at = c.last_updated_at;
            }
            None => {
                trans.connections.push(c);
            }
        }
        proof {
            assert(self@ =~= old(self)@.update(
                i as int,
                TransportView {
                    connections: spec_apply_tconn(old(self)@[i as int].connections, c),
                    ..old(self)@[i as int]
                },
            ));
        }
    }

    /// The index of the record for `addr` in `conns`, if any.
    fn find_conn_index(conns: &Vec<TransportConnectionData>, addr: &String) -> (r: Option<usize>)
        ensures
            match r {
                Some(k) => k < conns@.len() && conns@[k as int].addr@ == addr@,
                None => !has_conn_addr(conns@, addr@),
            },
    {
        let mut k: usize = 0;
        while k < conns.len()
            invariant
                k <= conns.len(),
                forall|j: int| 0 <= j < k ==> (#[trigger] conns@[j]).addr@ != addr@,
            decreases conns.len() - k,
        {
            if conns[k].addr.eq(addr) {
                return Some(k);
            }
            k += 1;
        }
        None
    }

    /// Applies a connection batch for the transport at `addr`.  An unknown
    /// address means the ordering contract was violated upstream; the whole
    /// batch is dropped rather than fabricating a record.  An empty batch
    /// changes nothing.
    pub fn update_node_connection(&mut self, addr: String, connections: Vec<
        TransportConnectionData,
    >)
        requires
            old(self).wf(),
        ensures
            final(self).wf(),
            final(self)@ == spec_update_node_connection(old(self)@, addr@, connections@),
    {
        let id = hash_string(&addr);
        match self.find_index(id) {
            Some(i) => {
                proof {
                    lemma_index_of_tid(self@, id, i as int);
                }
                let mut incoming = connections;
                let ghost orig = incoming@;
                let ghost conns0 = self@[i as int].connections;
                while incoming.len() > 0
                    invariant
                        self.wf(),
                        i < self@.len(),
                        self@.len() == old(self)@.len(),
                        incoming@.len() <= orig.len(),
                        incoming@ =~= orig.skip(orig.len() - incoming@.len()),
                        forall|k: int|
                            0 <= k < self@.len() && k != i ==> self@[k] == old(self)@[k],
                        self@[i as int].id == old(self)@[i as int].id,
                        self@[i as int].node_id == old(self)@[i as int].node_id,
                        self@[i as int].addr == old(self)@[i as int].addr,
                        self@[i as int].last_ping_ts == old(self)@[i as int].last_ping_ts,
                        self@[i as int].connections =~= spec_merge_tconns(
                            conns0,
                            orig.take(orig.len() - incoming@.len()),
                        ),
                        conns0 == old(self)@[i as int].connections,
                    decreases incoming.len(),
                {
                    let ghost done: int = orig.len() - incoming@.len();
                    let ghost prev = self@;
                    let c = incoming.remove(0);
                    proof {
                        assert(c == orig[done]);
                        assert(orig.skip(done).remove(0) =~= orig.skip(done + 1));
                    }
                    self.apply_conn(i, c);
                    proof {
                        assert(orig.take(done + 1).drop_last() =~= orig.take(done));
                        assert(orig.take(done + 1).last() == orig[done]);
                        assert(prev[i as int].connections =~= spec_merge_tconns(
                            conns0,
                            orig.take(done),
                        ));
                        assert(spec_merge_tconns(conns0, orig.take(done + 1)) == spec_apply_tconn(
                            spec_merge_tconns(conns0, orig.take(done)),
                            orig[done],
                        ));
                        assert(self@[i as int].connections =~= spec_merge_tconns(
                            conns0,
                            orig.take(done + 1),
                        ));
                    }
                }
                proof {
                    assert(orig.take(orig.len() as int) =~= orig);
                    assert(self@[i as int].connections =~= spec_merge_tconns(conns0, orig));
                    assert(self@ =~= old(self)@.update(
                        i as int,
                        TransportView {
                            connections: spec_merge_tconns(conns0, orig),
                            ..old(self)@[i as int]
                        },
                    ));
                    assert(self@ =~= spec_update_node_connection(old(self)@, addr@, orig));
                }
            }
            None => {}
        }
    }

    /// How many transports are known.
    pub fn len(&self) -> (n: usize)
        ensures
            n == self@.len(),
    {
        self.transports.len()
    }

    /// The index of the grouped record for node `nid`, if one exists.
    fn find_entry(entries: &Vec<NetworkNodeData>, nid: u32) -> (r: Option<usize>)
        ensures
            match r {
                Some(f) => f < entries@.len() && entries@[f as int].node_id == nid,
                None => forall|j: int|
                    0 <= j < entries@.len() ==> (#[trigger] entries@[j]).node_id != nid,
            },
    {
        let mut k: usize = 0;
        while k < entries.len()
            invariant
                k <= entries.len(),
                forall|j: int| 0 <= j < k ==> (#[trigger] entries@[j]).node_id != nid,
            decreases entries.len() - k,
        {
            if entries[k].node_id == nid {
                return Some(k);
            }
            k += 1;
        }
        None
    }

    /// The read-out copy of the transport at index `i`.
    fn net_of(&self, i: usize) -> (r: NetworkTransportData)
        requires
            i < self@.len(),
        ensures
            r@ == spec_net_of(self@[i as int]),
    {
        let t = &self.transports[i];
        let mut conns: Vec<TransportConnectionData> = Vec::new();
        let mut k: usize = 0;
        while k < t.connections.len()
            invariant
                k <= t.connections.len(),
                conns@ =~= t.connections@.take(k as int),
            decreases t.connections.len() - k,
        {
            conns.push(t.connections[k].clone());
            proof {
                assert(t.connections@.take(k + 1) =~= t.connections@.take(k as int).push(
                    t.connections@[k as int],
                ));
            }
            k += 1;
        }
        proof {
            assert(t.connections@.take(t.connections@.len() as int) =~= t.connections@);
        }
        let r = NetworkTransportData {
            id: t.id,
            addr: t.addr.clone(),
            last_ping_ts: t.last_ping_ts,
            connections: conns,
        };
        proof {
            assert(r@ =~= spec_net_of(self@[i as int]));
        }
        r
    }

    /// The grouped record for node `id`: every transport it reports from,
    /// ordered by transport key.  A node never sighted yields a record with
    /// no transports.
    pub fn get_node(&self, id: u32) -> (r: NetworkNodeData)
        ensures
            r.node_id == id,
            r.transports@.map_values(|t: NetworkTransportData| t@).to_multiset()
                == spec_transports_of(self@, id).to_multiset(),
            forall|k: int, l: int|
                0 <= k < l < r.transports@.len() ==> (#[trigger] r.transports@[k]).id
                    <= (#[trigger] r.transports@[l]).id,
    {
        let mut collected: Vec<NetworkTransportData> = Vec::new();
        let mut i: usize = 0;
        while i < self.transports.len()
            invariant
                i <= self.transports.len(),
                i <= self@.len(),
                self@ == self.transports@.map_values(|t: NodeTransportData| t@),
                collected@.map_values(|t: NetworkTransportData| t@) =~= spec_transports_of(
                    self@.take(i as int),
                    id,
                ),
            decreases self.transports.len() - i,
        {
            let ghost pre = self@.take(i as int);
            if self.transports[i].node_id == id {
                let item = self.net_of(i);
                collected.push(item);
            }
            proof {
                assert(self@.take(i + 1).drop_last() =~= pre);
                assert(self@.take(i + 1).last() == self@[i as int]);
                assert(collected@.map_values(|t: NetworkTransportData| t@) =~= spec_transports_of(
                    self@.take(i + 1),
                    id,
                ));
            }
            i += 1;
        }
        proof {
            assert(self@.take(self@.len() as int) =~= self@);
            assert(collected@.map_values(|t: NetworkTransportData| t@) =~= spec_transports_of(
                self@,
                id,
            ));
        }
        let ghost target = spec_transports_of(self@, id);
        let mut rest = collected;
        let mut sorted: Vec<NetworkTransportData> = Vec::new();
        proof {
            broadcast use vstd::seq_lib::group_to_multiset_ensures;
            broadcast use vstd::multiset::group_multiset_axioms;

            assert(sorted@.map_values(|t: NetworkTransportData| t@) =~= Seq::<
                NetTransportView,
            >::empty());
            vstd::multiset::lemma_multiset_empty_len(
                Seq::<NetTransportView>::empty().to_multiset(),
            );
            assert(Seq::<NetTransportView>::empty().to_multiset() =~= Multiset::empty());
            assert(sorted@.map_values(|t: NetworkTransportData| t@).to_multiset().add(
                rest@.map_values(|t: NetworkTransportData| t@).to_multiset(),
            ) =~= target.to_multiset());
        }
        while rest.len() > 0
            invariant
                sorted@.map_values(|t: NetworkTransportData| t@).to_multiset().add(
                    rest@.map_values(|t: NetworkTransportData| t@).to_multiset(),
                ) =~= target.to_multiset(),
                forall|k: int, l: int|
                    0 <= k < l < sorted@.len() ==> (#[trigger] sorted@[k]).id
                        <= (#[trigger] sorted@[l]).id,
            decreases rest.len(),
        {
            let ghost rest0 = rest@.map_values(|t: NetworkTransportData| t@);
            let ghost sorted0 = sorted@.map_values(|t: NetworkTransportData| t@);
            let x = rest.remove(0);
            proof {
                broadcast use vstd::seq_lib::group_to_multiset_ensures;

                assert(rest@.map_values(|t: NetworkTransportData| t@) =~= rest0.remove(0));
                assert(rest0[0] == x@);
                assert(rest0.remove(0).to_multiset() =~= rest0.to_multiset().remove(x@));
                assert(rest0.to_multiset().contains(x@));
            }
            let mut pos: usize = 0;
            while pos < sorted.len() && sorted[pos].id <= x.id
                invariant
                    pos <= sorted.len(),
                    forall|m: int| 0 <= m < pos ==> (#[trigger] sorted@[m]).id <= x.id,
                decreases sorted.len() - pos,
            {
                pos += 1;
            }
            let ghost before = sorted@;
            sorted.insert(pos, x);
            proof {
                broadcast use vstd::seq_lib::group_to_multiset_ensures;

                assert(sorted@ == before.insert(pos as int, x));
                assert(sorted@.map_values(|t: NetworkTransportData| t@) =~= sorted0.insert(
                    pos as int,
                    x@,
                ));
                lemma_insert_to_multiset(sorted0, pos as int, x@);
                broadcast use vstd::multiset::group_multiset_axioms;

                assert(sorted@.map_values(|t: NetworkTransportData| t@).to_multiset()
                    == sorted0.to_multiset().insert(x@));
                assert(rest@.map_values(|t: NetworkTransportData| t@).to_multiset()
                    == rest0.to_multiset().remove(x@));
                assert(rest0.to_multiset().count(x@) >= 1);
                assert forall|y: NetTransportView|
                    sorted0.to_multiset().insert(x@).add(rest0.to_multiset().remove(x@)).count(y)
                        == target.to_multiset().count(y) by {
                    assert(sorted0.to_multiset().add(rest0.to_multiset()).count(y)
                        == target.to_multiset().count(y));
                }
                assert(sorted@.map_values(|t: NetworkTransportData| t@).to_multiset().add(
                    rest@.map_values(|t: NetworkTransportData| t@).to_multiset(),
                ) =~= target.to_multiset());
                assert(forall|m: int| 0 <= m < pos ==> sorted@[m] == before[m]);
                assert(sorted@[pos as int] == x);
                assert(forall|m: int|
                    pos < m < sorted@.len() ==> #[trigger] sorted@[m] == before[m - 1]);
                if (pos as int) < before.len() {
                    assert(before[pos as int].id > x.id);
                    assert(forall|m: int|
                        pos <= m < before.len() ==> (#[trigger] before[m]).id > x.id);
                }
            }
        }
        proof {
            broadcast use vstd::seq_lib::group_to_multiset_ensures;
            broadcast use vstd::multiset::group_multiset_axioms;

            assert(rest@.map_values(|t: NetworkTransportData| t@) =~= Seq::<
                NetTransportView,
            >::empty());
            vstd::multiset::lemma_multiset_empty_len(
                Seq::<NetTransportView>::empty().to_multiset(),
            );
            assert(sorted@.map_values(|t: NetworkTransportData| t@).to_multiset()
                =~= target.to_multiset());
        }
        NetworkNodeData { node_id: id, transports: sorted }
    }

    /// Every node that has reported, grouped: node ids in first-appearance
    /// order, each with its transports in store order.
    pub fn list_node(&self) -> (r: Vec<NetworkNodeData>)
        ensures
            r@.len() == spec_node_ids(self@).len(),
            forall|k: int|
                0 <= k < r@.len() ==> (#[trigger] r@[k]).node_id == spec_node_ids(self@)[k]
                    && r@[k].transports@.map_values(|t: NetworkTransportData| t@)
                    == spec_transports_of(self@, r@[k].node_id),
    {
        let mut ret: Vec<NetworkNodeData> = Vec::new();
        let mut i: usize = 0;
        while i < self.transports.len()
            invariant
                i <= self.transports.len(),
                i <= self@.len(),
                self@ == self.transports@.map_values(|t: NodeTransportData| t@),
                ret@.len() == spec_node_ids(self@.take(i as int)).len(),
                forall|k: int|
                    0 <= k < ret@.len() ==> (#[trigger] ret@[k]).node_id == spec_node_ids(
                        self@.take(i as int),
                    )[k],
                forall|k: int|
                    0 <= k < ret@.len() ==> (#[trigger] ret@[k]).transports@.map_values(
                        |t: NetworkTransportData| t@,
                    ) =~= spec_transports_of(self@.take(i as int), ret@[k].node_id),
                forall|k1: int, k2: int|
                    0 <= k1 < k2 < ret@.len() ==> (#[trigger] ret@[k1]).node_id
                        != (#[trigger] ret@[k2]).node_id,
            decreases self.transports.len() - i,
        {
            let ghost pre = self@.take(i as int);
            let ghost ids_pre = spec_node_ids(pre);
            let nid = self.transports[i].node_id;
            let item = self.net_of(i);
            let found = Self::find_entry(&ret, nid);
            proof {
                assert(self@.take(i + 1).drop_last() =~= pre);
                assert(self@.take(i + 1).last() == self@[i as int]);
            }
            match found {
                Some(f) => {
                    proof {
                        assert(ids_pre[f as int] == nid);
                        assert(ids_pre.contains(nid));
                        assert(spec_node_ids(self@.take(i + 1)) == ids_pre);
                    }
                    let ghost ret_pre = ret@;
                    let ghost entry0 = ret@[f as int];
                    let entry = &mut ret[f];
                    entry.transports.push(item);
                    proof {
                        assert(ret@[f as int].transports@.map_values(
                            |t: NetworkTransportData| t@,
                        ) =~= entry0.transports@.map_values(|t: NetworkTransportData| t@).push(
                            item@,
                        ));
                        assert forall|k2: int| 0 <= k2 < ret@.len() implies (
                        #[trigger] ret@[k2]).transports@.map_values(|t: NetworkTransportData| t@)
                            =~= spec_transports_of(self@.take(i + 1), ret@[k2].node_id) by {
                            if k2 == f {
                                assert(spec_transports_of(self@.take(i + 1), nid)
                                    == spec_transports_of(pre, nid).push(
                                    spec_net_of(self@[i as int]),
                                ));
                            } else {
                                assert(ret@[k2] == ret_pre[k2]);
                                assert(ret@[k2].node_id != nid);
                            }
                        }
                    }
                }
                None => {
                    proof {
                        assert forall|j: int| 0 <= j < ids_pre.len() implies ids_pre[j] != nid by {
                            assert(ret@[j].node_id == ids_pre[j]);
                            assert(ret@[j].node_id != nid);
                        }
                        assert(!ids_pre.contains(nid));
                        assert(spec_node_ids(self@.take(i + 1)) == ids_pre.push(nid));
                    }
                    let mut transports: Vec<NetworkTransportData> = Vec::new();
                    transports.push(item);
                    let entry = NetworkNodeData { node_id: nid, transports };
                    ret.push(entry);
                    proof {
                        assert forall|k2: int| 0 <= k2 < ret@.len() implies (
                        #[trigger] ret@[k2]).transports@.map_values(|t: NetworkTransportData| t@)
                            =~= spec_transports_of(self@.take(i + 1), ret@[k2].node_id) by {
                            if k2 == ret@.len() - 1 {
                                lemma_transports_of_absent(pre, nid);
                                assert(ret@[k2].transports@.map_values(
                                    |t: NetworkTransportData| t@,
                                ) =~= seq![item@]);
                                assert(spec_transports_of(self@.take(i + 1), nid)
                                    == spec_transports_of(pre, nid).push(
                                    spec_net_of(self@[i as int]),
                                ));
                            } else {
                                assert(ret@[k2].node_id != nid);
                            }
                        }
                    }
                }
            }
            i += 1;
        }
        proof {
            assert(self@.take(self@.len() as int) =~= self@);
        }
        ret
    }
}

/// Applying the same ping twice changes nothing beyond the first
/// application.
pub proof fn lemma_ping_idempotent(s: Seq<TransportView>, node_id: u32, addr: String, ts: u64)
    requires
        tids_unique(s),
    ensures
        spec_upsert(spec_upsert(s, node_id, addr, ts), node_id, addr, ts) == spec_upsert(
            s,
            node_id,
            addr,
            ts,
        ),
{
    let s1 = spec_upsert(s, node_id, addr, ts);
    if has_tid(s, hash_of(addr@)) {
        let i = index_of_tid(s, hash_of(addr@));
        lemma_index_of_tid(s, hash_of(addr@), i);
        assert(s1[i].id == hash_of(addr@));
        assert(tids_unique(s1));
        lemma_index_of_tid(s1, hash_of(addr@), i);
        assert(spec_upsert(s1, node_id, addr, ts) =~= s1);
    } else {
        let i = s.len() as int;
        assert(s1[i].id == hash_of(addr@));
        assert(tids_unique(s1));
        lemma_index_of_tid(s1, hash_of(addr@), i);
        assert(spec_upsert(s1, node_id, addr, ts) =~= s1);
    }
}

/// The last liveness timestamp stored for the transport at `addr`.
pub open spec fn spec_last_ping_of(s: Seq<TransportView>, addr: Seq<char>) -> u64 {
    s[index_of_tid(s, hash_of(addr))].last_ping_ts
}

/// Out-of-order pings never regress liveness: after a newer and then an
/// older ping, the stored timestamp is the newer one.
pub proof fn lemma_ping_monotonic(
    s: Seq<TransportView>,
    node_id: u32,
    addr: String,
    t1: u64,
    t2: u64,
)
    requires
        tids_unique(s),
        t1 < t2,
    ensures
        has_tid(spec_upsert(spec_upsert(s, node_id, addr, t2), node_id, addr, t1), hash_of(addr@)),
        spec_last_ping_of(
            spec_upsert(spec_upsert(s, node_id, addr, t2), node_id, addr, t1),
            addr@,
        ) == if has_tid(s, hash_of(addr@)) && spec_last_ping_of(s, addr@) > t2 {
            spec_last_ping_of(s, addr@)
        } else {
            t2
        },
{
    let s1 = spec_upsert(s, node_id, addr, t2);
    if has_tid(s, hash_of(addr@)) {
        let i = index_of_tid(s, hash_of(addr@));
        lemma_index_of_tid(s, hash_of(addr@), i);
        assert(s1[i].id == hash_of(addr@));
        assert(tids_unique(s1));
        lemma_index_of_tid(s1, hash_of(addr@), i);
        let s2 = spec_upsert(s1, node_id, addr, t1);
        assert(s2[i].id == hash_of(addr@));
        assert(tids_unique(s2));
        lemma_index_of_tid(s2, hash_of(addr@), i);
    } else {
        let i = s.len() as int;
        assert(s1[i].id == hash_of(addr@));
        assert(tids_unique(s1));
        lemma_index_of_tid(s1, hash_of(addr@), i);
        let s2 = spec_upsert(s1, node_id, addr, t1);
        assert(s2[i].id == hash_of(addr@));
        assert(tids_unique(s2));
        lemma_index_of_tid(s2, hash_of(addr@), i);
    }
}

/// An empty incoming batch never removes stored connection detail: the
/// store is left exactly as it was.
pub proof fn lemma_empty_batch_non_destructive(s: Seq<TransportView>, addr: Seq<char>)
    ensures
        spec_update_node_connection(s, addr, Seq::<TransportConnectionData>::empty()) == s,
{
    if has_tid(s, hash_of(addr)) {
        let i = index_of_tid(s, hash_of(addr));
        assert(spec_merge_tconns(s[i].connections, Seq::<TransportConnectionData>::empty())
            == s[i].connections);
        assert(spec_update_node_connection(s, addr, Seq::<TransportConnectionData>::empty())
            =~= s);
    }
}

/// A node id that `spec_node_ids` does not list has no transports.
pub proof fn lemma_transports_of_absent(s: Seq<TransportView>, id: u32)
    requires
        !spec_node_ids(s).contains(id),
    ensures
        spec_transports_of(s, id) == Seq::<NetTransportView>::empty(),
    decreases s.len(),
{
    if s.len() > 0 {
        let rest = spec_node_ids(s.drop_last());
        if s.last().node_id == id {
            if rest.contains(id) {
                assert(spec_node_ids(s).contains(id));
            } else {
                assert(spec_node_ids(s) == rest.push(id));
                assert(spec_node_ids(s)[rest.len() as int] == id);
                assert(spec_node_ids(s).contains(id));
            }
            assert(false);
        }
        assert forall|x: u32| #[trigger] rest.contains(x) implies spec_node_ids(s).contains(x) by {
            let w = choose|j: int| 0 <= j < rest.len() && rest[j] == x;
            if rest.contains(s.last().node_id) {
                assert(spec_node_ids(s)[w] == x);
            } else {
                assert(spec_node_ids(s) == rest.push(s.last().node_id));
                assert(spec_node_ids(s)[w] == x);
            }
        }
        assert(!rest.contains(id));
        lemma_transports_of_absent(s.drop_last(), id);
    }
}

/// Inserting anywhere adds exactly one occurrence to the multiset.
pub proof fn lemma_insert_to_multiset(s: Seq<NetTransportView>, i: int, x: NetTransportView)
    requires
        0 <= i <= s.len(),
    ensures
        s.insert(i, x).to_multiset() == s.to_multiset().insert(x),
{
    broadcast use vstd::seq_lib::group_to_multiset_ensures;

    let t = s.insert(i, x);
    assert(t.remove(i) =~= s);
    assert(t[i] == x);
    assert(t.remove(i).to_multiset() =~= t.to_multiset().remove(x));
    assert(t.contains(x));
    assert(t.to_multiset().count(x) > 0);
    assert(t.to_multiset() =~= s.to_multiset().insert(x));
}

} // verus!
