//! Agent-local store of per-connection status and metrics.
//!
//! Each record is keyed by its packed connection id; the store keeps at most
//! one record per id.  Records are created by connect events, mutated by
//! metric samples and disconnect events, and never deleted, so observers can
//! still see a link that was connected and has since gone down.

use vstd::prelude::*;

use crate::conn::{generate_connection_id, spec_connection_id};
use crate::identity::{ConnectionDirection, ConnectionMetric, ConnectionStatus};

verus! {

/// One tracked link of the local node.
#[derive(Debug, PartialEq, Eq)]
pub struct ConnectionNode {
    /// Packed connection id; also the key of the record in the store.
    pub uuid: u64,
    pub protocol: u8,
    /// Remote node of the link.
    pub node_id: u32,
    /// Remote address of the link.
    pub addr: String,
    /// Direction byte: 0 outgoing, 1 incoming.
    pub direction: u8,
    pub status: ConnectionStatus,
    /// Last metric sample; `None` until the first sample arrives.
    pub metric: Option<ConnectionMetric>,
    pub latest_updated_at: u64,
}

impl Clone for ConnectionNode {
    fn clone(&self) -> (r: Self)
        ensures
            r == *self,
    {
        ConnectionNode {
            uuid: self.uuid,
            protocol: self.protocol,
            node_id: self.node_id,
            addr: self.addr.clone(),
            direction: self.direction,
            status: self.status,
            metric: self.metric,
            latest_updated_at: self.latest_updated_at,
        }
    }
}

/// The fields of a record that one update event may touch.  `None` leaves the
/// stored value as it is.
pub struct ConnectionModifyData {
    pub status: Option<ConnectionStatus>,
    pub metric: Option<ConnectionMetric>,
    pub latest_updated_at: u64,
}

/// Whether some record in `s` carries the key `uuid`.
pub open spec fn has_uuid(s: Seq<ConnectionNode>, uuid: u64) -> bool {
    exists|i: int| 0 <= i < s.len() && (#[trigger] s[i]).uuid == uuid
}

/// The index of the record carrying `uuid`; meaningful when the keys of `s`
/// are distinct and `has_uuid(s, uuid)` holds.
pub open spec fn index_of_uuid(s: Seq<ConnectionNode>, uuid: u64) -> int {
    choose|i: int| 0 <= i < s.len() && (#[trigger] s[i]).uuid == uuid
}

/// No two records of `s` share a key.
pub open spec fn uuids_unique(s: Seq<ConnectionNode>) -> bool {
    forall|i: int, j: int|
        0 <= i < j < s.len() ==> (#[trigger] s[i]).uuid != (#[trigger] s[j]).uuid
}

/// With distinct keys, any index holding `uuid` is the one `index_of_uuid`
/// picks.
pub proof fn lemma_index_of_uuid(s: Seq<ConnectionNode>, uuid: u64, i: int)
    requires
        uuids_unique(s),
        0 <= i < s.len(),
        s[i].uuid == uuid,
    ensures
        has_uuid(s, uuid),
        index_of_uuid(s, uuid) == i,
{
    assert(has_uuid(s, uuid));
    let j = index_of_uuid(s, uuid);
    if i < j {
        assert(s[i].uuid != s[j].uuid);
    } else if j < i {
        assert(s[j].uuid != s[i].uuid);
    }
}

/// The record as a reconnect event leaves it: status up, timestamp advanced,
/// everything else (the metric included) untouched.
pub open spec fn spec_reconnected(c: ConnectionNode, now: u64) -> ConnectionNode {
    ConnectionNode { status: ConnectionStatus::CONNECTED, latest_updated_at: now, ..c }
}

/// The record a first connect event inserts: no metric yet, status up.
pub open spec fn spec_fresh_connection(
    protocol: u8,
    direction_byte: u8,
    node_id: u32,
    addr: String,
    now: u64,
) -> ConnectionNode {
    ConnectionNode {
        uuid: spec_connection_id(protocol, direction_byte, node_id),
        protocol,
        node_id,
        addr,
        direction: direction_byte,
        status: ConnectionStatus::CONNECTED,
        metric: None,
        latest_updated_at: now,
    }
}

/// The record as an update event leaves it: `Some` fields overwrite, `None`
/// fields keep the stored value, the timestamp always advances to the event's.
pub open spec fn spec_modified(c: ConnectionNode, data: ConnectionModifyData) -> ConnectionNode {
    ConnectionNode {
        status: match data.status {
            Some(st) => st,
            None => c.status,
        },
        metric: match data.metric {
            Some(m) => Some(m),
            None => c.metric,
        },
        latest_updated_at: data.latest_updated_at,
        ..c
    }
}

/// Agent-local store: at most one record per packed connection id.
pub struct ConnectionStorage {
    conns: Vec<ConnectionNode>,
}

impl View for ConnectionStorage {
    type V = Seq<ConnectionNode>;

    closed spec fn view(&self) -> Seq<ConnectionNode> {
        self.conns@
    }
}

impl ConnectionStorage {
    /// Keys are distinct, and each record's key is the packed form of its own
    /// identity fields.
    pub open spec fn wf(&self) -> bool {
        &&& uuids_unique(self@)
        &&& forall|i: int|
            0 <= i < self@.len() ==> (#[trigger] self@[i]).uuid == spec_connection_id(
                self@[i].protocol,
                self@[i].direction,
                self@[i].node_id,
            )
    }

    pub fn new() -> (r: Self)
        ensures
            r@ == Seq::<ConnectionNode>::empty(),
            r.wf(),
    {
        ConnectionStorage { conns: Vec::new() }
    }

    /// The index of the record keyed `uuid`, if one exists.
    fn find_index(&self, uuid: u64) -> (r: Option<usize>)
        ensures
            match r {
                Some(i) => i < self@.len() && self@[i as int].uuid == uuid,
                None => !has_uuid(self@, uuid),
            },
    {
        let mut i: usize = 0;
        while i < self.conns.len()
            invariant
                i <= self.conns.len(),
                forall|j: int| 0 <= j < i ==> (#[trigger] self.conns@[j]).uuid != uuid,
            decreases self.conns.len() - i,
        {
            if self.conns[i].uuid == uuid {
                return Some(i);
            }
            i += 1;
        }
        None
    }

    /// Records a connect event.  A reconnect of a known link flips its status
    /// back up and advances its timestamp; an unknown link gets a fresh
    /// record with no metric.
    pub fn new_connection(
        &mut self,
        protocol: u8,
        direction: ConnectionDirection,
        node_id: u32,
        addr: String,
        now: u64,
    )
        requires
            old(self).wf(),
        ensures
            final(self).wf(),
            ({
                let uuid = spec_connection_id(protocol, direction.as_byte(), node_id);
                if has_uuid(old(self)@, uuid) {
                    final(self)@ == old(self)@.update(
                        index_of_uuid(old(self)@, uuid),
                        spec_reconnected(old(self)@[index_of_uuid(old(self)@, uuid)], now),
                    )
                } else {
                    final(self)@ == old(self)@.push(
                        spec_fresh_connection(protocol, direction.as_byte(), node_id, addr, now),
                    )
                }
            }),
    {
        let uuid = generate_connection_id(protocol, direction, node_id);
        match self.find_index(uuid) {
            Some(i) => {
                proof {
                    lemma_index_of_uuid(self@, uuid, i as int);
                }
                let node = &mut self.conns[i];
                node.status = ConnectionStatus::CONNECTED;
                node.latest_updated_at = now;
            }
            None => {
                let d: u8 = direction.to_byte();
                self.conns.push(
                    ConnectionNode {
                        uuid,
                        protocol,
                        node_id,
                        addr,
                        direction: d,
                        status: ConnectionStatus::CONNECTED,
                        metric: None,
                        latest_updated_at: now,
                    },
                );
            }
        }
    }

    /// Applies an update event to the record keyed `id`.  Returns whether the
    /// record exists; an unknown id leaves the store untouched, which is the
    /// tolerated local anomaly, not a failure.
    pub fn update_connection_data(&mut self, id: u64, data: ConnectionModifyData) -> (r: bool)
        requires
            old(self).wf(),
        ensures
            final(self).wf(),
            r == has_uuid(old(self)@, id),
            if has_uuid(old(self)@, id) {
                final(self)@ == old(self)@.update(
                    index_of_uuid(old(self)@, id),
                    spec_modified(old(self)@[index_of_uuid(old(self)@, id)], data),
                )
            } else {
                final(self)@ == old(self)@
            },
    {
        match self.find_index(id) {
            Some(i) => {
                proof {
                    lemma_index_of_uuid(self@, id, i as int);
                }
                let node = &mut self.conns[i];
                match data.status {
                    Some(st) => {
                        node.status = st;
                    }
                    None => {}
                }
                match data.metric {
                    Some(m) => {
                        node.metric = Some(m);
                    }
                    None => {}
                }
                node.latest_updated_at = data.latest_updated_at;
                true
            }
            None => false,
        }
    }

    /// A copy of every record, including the ones with no metric yet; the
    /// report builder filters, not the store.
    pub fn list_conns(&self) -> (r: Vec<ConnectionNode>)
        ensures
            r@ == self@,
    {
        let mut ret: Vec<ConnectionNode> = Vec::new();
        let mut i: usize = 0;
        while i < self.conns.len()
            invariant
                i <= self.conns.len(),
                ret@ =~= self.conns@.take(i as int),
            decreases self.conns.len() - i,
        {
            ret.push(self.conns[i].clone());
            proof {
                assert(self.conns@.take(i + 1) =~= self.conns@.take(i as int).push(
                    self.conns@[i as int],
                ));
            }
            i += 1;
        }
        proof {
            assert(self.conns@.take(self.conns@.len() as int) =~= self.conns@);
        }
        ret
    }

    /// How many links are tracked.
    pub fn len(&self) -> (n: usize)
        ensures
            n == self@.len(),
    {
        self.conns.len()
    }
}

} // verus!
