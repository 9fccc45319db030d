//! Neighbor-graph store: one record per node with a deduplicated adjacency
//! list, reconciled from connect/disconnect reports.

use vstd::prelude::*;

verus! {

/// Identity of one endpoint of an edge.
#[derive(Debug, PartialEq, Eq)]
pub struct NetworkNodeData {
    pub node_id: u32,
    pub node_addr: String,
}

impl NetworkNodeData {
    pub fn new(id: u32, addr: String) -> (r: Self)
        ensures
            r.node_id == id,
            r.node_addr == addr,
    {
        NetworkNodeData { node_id: id, node_addr: addr }
    }
}

/// One edge report: source, destination and when it was observed.
#[derive(Debug, PartialEq, Eq)]
pub struct NetworkGraphEdgeData {
    pub src_node: NetworkNodeData,
    pub dest_node: NetworkNodeData,
    pub time: u64,
}

impl NetworkGraphEdgeData {
    pub fn new(
        src_node_id: u32,
        src_node_addr: String,
        dest_node_id: u32,
        dest_node_addr: String,
        ts: u64,
    ) -> (r: Self)
        ensures
            r.src_node.node_id == src_node_id,
            r.src_node.node_addr == src_node_addr,
            r.dest_node.node_id == dest_node_id,
            r.dest_node.node_addr == dest_node_addr,
            r.time == ts,
    {
        NetworkGraphEdgeData {
            src_node: NetworkNodeData::new(src_node_id, src_node_addr),
            dest_node: NetworkNodeData::new(dest_node_id, dest_node_addr),
            time: ts,
        }
    }
}

/// One node of the graph.
struct NetworkNode {
    node_id: u32,
    node_addr: String,
    latest_ping: u64,
    node_neighbors: Vec<u32>,
}

/// What one graph node holds, with the adjacency list as a sequence.
#[verifier::ext_equal]
pub struct NetworkNodeView {
    pub node_id: u32,
    pub node_addr: String,
    pub latest_ping: u64,
    pub neighbors: Seq<u32>,
}

impl View for NetworkNode {
    type V = NetworkNodeView;

    closed spec fn view(&self) -> NetworkNodeView {
        NetworkNodeView {
            node_id: self.node_id,
            node_addr: self.node_addr,
            latest_ping: self.latest_ping,
            neighbors: self.node_neighbors@,
        }
    }
}

/// Whether some node of `s` has the id `node_id`.
pub open spec fn has_node(s: Seq<NetworkNodeView>, node_id: u32) -> bool {
    exists|i: int| 0 <= i < s.len() && (#[trigger] s[i]).node_id == node_id
}

/// The index of the node with id `node_id`; meaningful when ids are distinct
/// and `has_node(s, node_id)` holds.
pub open spec fn index_of_node(s: Seq<NetworkNodeView>, node_id: u32) -> int {
    choose|i: int| 0 <= i < s.len() && (#[trigger] s[i]).node_id == node_id
}

/// No two nodes of `s` share an id.
pub open spec fn node_ids_unique(s: Seq<NetworkNodeView>) -> bool {
    forall|i: int, j: int|
        0 <= i < j < s.len() ==> (#[trigger] s[i]).node_id != (#[trigger] s[j]).node_id
}

/// With distinct ids, any index holding `node_id` is the one `index_of_node`
/// picks.
pub proof fn lemma_index_of_node(s: Seq<NetworkNodeView>, node_id: u32, i: int)
    requires
        node_ids_unique(s),
        0 <= i < s.len(),
        s[i].node_id == node_id,
    ensures
        has_node(s, node_id),
        index_of_node(s, node_id) == i,
{
    assert(has_node(s, node_id));
    let j = index_of_node(s, node_id);
    if i < j {
        assert(s[i].node_id != s[j].node_id);
    } else if j < i {
        assert(s[j].node_id != s[i].node_id);
    }
}

/// How many times `x` occurs in `s`.
pub open spec fn spec_count(s: Seq<u32>, x: u32) -> nat
    decreases s.len(),
{
    if s.len() == 0 {
        0
    } else {
        spec_count(s.drop_last(), x) + if s.last() == x {
            1nat
        } else {
            0nat
        }
    }
}

/// `s` holds no element twice.
pub open spec fn no_duplicates(s: Seq<u32>) -> bool {
    forall|i: int, j: int| 0 <= i < j < s.len() ==> s[i] != s[j]
}

/// `s` with every occurrence of `x` removed, order kept.
pub open spec fn spec_without(s: Seq<u32>, x: u32) -> Seq<u32>
    decreases s.len(),
{
    if s.len() == 0 {
        Seq::empty()
    } else {
        let rest = spec_without(s.drop_last(), x);
        if s.last() == x {
            rest
        } else {
            rest.push(s.last())
        }
    }
}

/// An adjacency list after one edge to `dest` is recorded: appended only
/// when absent, so repeated connect reports never duplicate a neighbor.
pub open spec fn spec_add_neighbor(neighbors: Seq<u32>, dest: u32) -> Seq<u32> {
    if neighbors.contains(dest) {
        neighbors
    } else {
        neighbors.push(dest)
    }
}

/// A ping applied to the graph: a known node only advances its timestamp,
/// and only if the ping is strictly newer; an unknown node gets a fresh
/// record with no neighbors.
pub open spec fn spec_upsert(
    s: Seq<NetworkNodeView>,
    node_id: u32,
    addr: String,
    time: u64,
) -> Seq<NetworkNodeView> {
    if has_node(s, node_id) {
        let i = index_of_node(s, node_id);
        s.update(
            i,
            NetworkNodeView {
                latest_ping: if time > s[i].latest_ping {
                    time
                } else {
                    s[i].latest_ping
                },
                ..s[i]
            },
        )
    } else {
        s.push(
            NetworkNodeView { node_id, node_addr: addr, latest_ping: time, neighbors: Seq::empty() },
        )
    }
}

/// An edge report applied to the graph: both endpoints are sighted, then the
/// destination joins the source's neighbors unless it is already there or
/// the report is a self-loop, which is rejected.
pub open spec fn spec_add_edge(
    s: Seq<NetworkNodeView>,
    src_id: u32,
    src_addr: String,
    dest_id: u32,
    dest_addr: String,
    time: u64,
) -> Seq<NetworkNodeView> {
    let s1 = spec_upsert(spec_upsert(s, src_id, src_addr, time), dest_id, dest_addr, time);
    if src_id == dest_id {
        s1
    } else {
        let i = index_of_node(s1, src_id);
        s1.update(
            i,
            NetworkNodeView { neighbors: spec_add_neighbor(s1[i].neighbors, dest_id), ..s1[i] },
        )
    }
}

/// An edge removal applied to the graph: the source is sighted, then the
/// destination leaves its neighbors; removing an absent neighbor changes
/// nothing.
pub open spec fn spec_remove_edge(
    s: Seq<NetworkNodeView>,
    src_id: u32,
    src_addr: String,
    dest_id: u32,
    time: u64,
) -> Seq<NetworkNodeView> {
    let s1 = spec_upsert(s, src_id, src_addr, time);
    let i = index_of_node(s1, src_id);
    s1.update(
        i,
        NetworkNodeView { neighbors: spec_without(s1[i].neighbors, dest_id), ..s1[i] },
    )
}

/// The neighbors stored for `node_id`, or the empty sequence when the node
/// is unknown.
pub open spec fn spec_neighbors(s: Seq<NetworkNodeView>, node_id: u32) -> Seq<u32> {
    if has_node(s, node_id) {
        s[index_of_node(s, node_id)].neighbors
    } else {
        Seq::empty()
    }
}

/// The neighbor-graph store.
pub struct NetworkGraph {
    nodes: Vec<NetworkNode>,
}

impl View for NetworkGraph {
    type V = Seq<NetworkNodeView>;

    closed spec fn view(&self) -> Seq<NetworkNodeView> {
        self.nodes@.map_values(|n: NetworkNode| n@)
    }
}

impl NetworkGraph {
    /// Node ids are distinct, no adjacency list holds a neighbor twice, and
    /// no node lists itself.
    pub open spec fn wf(&self) -> bool {
        &&& node_ids_unique(self@)
        &&& forall|i: int| 0 <= i < self@.len() ==> no_duplicates((#[trigger] self@[i]).neighbors)
        &&& forall|i: int|
            0 <= i < self@.len() ==> !(#[trigger] self@[i]).neighbors.contains(self@[i].node_id)
    }

    pub fn new() -> (r: NetworkGraph)
        ensures
            r@ == Seq::<NetworkNodeView>::empty(),
            r.wf(),
    {
        let r = NetworkGraph { nodes: Vec::new() };
        proof {
            assert(r@ =~= Seq::<NetworkNodeView>::empty());
        }
        r
    }

    /// The index of the node with id `node_id`, if one exists.
    fn find_index(&self, node_id: u32) -> (r: Option<usize>)
        ensures
            match r {
                Some(i) => i < self@.len() && self@[i as int].node_id == node_id,
                None => !has_node(self@, node_id),
            },
    {
        let mut i: usize = 0;
        while i < self.nodes.len()
            invariant
                i <= self.nodes.len(),
                self@ == self.nodes@.map_values(|n: NetworkNode| n@),
                forall|j: int| 0 <= j < i ==> (#[trigger] self.nodes@[j])@.node_id != node_id,
            decreases self.nodes.len() - i,
        {
            if self.nodes[i].node_id == node_id {
                return Some(i);
            }
            i += 1;
        }
        None
    }

    /// Applies a ping.  A stale or repeated ping never regresses the stored
    /// timestamp; a first sighting creates the node record.
    pub fn upsert_node(&mut self, node_id: u32, addr: String, time: u64)
        requires
            old(self).wf(),
        ensures
            final(self).wf(),
            final(self)@ == spec_upsert(old(self)@, node_id, addr, time),
    {
        match self.find_index(node_id) {
            Some(i) => {
                proof {
                    lemma_index_of_node(self@, node_id, i as int);
                }
                let node = &mut self.nodes[i];
                if time > node.latest_ping {
                    node.latest_ping = time;
                }
                proof {
                    assert(self@ =~= spec_upsert(old(self)@, node_id, addr, time));
                }
            }
            None => {
                self.nodes.push(
                    NetworkNode {
                        node_id,
                        node_addr: addr,
                        latest_ping: time,
                        node_neighbors: Vec::new(),
                    },
                );
                proof {
                    assert(self@ =~= spec_upsert(old(self)@, node_id, addr, time));
                }
            }
        }
    }

    /// Records a connect report: both endpoints are sighted and the
    /// destination joins the source's neighbors, deduplicated; a self-loop
    /// is rejected.
    pub fn add_edge(&mut self, data: NetworkGraphEdgeData)
        requires
            old(self).wf(),
        ensures
            final(self).wf(),
            final(self)@ == spec_add_edge(
                old(self)@,
                data.src_node.node_id,
                data.src_node.node_addr,
                data.dest_node.node_id,
                data.dest_node.node_addr,
                data.time,
            ),
    {
        let src_id = data.src_node.node_id;
        let dest_id = data.dest_node.node_id;
        self.upsert_node(src_id, data.src_node.node_addr, data.time);
        let ghost g1 = self@;
        proof {
            lemma_upsert_shape(old(self)@, src_id, data.src_node.node_addr, data.time);
        }
        self.upsert_node(dest_id, data.dest_node.node_addr, data.time);
        proof {
            lemma_upsert_shape(g1, dest_id, data.dest_node.node_addr, data.time);
        }
        if src_id == dest_id {
            return ;
        }
        let ghost s1 = self@;
        match self.find_index(src_id) {
            Some(i) => {
                proof {
                    lemma_index_of_node(self@, src_id, i as int);
                }
                let mut k: usize = 0;
                let node_len = self.nodes[i].node_neighbors.len();
                let mut present = false;
                while k < node_len
                    invariant
                        k <= node_len,
                        i < self@.len(),
                        self@ == s1,
                        node_len == self@[i as int].neighbors.len(),
                        present == self@[i as int].neighbors.take(k as int).contains(dest_id),
                    decreases node_len - k,
                {
                    let ghost taken = self@[i as int].neighbors.take(k as int);
                    if self.nodes[i].node_neighbors[k] == dest_id {
                        present = true;
                    }
                    proof {
                        assert(self@[i as int].neighbors.take(k + 1) =~= taken.push(
                            self@[i as int].neighbors[k as int],
                        ));
                        if present {
                            if self@[i as int].neighbors[k as int] == dest_id {
                                assert(self@[i as int].neighbors.take(k + 1)[k as int]
                                    == dest_id);
                            } else {
                                let w = choose|m: int|
                                    0 <= m < taken.len() && taken[m] == dest_id;
                                assert(self@[i as int].neighbors.take(k + 1)[w] == dest_id);
                            }
                            assert(self@[i as int].neighbors.take(k + 1).contains(dest_id));
                        } else {
                            assert(forall|m: int|
                                0 <= m < k + 1 ==> #[trigger] self@[i as int].neighbors.take(
                                    k + 1,
                                )[m] != dest_id);
                        }
                    }
                    k += 1;
                }
                proof {
                    assert(self@[i as int].neighbors.take(
                        self@[i as int].neighbors.len() as int,
                    ) =~= self@[i as int].neighbors);
                    if !present {
                        assert(!self@[i as int].neighbors.contains(dest_id));
                    }
                }
                if !present {
                    let node = &mut self.nodes[i];
                    node.node_neighbors.push(dest_id);
                }
                proof {
                    assert(self@ =~= s1.update(
                        i as int,
                        NetworkNodeView {
                            neighbors: spec_add_neighbor(s1[i as int].neighbors, dest_id),
                            ..s1[i as int]
                        },
                    ));
                }
            }
            None => {
                proof {
                    assert(has_node(s1, src_id));
                    assert(false);
                }
            }
        }
    }

    /// Records a disconnect report: the source is sighted and the
    /// destination leaves its neighbors; an absent neighbor means nothing to
    /// remove.
    pub fn remove_edge(&mut self, data: NetworkGraphEdgeData)
        requires
            old(self).wf(),
        ensures
            final(self).wf(),
            final(self)@ == spec_remove_edge(
                old(self)@,
                data.src_node.node_id,
                data.src_node.node_addr,
                data.dest_node.node_id,
                data.time,
            ),
    {
        let src_id = data.src_node.node_id;
        let dest_id = data.dest_node.node_id;
        self.upsert_node(src_id, data.src_node.node_addr, data.time);
        proof {
            lemma_upsert_shape(old(self)@, src_id, data.src_node.node_addr, data.time);
        }
        let ghost s1 = self@;
        match self.find_index(src_id) {
            Some(i) => {
                proof {
                    lemma_index_of_node(self@, src_id, i as int);
                }
                let mut kept: Vec<u32> = Vec::new();
                let mut k: usize = 0;
                let node_len = self.nodes[i].node_neighbors.len();
                while k < node_len
                    invariant
                        k <= node_len,
                        i < self@.len(),
                        self@ == s1,
                        node_len == self@[i as int].neighbors.len(),
                        kept@ =~= spec_without(
                            self@[i as int].neighbors.take(k as int),
                            dest_id,
                        ),
                    decreases node_len - k,
                {
                    let x = self.nodes[i].node_neighbors[k];
                    if x != dest_id {
                        kept.push(x);
                    }
                    proof {
                        assert(self@[i as int].neighbors.take(k + 1).drop_last() =~= self@[
                            i as int
                        ].neighbors.take(k as int));
                        assert(self@[i as int].neighbors.take(k + 1).last() == self@[
                            i as int
                        ].neighbors[k as int]);
                    }
                    k += 1;
                }
                proof {
                    assert(self@[i as int].neighbors.take(
                        self@[i as int].neighbors.len() as int,
                    ) =~= self@[i as int].neighbors);
                }
                let node = &mut self.nodes[i];
                node.node_neighbors = kept;
                proof {
                    lemma_without_keeps_no_duplicates(s1[i as int].neighbors, dest_id);
                    assert(self@ =~= s1.update(
                        i as int,
                        NetworkNodeView {
                            neighbors: spec_without(s1[i as int].neighbors, dest_id),
                            ..s1[i as int]
                        },
                    ));
                }
            }
            None => {
                proof {
                    assert(has_node(s1, src_id));
                    assert(false);
                }
            }
        }
    }

    /// A snapshot of the graph: id, address, last ping and neighbors of each
    /// node.
    pub fn list_nodes(&self) -> (r: Vec<(u32, String, u64, Vec<u32>)>)
        ensures
            r@.len() == self@.len(),
            forall|k: int|
                0 <= k < self@.len() ==> {
                    &&& (#[trigger] r@[k]).0 == self@[k].node_id
                    &&& r@[k].1 == self@[k].node_addr
                    &&& r@[k].2 == self@[k].latest_ping
                    &&& r@[k].3@ == self@[k].neighbors
                },
    {
        let mut ret: Vec<(u32, String, u64, Vec<u32>)> = Vec::new();
        let mut i: usize = 0;
        while i < self.nodes.len()
            invariant
                i <= self.nodes.len(),
                self@ == self.nodes@.map_values(|n: NetworkNode| n@),
                ret@.len() == i,
                forall|k: int|
                    0 <= k < i ==> {
                        &&& (#[trigger] ret@[k]).0 == self@[k].node_id
                        &&& ret@[k].1 == self@[k].node_addr
                        &&& ret@[k].2 == self@[k].latest_ping
                        &&& ret@[k].3@ == self@[k].neighbors
                    },
            decreases self.nodes.len() - i,
        {
            let node = &self.nodes[i];
            let mut neighbors: Vec<u32> = Vec::new();
            let mut k: usize = 0;
            while k < node.node_neighbors.len()
                invariant
                    k <= node.node_neighbors.len(),
                    neighbors@ =~= node.node_neighbors@.take(k as int),
                decreases node.node_neighbors.len() - k,
            {
                neighbors.push(node.node_neighbors[k]);
                proof {
                    assert(node.node_neighbors@.take(k + 1) =~= node.node_neighbors@.take(
                        k as int,
                    ).push(node.node_neighbors@[k as int]));
                }
                k += 1;
            }
            proof {
                assert(node.node_neighbors@.take(node.node_neighbors@.len() as int)
                    =~= node.node_neighbors@);
            }
            ret.push((node.node_id, node.node_addr.clone(), node.latest_ping, neighbors));
            i += 1;
        }
        ret
    }

    /// How many nodes are known.
    pub fn len(&self) -> (n: usize)
        ensures
            n == self@.len(),
    {
        self.nodes.len()
    }

    /// The stored record for `node_id`: id, address, last ping and
    /// neighbors, or `None` when unknown.
    pub fn get_node(&self, node_id: u32) -> (r: Option<(u32, String, u64, Vec<u32>)>)
        requires
            self.wf(),
        ensures
            match r {
                Some(t) => has_node(self@, node_id) && {
                    let v = self@[index_of_node(self@, node_id)];
                    t.0 == v.node_id && t.1 == v.node_addr && t.2 == v.latest_ping && t.3@
                        == v.neighbors
                },
                None => !has_node(self@, node_id),
            },
    {
        match self.find_index(node_id) {
            Some(i) => {
                proof {
                    lemma_index_of_node(self@, node_id, i as int);
                }
                let node = &self.nodes[i];
                let mut neighbors: Vec<u32> = Vec::new();
                let mut k: usize = 0;
                while k < node.node_neighbors.len()
                    invariant
                        k <= node.node_neighbors.len(),
                        neighbors@ =~= node.node_neighbors@.take(k as int),
                    decreases node.node_neighbors.len() - k,
                {
                    neighbors.push(node.node_neighbors[k]);
                    proof {
                        assert(node.node_neighbors@.take(k + 1) =~= node.node_neighbors@.take(
                            k as int,
                        ).push(node.node_neighbors@[k as int]));
                    }
                    k += 1;
                }
                proof {
                    assert(node.node_neighbors@.take(node.node_neighbors@.len() as int)
                        =~= node.node_neighbors@);
                }
                Some((node.node_id, node.node_addr.clone(), node.latest_ping, neighbors))
            }
            None => None,
        }
    }
}

/// Removing what is not there removes nothing.
pub proof fn lemma_without_absent(s: Seq<u32>, x: u32)
    requires
        !s.contains(x),
    ensures
        spec_without(s, x) == s,
    decreases s.len(),
{
    if s.len() > 0 {
        assert(forall|i: int| 0 <= i < s.len() - 1 ==> s.drop_last()[i] == s[i]);
        assert(!s.drop_last().contains(x));
        lemma_without_absent(s.drop_last(), x);
        assert(s[s.len() - 1] != x);
        assert(spec_without(s, x) =~= s);
    } else {
        assert(spec_without(s, x) =~= s);
    }
}

/// Filtering keeps distinctness.
pub proof fn lemma_without_keeps_no_duplicates(s: Seq<u32>, x: u32)
    requires
        no_duplicates(s),
    ensures
        no_duplicates(spec_without(s, x)),
        forall|y: u32| #[trigger] spec_without(s, x).contains(y) ==> s.contains(y) && y != x,
    decreases s.len(),
{
    if s.len() > 0 {
        assert(forall|i: int| 0 <= i < s.len() - 1 ==> s.drop_last()[i] == s[i]);
        assert(no_duplicates(s.drop_last()));
        lemma_without_keeps_no_duplicates(s.drop_last(), x);
        assert(forall|y: u32| #[trigger] s.drop_last().contains(y) ==> s.contains(y));
        if s.last() != x {
            let rest = spec_without(s.drop_last(), x);
            assert(!s.drop_last().contains(s.last()));
            assert(!rest.contains(s.last()));
            assert(forall|i: int, j: int|
                0 <= i < j < rest.push(s.last()).len() ==> rest.push(s.last())[i] != rest.push(
                    s.last(),
                )[j]);
            assert(forall|y: u32| #[trigger]
                rest.push(s.last()).contains(y) ==> rest.contains(y) || y == s.last());
            assert(s.contains(s.last()));
        }
    }
}

/// Distinct elements occur at most once: when present, exactly once.
pub proof fn lemma_count_of_distinct(s: Seq<u32>, x: u32)
    requires
        no_duplicates(s),
    ensures
        s.contains(x) ==> spec_count(s, x) == 1,
        !s.contains(x) ==> spec_count(s, x) == 0,
    decreases s.len(),
{
    if s.len() > 0 {
        assert(forall|i: int| 0 <= i < s.len() - 1 ==> s.drop_last()[i] == s[i]);
        assert(no_duplicates(s.drop_last()));
        lemma_count_of_distinct(s.drop_last(), x);
        if s.last() == x {
            assert(!s.drop_last().contains(x));
        } else {
            if s.contains(x) {
                let w = choose|i: int| 0 <= i < s.len() && s[i] == x;
                assert(s.drop_last()[w] == x);
                assert(s.drop_last().contains(x));
            }
        }
    }
}

/// Recording the same edge any number of times leaves exactly one
/// occurrence of the destination in the source's neighbors: one application
/// puts it there once, and every further application changes nothing.
pub proof fn lemma_add_edge_dedup(
    s: Seq<NetworkNodeView>,
    src_id: u32,
    src_addr: String,
    dest_id: u32,
    dest_addr: String,
    t1: u64,
    t2: u64,
)
    requires
        node_ids_unique(s),
        forall|i: int| 0 <= i < s.len() ==> no_duplicates((#[trigger] s[i]).neighbors),
        src_id != dest_id,
    ensures
        spec_count(
            spec_neighbors(spec_add_edge(s, src_id, src_addr, dest_id, dest_addr, t1), src_id),
            dest_id,
        ) == 1,
        spec_neighbors(
            spec_add_edge(
                spec_add_edge(s, src_id, src_addr, dest_id, dest_addr, t1),
                src_id,
                src_addr,
                dest_id,
                dest_addr,
                t2,
            ),
            src_id,
        ) == spec_neighbors(spec_add_edge(s, src_id, src_addr, dest_id, dest_addr, t1), src_id),
{
    let g1 = spec_add_edge(s, src_id, src_addr, dest_id, dest_addr, t1);
    lemma_add_edge_shape(s, src_id, src_addr, dest_id, dest_addr, t1);
    let n0 = spec_neighbors_after_upserts(s, src_id, src_addr, dest_id, dest_addr, t1);
    let n1 = spec_neighbors(g1, src_id);
    if !n0.contains(dest_id) {
        assert(n1 == n0.push(dest_id));
        assert(n1[n0.len() as int] == dest_id);
    }
    assert(n1.contains(dest_id));
    assert(no_duplicates(n1));
    lemma_count_of_distinct(n1, dest_id);
    lemma_add_edge_shape(g1, src_id, src_addr, dest_id, dest_addr, t2);
    let g2 = spec_add_edge(g1, src_id, src_addr, dest_id, dest_addr, t2);
    assert(spec_neighbors(g2, src_id) == spec_add_neighbor(n1, dest_id));
}

/// After an edge report, the graph still has distinct node ids with
/// duplicate-free adjacency, the source's neighbors are its old ones with
/// the destination present once more at most, and every other node keeps
/// its neighbors.
pub proof fn lemma_add_edge_shape(
    s: Seq<NetworkNodeView>,
    src_id: u32,
    src_addr: String,
    dest_id: u32,
    dest_addr: String,
    time: u64,
)
    requires
        node_ids_unique(s),
        forall|i: int| 0 <= i < s.len() ==> no_duplicates((#[trigger] s[i]).neighbors),
        src_id != dest_id,
    ensures
        ({
            let g = spec_add_edge(s, src_id, src_addr, dest_id, dest_addr, time);
            &&& node_ids_unique(g)
            &&& forall|i: int| 0 <= i < g.len() ==> no_duplicates((#[trigger] g[i]).neighbors)
            &&& has_node(g, src_id)
            &&& spec_neighbors(g, src_id) == spec_add_neighbor(spec_neighbors_after_upserts(s, src_id, src_addr, dest_id, dest_addr, time), dest_id)
            &&& spec_neighbors_after_upserts(s, src_id, src_addr, dest_id, dest_addr, time) == spec_neighbors(s, src_id)
        }),
{
    let s1 = spec_upsert(s, src_id, src_addr, time);
    let s2 = spec_upsert(s1, dest_id, dest_addr, time);
    lemma_upsert_shape(s, src_id, src_addr, time);
    lemma_upsert_shape(s1, dest_id, dest_addr, time);
    assert(spec_neighbors(s2, src_id) == spec_neighbors(s, src_id));
    let i = index_of_node(s2, src_id);
    if has_node(s2, src_id) {
        let g = spec_add_edge(s, src_id, src_addr, dest_id, dest_addr, time);
        assert(g == s2.update(
            i,
            NetworkNodeView {
                neighbors: spec_add_neighbor(s2[i].neighbors, dest_id),
                ..s2[i]
            },
        ));
        assert(g[i].node_id == src_id);
        assert(node_ids_unique(g));
        lemma_index_of_node(g, src_id, i);
        if !s2[i].neighbors.contains(dest_id) {
            let nn = s2[i].neighbors.push(dest_id);
            assert(forall|a: int, b: int| 0 <= a < b < nn.len() ==> nn[a] != nn[b]);
        }
    }
}

/// A ping keeps every node's id and neighbors; only the timestamp of the
/// pinged node can move, and a fresh node starts with no neighbors.
pub proof fn lemma_upsert_shape(s: Seq<NetworkNodeView>, node_id: u32, addr: String, time: u64)
    requires
        node_ids_unique(s),
    ensures
        ({
            let g = spec_upsert(s, node_id, addr, time);
            &&& node_ids_unique(g)
            &&& has_node(g, node_id)
            &&& forall|id: u32| #[trigger] has_node(g, id) == (has_node(s, id) || id == node_id)
            &&& forall|id: u32| #[trigger] spec_neighbors(g, id) == spec_neighbors(s, id)
            &&& (forall|i: int|
                0 <= i < s.len() ==> no_duplicates((#[trigger] s[i]).neighbors)) ==> (forall|
                j: int,
            |
                0 <= j < g.len() ==> no_duplicates((#[trigger] g[j]).neighbors))
        }),
{
    let g = spec_upsert(s, node_id, addr, time);
    if has_node(s, node_id) {
        let i = index_of_node(s, node_id);
        assert(g[i].node_id == node_id);
        assert(node_ids_unique(g));
        lemma_index_of_node(g, node_id, i);
        assert forall|id: u32| #[trigger] has_node(g, id) == (has_node(s, id) || id == node_id)
        by {
            if has_node(s, id) {
                let k = index_of_node(s, id);
                assert(g[k].node_id == id);
                assert(has_node(g, id));
            }
            if has_node(g, id) {
                let k = index_of_node(g, id);
                assert(s[k].node_id == id || k == i);
                if k != i {
                    assert(has_node(s, id));
                }
            }
        }
        assert forall|id: u32| #[trigger] spec_neighbors(g, id) == spec_neighbors(s, id) by {
            if has_node(s, id) {
                let k = index_of_node(s, id);
                lemma_index_of_node(s, id, k);
                assert(g[k].node_id == id);
                lemma_index_of_node(g, id, k);
            } else {
                assert(!has_node(g, id));
            }
        }
        assert forall|j: int| 0 <= j < g.len() implies g[j].neighbors == s[j].neighbors by {}
    } else {
        let i = s.len() as int;
        assert(g[i].node_id == node_id);
        assert(node_ids_unique(g));
        lemma_index_of_node(g, node_id, i);
        assert forall|id: u32| #[trigger] has_node(g, id) == (has_node(s, id) || id == node_id)
        by {
            if has_node(s, id) {
                let k = index_of_node(s, id);
                assert(g[k].node_id == id);
                assert(has_node(g, id));
            }
            if has_node(g, id) {
                let k = index_of_node(g, id);
                if k != i {
                    assert(s[k].node_id == id);
                    assert(has_node(s, id));
                }
            }
        }
        assert forall|id: u32| #[trigger] spec_neighbors(g, id) == spec_neighbors(s, id) by {
            if has_node(s, id) {
                let k = index_of_node(s, id);
                lemma_index_of_node(s, id, k);
                assert(g[k].node_id == id);
                lemma_index_of_node(g, id, k);
            } else if id == node_id {
                assert(spec_neighbors(g, id) == Seq::<u32>::empty());
            } else {
                assert(!has_node(g, id));
            }
        }
    }
}

/// `spec_neighbors` of the source after both endpoint upserts; named so the
/// dedup law can speak of the intermediate state.
pub open spec fn spec_neighbors_after_upserts(
    s: Seq<NetworkNodeView>,
    src_id: u32,
    src_addr: String,
    dest_id: u32,
    dest_addr: String,
    time: u64,
) -> Seq<u32> {
    spec_neighbors(
        spec_upsert(spec_upsert(s, src_id, src_addr, time), dest_id, dest_addr, time),
        src_id,
    )
}

/// Removing an edge whose destination is not a neighbor leaves the
/// source's neighbor list unchanged, and is no error.
pub proof fn lemma_remove_edge_absent(
    s: Seq<NetworkNodeView>,
    src_id: u32,
    src_addr: String,
    dest_id: u32,
    time: u64,
)
    requires
        node_ids_unique(s),
        !spec_neighbors(s, src_id).contains(dest_id),
    ensures
        spec_neighbors(spec_remove_edge(s, src_id, src_addr, dest_id, time), src_id)
            == spec_neighbors(s, src_id),
{
    let s1 = spec_upsert(s, src_id, src_addr, time);
    lemma_upsert_shape(s, src_id, src_addr, time);
    assert(spec_neighbors(s1, src_id) == spec_neighbors(s, src_id));
    let i = index_of_node(s1, src_id);
    let g = spec_remove_edge(s, src_id, src_addr, dest_id, time);
    assert(0 <= i < s1.len() && s1[i].node_id == src_id);
    assert(s1[i].neighbors == spec_neighbors(s1, src_id));
    lemma_without_absent(s1[i].neighbors, dest_id);
    assert(g[i].node_id == src_id);
    assert(node_ids_unique(g));
    lemma_index_of_node(g, src_id, i);
    assert(spec_neighbors(g, src_id) == spec_without(s1[i].neighbors, dest_id));
}

} // verus!
