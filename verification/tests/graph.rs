use atm0s_sdn_identity::NodeAddrBuilder;
use sdn_visualization::service::store::{NetworkGraph, NetworkGraphEdgeData};

fn addr_of(node_id: u32) -> String {
    NodeAddrBuilder::new(node_id).addr().to_string()
}

#[test]
fn test_upsert_new_node_unique_node_id() {
    let mut network_graph = NetworkGraph::new();
    let node_id = 1;
    let node_addr = addr_of(node_id);
    let time = 123;
    network_graph.upsert_node(node_id, node_addr, time);
    assert_eq!(network_graph.len(), 1);
    assert_eq!(network_graph.get_node(node_id).unwrap().2, time);
}

#[test]
fn test_upsert_existing_node_update_latest_ping() {
    let mut network_graph = NetworkGraph::new();
    let node_id = 1;
    let node_addr = addr_of(node_id);
    let time1 = 123;
    let time2 = 456;
    network_graph.upsert_node(node_id, node_addr.clone(), time1);
    network_graph.upsert_node(node_id, node_addr.clone(), time2);
    assert_eq!(network_graph.len(), 1);
    assert_eq!(network_graph.get_node(node_id).unwrap().2, time2);
}

#[test]
fn test_new_edge_added_correctly() {
    let mut network_graph = NetworkGraph::new();
    let src_node_id = 1;
    let dest_node_id = 2;
    let time = 123;
    let data = NetworkGraphEdgeData::new(
        src_node_id,
        addr_of(src_node_id),
        dest_node_id,
        addr_of(dest_node_id),
        time,
    );
    network_graph.add_edge(data);
    assert_eq!(network_graph.len(), 2);
    assert_eq!(network_graph.get_node(src_node_id).unwrap().3, vec![dest_node_id]);
}

#[test]
fn test_new_edge_added_with_existing_nodes() {
    let mut network_graph = NetworkGraph::new();
    let src_node_id = 1;
    let dest_node_id = 2;
    let time = 123;
    network_graph.upsert_node(src_node_id, addr_of(src_node_id), time);
    network_graph.upsert_node(dest_node_id, addr_of(dest_node_id), time);
    let data = NetworkGraphEdgeData::new(
        src_node_id,
        addr_of(src_node_id),
        dest_node_id,
        addr_of(dest_node_id),
        time,
    );
    network_graph.add_edge(data);
    assert_eq!(network_graph.len(), 2);
    assert_eq!(network_graph.get_node(src_node_id).unwrap().3, vec![dest_node_id]);
}

#[test]
fn test_new_edge_added_with_one_existing_node() {
    let mut network_graph = NetworkGraph::new();
    let src_node_id = 1;
    let dest_node_id = 2;
    let time = 123;
    network_graph.upsert_node(src_node_id, addr_of(src_node_id), time);
    let data = NetworkGraphEdgeData::new(
        src_node_id,
        addr_of(src_node_id),
        dest_node_id,
        addr_of(dest_node_id),
        time,
    );
    network_graph.add_edge(data);
    assert_eq!(network_graph.len(), 2);
    assert_eq!(network_graph.get_node(src_node_id).unwrap().3, vec![dest_node_id]);
}

#[test]
fn test_new_edge_not_added_same_source_dest() {
    let mut network_graph = NetworkGraph::new();
    let src_node_id = 1;
    let dest_node_id = 2;
    let time = 123;
    let data = NetworkGraphEdgeData::new(
        src_node_id,
        addr_of(src_node_id),
        dest_node_id,
        addr_of(dest_node_id),
        time,
    );
    network_graph.add_edge(data);
    let data2 = NetworkGraphEdgeData::new(
        src_node_id,
        addr_of(src_node_id),
        dest_node_id,
        addr_of(dest_node_id),
        456,
    );
    network_graph.add_edge(data2);
    assert_eq!(network_graph.len(), 2);
    assert_eq!(network_graph.get_node(src_node_id).unwrap().3, vec![dest_node_id]);
}

#[test]
fn test_remove_edge_successfully_removes_edge() {
    let mut network_graph = NetworkGraph::new();
    let src_node_id = 1;
    let dest_node_id = 2;
    let time = 123;
    let data = NetworkGraphEdgeData::new(
        src_node_id,
        addr_of(src_node_id),
        dest_node_id,
        addr_of(dest_node_id),
        time,
    );
    network_graph.add_edge(data);
    assert_eq!(network_graph.len(), 2);
    assert_eq!(network_graph.get_node(src_node_id).unwrap().3, vec![dest_node_id]);

    let remove_data = NetworkGraphEdgeData::new(
        src_node_id,
        addr_of(src_node_id),
        dest_node_id,
        addr_of(dest_node_id),
        456,
    );
    network_graph.remove_edge(remove_data);
    assert_eq!(network_graph.len(), 2);
    assert_eq!(network_graph.get_node(src_node_id).unwrap().3, Vec::<u32>::new());
}

#[test]
fn test_remove_edge_absent_neighbor_changes_nothing() {
    let mut network_graph = NetworkGraph::new();
    network_graph.upsert_node(1, addr_of(1), 10);
    let data = NetworkGraphEdgeData::new(1, addr_of(1), 2, addr_of(2), 20);
    network_graph.add_edge(data);
    let remove_other = NetworkGraphEdgeData::new(1, addr_of(1), 9, addr_of(9), 30);
    network_graph.remove_edge(remove_other);
    assert_eq!(network_graph.get_node(1).unwrap().3, vec![2]);
}

#[test]
fn test_add_edge_self_loop_rejected() {
    let mut network_graph = NetworkGraph::new();
    let data = NetworkGraphEdgeData::new(5, addr_of(5), 5, addr_of(5), 10);
    network_graph.add_edge(data);
    assert_eq!(network_graph.len(), 1);
    assert_eq!(network_graph.get_node(5).unwrap().3, Vec::<u32>::new());
}
