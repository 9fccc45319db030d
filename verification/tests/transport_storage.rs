use sdn_visualization::calc_hash;
use sdn_visualization::master::transport::{
    NetworkTransportData, NodeConnectionStorage, TransportConnectionData,
};
use sdn_visualization::{ConnectionMetric, ConnectionStatus};

fn fresh_transport(addr: &str, last_ping_ts: u64) -> NetworkTransportData {
    NetworkTransportData {
        id: calc_hash(&String::from(addr)),
        addr: String::from(addr),
        last_ping_ts,
        connections: vec![],
    }
}

#[test]
fn transport_test_upsert_node_adds_new_node_transport_data_if_address_not_present() {
    let mut storage = NodeConnectionStorage::new();
    let node_id = 1;
    let addr = String::from("127.0.0.1");
    let last_ping_ts = 123456789;

    storage.upsert_node(node_id, addr.clone(), last_ping_ts);

    assert_eq!(storage.len(), 1);
    let node = storage.get_node(node_id);
    assert_eq!(node.node_id, node_id);
    assert_eq!(node.transports, vec![fresh_transport("127.0.0.1", last_ping_ts)]);
}

#[test]
fn transport_test_upsert_node_updates_last_ping_ts_if_address_already_present_and_last_ping_ts_greater()
{
    let mut storage = NodeConnectionStorage::new();
    let node_id = 1;
    let addr = String::from("127.0.0.1");
    let last_ping_ts1 = 123456789;
    let last_ping_ts2 = 987654321;

    storage.upsert_node(node_id, addr.clone(), last_ping_ts1);
    storage.upsert_node(node_id, addr.clone(), last_ping_ts2);

    assert_eq!(storage.len(), 1);
    assert_eq!(
        storage.get_node(node_id).transports,
        vec![fresh_transport("127.0.0.1", last_ping_ts2)]
    );
}

#[test]
fn transport_test_upsert_node_does_not_update_last_ping_ts_if_address_already_present_and_last_ping_ts_less_or_equal()
{
    let mut storage = NodeConnectionStorage::new();
    let node_id = 1;
    let addr = String::from("127.0.0.1");
    let last_ping_ts1 = 123456789;
    let last_ping_ts2 = 987654321;

    storage.upsert_node(node_id, addr.clone(), last_ping_ts1);
    storage.upsert_node(node_id, addr.clone(), last_ping_ts2);
    storage.upsert_node(node_id, addr.clone(), last_ping_ts1);

    assert_eq!(storage.len(), 1);
    assert_eq!(
        storage.get_node(node_id).transports,
        vec![fresh_transport("127.0.0.1", last_ping_ts2)]
    );
}

#[test]
fn transport_test_update_node_connection_updates_fields_of_existing_transport_data_if_address_and_transport_data_match()
{
    let mut storage = NodeConnectionStorage::new();
    let node_id = 1;
    let addr = String::from("127.0.0.1");
    let last_ping_ts = 123456789;
    let transport_data1 = TransportConnectionData {
        id: calc_hash(&addr),
        node_id,
        addr: addr.clone(),
        metric: ConnectionMetric {
            latency: 1,
            loss_percent: 0,
            bandwidth: 100,
        },
        status: ConnectionStatus::CONNECTED,
        last_updated_at: 0,
        direction: 0,
    };
    let transport_data2 = TransportConnectionData {
        id: calc_hash(&addr),
        node_id,
        addr: addr.clone(),
        metric: ConnectionMetric {
            latency: 2,
            loss_percent: 1,
            bandwidth: 100,
        },
        status: ConnectionStatus::DISCONNECTED,
        last_updated_at: 987654321,
        direction: 0,
    };

    storage.upsert_node(node_id, addr.clone(), last_ping_ts);
    storage.update_node_connection(addr.clone(), vec![transport_data1.clone()]);
    storage.update_node_connection(addr.clone(), vec![transport_data2.clone()]);

    assert_eq!(storage.len(), 1);
    let node = storage.get_node(node_id);
    assert_eq!(node.transports.len(), 1);
    assert_eq!(node.transports[0].connections, vec![transport_data2]);
    assert_eq!(node.transports[0].last_ping_ts, last_ping_ts);
}

#[test]
fn transport_test_update_node_connection_removes_all_existing_transport_data_if_address_present_and_connections_empty()
{
    let mut storage = NodeConnectionStorage::new();
    let node_id = 1;
    let addr = String::from("127.0.0.1");
    let last_ping_ts = 123456789;
    let transport_data = TransportConnectionData {
        id: calc_hash(&addr),
        node_id,
        addr: addr.clone(),
        metric: ConnectionMetric {
            latency: 1,
            loss_percent: 0,
            bandwidth: 100,
        },
        status: ConnectionStatus::CONNECTED,
        last_updated_at: 0,
        direction: 0,
    };

    storage.upsert_node(node_id, addr.clone(), last_ping_ts);
    storage.update_node_connection(addr.clone(), vec![transport_data.clone()]);
    storage.update_node_connection(addr.clone(), vec![]);

    assert_eq!(storage.len(), 1);
    let node = storage.get_node(node_id);
    assert_eq!(node.transports.len(), 1);
    assert_eq!(node.transports[0].connections, vec![transport_data]);
}

#[test]
fn transport_test_update_node_connection_does_nothing_if_address_not_present() {
    let mut storage = NodeConnectionStorage::new();
    let addr = String::from("127.0.0.1");
    let transport_data = TransportConnectionData {
        id: calc_hash(&addr),
        node_id: 1,
        addr: addr.clone(),
        metric: ConnectionMetric {
            latency: 1,
            loss_percent: 0,
            bandwidth: 100,
        },
        status: ConnectionStatus::CONNECTED,
        last_updated_at: 0,
        direction: 0,
    };

    storage.update_node_connection(addr.clone(), vec![transport_data]);

    assert_eq!(storage.len(), 0);
}

#[test]
fn test_returns_network_node_data_with_correct_node_id_and_matching_transport_data() {
    let mut storage = NodeConnectionStorage::new();
    let node_id = 1;
    let addr1 = String::from("127.0.0.1");
    let addr2 = String::from("192.168.0.1");
    let last_ping_ts = 123456789;
    let transport_data1 = TransportConnectionData {
        id: calc_hash(&addr1),
        node_id,
        addr: addr1.clone(),
        metric: ConnectionMetric {
            latency: 1,
            loss_percent: 0,
            bandwidth: 100,
        },
        status: ConnectionStatus::CONNECTED,
        last_updated_at: 0,
        direction: 0,
    };
    let transport_data2 = TransportConnectionData {
        id: calc_hash(&addr2),
        node_id,
        addr: addr2.clone(),
        metric: ConnectionMetric {
            latency: 2,
            loss_percent: 1,
            bandwidth: 100,
        },
        status: ConnectionStatus::DISCONNECTED,
        last_updated_at: 987654321,
        direction: 0,
    };

    storage.upsert_node(node_id, addr1.clone(), last_ping_ts);
    storage.upsert_node(node_id, addr2.clone(), last_ping_ts);
    storage.update_node_connection(addr1.clone(), vec![transport_data1.clone()]);
    storage.update_node_connection(addr2.clone(), vec![transport_data2.clone()]);

    let result = storage.get_node(node_id);

    assert_eq!(result.node_id, node_id);
    assert_eq!(result.transports.len(), 2);
    assert_eq!(result.transports[0].addr, addr1);
    assert_eq!(result.transports[0].last_ping_ts, last_ping_ts);
    assert_eq!(result.transports[0].connections.len(), 1);
    assert_eq!(result.transports[0].connections[0], transport_data1);
    assert_eq!(result.transports[1].addr, addr2);
    assert_eq!(result.transports[1].last_ping_ts, last_ping_ts);
    assert_eq!(result.transports[1].connections.len(), 1);
    assert_eq!(result.transports[1].connections[0], transport_data2);
}

#[test]
fn transport_distinct_addresses_get_distinct_records() {
    let mut storage = NodeConnectionStorage::new();
    storage.upsert_node(1, String::from("10.0.0.1:40000"), 5);
    storage.upsert_node(1, String::from("10.0.0.2:40000"), 5);
    assert_eq!(storage.len(), 2);
}

#[test]
fn transport_list_node_groups_by_node_id() {
    let mut storage = NodeConnectionStorage::new();
    storage.upsert_node(1, String::from("10.0.0.1:40000"), 5);
    storage.upsert_node(2, String::from("10.0.0.2:40000"), 6);
    storage.upsert_node(1, String::from("10.0.0.3:40000"), 7);
    let nodes = storage.list_node();
    assert_eq!(nodes.len(), 2);
    assert_eq!(nodes[0].node_id, 1);
    assert_eq!(nodes[0].transports.len(), 2);
    assert_eq!(nodes[1].node_id, 2);
    assert_eq!(nodes[1].transports.len(), 1);
}
