use sdn_visualization::collector::storage::{NodeConnectionData, NodeConnectionStorage};
use sdn_visualization::{ConnectionMetric, ConnectionStatus, NodeData};

#[test]
fn storage_test_upsert_node_adds_new_node_transport_data_if_address_not_present() {
    let mut storage = NodeConnectionStorage::new();
    let node_id = 1;
    let addr = String::from("127.0.0.1");
    let last_ping_ts = 123456789;

    storage.upsert_node(node_id, addr.clone(), last_ping_ts);

    assert_eq!(storage.len(), 1);
    assert_eq!(storage.get_node(node_id), Some(NodeData::new(node_id, addr, last_ping_ts)));
}

#[test]
fn storage_test_upsert_node_updates_last_ping_ts_if_address_already_present_and_last_ping_ts_greater()
{
    let mut storage = NodeConnectionStorage::new();
    let node_id = 1;
    let addr = String::from("127.0.0.1");
    let last_ping_ts1 = 123456789;
    let last_ping_ts2 = 987654321;

    storage.upsert_node(node_id, addr.clone(), last_ping_ts1);
    storage.upsert_node(node_id, addr.clone(), last_ping_ts2);

    assert_eq!(storage.len(), 1);
    assert_eq!(storage.get_node(node_id), Some(NodeData::new(node_id, addr, last_ping_ts2)));
}

#[test]
fn storage_test_upsert_node_does_not_update_last_ping_ts_if_address_already_present_and_last_ping_ts_less_or_equal()
{
    let mut storage = NodeConnectionStorage::new();
    let node_id = 1;
    let addr = String::from("127.0.0.1");
    let last_ping_ts1 = 123456789;
    let last_ping_ts2 = 987654321;

    storage.upsert_node(node_id, addr.clone(), last_ping_ts1);
    storage.upsert_node(node_id, addr.clone(), last_ping_ts2);
    storage.upsert_node(node_id, addr.clone(), last_ping_ts1);

    assert_eq!(storage.len(), 1);
    assert_eq!(storage.get_node(node_id), Some(NodeData::new(node_id, addr, last_ping_ts2)));
}

#[test]
fn storage_test_update_node_connection_updates_fields_of_existing_transport_data_if_address_and_transport_data_match()
{
    let mut storage = NodeConnectionStorage::new();
    let node_id = 1;
    let addr = String::from("127.0.0.1");
    let last_ping_ts = 123456789;
    let conn1 = NodeConnectionData {
        id: 1,
        node_id,
        protocol: 1,
        addr: addr.clone(),
        metric: ConnectionMetric {
            latency: 1,
            loss_percent: 0,
            bandwidth: 100,
        },
        status: ConnectionStatus::CONNECTED,
        last_updated_at: 0,
        direction: 0,
    };
    let conn2 = NodeConnectionData {
        id: 1,
        node_id,
        protocol: 1,
        addr: addr.clone(),
        metric: ConnectionMetric {
            latency: 2,
            loss_percent: 1,
            bandwidth: 100,
        },
        status: ConnectionStatus::DISCONNECTED,
        last_updated_at: 987654321,
        direction: 0,
    };

    storage.upsert_node(node_id, addr.clone(), last_ping_ts);
    storage.update_node_connection(node_id, vec![conn1.clone()]);
    storage.update_node_connection(node_id, vec![conn2.clone()]);

    assert_eq!(storage.len(), 1);
    assert_eq!(
        storage.get_node(node_id),
        Some(NodeData {
            id: node_id,
            addr: addr.clone(),
            last_ping_ts,
            conns: vec![conn2],
        })
    );
}

#[test]
fn storage_test_update_node_connection_removes_all_existing_transport_data_if_address_present_and_connections_empty()
{
    let mut storage = NodeConnectionStorage::new();
    let node_id = 1;
    let addr = String::from("127.0.0.1");
    let last_ping_ts = 123456789;
    let conn = NodeConnectionData {
        id: 1,
        node_id,
        protocol: 1,
        addr: addr.clone(),
        metric: ConnectionMetric {
            latency: 1,
            loss_percent: 0,
            bandwidth: 100,
        },
        status: ConnectionStatus::CONNECTED,
        last_updated_at: 0,
        direction: 0,
    };

    storage.upsert_node(node_id, addr.clone(), last_ping_ts);
    storage.update_node_connection(node_id, vec![conn.clone()]);
    storage.update_node_connection(node_id, vec![]);

    assert_eq!(storage.len(), 1);
    assert_eq!(
        storage.get_node(node_id),
        Some(NodeData {
            id: node_id,
            addr: addr.clone(),
            last_ping_ts,
            conns: vec![conn],
        })
    );
}

#[test]
fn storage_test_update_node_connection_does_nothing_if_address_not_present() {
    let mut storage = NodeConnectionStorage::new();
    let addr = String::from("127.0.0.1");
    let conn = NodeConnectionData {
        id: 1,
        protocol: 1,
        node_id: 1,
        addr: addr.clone(),
        metric: ConnectionMetric {
            latency: 1,
            loss_percent: 0,
            bandwidth: 100,
        },
        status: ConnectionStatus::CONNECTED,
        last_updated_at: 0,
        direction: 0,
    };

    storage.update_node_connection(1, vec![conn]);

    assert_eq!(storage.len(), 0);
}

#[test]
fn storage_get_node_absent_is_none() {
    let storage = NodeConnectionStorage::new();
    assert_eq!(storage.get_node(42), None);
}
