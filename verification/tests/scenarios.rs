use atm0s_sdn_identity::{NodeAddr, NodeAddrBuilder};
use sdn_visualization::agent::logic::VisualizationAgentLogic;
use sdn_visualization::master::controller::VisualizationController;
use sdn_visualization::master::logic::VisualizationMasterLogic;
use sdn_visualization::service::logic::action_of_msg;
use sdn_visualization::service::msg::{VisualizationControllAction, VisualizationMsg};
use sdn_visualization::{
    ConnectionDirection, ConnectionMetric, ConnectionModifyData, ConnectionMsg, ConnectionStatus,
    ConnectionStorage, VisualizationAgentMsg,
};

fn sample_metric() -> ConnectionMetric {
    ConnectionMetric {
        latency: 50,
        bandwidth: 1000,
        loss_percent: 0,
    }
}

fn conn_msg(conn_id: u64, node_id: u32, status: ConnectionStatus, ts: u64) -> ConnectionMsg {
    ConnectionMsg {
        conn_id,
        protocol: 0,
        addr: String::from("10.0.0.2:40000"),
        node_id,
        direction: 0,
        status,
        metric: sample_metric(),
        latest_updated_at: ts,
    }
}

#[test]
fn scenario_ping_then_connections_is_visible_in_get_node() {
    let mut logic = VisualizationMasterLogic::new(VisualizationController::new());
    logic.process_agent_msg(VisualizationAgentMsg::NodePing(
        1,
        String::from("10.0.0.1:40000"),
        1000,
    ));
    logic.process_agent_msg(VisualizationAgentMsg::NodeConnections(
        1,
        vec![conn_msg(5, 2, ConnectionStatus::CONNECTED, 1000)],
    ));

    let nodes = logic.get_nodes();
    assert_eq!(nodes.len(), 1);
    assert_eq!(nodes[0].id, 1);
    assert_eq!(nodes[0].last_ping_ts, 1000);
    assert_eq!(nodes[0].conns.len(), 1);
    assert_eq!(nodes[0].conns[0].id, 5);
    assert_eq!(nodes[0].conns[0].status, ConnectionStatus::CONNECTED);
}

#[test]
fn scenario_later_disconnect_updates_record_without_deleting_it() {
    let mut logic = VisualizationMasterLogic::new(VisualizationController::new());
    logic.process_agent_msg(VisualizationAgentMsg::NodePing(
        1,
        String::from("10.0.0.1:40000"),
        1000,
    ));
    logic.process_agent_msg(VisualizationAgentMsg::NodeConnections(
        1,
        vec![conn_msg(5, 2, ConnectionStatus::CONNECTED, 1000)],
    ));
    logic.process_agent_msg(VisualizationAgentMsg::NodeConnections(
        1,
        vec![conn_msg(5, 2, ConnectionStatus::DISCONNECTED, 2000)],
    ));

    let nodes = logic.get_nodes();
    assert_eq!(nodes.len(), 1);
    assert_eq!(nodes[0].conns.len(), 1);
    assert_eq!(nodes[0].conns[0].id, 5);
    assert_eq!(nodes[0].conns[0].status, ConnectionStatus::DISCONNECTED);
    assert_eq!(nodes[0].conns[0].last_updated_at, 2000);
}

#[test]
fn scenario_disconnect_for_unknown_connection_leaves_store_unchanged() {
    let mut store = ConnectionStorage::new();
    let changed = store.update_connection_data(
        777,
        ConnectionModifyData {
            status: Some(ConnectionStatus::DISCONNECTED),
            metric: None,
            latest_updated_at: 5,
        },
    );
    assert!(!changed);
    assert_eq!(store.len(), 0);
}

#[test]
fn agent_disconnect_for_unknown_connection_does_not_panic() {
    let mut logic = VisualizationAgentLogic::new(1, String::from("10.0.0.1:40000"));
    logic.on_node_disconnected(0, ConnectionDirection::Outgoing, 9, 100);
    logic.report_stats(200);
    // only the liveness ping is queued: the unknown link left no record
    let first = logic.pop_msg();
    assert_eq!(
        first,
        Some(VisualizationAgentMsg::NodePing(1, String::from("10.0.0.1:40000"), 200))
    );
    assert_eq!(logic.pop_msg(), None);
}

#[test]
fn repeated_ping_with_same_timestamp_changes_nothing() {
    let mut logic = VisualizationMasterLogic::new(VisualizationController::new());
    logic.process_agent_msg(VisualizationAgentMsg::NodePing(
        7,
        String::from("10.0.0.7:40000"),
        500,
    ));
    let once = logic.get_nodes();
    logic.process_agent_msg(VisualizationAgentMsg::NodePing(
        7,
        String::from("10.0.0.7:40000"),
        500,
    ));
    let twice = logic.get_nodes();
    assert_eq!(once, twice);
}

#[test]
fn stale_ping_never_regresses_liveness() {
    let mut logic = VisualizationMasterLogic::new(VisualizationController::new());
    logic.process_agent_msg(VisualizationAgentMsg::NodePing(
        7,
        String::from("10.0.0.7:40000"),
        900,
    ));
    logic.process_agent_msg(VisualizationAgentMsg::NodePing(
        7,
        String::from("10.0.0.7:40000"),
        300,
    ));
    let nodes = logic.get_nodes();
    assert_eq!(nodes.len(), 1);
    assert_eq!(nodes[0].last_ping_ts, 900);
}

#[test]
fn agent_reconnect_flips_status_and_keeps_metric() {
    let mut store = ConnectionStorage::new();
    store.new_connection(
        0,
        ConnectionDirection::Outgoing,
        2,
        String::from("10.0.0.2:40000"),
        10,
    );
    let uuid = sdn_visualization::generate_connection_id(0, ConnectionDirection::Outgoing, 2);
    let updated = store.update_connection_data(
        uuid,
        ConnectionModifyData {
            status: None,
            metric: Some(sample_metric()),
            latest_updated_at: 20,
        },
    );
    assert!(updated);
    let disconnected = store.update_connection_data(
        uuid,
        ConnectionModifyData {
            status: Some(ConnectionStatus::DISCONNECTED),
            metric: None,
            latest_updated_at: 30,
        },
    );
    assert!(disconnected);
    let conns = store.list_conns();
    assert_eq!(conns.len(), 1);
    assert_eq!(conns[0].status, ConnectionStatus::DISCONNECTED);
    assert_eq!(conns[0].metric, Some(sample_metric()));
    assert_eq!(conns[0].latest_updated_at, 30);

    store.new_connection(
        0,
        ConnectionDirection::Outgoing,
        2,
        String::from("10.0.0.2:40000"),
        40,
    );
    let conns = store.list_conns();
    assert_eq!(conns.len(), 1);
    assert_eq!(conns[0].status, ConnectionStatus::CONNECTED);
    assert_eq!(conns[0].metric, Some(sample_metric()));
    assert_eq!(conns[0].latest_updated_at, 40);
}

fn addr_bytes(node_id: u32) -> Vec<u8> {
    NodeAddrBuilder::new(node_id).addr().to_vec()
}

#[test]
fn action_of_msg_parses_addresses_and_filters_own_ping() {
    let bytes = addr_bytes(2);
    let expected_addr = NodeAddr::from_vec(&bytes).unwrap().to_string();
    let action = action_of_msg(1, VisualizationMsg::NodeStats(2, bytes.clone(), 50));
    assert_eq!(
        action,
        Some(VisualizationControllAction::NodeStats(2, expected_addr, 50))
    );

    // a node's report about itself is filtered
    let own = action_of_msg(2, VisualizationMsg::NodeStats(2, bytes, 50));
    assert_eq!(own, None);
}

#[test]
fn action_of_msg_drops_malformed_addresses() {
    // too short to carry a node id
    let action = action_of_msg(1, VisualizationMsg::NodeStats(2, vec![1, 2], 50));
    assert_eq!(action, None);

    // a connect report with one bad endpoint is dropped whole
    let bad = vec![0, 0, 0, 2, 255, 255, 255];
    let good = addr_bytes(3);
    let action = action_of_msg(1, VisualizationMsg::OnNodeConnected(2, bad, 3, good, 60));
    assert_eq!(action, None);
}

#[test]
fn action_of_msg_builds_edge_actions() {
    let src = addr_bytes(2);
    let dest = addr_bytes(3);
    let src_text = NodeAddr::from_vec(&src).unwrap().to_string();
    let dest_text = NodeAddr::from_vec(&dest).unwrap().to_string();
    let connected = action_of_msg(
        1,
        VisualizationMsg::OnNodeConnected(2, src.clone(), 3, dest.clone(), 60),
    );
    assert_eq!(
        connected,
        Some(VisualizationControllAction::OnNodeConnected(
            2,
            src_text.clone(),
            3,
            dest_text.clone(),
            60
        ))
    );
    let disconnected = action_of_msg(1, VisualizationMsg::OnNodeDisconencted(2, src, 3, dest, 70));
    assert_eq!(
        disconnected,
        Some(VisualizationControllAction::OnNodeDisconencted(
            2, src_text, 3, dest_text, 70
        ))
    );
}

#[test]
fn report_stats_queues_ping_then_batches() {
    let mut logic = VisualizationAgentLogic::new(4, String::from("10.0.0.4:40000"));
    for i in 0..3u32 {
        logic.on_node_connected(
            0,
            ConnectionDirection::Outgoing,
            10 + i,
            format!("10.0.0.{}:40000", 10 + i),
            100,
        );
        logic.on_connection_stats(
            0,
            ConnectionDirection::Outgoing,
            10 + i,
            sample_metric(),
            110,
        );
    }
    logic.report_stats(200);
    let first = logic.pop_msg().unwrap();
    assert_eq!(
        first,
        VisualizationAgentMsg::NodePing(4, String::from("10.0.0.4:40000"), 200)
    );
    let second = logic.pop_msg().unwrap();
    match second {
        VisualizationAgentMsg::NodeConnections(id, batch) => {
            assert_eq!(id, 4);
            assert_eq!(batch.len(), 3);
        }
        _ => panic!("a batch message was expected"),
    }
    assert_eq!(logic.pop_msg(), None);
}
