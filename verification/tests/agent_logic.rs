use atm0s_sdn_identity::NodeAddrBuilder;
use sdn_visualization::agent::logic::build_conns_stats_msg;
use sdn_visualization::{
    ConnectionMetric, ConnectionNode, ConnectionStatus, VisualizationAgentMsg, MAX_CONN_STATS_SEND,
};

#[test]
fn should_return_list_of_msgs_with_metrics_when_given_list_of_connections_with_metrics() {
    let node_id = 1;
    let addr_builder = NodeAddrBuilder::new(1);
    let conns: Vec<ConnectionNode> = vec![
        ConnectionNode {
            uuid: 1,
            protocol: 1,
            addr: addr_builder.addr().to_string(),
            node_id,
            direction: 1,
            status: ConnectionStatus::CONNECTED,
            metric: Some(ConnectionMetric {
                latency: 1,
                loss_percent: 0,
                bandwidth: 100,
            }),
            latest_updated_at: 0,
        },
        ConnectionNode {
            uuid: 1,
            protocol: 1,
            addr: addr_builder.addr().to_string(),
            node_id,
            direction: 1,
            status: ConnectionStatus::CONNECTED,
            metric: Some(ConnectionMetric {
                latency: 1,
                loss_percent: 0,
                bandwidth: 100,
            }),
            latest_updated_at: 0,
        },
    ];

    let result = build_conns_stats_msg(node_id, conns);

    assert_eq!(result.len(), 1);
    match &result[0] {
        VisualizationAgentMsg::NodeConnections(id, conns) => {
            assert_eq!(*id, node_id);
            assert_eq!(conns.len(), 2);
        }
        _ => {}
    }
}

#[test]
fn should_split_to_multi_msg_if_number_conn_is_greater_than_max() {
    let node_id = 1;
    let addr_builder = NodeAddrBuilder::new(1);
    let mut conns: Vec<ConnectionNode> = Vec::new();
    for i in 0..MAX_CONN_STATS_SEND + 1 {
        conns.push(ConnectionNode {
            uuid: (i + 1) as u64,
            protocol: 1,
            addr: addr_builder.addr().to_string(),
            node_id,
            direction: 1,
            status: ConnectionStatus::CONNECTED,
            metric: Some(ConnectionMetric {
                latency: 1,
                loss_percent: 0,
                bandwidth: 100,
            }),
            latest_updated_at: 0,
        })
    }
    let result = build_conns_stats_msg(node_id, conns);

    assert_eq!(result.len(), 2);
}

fn sample_conn(uuid: u64, with_metric: bool) -> ConnectionNode {
    ConnectionNode {
        uuid,
        protocol: 1,
        addr: format!("addr-{}", uuid),
        node_id: uuid as u32,
        direction: 0,
        status: ConnectionStatus::CONNECTED,
        metric: if with_metric {
            Some(ConnectionMetric {
                latency: 5,
                bandwidth: 100,
                loss_percent: 0,
            })
        } else {
            None
        },
        latest_updated_at: uuid,
    }
}

#[test]
fn batches_cover_each_eligible_connection_exactly_once() {
    let mut conns: Vec<ConnectionNode> = Vec::new();
    for i in 0..25u64 {
        // every fifth connection has no metric yet and must not be reported
        conns.push(sample_conn(i, i % 5 != 0));
    }
    let eligible: Vec<u64> = (0..25u64).filter(|i| i % 5 != 0).collect();

    let result = build_conns_stats_msg(9, conns);

    let mut seen: Vec<u64> = Vec::new();
    for (k, msg) in result.iter().enumerate() {
        match msg {
            VisualizationAgentMsg::NodeConnections(id, batch) => {
                assert_eq!(*id, 9);
                assert!(!batch.is_empty());
                assert!(batch.len() <= MAX_CONN_STATS_SEND);
                if k + 1 < result.len() {
                    assert_eq!(batch.len(), MAX_CONN_STATS_SEND);
                }
                for c in batch {
                    seen.push(c.conn_id);
                }
            }
            _ => panic!("a batch message was expected"),
        }
    }
    assert_eq!(seen, eligible);
    assert_eq!(result.len(), 2);
}

#[test]
fn exactly_full_batch_is_one_message() {
    let mut conns: Vec<ConnectionNode> = Vec::new();
    for i in 0..MAX_CONN_STATS_SEND as u64 {
        conns.push(sample_conn(i, true));
    }
    let result = build_conns_stats_msg(3, conns);
    assert_eq!(result.len(), 1);
    match &result[0] {
        VisualizationAgentMsg::NodeConnections(_, batch) => {
            assert_eq!(batch.len(), MAX_CONN_STATS_SEND)
        }
        _ => panic!("a batch message was expected"),
    }
}

#[test]
fn no_eligible_connections_give_no_batch() {
    let conns = vec![sample_conn(1, false), sample_conn(2, false)];
    let result = build_conns_stats_msg(3, conns);
    assert_eq!(result.len(), 0);
}
