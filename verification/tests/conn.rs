use sdn_visualization::identity::ConnectionDirection;
use sdn_visualization::{generate_connection_id, get_direction, get_node_id, get_protocol};

#[test]
fn test_generate_connection_id() {
    let protocol: u8 = 1;
    let direction = ConnectionDirection::Outgoing;
    let node_id: u32 = 12345;

    let result = generate_connection_id(protocol, direction, node_id);

    assert_eq!(get_direction(result), ConnectionDirection::Outgoing);
    assert_eq!(get_protocol(result), protocol);
    assert_eq!(get_node_id(result), node_id);
}

#[test]
fn test_generate_connection_id_incoming() {
    let result = generate_connection_id(7, ConnectionDirection::Incoming, 99);

    assert_eq!(get_direction(result), ConnectionDirection::Incoming);
    assert_eq!(get_protocol(result), 7);
    assert_eq!(get_node_id(result), 99);
}

#[test]
fn test_direction_bytes() {
    assert_eq!(ConnectionDirection::Outgoing.to_byte(), 0);
    assert_eq!(ConnectionDirection::Incoming.to_byte(), 1);
}
