//! Packed connection ids.
//!
//! A connection id packs `(remoteNodeId, protocol, direction)` into one `u64`:
//! `node_id << 16 | protocol << 8 | direction`.  Two links to the same remote
//! node over the same protocol in the same direction get the same id on
//! purpose: repeated connect events for one logical link coalesce.

use vstd::prelude::*;

use crate::identity::ConnectionDirection;

verus! {

/// The id that [`generate_connection_id`] packs from the three parts.
pub open spec fn spec_connection_id(protocol: u8, direction_byte: u8, node_id: u32) -> u64 {
    ((node_id as u64) << 16) | ((protocol as u64) << 8) | (direction_byte as u64)
}

/// The node-id part of a packed connection id.
pub open spec fn spec_id_node(id: u64) -> u32 {
    (id >> 16) as u32
}

/// The protocol part of a packed connection id.
pub open spec fn spec_id_protocol(id: u64) -> u8 {
    (id >> 8) as u8
}

/// The direction byte of a packed connection id.
pub open spec fn spec_id_direction_byte(id: u64) -> u8 {
    id as u8
}

/// Packing is lossless: each part is recovered from the packed id.
pub proof fn lemma_connection_id_parts(protocol: u8, direction_byte: u8, node_id: u32)
    ensures
        spec_id_node(spec_connection_id(protocol, direction_byte, node_id)) == node_id,
        spec_id_protocol(spec_connection_id(protocol, direction_byte, node_id)) == protocol,
        spec_id_direction_byte(spec_connection_id(protocol, direction_byte, node_id))
            == direction_byte,
{
    assert(((((node_id as u64) << 16) | ((protocol as u64) << 8) | (direction_byte as u64))
        >> 16) as u32 == node_id) by (bit_vector);
    assert(((((node_id as u64) << 16) | ((protocol as u64) << 8) | (direction_byte as u64))
        >> 8) as u8 == protocol) by (bit_vector);
    assert(((((node_id as u64) << 16) | ((protocol as u64) << 8) | (direction_byte as u64)))
        as u8 == direction_byte) by (bit_vector);
}

/// Packs remote node id, protocol and direction into one connection id.
pub fn generate_connection_id(protocol: u8, direction: ConnectionDirection, node_id: u32) -> (id: u64)
    ensures
        id == spec_connection_id(protocol, direction.as_byte(), node_id),
        spec_id_node(id) == node_id,
        spec_id_protocol(id) == protocol,
        spec_id_direction_byte(id) == direction.as_byte(),
{
    let d: u8 = direction.to_byte();
    let id: u64 = ((node_id as u64) << 16) | ((protocol as u64) << 8) | (d as u64);
    proof {
        lemma_connection_id_parts(protocol, d, node_id);
    }
    id
}

/// The direction encoded in a packed connection id: byte 0 is outgoing,
/// anything else incoming.
pub fn get_direction(id: u64) -> (d: ConnectionDirection)
    ensures
        d == (if spec_id_direction_byte(id) == 0 {
            ConnectionDirection::Outgoing
        } else {
            ConnectionDirection::Incoming
        }),
{
    let b: u8 = #[verifier::truncate] (id as u8);
    match b {
        0 => ConnectionDirection::Outgoing,
        _ => ConnectionDirection::Incoming,
    }
}

/// The protocol encoded in a packed connection id.
pub fn get_protocol(id: u64) -> (p: u8)
    ensures
        p == spec_id_protocol(id),
{
    let p: u8 = #[verifier::truncate] ((id >> 8) as u8);
    p
}

/// The remote node id encoded in a packed connection id.
pub fn get_node_id(id: u64) -> (n: u32)
    ensures
        n == spec_id_node(id),
{
    let n: u32 = #[verifier::truncate] ((id >> 16) as u32);
    n
}

} // verus!
