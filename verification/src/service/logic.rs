//! Turns wire messages into controller actions.
//!
//! Addresses travel as raw bytes; a payload whose address fails to parse is
//! dropped whole, and a node's report about itself is filtered out, so no
//! malformed or self-referential message ever reaches a store.

use vstd::prelude::*;

use crate::service::msg::{VisualizationControllAction, VisualizationMsg};

verus! {

/// The address text that the overlay's address codec reads out of these
/// bytes, or nothing when they do not decode.  The codec's format is not
/// restated here; the name ties the trusted parse wrapper to the contracts
/// built on it.
pub uninterp spec fn parsed_addr(bytes: Seq<u8>) -> Option<Seq<char>>;

/// Relies on `atm0s_sdn_identity::NodeAddr::from_vec` and its `Display`
/// form: decoding reads the four-byte node id and then the multiaddress, so
/// it needs at least four bytes, and its outcome depends on the bytes alone.
#[verifier::external_body]
fn parse_addr(bytes: &Vec<u8>) -> (r: Option<String>)
    requires
        bytes@.len() >= 4,
    ensures
        match r {
            Some(s) => parsed_addr(bytes@) == Some(s@),
            None => parsed_addr(bytes@) is None,
        },
{
    atm0s_sdn_identity::NodeAddr::from_vec(bytes.as_slice()).map(|a| a.to_string())
}

/// These bytes decode to an address.
pub open spec fn spec_parse_ok(bytes: Seq<u8>) -> bool {
    bytes.len() >= 4 && parsed_addr(bytes) is Some
}

/// The address text these bytes decode to.
pub open spec fn spec_parsed(bytes: Seq<u8>) -> Seq<char> {
    parsed_addr(bytes)->0
}

/// The action a wire message asks of the controller, or `None` when the
/// message is malformed or reports this node's own liveness.
pub fn action_of_msg(self_node_id: u32, msg: VisualizationMsg) -> (r: Option<
    VisualizationControllAction,
>)
    ensures
        match msg {
            VisualizationMsg::NodeStats(id, addr_vec, ts) => {
                if spec_parse_ok(addr_vec@) && id != self_node_id {
                    r matches Some(a) && a matches VisualizationControllAction::NodeStats(
                        aid,
                        aaddr,
                        ats,
                    ) && aid == id && aaddr@ == spec_parsed(addr_vec@) && ats == ts
                } else {
                    r is None
                }
            },
            VisualizationMsg::OnNodeConnected(sid, src_vec, did, dest_vec, ts) => {
                if spec_parse_ok(src_vec@) && spec_parse_ok(dest_vec@) {
                    r matches Some(a) && a matches VisualizationControllAction::OnNodeConnected(
                        asid,
                        asaddr,
                        adid,
                        adaddr,
                        ats,
                    ) && asid == sid && asaddr@ == spec_parsed(src_vec@) && adid == did && adaddr@
                        == spec_parsed(dest_vec@) && ats == ts
                } else {
                    r is None
                }
            },
            VisualizationMsg::OnNodeDisconencted(sid, src_vec, did, dest_vec, ts) => {
                if spec_parse_ok(src_vec@) && spec_parse_ok(dest_vec@) {
                    r matches Some(a) && a matches VisualizationControllAction::OnNodeDisconencted(
                        asid,
                        asaddr,
                        adid,
                        adaddr,
                        ats,
                    ) && asid == sid && asaddr@ == spec_parsed(src_vec@) && adid == did && adaddr@
                        == spec_parsed(dest_vec@) && ats == ts
                } else {
                    r is None
                }
            },
        },
{
    match msg {
        VisualizationMsg::NodeStats(id, addr_vec, ts) => {
            if addr_vec.len() < 4 {
                return None;
            }
            match parse_addr(&addr_vec) {
                Some(addr) => {
                    if id != self_node_id {
                        Some(VisualizationControllAction::NodeStats(id, addr, ts))
                    } else {
                        None
                    }
                }
                None => None,
            }
        }
        VisualizationMsg::OnNodeConnected(sid, src_vec, did, dest_vec, ts) => {
            if src_vec.len() < 4 || dest_vec.len() < 4 {
                return None;
            }
            match (parse_addr(&src_vec), parse_addr(&dest_vec)) {
                (Some(src_addr), Some(dest_addr)) => {
                    Some(
                        VisualizationControllAction::OnNodeConnected(
                            sid,
                            src_addr,
                            did,
                            dest_addr,
                            ts,
                        ),
                    )
                }
                _ => None,
            }
        }
        VisualizationMsg::OnNodeDisconencted(sid, src_vec, did, dest_vec, ts) => {
            if src_vec.len() < 4 || dest_vec.len() < 4 {
                return None;
            }
            match (parse_addr(&src_vec), parse_addr(&dest_vec)) {
                (Some(src_addr), Some(dest_addr)) => {
                    Some(
                        VisualizationControllAction::OnNodeDisconencted(
                            sid,
                            src_addr,
                            did,
                            dest_addr,
                            ts,
                        ),
                    )
                }
                _ => None,
            }
        }
    }
}

} // verus!
