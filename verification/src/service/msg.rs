//! Messages and actions of the role-based monitor variant.

use vstd::prelude::*;

verus! {

/// Host configuration for the role-based monitor: own identity and whether
/// this node aggregates reports.
#[derive(Debug, PartialEq, Eq)]
pub struct VisualziationConf {
    pub node_id: u32,
    pub node_addr: String,
    pub is_master: bool,
}

impl Clone for VisualziationConf {
    fn clone(&self) -> (r: Self)
        ensures
            r == *self,
    {
        VisualziationConf {
            node_id: self.node_id,
            node_addr: self.node_addr.clone(),
            is_master: self.is_master,
        }
    }
}

/// What a controller asks the host to do, or records locally: a liveness
/// report or an edge event, each with source, destination and timestamp.
#[derive(Debug, PartialEq, Eq)]
pub enum VisualizationControllAction {
    /// Node id, node address, timestamp.
    NodeStats(u32, String, u64),
    /// Source id, source address, destination id, destination address,
    /// timestamp.
    OnNodeConnected(u32, String, u32, String, u64),
    /// Source id, source address, destination id, destination address,
    /// timestamp.
    OnNodeDisconencted(u32, String, u32, String, u64),
}

impl Clone for VisualizationControllAction {
    fn clone(&self) -> (r: Self)
        ensures
            r == *self,
    {
        match self {
            VisualizationControllAction::NodeStats(id, addr, ts) => {
                VisualizationControllAction::NodeStats(*id, addr.clone(), *ts)
            }
            VisualizationControllAction::OnNodeConnected(sid, saddr, did, daddr, ts) => {
                VisualizationControllAction::OnNodeConnected(
                    *sid,
                    saddr.clone(),
                    *did,
                    daddr.clone(),
                    *ts,
                )
            }
            VisualizationControllAction::OnNodeDisconencted(sid, saddr, did, daddr, ts) => {
                VisualizationControllAction::OnNodeDisconencted(
                    *sid,
                    saddr.clone(),
                    *did,
                    daddr.clone(),
                    *ts,
                )
            }
        }
    }
}

/// A report on the wire: addresses travel as raw bytes and are parsed on
/// arrival.
#[derive(Debug, PartialEq, Eq, Clone)]
pub enum VisualizationMsg {
    /// Node id, node address bytes, timestamp.
    NodeStats(u32, Vec<u8>, u64),
    /// Source id, source address bytes, destination id, destination address
    /// bytes, timestamp.
    OnNodeConnected(u32, Vec<u8>, u32, Vec<u8>, u64),
    /// Source id, source address bytes, destination id, destination address
    /// bytes, timestamp.
    OnNodeDisconencted(u32, Vec<u8>, u32, Vec<u8>, u64),
}

/// Event handed from a connection handler up to the behaviour.
#[derive(Debug, PartialEq, Eq, Clone)]
pub enum VisualizationBehaviorEvent {
    OnMsg(VisualizationMsg),
}

} // verus!
