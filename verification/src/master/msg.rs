//! Events of the master-side message plumbing.

use vstd::prelude::*;

use crate::agent::msg::VisualizationAgentMsg;

verus! {

/// Event handed from a master connection handler up to the behaviour: one
/// agent report to reconcile.
#[derive(Debug, PartialEq, Eq)]
pub enum VisualizationMasterBehaviourEvent {
    OnMsg(VisualizationAgentMsg),
}

} // verus!
