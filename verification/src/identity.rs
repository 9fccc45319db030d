//! Identity of a logical link: status, direction and link metrics.

use vstd::prelude::*;

verus! {

/// A link is considered dead when no report has touched it for this long.
pub const CONNECTION_TIMEOUT_MS: u64 = 1000 * 60 * 2;

/// Whether a link is currently up.  A record never leaves the store when the
/// link goes down; only its status flips.
#[derive(Debug, PartialEq, Eq, Clone, Copy, Structural)]
pub enum ConnectionStatus {
    DISCONNECTED,
    CONNECTED,
}

impl ConnectionStatus {
    /// Wire encoding of the status: one byte, 1 for connected, 0 otherwise.
    pub fn to_bytes(&self) -> (b: u8)
        ensures
            b == self.as_byte(),
    {
        match self {
            ConnectionStatus::CONNECTED => 1,
            ConnectionStatus::DISCONNECTED => 0,
        }
    }

    /// The byte that [`Self::to_bytes`] produces.
    pub open spec fn as_byte(self) -> u8 {
        match self {
            ConnectionStatus::CONNECTED => 1,
            ConnectionStatus::DISCONNECTED => 0,
        }
    }
}

/// Which side opened the link.  Part of the packed connection id, so the two
/// directions of a pair of links to the same peer stay distinct.
#[derive(Debug, PartialEq, Eq, Clone, Copy, Structural)]
pub enum ConnectionDirection {
    Outgoing,
    Incoming,
}

impl ConnectionDirection {
    /// Wire encoding of the direction: 0 for outgoing, 1 for incoming.
    pub fn to_byte(&self) -> (b: u8)
        ensures
            b == self.as_byte(),
    {
        match self {
            ConnectionDirection::Outgoing => 0,
            ConnectionDirection::Incoming => 1,
        }
    }

    /// The byte that [`Self::to_byte`] produces.
    pub open spec fn as_byte(self) -> u8 {
        match self {
            ConnectionDirection::Outgoing => 0,
            ConnectionDirection::Incoming => 1,
        }
    }
}

/// Point-in-time quality sample for one link.
#[derive(Debug, PartialEq, Eq, Clone, Copy, Structural)]
pub struct ConnectionMetric {
    /// Round-trip latency in milliseconds.
    pub latency: u16,
    /// Sending bandwidth in kilobits per second.
    pub bandwidth: u32,
    /// Percentage of packets lost.
    pub loss_percent: u32,
}

} // verus!
