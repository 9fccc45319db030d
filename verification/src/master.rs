//! Master side: reconciles agent reports into the node-keyed store and
//! serves read-only snapshots.

pub mod controller;
pub mod logic;
pub mod msg;
pub mod transport;
