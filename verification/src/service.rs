//! Role-based variant of the monitor: a controller queues actions on the
//! agent side and reconciles them into a neighbor graph on the master side.

pub mod controller;
pub mod logic;
pub mod msg;
pub mod store;
