//! Agent side: per-connection metric store and the periodic report builder.

pub mod logic;
pub mod msg;
pub mod storage;
