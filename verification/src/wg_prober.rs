//! The scan for a WireGuard endpoint.

pub mod candidates;
pub mod hosts;
pub mod hunt;
pub mod laws;
pub mod lists;
pub mod manual;
pub mod mode;
pub mod schedule;
pub mod select;
