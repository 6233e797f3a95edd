//! The WireGuard tunnel: its session, its packets and the edges it can reach.

pub mod errors;
pub mod laws;
pub mod packet;
pub mod ranges;
pub mod session;
pub mod tunnel;
pub mod verify;
