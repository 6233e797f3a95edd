//! Verified core of a userspace WireGuard tunnel: the TCP/IP stack that
//! terminates flows, the tunnel that carries them, and the scan that picks the
//! endpoint.

pub mod addr;
pub mod channel;
pub mod cidr;
pub mod netstack;
pub mod random;
pub mod sysprofile;
pub mod text;
pub mod wg_prober;
pub mod wireguard;
