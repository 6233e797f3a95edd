//! The userspace TCP/IP stack: flows, their queues and their lifetimes.

pub mod addrs;
pub mod backlog;
pub mod cmd;
pub mod credit;
pub mod device;
pub mod flow;
pub mod gauges;
pub mod keys;
pub mod laws;
pub mod liveness;
pub mod passes;
pub mod queues;
pub mod reap;
pub mod schedule;
pub mod service;
pub mod service_udp;
pub mod sockets;
pub mod stack;
pub mod start;
