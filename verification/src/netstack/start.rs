//! The settings of the stack and its first state.

use std::collections::HashMap;
use vstd::prelude::*;

use super::addrs::apply_addrs;
#[allow(unused_imports)]
use super::addrs::{ownable, with_addrs};
use super::cmd::FIRST_PORT;
use super::device::StackDevice;
use super::sockets::empty_set;
#[allow(unused_imports)]
use super::sockets::{interface_of, sockets_of};
use super::stack::{NetStack, TcpLimits};
use crate::addr::{is_assignable_v4, is_assignable_v6};
use crate::cidr::{parse_v4, parse_v6};
#[allow(unused_imports)]
use crate::cidr::{v4_setting, v6_setting};
use crate::sysprofile::Tuning;
use crate::text::{chars_of, parse_number, trim};
#[allow(unused_imports)]
use crate::text::{number, trimmed};

verus! {

broadcast use vstd::std_specs::hash::group_hash_axioms;

/// The probing interval of idle flows, in seconds.
pub const TCP_KEEPALIVE_SECS: u64 = 15;

/// How many probing intervals a silent peer is given.
pub const DEAD_PEER_INTERVALS: u64 = 6;

/// How long a connect may stay unanswered, in seconds.
pub const TCP_CONNECT_SECS: u64 = 30;

/// How long a flow without an application may wait for its peer to close, in
/// nanoseconds.
pub const ORPHAN_LINGER: u64 = 10_000_000_000;

/// The longest such time that can be set, in seconds.
pub const MAX_SECS: u64 = 86_400;

/// The seconds that a setting asks for: a positive number, at most a day. Any
/// other text counts as no setting.
pub open spec fn secs_of(value: Option<&str>, default: u64) -> u64 {
    match value {
        None => default,
        Some(text) => match number(trimmed(text@), u64::MAX as nat) {
            None => default,
            Some(n) => if n == 0 {
                default
            } else if n > MAX_SECS {
                MAX_SECS
            } else {
                n as u64
            },
        },
    }
}

/// Reads a number of seconds from a setting.
pub fn env_secs(value: Option<&str>, default: u64) -> (r: u64)
    ensures
        r == secs_of(value, default),
{
    match value {
        None => default,
        Some(text) => {
            let chars = trim(&chars_of(text));
            match parse_number(&chars, u64::MAX) {
                None => default,
                Some(n) => if n == 0 {
                    default
                } else if n > MAX_SECS {
                    MAX_SECS
                } else {
                    n
                },
            }
        },
    }
}

impl TcpLimits {
    /// The lifetimes that the settings for the probing interval and for the
    /// connect ask for.
    pub fn from_env(keepalive: Option<&str>, connect: Option<&str>) -> (r: Self)
        ensures
            r.keepalive == secs_of(keepalive, TCP_KEEPALIVE_SECS) * 1_000_000_000,
            r.dead_peer == DEAD_PEER_INTERVALS * r.keepalive,
            r.connect == secs_of(connect, TCP_CONNECT_SECS) * 1_000_000_000,
            r.orphan_linger == ORPHAN_LINGER,
    {
        let keepalive: u64 = env_secs(keepalive, TCP_KEEPALIVE_SECS) * 1_000_000_000;
        TcpLimits {
            connect: env_secs(connect, TCP_CONNECT_SECS) * 1_000_000_000,
            keepalive,
            dead_peer: keepalive * DEAD_PEER_INTERVALS,
            orphan_linger: ORPHAN_LINGER,
        }
    }
}

/// Why a stack cannot be started.
#[derive(Clone, Copy, Debug, PartialEq, Eq, Structural)]
pub enum StartError {
    BadIpv4,
    BadIpv6,
    /// No interface may own one of the addresses.
    Unassignable,
}

/// A stack at its start: no flows, empty queues.
pub open spec fn at_start(s: &NetStack, mtu: usize, limits: TcpLimits, tuning: Tuning) -> bool {
    &&& s.device.rx@.len() == 0
    &&& s.device.tx@.len() == 0
    &&& s.device.mtu == mtu
    &&& s.device.tx_stalls == 0
    &&& s.device.tx_shed == 0
    &&& s.device.tx_peak == 0
    &&& s.tcp_conns@.dom() == Set::<usize>::empty()
    &&& s.udp_conns@.dom() == Set::<usize>::empty()
    &&& sockets_of(s.sockets).dom() == Set::<smoltcp::iface::SocketHandle>::empty()
    &&& s.next_id == 1
    &&& s.next_port == FIRST_PORT
    &&& s.tcp_limits == limits
    &&& s.tuning == tuning
}

/// Starts a stack on an interface with the addresses that the settings give.
pub fn start(
    iface: smoltcp::iface::Interface,
    ipv4: &str,
    ipv6: &str,
    mtu: usize,
    limits: TcpLimits,
    tuning: Tuning,
) -> (r: Result<NetStack, StartError>)
    requires
        tuning.netstack_tcp_rx_buf <= 0x4000_0000,
    ensures
        match (v4_setting(ipv4@), v6_setting(ipv6@)) {
            (Err(_), _) => r == Err::<NetStack, StartError>(StartError::BadIpv4),
            (_, Err(_)) => r == Err::<NetStack, StartError>(StartError::BadIpv6),
            (Ok(v4), Ok(v6)) => if ownable(v4, v6) {
                &&& r matches Ok(s)
                &&& s.wf()
                &&& at_start(&s, mtu, limits, tuning)
                &&& interface_of(s.iface) == with_addrs(interface_of(iface), v4, v6)
            } else {
                r == Err::<NetStack, StartError>(StartError::Unassignable)
            },
        },
{
    let v4 = match parse_v4(ipv4) {
        Ok(v4) => v4,
        Err(_) => return Err(StartError::BadIpv4),
    };
    let v6 = match parse_v6(ipv6) {
        Ok(v6) => v6,
        Err(_) => return Err(StartError::BadIpv6),
    };
    let v4_ok = match v4 {
        Some((ip, _)) => is_assignable_v4(ip),
        None => true,
    };
    let v6_ok = match v6 {
        Some((ip, _)) => is_assignable_v6(ip),
        None => true,
    };
    if !(v4_ok && v6_ok) {
        return Err(StartError::Unassignable);
    }
    let mut iface = iface;
    apply_addrs(&mut iface, v4, v6);
    let s = NetStack {
        iface,
        device: StackDevice::new(mtu),
        sockets: empty_set(),
        tcp_conns: HashMap::new(),
        udp_conns: HashMap::new(),
        next_id: 1,
        next_port: FIRST_PORT,
        tcp_limits: limits,
        tuning,
    };
    assert(s.tcp_conns@.dom() =~= Set::<usize>::empty());
    assert(s.udp_conns@.dom() =~= Set::<usize>::empty());
    assert(sockets_of(s.sockets).dom() =~= Set::<smoltcp::iface::SocketHandle>::empty());
    Ok(s)
}

/// Without settings idle peers are probed every fifteen seconds and given ninety,
/// a connect is given thirty, and an orphan ten. A peer is always given six
/// probes.
pub proof fn lifetimes_without_settings(r: TcpLimits)
    requires
        call_ensures(TcpLimits::from_env, (None, None), r),
    ensures
        r.keepalive == 15_000_000_000,
        r.dead_peer == 90_000_000_000,
        r.connect == 30_000_000_000,
        r.orphan_linger == 10_000_000_000,
{
}

/// A setting that is a positive number of seconds counts, up to a day; the two
/// settings are each for their own time, and no other text counts.
pub proof fn lifetimes_are_as_set(keepalive: &str, connect: &str, r: TcpLimits, none: TcpLimits)
    requires
        call_ensures(TcpLimits::from_env, (Some(keepalive), Some(connect)), r),
        call_ensures(TcpLimits::from_env, (None, None), none),
    ensures
        match number(trimmed(keepalive@), u64::MAX as nat) {
            Some(n) => {
                &&& n == 0 ==> r.keepalive == none.keepalive
                &&& 1 <= n <= 86_400 ==> r.keepalive == n * 1_000_000_000
                &&& n > 86_400 ==> r.keepalive == 86_400_000_000_000
            },
            None => r.keepalive == none.keepalive,
        },
        match number(trimmed(connect@), u64::MAX as nat) {
            Some(n) => {
                &&& n == 0 ==> r.connect == none.connect
                &&& 1 <= n <= 86_400 ==> r.connect == n * 1_000_000_000
                &&& n > 86_400 ==> r.connect == 86_400_000_000_000
            },
            None => r.connect == none.connect,
        },
        r.dead_peer == 6 * r.keepalive,
        r.orphan_linger == none.orphan_linger,
{
}

/// A stack at its start has no flow, no socket and no packet, and gives out
/// ports from 49152 on.
pub proof fn a_stack_starts_empty(s: &NetStack, mtu: usize, limits: TcpLimits, tuning: Tuning)
    requires
        at_start(s, mtu, limits, tuning),
    ensures
        s.tcp_conns@.dom().is_empty(),
        s.udp_conns@.dom().is_empty(),
        s.device.rx@.len() == 0,
        s.device.tx@.len() == 0,
        s.device.mtu == mtu,
        s.device.tx_stalls == 0,
        s.device.tx_shed == 0,
        s.device.tx_peak == 0,
        s.next_port == 49152,
        s.next_id == 1,
        s.tcp_limits == limits,
        s.tuning == tuning,
        s.flows().dom().is_empty(),
{
    assert(s.tcp_conns@.dom().is_empty());
    assert(s.flows().dom() =~= s.tcp_conns@.dom());
}

} // verus!
