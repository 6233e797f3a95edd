//! The commands that open flows and set addresses.

use vstd::prelude::*;

use super::addrs::merge_addrs;
#[allow(unused_imports)]
use super::addrs::{first_of, last_v4, last_v6, ownable, with_addrs};
use super::flow::{ReapReason, TcpState};
#[allow(unused_imports)]
use super::flow::opening_flow;
use super::sockets;
use super::sockets::OpenError;
#[allow(unused_imports)]
use super::sockets::{
    connect_answer,
    fresh_tcp,
    has_tcp,
    has_udp,
    interface_of,
    sockets_of,
    tcp_at,
    udp_room,
    with_tcp,
    with_udp,
    SocketView,
    TcpPhase,
    TcpView,
    UdpView,
};
use super::stack::{NetStack, UdpState};
use crate::addr::{is_assignable_v4, is_assignable_v6, Endpoint};
use crate::sysprofile::Tier;

verus! {

broadcast use vstd::std_specs::hash::group_hash_axioms;

/// The first local port that is given out.
pub const FIRST_PORT: u16 = 49152;

/// The last local port that is given out before the first comes again.
pub const LAST_PORT: u16 = 65000;

pub enum Cmd {
    OpenTcp { dst: Endpoint },
    OpenUdp,
    /// An edge may name one family or both.
    SetAddrs { v4: Option<(u32, u8)>, v6: Option<(u128, u8)> },
}

/// What became of a command.
#[derive(Clone, Copy, Debug, PartialEq, Eq, Structural)]
pub enum CmdOutcome {
    /// The connect of this flow is under way; its answer comes later.
    TcpOpening(usize),
    TcpRefused(OpenError),
    UdpOpen(usize),
    UdpRefused(OpenError),
    AddrsSet,
    /// No interface may own one of the addresses; nothing was changed.
    AddrsRefused,
}

/// The local port that is given out after this one.
pub open spec fn port_after(port: u16) -> u16 {
    if port >= LAST_PORT {
        FIRST_PORT
    } else {
        (port + 1) as u16
    }
}

/// Gives out a local port and moves on to the next.
pub fn alloc_port(p: &mut u16) -> (port: u16)
    ensures
        port == *old(p),
        *final(p) == port_after(*old(p)),
{
    let port: u16 = *p;
    *p = if port >= LAST_PORT {
        FIRST_PORT
    } else {
        port + 1
    };
    port
}

/// Ports are given out from one range and from no other.
pub proof fn ports_stay_in_range(port: u16)
    requires
        FIRST_PORT <= port <= LAST_PORT,
    ensures
        FIRST_PORT <= port_after(port) <= LAST_PORT,
{
}

/// How many datagrams a UDP socket of a host of this tier buffers each way.
pub open spec fn datagrams_buffered(tier: Tier) -> usize {
    match tier {
        Tier::Low => 32,
        Tier::Medium => 64,
        Tier::High => 128,
    }
}

pub fn udp_meta(tier: Tier) -> (r: usize)
    ensures
        r == datagrams_buffered(tier),
{
    match tier {
        Tier::Low => 32,
        Tier::Medium => 64,
        Tier::High => 128,
    }
}

/// The text for the caller of a connect that could not be started.
pub fn connect_error_text(e: OpenError) -> (r: String)
    ensures
        r@ == match e {
            OpenError::InvalidState => "connect: InvalidState"@,
            OpenError::Unaddressable => "connect: Unaddressable"@,
        },
{
    match e {
        OpenError::InvalidState => "connect: InvalidState".to_string(),
        OpenError::Unaddressable => "connect: Unaddressable".to_string(),
    }
}

/// The text for the caller of a bind that failed.
pub fn bind_error_text(e: OpenError) -> (r: String)
    ensures
        r@ == match e {
            OpenError::InvalidState => "bind: InvalidState"@,
            OpenError::Unaddressable => "bind: Unaddressable"@,
        },
{
    match e {
        OpenError::InvalidState => "bind: InvalidState".to_string(),
        OpenError::Unaddressable => "bind: Unaddressable".to_string(),
    }
}

/// The text for the caller of a connect that came to nothing.
pub fn reap_text(reason: ReapReason) -> (r: Option<&'static str>)
    ensures
        match reason {
            ReapReason::Aborted => r is None,
            ReapReason::Refused => r matches Some(text) && text@ == "connection refused"@,
            ReapReason::TimedOut => r matches Some(text) && text@ == "connection timed out"@,
        },
{
    match reason {
        ReapReason::Aborted => None,
        ReapReason::Refused => Some("connection refused"),
        ReapReason::TimedOut => Some("connection timed out"),
    }
}

/// The socket of a flow whose connect has been started: it sends at once,
/// under a congestion controller, probes an idle peer and gives up on a dead
/// one.
pub open spec fn opened_socket(s: &NetStack, dst: Endpoint) -> TcpView {
    TcpView {
        phase: TcpPhase::SynSent,
        nagle: false,
        cubic: true,
        keep_alive_millis: Some((s.tcp_limits.keepalive / 1_000_000) as u64),
        timeout_millis: Some((s.tcp_limits.dead_peer / 1_000_000) as u64),
        remote: Some(dst),
        local_port: Some(s.next_port),
        ..fresh_tcp(
            s.tuning.netstack_tcp_rx_buf as nat,
            s.tuning.netstack_tcp_tx_buf as nat,
        )
    }
}

/// What no command that opens a flow touches.
pub open spec fn opening_keeps(was: &NetStack, now: &NetStack) -> bool {
    &&& interface_of(now.iface) == interface_of(was.iface)
    &&& now.device == was.device
    &&& now.tcp_limits == was.tcp_limits
    &&& now.tuning == was.tuning
    &&& now.next_port == port_after(was.next_port)
}

/// Whether the start of a connect had this outcome. Where the interface can
/// reach the destination there is a new flow, with a number and a socket that
/// were not in use; else only the port is used up.
pub open spec fn tcp_opened(
    was: &NetStack,
    now: &NetStack,
    dst: Endpoint,
    time: u64,
    r: Result<usize, OpenError>,
) -> bool {
    &&& opening_keeps(was, now)
    &&& now.udp_conns == was.udp_conns
    &&& match connect_answer(interface_of(was.iface).addrs, dst, was.next_port) {
        Err(e) => {
            &&& r == Err::<usize, OpenError>(e)
            &&& now.tcp_conns == was.tcp_conns
            &&& sockets_of(now.sockets) == sockets_of(was.sockets)
            &&& now.next_id == was.next_id
        },
        Ok(_) => {
            let id = was.next_id;
            let st = now.tcp_conns@[id];
            &&& r == Ok::<usize, OpenError>(id)
            &&& now.next_id == id + 1
            &&& now.tcp_conns@ == was.tcp_conns@.insert(id, st)
            &&& st@ == opening_flow(time, (time + was.tcp_limits.connect) as u64)
            &&& !sockets_of(was.sockets).dom().contains(st.handle)
            &&& sockets_of(now.sockets) == with_tcp(
                sockets_of(was.sockets),
                st.handle,
                opened_socket(was, dst),
            )
        },
    }
}

/// Whether the opening of a UDP flow had this outcome.
pub open spec fn udp_opened(was: &NetStack, now: &NetStack, r: Result<usize, OpenError>) -> bool {
    &&& opening_keeps(was, now)
    &&& now.tcp_conns == was.tcp_conns
    &&& was.next_port == 0 ==> {
        &&& r == Err::<usize, OpenError>(OpenError::Unaddressable)
        &&& now.udp_conns == was.udp_conns
        &&& sockets_of(now.sockets) == sockets_of(was.sockets)
        &&& now.next_id == was.next_id
    }
    &&& was.next_port != 0 ==> {
        let id = was.next_id;
        let st = now.udp_conns@[id];
        &&& r == Ok::<usize, OpenError>(id)
        &&& now.next_id == id + 1
        &&& now.udp_conns@ == was.udp_conns@.insert(id, st)
        &&& !sockets_of(was.sockets).dom().contains(st.handle)
        &&& sockets_of(now.sockets) == with_udp(
            sockets_of(was.sockets),
            st.handle,
            UdpView { port: was.next_port, rx: Seq::empty(), tx: Seq::empty() },
        )
        &&& forall|n: nat|
            n <= was.tuning.netstack_udp_buf ==> #[trigger] udp_room(now.sockets)[st.handle].contains(n)
    }
}

/// Starts a connect.
pub fn open_tcp(s: &mut NetStack, dst: Endpoint, now: u64) -> (r: Result<usize, OpenError>)
    requires
        old(s).wf(),
        old(s).next_id < usize::MAX,
        now + old(s).tcp_limits.connect <= u64::MAX,
    ensures
        final(s).wf(),
        tcp_opened(old(s), final(s), dst, now, r),
{
    let ghost was = *s;
    let ghost m0 = sockets_of(s.sockets);
    let rx: usize = s.tuning.netstack_tcp_rx_buf;
    let tx: usize = s.tuning.netstack_tcp_tx_buf;
    let handle = sockets::add_tcp(&mut s.sockets, rx, tx);
    sockets::set_nagle_enabled(&mut s.sockets, handle, false);
    sockets::set_cubic(&mut s.sockets, handle);
    sockets::set_keep_alive(&mut s.sockets, handle, s.tcp_limits.keepalive / 1_000_000);
    sockets::set_timeout(&mut s.sockets, handle, s.tcp_limits.dead_peer / 1_000_000);
    let local_port: u16 = alloc_port(&mut s.next_port);
    match sockets::connect(&mut s.iface, &mut s.sockets, handle, dst, local_port) {
        Err(e) => {
            sockets::remove(&mut s.sockets, handle);
            assert(sockets_of(s.sockets) =~= m0);
            Err(e)
        },
        Ok(()) => {
            let id: usize = s.next_id;
            s.next_id = id + 1;
            let deadline: u64 = now + s.tcp_limits.connect;
            s.tcp_conns.insert(id, TcpState::opening(handle, now, deadline));
            proof {
                let opened = opened_socket(&was, dst);
                assert(tcp_at(s.sockets, handle) =~= opened);
                assert(sockets_of(s.sockets) =~= with_tcp(m0, handle, opened));
                assert forall|x: usize| #[trigger] was.udp_conns@.dom().contains(x) implies has_udp(
                    s.sockets,
                    was.udp_conns@[x].handle,
                ) by {
                    assert(has_udp(was.sockets, was.udp_conns@[x].handle));
                }
                assert forall|x: usize| #[trigger] was.tcp_conns@.dom().contains(x) implies has_tcp(
                    s.sockets,
                    was.tcp_conns@[x].handle,
                ) && was.tcp_conns@[x].handle != handle by {
                    assert(has_tcp(was.sockets, was.tcp_conns@[x].handle));
                }
            }
            Ok(id)
        },
    }
}

/// Opens a UDP flow on a port of its own.
pub fn open_udp(s: &mut NetStack) -> (r: Result<usize, OpenError>)
    requires
        old(s).wf(),
        old(s).next_id < usize::MAX,
    ensures
        final(s).wf(),
        udp_opened(old(s), final(s), r),
{
    let ghost was = *s;
    let ghost m0 = sockets_of(s.sockets);
    let packets: usize = udp_meta(s.tuning.tier);
    let bytes: usize = s.tuning.netstack_udp_buf;
    let handle = sockets::add_udp(&mut s.sockets, packets, bytes);
    let local_port: u16 = alloc_port(&mut s.next_port);
    match sockets::bind(&mut s.sockets, handle, local_port) {
        Err(e) => {
            sockets::remove(&mut s.sockets, handle);
            assert(sockets_of(s.sockets) =~= m0);
            Err(e)
        },
        Ok(()) => {
            let id: usize = s.next_id;
            s.next_id = id + 1;
            s.udp_conns.insert(id, UdpState { handle });
            proof {
                assert(sockets_of(s.sockets) =~= with_udp(
                    m0,
                    handle,
                    UdpView { port: local_port, rx: Seq::empty(), tx: Seq::empty() },
                ));
                assert forall|x: usize| #[trigger] was.udp_conns@.dom().contains(x) implies has_udp(
                    s.sockets,
                    was.udp_conns@[x].handle,
                ) && was.udp_conns@[x].handle != handle by {
                    assert(has_udp(was.sockets, was.udp_conns@[x].handle));
                }
                assert forall|x: usize| #[trigger] was.tcp_conns@.dom().contains(x) implies has_tcp(
                    s.sockets,
                    was.tcp_conns@[x].handle,
                ) by {
                    assert(has_tcp(was.sockets, was.tcp_conns@[x].handle));
                }
            }
            Ok(id)
        },
    }
}

/// Whether setting the addresses had this outcome: each family that is named is
/// replaced and the other kept.
pub open spec fn addrs_set(
    was: &NetStack,
    now: &NetStack,
    v4: Option<(u32, u8)>,
    v6: Option<(u128, u8)>,
    outcome: CmdOutcome,
) -> bool {
    let view = interface_of(was.iface);
    &&& now.device == was.device
    &&& now.sockets == was.sockets
    &&& now.tcp_conns == was.tcp_conns
    &&& now.udp_conns == was.udp_conns
    &&& now.next_id == was.next_id
    &&& now.next_port == was.next_port
    &&& now.tcp_limits == was.tcp_limits
    &&& now.tuning == was.tuning
    &&& ownable(v4, v6) ==> {
        &&& outcome == CmdOutcome::AddrsSet
        &&& interface_of(now.iface) == with_addrs(
            view,
            first_of(v4, last_v4(view.addrs)),
            first_of(v6, last_v6(view.addrs)),
        )
    }
    &&& !ownable(v4, v6) ==> {
        &&& outcome == CmdOutcome::AddrsRefused
        &&& interface_of(now.iface) == view
    }
}

/// Whether the command had this outcome.
pub open spec fn cmd_done(
    was: &NetStack,
    now: &NetStack,
    cmd: Cmd,
    time: u64,
    outcome: CmdOutcome,
) -> bool {
    match cmd {
        Cmd::OpenTcp { dst } => match outcome {
            CmdOutcome::TcpOpening(id) => tcp_opened(was, now, dst, time, Ok(id)),
            CmdOutcome::TcpRefused(e) => tcp_opened(was, now, dst, time, Err(e)),
            _ => false,
        },
        Cmd::OpenUdp => match outcome {
            CmdOutcome::UdpOpen(id) => udp_opened(was, now, Ok(id)),
            CmdOutcome::UdpRefused(e) => udp_opened(was, now, Err(e)),
            _ => false,
        },
        Cmd::SetAddrs { v4, v6 } => addrs_set(was, now, v4, v6, outcome),
    }
}

/// Carries out one command.
pub fn handle_cmd(s: &mut NetStack, cmd: Cmd, time: u64) -> (outcome: CmdOutcome)
    requires
        old(s).wf(),
        old(s).next_id < usize::MAX,
        time + old(s).tcp_limits.connect <= u64::MAX,
    ensures
        final(s).wf(),
        cmd_done(old(s), final(s), cmd, time, outcome),
        old(s).next_id <= final(s).next_id <= old(s).next_id + 1,
        final(s).tcp_limits == old(s).tcp_limits,
{
    match cmd {
        Cmd::OpenTcp { dst } => match open_tcp(s, dst, time) {
            Ok(id) => CmdOutcome::TcpOpening(id),
            Err(e) => CmdOutcome::TcpRefused(e),
        },
        Cmd::OpenUdp => match open_udp(s) {
            Ok(id) => CmdOutcome::UdpOpen(id),
            Err(e) => CmdOutcome::UdpRefused(e),
        },
        Cmd::SetAddrs { v4, v6 } => {
            let v4_ok = match v4 {
                Some((ip, _)) => is_assignable_v4(ip),
                None => true,
            };
            let v6_ok = match v6 {
                Some((ip, _)) => is_assignable_v6(ip),
                None => true,
            };
            if !(v4_ok && v6_ok) {
                return CmdOutcome::AddrsRefused;
            }
            merge_addrs(&mut s.iface, v4, v6);
            CmdOutcome::AddrsSet
        },
    }
}

/// Local ports are given out one after the other from 49152 to 65000, and then
/// from the first again.
pub proof fn ports_are_given_out_in_turn(port: u16)
    requires
        49152 <= port <= 65000,
    ensures
        port < 65000 ==> port_after(port) == port + 1,
        port == 65000 ==> port_after(port) == 49152,
{
}

/// A UDP socket buffers 32 datagrams on a small host, 64 on a medium and 128 on
/// a large one.
pub proof fn larger_hosts_buffer_more_datagrams()
    ensures
        datagrams_buffered(Tier::Low) == 32,
        datagrams_buffered(Tier::Medium) == 64,
        datagrams_buffered(Tier::High) == 128,
{
}

/// A flow that is opened has a number that no flow had before, waits for its
/// connect until the limit for it has passed, has nothing pending and is alive
/// from now on. Every flow that was there stays as it was.
pub proof fn a_new_flow_waits_for_its_connect(
    was: &NetStack,
    now: &NetStack,
    dst: Endpoint,
    time: u64,
    id: usize,
)
    requires
        was.wf(),
        tcp_opened(was, now, dst, time, Ok(id)),
        time + was.tcp_limits.connect <= u64::MAX,
    ensures
        !was.tcp_conns@.dom().contains(id),
        now.tcp_conns@.dom().contains(id),
        now.next_id == id + 1,
        ({
            let f = now.tcp_conns@[id]@;
            &&& f.connect_waiting
            &&& !f.established
            &&& !f.half_closed
            &&& !f.aborted
            &&& f.orphaned_at is None
            &&& f.pending.len() == 0
            &&& f.connect_deadline == time + was.tcp_limits.connect
            &&& f.last_progress == time
            &&& f.last_drain == time
            &&& f.rate_mark == time
            &&& f.send_queue_high == 0
            &&& f.accepted_total == 0
            &&& f.acked_high == 0
            &&& !f.drain_warned
            &&& f.stall_count == 0
            &&& f.stall_mark == time
            &&& f.rate_base == 0
            &&& f.uplink_budget == 49152
            &&& f.outstanding_peak == 0
            &&& f.pending_peak == 0
            &&& f.send_queue_peak == 0
            &&& f.credit.sent == 0
            &&& f.credit.acked == 0
            &&& f.credit.cap == 49152
            &&& !f.credit.closed
        }),
        forall|other: usize|
            #![trigger now.tcp_conns@[other]]
            was.tcp_conns@.dom().contains(other) ==> now.tcp_conns@.dom().contains(other)
                && now.tcp_conns@[other] == was.tcp_conns@[other],
{
}

/// The socket of a new flow is set up before its connect: it sends without
/// delay, probes an idle peer and gives up on a dead one after the times that
/// are set, and holds what the host's buffers allow.
pub proof fn a_new_socket_is_set_up(
    was: &NetStack,
    now: &NetStack,
    dst: Endpoint,
    time: u64,
    id: usize,
)
    requires
        tcp_opened(was, now, dst, time, Ok(id)),
    ensures
        has_tcp(now.sockets, now.tcp_conns@[id].handle),
        ({
            let v = tcp_at(now.sockets, now.tcp_conns@[id].handle);
            &&& v.phase is SynSent
            &&& !v.nagle
            &&& v.remote == Some(dst)
            &&& v.local_port == Some(was.next_port)
            &&& v.keep_alive_millis matches Some(ms) && ms * 1_000_000 <= was.tcp_limits.keepalive
                < (ms + 1) * 1_000_000
            &&& v.timeout_millis matches Some(ms) && ms * 1_000_000 <= was.tcp_limits.dead_peer < (
            ms + 1) * 1_000_000
            &&& v.tx.len() == 0
            &&& v.rx.len() == 0
            &&& v.tx_capacity == was.tuning.netstack_tcp_tx_buf
            &&& v.rx_capacity == was.tuning.netstack_tcp_rx_buf
        }),
        now.next_port != was.next_port,
{
}

/// A connect that cannot be started leaves no flow behind, only its port is used
/// up.
pub proof fn a_failed_connect_leaves_nothing(
    was: &NetStack,
    now: &NetStack,
    dst: Endpoint,
    time: u64,
    e: OpenError,
)
    requires
        tcp_opened(was, now, dst, time, Err(e)),
    ensures
        now.tcp_conns == was.tcp_conns,
        now.udp_conns == was.udp_conns,
        sockets_of(now.sockets) == sockets_of(was.sockets),
        now.next_id == was.next_id,
        now.next_port != was.next_port,
{
}

/// Setting addresses touches no flow; a command is answered for what it is.
pub proof fn a_command_is_answered_for_what_it_is(
    was: &NetStack,
    now: &NetStack,
    cmd: Cmd,
    time: u64,
    outcome: CmdOutcome,
)
    requires
        cmd_done(was, now, cmd, time, outcome),
    ensures
        cmd is OpenTcp <==> outcome is TcpOpening || outcome is TcpRefused,
        cmd is OpenUdp <==> outcome is UdpOpen || outcome is UdpRefused,
        cmd is SetAddrs <==> outcome is AddrsSet || outcome is AddrsRefused,
        cmd is SetAddrs ==> now.tcp_conns == was.tcp_conns && now.udp_conns == was.udp_conns
            && now.sockets == was.sockets && now.next_port == was.next_port,
        outcome is AddrsRefused ==> interface_of(now.iface) == interface_of(was.iface),
{
}

/// A UDP flow that is opened has a number that no flow had before and a socket
/// of its own, bound to the next port, with nothing in it.
pub proof fn a_new_udp_flow_is_bound(was: &NetStack, now: &NetStack, id: usize)
    requires
        was.wf(),
        udp_opened(was, now, Ok(id)),
    ensures
        !was.udp_conns@.dom().contains(id),
        now.udp_conns@.dom().contains(id),
        now.next_id == id + 1,
        was.next_port != 0,
        ({
            let h = now.udp_conns@[id].handle;
            &&& sockets_of(now.sockets).dom().contains(h)
            &&& sockets_of(now.sockets)[h] matches SocketView::Udp(v) && v.port == was.next_port
                && v.rx.len() == 0 && v.tx.len() == 0
        }),
        now.tcp_conns == was.tcp_conns,
{
}

/// The caller of a connect that came to nothing is told whether it was refused or
/// timed out, and nothing where the flow was reset.
pub proof fn a_failed_connect_is_told_why(
    aborted: Option<&'static str>,
    refused: Option<&'static str>,
    late: Option<&'static str>,
)
    requires
        call_ensures(reap_text, (ReapReason::Aborted,), aborted),
        call_ensures(reap_text, (ReapReason::Refused,), refused),
        call_ensures(reap_text, (ReapReason::TimedOut,), late),
    ensures
        aborted is None,
        refused matches Some(text) && text@ == "connection refused"@,
        late matches Some(text) && text@ == "connection timed out"@,
{
}

/// Setting the address of one family replaces it and keeps that of the other; an
/// address that no interface may own changes nothing.
pub proof fn an_address_is_replaced_by_family(
    was: &NetStack,
    now: &NetStack,
    old_v4: Option<(u32, u8)>,
    old_v6: Option<(u128, u8)>,
    v4: (u32, u8),
    outcome: CmdOutcome,
)
    requires
        interface_of(was.iface).addrs == super::addrs::addr_list(old_v4, old_v6),
        addrs_set(was, now, Some(v4), None, outcome),
    ensures
        ownable(Some(v4), None) ==> {
            let addrs = interface_of(now.iface).addrs;
            &&& outcome is AddrsSet
            &&& last_v4(addrs) matches Some((ip, p)) && ip == v4.0 && (v4.1 <= 30 ==> p == v4.1)
            &&& last_v6(addrs) == last_v6(interface_of(was.iface).addrs)
        },
        !ownable(Some(v4), None) ==> outcome is AddrsRefused && interface_of(now.iface)
            == interface_of(was.iface),
{
    super::addrs::one_family_keeps_the_other(interface_of(was.iface), old_v4, old_v6, v4);
}

/// The caller of a connect or a bind that could not be started is told which it
/// was and why.
pub proof fn a_failed_opening_is_told_why(connect: String, bind: String)
    requires
        call_ensures(connect_error_text, (OpenError::Unaddressable,), connect),
        call_ensures(bind_error_text, (OpenError::InvalidState,), bind),
    ensures
        connect@ == "connect: Unaddressable"@,
        bind@ == "bind: InvalidState"@,
{
}

} // verus!
